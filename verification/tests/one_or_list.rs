use sthe::OneOrList;

#[test]
fn as_slice_of_one_holds_the_item() {
    let one = OneOrList::One(7u32);
    assert_eq!(one.as_slice(), &[7u32]);
}

#[test]
fn as_slice_of_list_holds_the_items_in_order() {
    let list = OneOrList::List(vec![3u32, 1, 2]);
    assert_eq!(list.as_slice(), &[3u32, 1, 2]);
    let empty: OneOrList<u32> = OneOrList::List(vec![]);
    assert!(empty.as_slice().is_empty());
}

#[test]
fn as_slice_mut_writes_through_to_one() {
    let mut one = OneOrList::One(String::from("a"));
    {
        let slice = one.as_slice_mut();
        assert_eq!(slice.len(), 1);
        slice[0] = String::from("b");
    }
    assert_eq!(one, OneOrList::One(String::from("b")));
}

#[test]
fn as_slice_mut_writes_through_to_list() {
    let mut list = OneOrList::List(vec![1u8, 2, 3]);
    {
        let slice = list.as_slice_mut();
        assert_eq!(slice.len(), 3);
        slice[1] = 9;
    }
    assert_eq!(list, OneOrList::List(vec![1u8, 9, 3]));
}

#[test]
fn default_is_the_empty_list() {
    let empty: OneOrList<String> = OneOrList::default();
    assert_eq!(empty, OneOrList::List(vec![]));
}

#[test]
fn collapse_of_nothing_is_absent() {
    let nothing: Vec<u8> = vec![];
    assert_eq!(OneOrList::collapse(nothing), None);
}

#[test]
fn collapse_of_one_is_the_item_not_a_list() {
    assert_eq!(OneOrList::collapse(vec![5u8]), Some(OneOrList::One(5u8)));
    assert_ne!(OneOrList::collapse(vec![5u8]), Some(OneOrList::List(vec![5u8])));
}

#[test]
fn collapse_of_more_is_the_list_in_order() {
    assert_eq!(OneOrList::collapse(vec![5u8, 4]), Some(OneOrList::List(vec![5u8, 4])));
    assert_eq!(OneOrList::collapse(vec![1u8, 2, 3]), Some(OneOrList::List(vec![1u8, 2, 3])));
}

#[test]
fn collapse_or_empty_of_nothing_is_the_empty_list() {
    let nothing: Vec<u8> = vec![];
    assert_eq!(OneOrList::collapse_or_empty(nothing), OneOrList::List(vec![]));
}

#[test]
fn collapse_or_empty_of_one_is_the_item() {
    assert_eq!(OneOrList::collapse_or_empty(vec![5u8]), OneOrList::One(5u8));
}

#[test]
fn collapse_or_empty_of_more_is_the_list_in_order() {
    assert_eq!(OneOrList::collapse_or_empty(vec![2u8, 1]), OneOrList::List(vec![2u8, 1]));
}
