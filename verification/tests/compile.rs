use sthe::cffi::{compile_opt, RetCode};
use sthe::schema::{compile_regex, compile_selector};
use sthe::{extract_fragment, CompileError, ExtractItem, ExtractOpt, OneOrList};

fn node(selector: &str) -> ExtractOpt {
    ExtractOpt {
        target: OneOrList::default(),
        selector: selector.to_owned(),
        regex: None,
        items: vec![],
    }
}

fn node_with_regex(selector: &str, regex: &str) -> ExtractOpt {
    ExtractOpt {
        target: OneOrList::One("text".to_owned()),
        selector: selector.to_owned(),
        regex: Some(regex.to_owned()),
        items: vec![],
    }
}

fn path(names: &[&str]) -> Vec<String> {
    names.iter().map(|x| (*x).to_owned()).collect()
}

#[test]
fn compile_keeps_the_tree() {
    let mut root = node_with_regex("div", "a(b)?");
    root.target = OneOrList::List(vec!["text".to_owned(), "href".to_owned()]);
    root.items.push(("first".to_owned(), node("a")));
    root.items.push(("second".to_owned(), node("b > c")));
    let compiled = root.compile().unwrap();
    assert_eq!(compiled.target, OneOrList::List(vec!["text".to_owned(), "href".to_owned()]));
    assert_eq!(compiled.selector, scraper::Selector::parse("div").unwrap());
    assert_eq!(compiled.regex.as_ref().unwrap().as_str(), "a(b)?");
    assert_eq!(compiled.items.len(), 2);
    assert_eq!(compiled.items[0].0, "first");
    assert_eq!(compiled.items[0].1.selector, scraper::Selector::parse("a").unwrap());
    assert!(compiled.items[0].1.regex.is_none());
    assert_eq!(compiled.items[1].0, "second");
    assert_eq!(compiled.items[1].1.selector, scraper::Selector::parse("b > c").unwrap());
}

#[test]
fn invalid_selector_at_the_root_has_an_empty_path() {
    let error = node("a[").compile().unwrap_err();
    assert_eq!(error, CompileError::InvalidSelector { path: vec![] });
}

#[test]
fn empty_selector_is_invalid() {
    let error = node("").compile().unwrap_err();
    assert_eq!(error, CompileError::InvalidSelector { path: vec![] });
}

#[test]
fn invalid_regex_at_the_root_has_an_empty_path() {
    let error = node_with_regex("a", "(").compile().unwrap_err();
    assert_eq!(error, CompileError::InvalidRegex { path: vec![] });
}

#[test]
fn selector_is_looked_at_before_regex() {
    let error = node_with_regex("a[", "(").compile().unwrap_err();
    assert_eq!(error, CompileError::InvalidSelector { path: vec![] });
}

#[test]
fn own_regex_is_looked_at_before_children() {
    let mut root = node_with_regex("a", "(");
    root.items.push(("child".to_owned(), node("b[")));
    let error = root.compile().unwrap_err();
    assert_eq!(error, CompileError::InvalidRegex { path: vec![] });
}

#[test]
fn nested_fault_carries_the_path_to_it() {
    let mut middle = node("p");
    middle.items.push(("fine".to_owned(), node("i")));
    middle.items.push(("inner".to_owned(), node_with_regex("b", "[")));
    let mut root = node("div");
    root.items.push(("outer".to_owned(), middle));
    let error = root.compile().unwrap_err();
    assert_eq!(error, CompileError::InvalidRegex { path: path(&["outer", "inner"]) });
}

#[test]
fn first_faulty_child_is_reported() {
    let mut root = node("div");
    root.items.push(("good".to_owned(), node("a")));
    root.items.push(("bad".to_owned(), node(">>")));
    root.items.push(("worse".to_owned(), node_with_regex("a", "(")));
    let error = root.compile().unwrap_err();
    assert_eq!(error, CompileError::InvalidSelector { path: path(&["bad"]) });
}

#[test]
fn one_nested_fault_fails_the_whole_schema() {
    let mut root = node(".parent");
    root.target = OneOrList::One("text".to_owned());
    root.items.push(("title".to_owned(), node("h2[")));
    assert!(root.compile().is_err());
}

#[test]
fn the_same_schema_without_the_fault_compiles_and_extracts() {
    let mut root = node(".parent");
    root.items.push(("title".to_owned(), node("h2")));
    let compiled = root.compile().unwrap();
    let extract = extract_fragment("<div class=\"parent\"><h2>x</h2></div>", &compiled);
    let expect = OneOrList::One(ExtractItem {
        text: None,
        items: vec![(
            "title".to_owned(),
            OneOrList::One(ExtractItem { text: None, items: vec![] }),
        )],
    });
    assert_eq!(extract, expect);
}

#[test]
fn schema_with_distinct_names_is_well_formed() {
    let mut middle = node("p");
    middle.items.push(("a".to_owned(), node("i")));
    middle.items.push(("b".to_owned(), node("b")));
    let mut root = node("div");
    root.items.push(("a".to_owned(), middle));
    root.items.push(("c".to_owned(), node("x")));
    assert!(root.is_well_formed());
    assert!(node("div").is_well_formed());
}

#[test]
fn schema_that_repeats_a_name_is_not_well_formed() {
    let mut root = node("div");
    root.items.push(("a".to_owned(), node("i")));
    root.items.push(("b".to_owned(), node("b")));
    root.items.push(("a".to_owned(), node("u")));
    assert!(!root.is_well_formed());
    let mut outer = node("div");
    outer.items.push(("only".to_owned(), root));
    assert!(!outer.is_well_formed());
}

#[test]
fn schema_that_repeats_a_name_gives_a_field_for_each() {
    let mut root = node("div");
    root.items.push(("a".to_owned(), node("i")));
    root.items.push(("a".to_owned(), node("b")));
    let compiled = root.compile().unwrap();
    let extract = extract_fragment("<div><b></b></div>", &compiled);
    let expect = OneOrList::One(ExtractItem {
        text: None,
        items: vec![
            ("a".to_owned(), OneOrList::List(vec![])),
            ("a".to_owned(), OneOrList::One(ExtractItem { text: None, items: vec![] })),
        ],
    });
    assert_eq!(extract, expect);
}

#[test]
fn nested_puts_the_name_in_front() {
    let error = CompileError::InvalidSelector { path: path(&["b", "c"]) };
    assert_eq!(
        error.nested("a".to_owned()),
        CompileError::InvalidSelector { path: path(&["a", "b", "c"]) }
    );
    let error = CompileError::InvalidRegex { path: vec![] };
    assert_eq!(error.nested("a".to_owned()), CompileError::InvalidRegex { path: path(&["a"]) });
}

#[test]
fn compile_selector_accepts_and_rejects() {
    assert_eq!(compile_selector("div > a.b").unwrap(), scraper::Selector::parse("div > a.b").unwrap());
    assert_eq!(compile_selector("div >").unwrap_err(), CompileError::InvalidSelector { path: vec![] });
}

#[test]
fn compile_regex_accepts_and_rejects() {
    assert_eq!(compile_regex("(a|b)+").unwrap().as_str(), "(a|b)+");
    assert_eq!(compile_regex("(a|b").unwrap_err(), CompileError::InvalidRegex { path: vec![] });
}

#[test]
fn boundary_reports_every_failure_as_invalid_args() {
    assert_eq!(compile_opt(None).unwrap_err(), RetCode::InvalidArgs);
    assert_eq!(compile_opt(Some(node("a["))).unwrap_err(), RetCode::InvalidArgs);
    assert_eq!(compile_opt(Some(node_with_regex("a", "("))).unwrap_err(), RetCode::InvalidArgs);
    let mut root = node("a");
    root.items.push(("x".to_owned(), node("")));
    assert_eq!(compile_opt(Some(root)).unwrap_err(), RetCode::InvalidArgs);
}

#[test]
fn boundary_compiles_a_valid_schema() {
    let compiled = compile_opt(Some(node("a.b"))).unwrap();
    assert_eq!(compiled.selector, scraper::Selector::parse("a.b").unwrap());
    assert!(compiled.items.is_empty());
}
