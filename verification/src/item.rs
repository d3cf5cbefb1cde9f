//! What an extraction returns.

use vstd::prelude::*;
use crate::one_or_list::{OneOrList, OneOrMany};

verus! {

/// The text extracted from one element: one string, or two and more.
pub type ExtractText = OneOrList<String>;

/// What one schema node gave for one element that it matched.
#[derive(Debug, PartialEq, Eq)]
pub struct ExtractItem {
    /// The extracted text; absent where the node's targets gave nothing.
    pub text: Option<ExtractText>,
    /// For each child of the schema node, in the schema's order, the child's name and
    /// what the child gave below this element. A child that matched nothing is there
    /// with the empty list.
    pub items: Vec<(String, Extract)>,
}

/// What one schema node gave in its scope: an item for each element that it matched.
pub type Extract = OneOrList<ExtractItem>;

/// The mathematical counterpart of [`ExtractItem`].
pub struct ItemModel {
    pub text: Option<OneOrMany<Seq<char>>>,
    pub fields: Seq<(Seq<char>, OneOrMany<ItemModel>)>,
}

impl ItemModel {
    /// The names of the item's fields, in their order.
    pub open spec fn names(self) -> Seq<Seq<char>> {
        Seq::new(self.fields.len(), |i: int| self.fields[i].0)
    }

    /// Whether the fields of the item, and of every item below it, have names that
    /// differ from each other.
    pub open spec fn well_formed(self) -> bool
        decreases self,
    {
        &&& self.names().no_duplicates()
        &&& forall|i: int, k: int|
            0 <= i < self.fields.len() && 0 <= k < self.fields[i].1.elements().len() ==> (
            #[trigger] self.fields[i].1.elements()[k]).well_formed()
    }
}

/// The extracted text as sequences of characters.
pub open spec fn text_model(text: Option<ExtractText>) -> Option<OneOrMany<Seq<char>>> {
    match text {
        None => None,
        Some(OneOrList::One(s)) => Some(OneOrMany::One(s@)),
        Some(OneOrList::List(v)) => Some(OneOrMany::Many(v.deep_view())),
    }
}

impl ExtractItem {
    /// The item as a mathematical value.
    pub open spec fn model(self) -> ItemModel
        decreases self,
    {
        ItemModel { text: text_model(self.text), fields: fields_model(self.items@) }
    }

    /// Whether `i` is the position of the first field named `name`.
    pub open spec fn first_named(self, name: Seq<char>, i: int) -> bool {
        &&& 0 <= i < self.items@.len()
        &&& self.items@[i].0@ == name
        &&& forall|k: int| 0 <= k < i ==> (#[trigger] self.items@[k]).0@ != name
    }

    /// What the child named `name` gave: the first field of that name, `None` where no
    /// field has it.
    pub fn get(&self, name: &str) -> (r: Option<&Extract>)
        ensures
            r is Some <==> exists|i: int| self.first_named(name@, i),
            forall|i: int| self.first_named(name@, i) ==> r == Some(&self.items@[i].1),
    {
        let mut i: usize = 0;
        while i < self.items.len()
            invariant
                i <= self.items.len(),
                forall|k: int| 0 <= k < i ==> (#[trigger] self.items@[k]).0@ != name@,
            decreases self.items.len() - i,
        {
            if *self.items[i].0.as_str() == *name {
                assert(self.first_named(name@, i as int));
                return Some(&self.items[i].1);
            }
            i += 1;
        }
        None
    }
}

/// The named results of an item's children as mathematical values.
pub open spec fn fields_model(items: Seq<(String, Extract)>) -> Seq<(Seq<char>, OneOrMany<ItemModel>)>
    decreases items,
{
    Seq::new(
        items.len(),
        |i: int|
            if 0 <= i < items.len() {
                (items[i].0@, extract_model(items[i].1))
            } else {
                arbitrary()
            },
    )
}

/// The items of a list as mathematical values.
pub open spec fn items_model(items: Seq<ExtractItem>) -> Seq<ItemModel>
    decreases items,
{
    Seq::new(
        items.len(),
        |i: int|
            if 0 <= i < items.len() {
                items[i].model()
            } else {
                arbitrary()
            },
    )
}

/// A result as a mathematical value.
pub open spec fn extract_model(extract: Extract) -> OneOrMany<ItemModel>
    decreases extract,
{
    match extract {
        OneOrList::One(item) => OneOrMany::One(item.model()),
        OneOrList::List(v) => OneOrMany::Many(items_model(v@)),
    }
}

impl ItemModel {
    /// The item without the fields of the children that matched nothing, at every depth.
    pub open spec fn without_empty(self) -> ItemModel
        decreases self,
    {
        ItemModel { text: self.text, fields: fields_without_empty(self.fields) }
    }
}

/// The fields that hold at least one item, in their order, each without the empty fields
/// below it.
pub open spec fn fields_without_empty(fields: Seq<(Seq<char>, OneOrMany<ItemModel>)>) -> Seq<
    (Seq<char>, OneOrMany<ItemModel>),
>
    decreases fields,
{
    if fields.len() == 0 {
        Seq::empty()
    } else {
        fields_without_empty(fields.drop_last()) + (if fields.last().1.elements().len() == 0 {
            Seq::empty()
        } else {
            seq![(fields.last().0, result_without_empty(fields.last().1))]
        })
    }
}

/// The result with the same items, each without its empty fields.
pub open spec fn result_without_empty(extract: OneOrMany<ItemModel>) -> OneOrMany<ItemModel>
    decreases extract,
{
    match extract {
        OneOrMany::One(item) => OneOrMany::One(item.without_empty()),
        OneOrMany::Many(items) => OneOrMany::Many(
            Seq::new(
                items.len(),
                |i: int|
                    if 0 <= i < items.len() {
                        items[i].without_empty()
                    } else {
                        arbitrary()
                    },
            ),
        ),
    }
}

impl ExtractItem {
    /// Drops, at every depth, the fields of the children that matched nothing, for a
    /// writer that leaves such a name out instead of writing an empty list under it.
    /// The text and the fields that hold something stay as they are, in their order.
    pub fn omit_empty(self) -> (r: ExtractItem)
        ensures
            r.model() == self.model().without_empty(),
        decreases self,
    {
        let ExtractItem { text, items } = self;
        let ghost all = fields_model(items@);
        let mut kept: Vec<(String, Extract)> = Vec::new();
        assert(all.take(0) =~= Seq::empty());
        for entry in iter: items
            invariant
                iter.seq() == self.items@,
                all == fields_model(self.items@),
                fields_model(kept@) == fields_without_empty(all.take(iter.index())),
        {
            let ghost at = iter.index();
            let ghost before = fields_model(kept@);
            let (name, below) = entry;
            let nothing = match &below {
                OneOrList::One(_) => false,
                OneOrList::List(list) => list.len() == 0,
            };
            proof {
                assert(all.take(at + 1).drop_last() =~= all.take(at));
                assert(all.take(at + 1).last() == (name@, extract_model(below)));
                assert(nothing == (extract_model(below).elements().len() == 0));
            }
            if !nothing {
                let rest = omit_empty(below);
                kept.push((name, rest));
                assert(fields_model(kept@) =~= before + seq![(name@, extract_model(rest))]);
            } else {
                assert(before + Seq::empty() =~= before);
            }
        }
        assert(all.take(self.items@.len() as int) =~= all);
        ExtractItem { text, items: kept }
    }
}

/// Drops, in every item of a result and at every depth, the fields of the children that
/// matched nothing. The items themselves stay, in their order and their form.
pub fn omit_empty(extract: Extract) -> (r: Extract)
    ensures
        extract_model(r) == result_without_empty(extract_model(extract)),
    decreases extract,
{
    match extract {
        OneOrList::One(item) => OneOrList::One(item.omit_empty()),
        OneOrList::List(items) => {
            let mut done: Vec<ExtractItem> = Vec::new();
            let ghost all = items@;
            for item in iter: items
                invariant
                    extract matches OneOrList::List(list) && list@ == all,
                    iter.seq() == all,
                    done@.len() == iter.index(),
                    forall|i: int|
                        0 <= i < iter.index() ==> (#[trigger] done@[i]).model()
                            == all[i].model().without_empty(),
            {
                done.push(item.omit_empty());
            }
            assert(items_model(done@) =~= result_without_empty(
                extract_model(extract),
            ).elements());
            OneOrList::List(done)
        },
    }
}

/// Dropping the empty fields keeps the number and the form of a result's items.
pub proof fn lemma_without_empty_keeps_items(extract: OneOrMany<ItemModel>)
    ensures
        result_without_empty(extract).elements().len() == extract.elements().len(),
        result_without_empty(extract) is One <==> extract is One,
{
}

/// Once the empty fields are dropped none is left: every field that stays holds at
/// least one item.
pub proof fn lemma_no_empty_field_left(fields: Seq<(Seq<char>, OneOrMany<ItemModel>)>, i: int)
    requires
        0 <= i < fields_without_empty(fields).len(),
    ensures
        fields_without_empty(fields)[i].1.elements().len() > 0,
    decreases fields.len(),
{
    let front = fields_without_empty(fields.drop_last());
    if i < front.len() {
        lemma_no_empty_field_left(fields.drop_last(), i);
    } else {
        lemma_without_empty_keeps_items(fields.last().1);
    }
}

} // verus!
