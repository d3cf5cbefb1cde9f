//! Extraction: a compiled schema is walked over a parsed document, and gives a result
//! shaped like the schema.

use vstd::prelude::*;
use crate::dom::{
    attr_of, element_attr, element_html, element_inner_html, element_text_nodes, html_of,
    inner_html_of, is_parsed, parse_document, parse_fragment, parsed_document, parsed_fragment,
    root_element, root_of, select, selected, text_nodes_of,
};
use crate::item::{extract_model, items_model, Extract, ExtractItem, ItemModel};
use crate::matcher::{captures, captures_of};
use crate::one_or_list::{collapsed, collapsed_or_empty, OneOrList, OneOrMany};
use crate::schema::ExtractOptCompiled;
use crate::text::{concatenate, trim, trimmed};

verus! {

/// What a target reads from an element: its markup for `"html"`, the markup of its
/// children for `"inner_html"`, its text nodes joined with nothing between them for
/// `"text"`; any other target names an attribute and reads its value, if the element has
/// that attribute.
pub open spec fn resolved(element: scraper::ElementRef, target: Seq<char>) -> Option<Seq<char>> {
    if target == "html"@ {
        Some(html_of(element))
    } else if target == "inner_html"@ {
        Some(inner_html_of(element))
    } else if target == "text"@ {
        Some(text_nodes_of(element).flatten())
    } else {
        attr_of(element, target)
    }
}

/// The texts of the groups that captured something, in group order.
pub open spec fn present(groups: Seq<Option<Seq<char>>>) -> Seq<Seq<char>>
    decreases groups.len(),
{
    if groups.len() == 0 {
        Seq::empty()
    } else {
        present(groups.drop_last()) + match groups.last() {
            Some(text) => seq![text],
            None => Seq::empty(),
        }
    }
}

/// What the capture groups of a match contribute: every group after group 0, the whole
/// match, that captured something, in group order.
pub open spec fn captured(groups: Seq<Option<Seq<char>>>) -> Seq<Seq<char>> {
    if groups.len() == 0 {
        Seq::empty()
    } else {
        present(groups.drop_first())
    }
}

/// What one string read from an element contributes. Without a pattern it is the string
/// trimmed. With one, the pattern is matched once against the trimmed string: no match
/// contributes nothing, a match contributes its captured groups.
pub open spec fn contributions(raw: Seq<char>, pattern: Option<regex::Regex>) -> Seq<Seq<char>> {
    match pattern {
        None => seq![trimmed(raw)],
        Some(pattern) => match captures_of(pattern, trimmed(raw)) {
            None => Seq::empty(),
            Some(groups) => captured(groups),
        },
    }
}

/// What one target contributes for an element: nothing where it reads nothing.
pub open spec fn target_contributions(
    element: scraper::ElementRef,
    target: Seq<char>,
    pattern: Option<regex::Regex>,
) -> Seq<Seq<char>> {
    match resolved(element, target) {
        None => Seq::empty(),
        Some(raw) => contributions(raw, pattern),
    }
}

/// The contributions of all targets for an element, in target order.
pub open spec fn text_contributions(
    element: scraper::ElementRef,
    targets: Seq<Seq<char>>,
    pattern: Option<regex::Regex>,
) -> Seq<Seq<char>>
    decreases targets.len(),
{
    if targets.len() == 0 {
        Seq::empty()
    } else {
        text_contributions(element, targets.drop_last(), pattern) + target_contributions(
            element,
            targets.last(),
            pattern,
        )
    }
}

/// The targets of a schema node as sequences of characters.
pub open spec fn targets_of(opt: ExtractOptCompiled) -> Seq<Seq<char>> {
    Seq::new(opt.target.elements().len(), |i: int| opt.target.elements()[i]@)
}

/// What a schema node gives for one element that it matched: the collapsed text of its
/// targets, and under each child's name what the child gives with the element as scope.
pub open spec fn item_of(element: scraper::ElementRef, opt: ExtractOptCompiled) -> ItemModel
    decreases opt, 0nat,
{
    ItemModel {
        text: collapsed(text_contributions(element, targets_of(opt), opt.regex)),
        fields: Seq::new(
            opt.items@.len(),
            |j: int|
                if 0 <= j < opt.items@.len() {
                    (opt.items@[j].0@, extraction(element, opt.items@[j].1))
                } else {
                    arbitrary()
                },
        ),
    }
}

/// The items of the elements that a schema node matches in a scope, in the order in which
/// the selector yields the elements.
pub open spec fn matched_items(scope: scraper::ElementRef, opt: ExtractOptCompiled) -> Seq<ItemModel>
    decreases opt, 1nat,
{
    Seq::new(
        selected(scope, opt.selector).len(),
        |i: int| item_of(selected(scope, opt.selector)[i], opt),
    )
}

/// What a schema node gives in a scope: the items of the elements it matches, collapsed.
pub open spec fn extraction(scope: scraper::ElementRef, opt: ExtractOptCompiled) -> OneOrMany<ItemModel>
    decreases opt, 2nat,
{
    collapsed_or_empty(matched_items(scope, opt))
}

/// What a schema gives for a text read as a whole document.
pub open spec fn document_extraction(document: Seq<char>, opt: ExtractOptCompiled) -> OneOrMany<
    ItemModel,
> {
    extraction(root_of(&parsed_document(document)), opt)
}

/// What a schema gives for a text read as a fragment of a document.
pub open spec fn fragment_extraction(fragment: Seq<char>, opt: ExtractOptCompiled) -> OneOrMany<
    ItemModel,
> {
    extraction(root_of(&parsed_fragment(fragment)), opt)
}

/// Reads a target from an element.
pub fn resolve(element: scraper::ElementRef, target: &str) -> (raw: Option<String>)
    ensures
        raw.is_some() == resolved(element, target@).is_some(),
        raw.is_some() ==> raw.unwrap()@ == resolved(element, target@).unwrap(),
{
    if *target == *"html" {
        Some(element_html(element))
    } else if *target == *"inner_html" {
        Some(element_inner_html(element))
    } else if *target == *"text" {
        let nodes = element_text_nodes(element);
        Some(concatenate(&nodes))
    } else {
        element_attr(element, target)
    }
}

/// Keeps of the capture groups of a match what they contribute: the texts of the groups
/// after group 0 that captured something, in group order.
pub fn take_captured(groups: Vec<Option<String>>) -> (texts: Vec<String>)
    ensures
        texts.deep_view() == captured(groups.deep_view()),
{
    let mut texts: Vec<String> = Vec::new();
    let mut first = true;
    let ghost all = groups.deep_view();
    for group in iter: groups
        invariant
            iter.seq().len() == all.len(),
            forall|i: int| 0 <= i < all.len() ==> all[i] == (#[trigger] iter.seq()[i]).deep_view(),
            first == (iter.index() == 0),
            iter.index() > 0 ==> texts.deep_view() == present(
                all.drop_first().take(iter.index() - 1),
            ),
            iter.index() == 0 ==> texts@.len() == 0,
    {
        if first {
            first = false;
            proof {
                assert(texts.deep_view() =~= Seq::<Seq<char>>::empty());
                assert(all.drop_first().take(0) =~= Seq::<Option<Seq<char>>>::empty());
            }
        } else {
            let ghost k = iter.index() - 1;
            let ghost before = texts.deep_view();
            proof {
                let rest = all.drop_first();
                assert(rest.take(k + 1).drop_last() =~= rest.take(k));
                assert(rest.take(k + 1).last() == all[k + 1]);
            }
            match group {
                Some(text) => {
                    texts.push(text);
                    assert(texts.deep_view() =~= before + seq![text@]);
                },
                None => {
                    assert(texts.deep_view() =~= before + Seq::<Seq<char>>::empty());
                },
            }
        }
    }
    proof {
        if all.len() == 0 {
            assert(texts.deep_view() =~= Seq::<Seq<char>>::empty());
        } else {
            assert(all.drop_first().take(all.len() - 1) =~= all.drop_first());
        }
    }
    texts
}

/// What one string read from an element contributes, given the node's pattern.
pub fn contribute(raw: &str, pattern: &Option<regex::Regex>) -> (texts: Vec<String>)
    ensures
        texts.deep_view() == contributions(raw@, *pattern),
{
    let rest = trim(raw);
    match pattern {
        Some(pattern) => match captures(pattern, rest) {
            Some(groups) => take_captured(groups),
            None => {
                let texts: Vec<String> = Vec::new();
                assert(texts.deep_view() =~= Seq::<Seq<char>>::empty());
                texts
            },
        },
        None => {
            let mut texts: Vec<String> = Vec::new();
            texts.push(rest.to_owned());
            assert(texts.deep_view() =~= seq![trimmed(raw@)]);
            texts
        },
    }
}

/// The contributions of all targets for an element, in target order: the flattened list
/// that collapses into the element's text.
pub fn extract_text(
    element: scraper::ElementRef,
    targets: &[String],
    pattern: &Option<regex::Regex>,
) -> (texts: Vec<String>)
    ensures
        texts.deep_view() == text_contributions(element, targets.deep_view(), *pattern),
{
    let ghost names = targets.deep_view();
    let mut texts: Vec<String> = Vec::new();
    let mut i: usize = 0;
    assert(texts.deep_view() =~= Seq::<Seq<char>>::empty());
    while i < targets.len()
        invariant
            i <= targets.len(),
            names == targets.deep_view(),
            texts.deep_view() == text_contributions(element, names.take(i as int), *pattern),
        decreases targets.len() - i,
    {
        let ghost before = texts.deep_view();
        proof {
            assert(names.take(i + 1).drop_last() =~= names.take(i as int));
            assert(names.take(i + 1).last() == targets@[i as int]@);
        }
        match resolve(element, targets[i].as_str()) {
            Some(raw) => {
                let mut more = contribute(raw.as_str(), pattern);
                let ghost added = more.deep_view();
                texts.append(&mut more);
                assert(texts.deep_view() =~= before + added);
            },
            None => {
                assert(texts.deep_view() =~= before + Seq::<Seq<char>>::empty());
            },
        }
        i += 1;
    }
    proof {
        assert(names.take(i as int) =~= names);
    }
    texts
}

/// Applies a schema node in a scope.
///
/// The node's selector picks its elements among the descendants of `scope`, in document
/// order. Each of them gives an item: the collapsed text of the node's targets, and under
/// each child's name what the child gives with that element as its scope. One item is
/// returned as it is, any other number of items as a list.
pub fn extract_elem(scope: scraper::ElementRef, opt: &ExtractOptCompiled) -> (r: Extract)
    ensures
        extract_model(r) == extraction(scope, *opt),
    decreases opt,
{
    let found = select(scope, &opt.selector);
    let targets = opt.target.as_slice();
    let mut items: Vec<ExtractItem> = Vec::new();
    let mut i: usize = 0;
    while i < found.len()
        invariant
            found@ == selected(scope, opt.selector),
            targets@ == opt.target.elements(),
            i <= found.len(),
            items@.len() == i,
            forall|k: int| 0 <= k < i ==> (#[trigger] items@[k]).model() == item_of(found@[k], *opt),
        decreases found.len() - i,
    {
        let element = found[i];
        let texts = extract_text(element, targets, &opt.regex);
        let text = OneOrList::collapse(texts);
        let mut fields: Vec<(String, Extract)> = Vec::new();
        let mut j: usize = 0;
        while j < opt.items.len()
            invariant
                j <= opt.items.len(),
                fields@.len() == j,
                forall|k: int|
                    0 <= k < j ==> {
                        &&& (#[trigger] fields@[k]).0@ == opt.items@[k].0@
                        &&& extract_model(fields@[k].1) == extraction(element, opt.items@[k].1)
                    },
            decreases opt.items.len() - j,
        {
            let child = &opt.items[j];
            let below = extract_elem(element, &child.1);
            fields.push((child.0.clone(), below));
            j += 1;
        }
        let item = ExtractItem { text, items: fields };
        proof {
            assert(targets_of(*opt) =~= targets.deep_view());
            assert(item.model().fields =~= item_of(element, *opt).fields);
            assert(item.model().text == item_of(element, *opt).text);
        }
        items.push(item);
        i += 1;
    }
    let r = OneOrList::collapse_or_empty(items);
    proof {
        assert(items_model(items@) =~= matched_items(scope, *opt));
    }
    r
}

/// Applies a schema to a parsed tree, with the tree's root element as the scope.
fn extract_html(html: scraper::Html, opt: &ExtractOptCompiled) -> (r: Extract)
    requires
        is_parsed(html),
    ensures
        extract_model(r) == extraction(root_of(&html), *opt),
{
    let root = root_element(&html);
    extract_elem(root, opt)
}

/// Extracts from a text that holds a whole document.
pub fn extract_document(document: &str, opt: &ExtractOptCompiled) -> (r: Extract)
    ensures
        extract_model(r) == document_extraction(document@, *opt),
{
    let html = parse_document(document);
    extract_html(html, opt)
}

/// Extracts from a text that holds a fragment of a document.
pub fn extract_fragment(fragment: &str, opt: &ExtractOptCompiled) -> (r: Extract)
    ensures
        extract_model(r) == fragment_extraction(fragment@, *opt),
{
    let html = parse_fragment(fragment);
    extract_html(html, opt)
}

/// Extraction is a function of the scope and the compiled schema, and the scope of a
/// document is a function of its text: whatever two runs over the same document with the
/// same schema return is one and the same value. The premises are what
/// [`extract_elem`] ensures of its result, and with the root of the parsed text as the
/// scope what [`extract_document`] and [`extract_fragment`] ensure of theirs.
pub proof fn lemma_extraction_repeats(
    first: Extract,
    second: Extract,
    scope: scraper::ElementRef,
    opt: ExtractOptCompiled,
)
    requires
        extract_model(first) == extraction(scope, opt),
        extract_model(second) == extraction(scope, opt),
    ensures
        extract_model(first) == extract_model(second),
{
}

/// A selector that matches exactly one element gives that element's item itself, never a
/// list of one item.
pub proof fn lemma_one_match_gives_one_item(scope: scraper::ElementRef, opt: ExtractOptCompiled)
    requires
        selected(scope, opt.selector).len() == 1,
    ensures
        extraction(scope, opt) == OneOrMany::One(item_of(selected(scope, opt.selector)[0], opt)),
{
}

/// A selector that matches no element, or two and more, gives a list with one item for
/// each match: the empty list, or a list of two and more.
pub proof fn lemma_other_match_counts_give_list(scope: scraper::ElementRef, opt: ExtractOptCompiled)
    requires
        selected(scope, opt.selector).len() != 1,
    ensures
        extraction(scope, opt) == OneOrMany::Many(matched_items(scope, opt)),
        matched_items(scope, opt).len() == selected(scope, opt.selector).len(),
{
}

/// The items of a result stand in the order in which the selector yields its matches: the
/// item at each position is that of the match at the same position.
pub proof fn lemma_items_follow_matches(scope: scraper::ElementRef, opt: ExtractOptCompiled, i: int)
    requires
        0 <= i < selected(scope, opt.selector).len(),
    ensures
        extraction(scope, opt).elements().len() == selected(scope, opt.selector).len(),
        extraction(scope, opt).elements()[i] == item_of(selected(scope, opt.selector)[i], opt),
{
    crate::one_or_list::lemma_collapse_keeps_elements(matched_items(scope, opt));
}

/// An item mirrors its schema node: it has one field for each child of the node, under
/// the child's name and in the node's order, and the field holds what the child gives
/// with the matched element as its scope, not the scope in which the node itself ran.
pub proof fn lemma_children_run_below_match(
    element: scraper::ElementRef,
    opt: ExtractOptCompiled,
    j: int,
)
    requires
        0 <= j < opt.items@.len(),
    ensures
        item_of(element, opt).fields.len() == opt.items@.len(),
        item_of(element, opt).fields[j] == (opt.items@[j].0@, extraction(element, opt.items@[j].1)),
{
}

/// An item has the names of its schema node, so that under a well-formed schema the
/// fields of every item, at every depth, have names that differ from each other.
pub proof fn lemma_item_keeps_names(element: scraper::ElementRef, opt: ExtractOptCompiled)
    ensures
        item_of(element, opt).names() == opt.names(),
        opt.well_formed() ==> item_of(element, opt).well_formed(),
    decreases opt, 0nat,
{
    let item = item_of(element, opt);
    assert(item.names() =~= opt.names());
    if opt.well_formed() {
        assert forall|i: int, k: int|
            0 <= i < item.fields.len() && 0 <= k < item.fields[i].1.elements().len() implies (
        #[trigger] item.fields[i].1.elements()[k]).well_formed() by {
            lemma_extraction_keeps_names(element, opt.items@[i].1);
        }
    }
}

/// Under a well-formed schema every item of a result is well-formed.
pub proof fn lemma_extraction_keeps_names(scope: scraper::ElementRef, opt: ExtractOptCompiled)
    requires
        opt.well_formed(),
    ensures
        forall|k: int|
            0 <= k < extraction(scope, opt).elements().len() ==> (#[trigger] extraction(
                scope,
                opt,
            ).elements()[k]).well_formed(),
    decreases opt, 1nat,
{
    crate::one_or_list::lemma_collapse_keeps_elements(matched_items(scope, opt));
    assert forall|k: int| 0 <= k < extraction(scope, opt).elements().len() implies (
    #[trigger] extraction(scope, opt).elements()[k]).well_formed() by {
        lemma_item_keeps_names(selected(scope, opt.selector)[k], opt);
    }
}

/// A match whose groups all captured something contributes every group but group 0, each
/// in its place.
pub proof fn lemma_all_groups_captured(groups: Seq<Option<Seq<char>>>)
    requires
        groups.len() >= 1,
        forall|i: int| 1 <= i < groups.len() ==> (#[trigger] groups[i]) is Some,
    ensures
        captured(groups).len() == groups.len() - 1,
        forall|i: int| 1 <= i < groups.len() ==> captured(groups)[i - 1] == (#[trigger] groups[i]).unwrap(),
{
    lemma_present_of_all(groups.drop_first());
    assert forall|i: int| 1 <= i < groups.len() implies captured(groups)[i - 1] == (#[trigger] groups[i]).unwrap() by {
        assert(groups.drop_first()[i - 1] == groups[i]);
    }
}

/// Where every group captured something, the texts of the present groups are the texts
/// of all of them.
proof fn lemma_present_of_all(groups: Seq<Option<Seq<char>>>)
    requires
        forall|i: int| 0 <= i < groups.len() ==> (#[trigger] groups[i]) is Some,
    ensures
        present(groups).len() == groups.len(),
        forall|i: int| 0 <= i < groups.len() ==> present(groups)[i] == (#[trigger] groups[i]).unwrap(),
    decreases groups.len(),
{
    if groups.len() > 0 {
        lemma_present_of_all(groups.drop_last());
        assert forall|i: int| 0 <= i < groups.len() implies present(groups)[i] == (#[trigger] groups[i]).unwrap() by {
            if i < groups.len() - 1 {
                assert(groups.drop_last()[i] == groups[i]);
            }
        }
    }
}

/// A group that captured nothing contributes nothing: the other groups contribute as if
/// it were not there.
pub proof fn lemma_absent_group_skipped(groups: Seq<Option<Seq<char>>>, i: int)
    requires
        1 <= i < groups.len(),
        groups[i] is None,
    ensures
        captured(groups) == captured(groups.remove(i)),
{
    lemma_present_without_absent(groups.drop_first(), i - 1);
    assert(groups.remove(i).drop_first() =~= groups.drop_first().remove(i - 1));
}

/// The texts of the present groups do not change when an absent group is taken out.
proof fn lemma_present_without_absent(groups: Seq<Option<Seq<char>>>, i: int)
    requires
        0 <= i < groups.len(),
        groups[i] is None,
    ensures
        present(groups) == present(groups.remove(i)),
    decreases groups.len(),
{
    if i == groups.len() - 1 {
        assert(groups.remove(i) =~= groups.drop_last());
        assert(present(groups) =~= present(groups.drop_last()));
    } else {
        lemma_present_without_absent(groups.drop_last(), i);
        assert(groups.remove(i).drop_last() =~= groups.drop_last().remove(i));
        assert(groups.remove(i).last() == groups.last());
    }
}

/// The contributions of a list of targets are those of its front part followed by those
/// of its back part.
pub proof fn lemma_contributions_of_concatenation(
    element: scraper::ElementRef,
    front: Seq<Seq<char>>,
    back: Seq<Seq<char>>,
    pattern: Option<regex::Regex>,
)
    ensures
        text_contributions(element, front + back, pattern) == text_contributions(
            element,
            front,
            pattern,
        ) + text_contributions(element, back, pattern),
    decreases back.len(),
{
    if back.len() == 0 {
        assert(front + back =~= front);
        assert(text_contributions(element, front, pattern) + Seq::<Seq<char>>::empty()
            =~= text_contributions(element, front, pattern));
    } else {
        lemma_contributions_of_concatenation(element, front, back.drop_last(), pattern);
        assert((front + back).drop_last() =~= front + back.drop_last());
        assert((front + back).last() == back.last());
        let last = target_contributions(element, back.last(), pattern);
        assert((text_contributions(element, front, pattern) + text_contributions(
            element,
            back.drop_last(),
            pattern,
        )) + last =~= text_contributions(element, front, pattern) + (text_contributions(
            element,
            back.drop_last(),
            pattern,
        ) + last));
    }
}

/// A target that reads nothing from an element, such as the name of an attribute that
/// the element does not have, leaves no trace: the element's contributions are those of
/// the other targets alone, with no empty string in its place.
pub proof fn lemma_missing_target_is_skipped(
    element: scraper::ElementRef,
    targets: Seq<Seq<char>>,
    pattern: Option<regex::Regex>,
    i: int,
)
    requires
        0 <= i < targets.len(),
        resolved(element, targets[i]) is None,
    ensures
        text_contributions(element, targets, pattern) == text_contributions(
            element,
            targets.remove(i),
            pattern,
        ),
{
    let front = targets.take(i);
    let back = targets.skip(i + 1);
    let one = seq![targets[i]];
    assert(targets =~= (front + one) + back);
    assert(targets.remove(i) =~= front + back);
    lemma_contributions_of_concatenation(element, front + one, back, pattern);
    lemma_contributions_of_concatenation(element, front, one, pattern);
    lemma_contributions_of_concatenation(element, front, back, pattern);
    assert(one.drop_last() =~= Seq::<Seq<char>>::empty());
    assert(one.last() == targets[i]);
    assert(text_contributions(element, one.drop_last(), pattern) =~= Seq::<Seq<char>>::empty());
    assert(text_contributions(element, one, pattern) =~= Seq::<Seq<char>>::empty());
    assert(text_contributions(element, front, pattern) + Seq::<Seq<char>>::empty()
        =~= text_contributions(element, front, pattern));
}

} // verus!
