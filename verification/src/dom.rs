//! Parsed markup: documents of `scraper` and the elements in them.
//!
//! A document and an element are opaque here. What `scraper` reads out of them is named
//! by a spec function per outside function; nothing in this module is proved.

use vstd::prelude::*;

verus! {

/// `scraper::Html`, a parsed document or fragment.
#[verifier::external_type_specification]
#[verifier::external_body]
pub struct ExHtml(scraper::Html);

/// `scraper::ElementRef`, a reference to one element of a parsed tree.
#[verifier::external_type_specification]
#[verifier::external_body]
pub struct ExElementRef<'a>(scraper::ElementRef<'a>);

/// The tree that `scraper::Html::parse_document` builds from a text.
pub uninterp spec fn parsed_document(text: Seq<char>) -> scraper::Html;

/// The tree that `scraper::Html::parse_fragment` builds from a text.
pub uninterp spec fn parsed_fragment(text: Seq<char>) -> scraper::Html;

/// The element that `scraper::Html::root_element` returns: the tree's `<html>` element.
pub uninterp spec fn root_of(html: &scraper::Html) -> scraper::ElementRef<'_>;

/// The elements that `scraper::ElementRef::select` yields: the descendants of `scope`
/// that match `selector`, in document order.
pub uninterp spec fn selected(scope: scraper::ElementRef, selector: scraper::Selector) -> Seq<
    scraper::ElementRef,
>;

/// What `scraper::ElementRef::html` returns: the element's markup, its own tags included.
pub uninterp spec fn html_of(element: scraper::ElementRef) -> Seq<char>;

/// What `scraper::ElementRef::inner_html` returns: the markup of the element's children.
pub uninterp spec fn inner_html_of(element: scraper::ElementRef) -> Seq<char>;

/// What `scraper::ElementRef::text` yields: the text nodes below the element, in document
/// order.
pub uninterp spec fn text_nodes_of(element: scraper::ElementRef) -> Seq<Seq<char>>;

/// What `scraper::node::Element::attr` returns for the element: the value of the attribute
/// of that name, `None` where the element has no such attribute.
pub uninterp spec fn attr_of(element: scraper::ElementRef, name: Seq<char>) -> Option<Seq<char>>;

/// Whether a tree came out of one of the two parsers. Such a tree has a root element.
pub open spec fn is_parsed(html: scraper::Html) -> bool {
    ||| exists|text: Seq<char>| html == #[trigger] parsed_document(text)
    ||| exists|text: Seq<char>| html == #[trigger] parsed_fragment(text)
}

/// `scraper::Html::parse_document`: the tree of a text read as a whole document. Parsing
/// is lenient and gives a tree for every text.
#[verifier::external_body]
pub(crate) fn parse_document(text: &str) -> (html: scraper::Html)
    ensures
        html == parsed_document(text@),
{
    scraper::Html::parse_document(text)
}

/// `scraper::Html::parse_fragment`: the tree of a text read as a fragment of a document's
/// body. Parsing is lenient and gives a tree for every text.
#[verifier::external_body]
pub(crate) fn parse_fragment(text: &str) -> (html: scraper::Html)
    ensures
        html == parsed_fragment(text@),
{
    scraper::Html::parse_fragment(text)
}

/// `scraper::Html::root_element`: the `<html>` element of the tree. It panics on a tree
/// without one; both parsers always make one, so only their trees are admitted.
#[verifier::external_body]
pub(crate) fn root_element(html: &scraper::Html) -> (root: scraper::ElementRef<'_>)
    requires
        is_parsed(*html),
    ensures
        root == root_of(html),
{
    html.root_element()
}

/// `scraper::ElementRef::select`: the descendants of `scope` that match, collected in the
/// order in which the iterator yields them.
#[verifier::external_body]
pub(crate) fn select<'a>(scope: scraper::ElementRef<'a>, selector: &scraper::Selector) -> (found:
    Vec<scraper::ElementRef<'a>>)
    ensures
        found@ == selected(scope, *selector),
{
    scope.select(selector).collect()
}

/// `scraper::ElementRef::html`: the element serialised with its own tags.
#[verifier::external_body]
pub(crate) fn element_html(element: scraper::ElementRef) -> (markup: String)
    ensures
        markup@ == html_of(element),
{
    element.html()
}

/// `scraper::ElementRef::inner_html`: the element's children serialised.
#[verifier::external_body]
pub(crate) fn element_inner_html(element: scraper::ElementRef) -> (markup: String)
    ensures
        markup@ == inner_html_of(element),
{
    element.inner_html()
}

/// `scraper::ElementRef::text`: the text nodes below the element, each copied out as a
/// `String`, in the order in which the iterator yields them.
#[verifier::external_body]
pub(crate) fn element_text_nodes(element: scraper::ElementRef) -> (nodes: Vec<String>)
    ensures
        nodes.deep_view() == text_nodes_of(element),
{
    element.text().map(|node| node.to_owned()).collect()
}

/// `scraper::node::Element::attr`, on the element that `scraper::ElementRef::value`
/// gives: the attribute's value copied out as a `String`, if the element has the attribute.
#[verifier::external_body]
pub(crate) fn element_attr(element: scraper::ElementRef, name: &str) -> (value: Option<String>)
    ensures
        value.is_some() == attr_of(element, name@).is_some(),
        value.is_some() ==> value.unwrap()@ == attr_of(element, name@).unwrap(),
{
    element.value().attr(name).map(|value| value.to_owned())
}

} // verus!
