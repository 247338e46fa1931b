//! HTML pages: the elements that a CSS selector matches, their attributes and
//! their text. Parsing and matching are those of the `scraper` crate.

use crate::model;
use crate::strings::{collapse, first_present};
use scraper::{ElementRef, Html, Selector};
use vstd::prelude::*;

verus! {

/// A parsed page of the `scraper` crate.
#[verifier::external_type_specification]
#[verifier::external_body]
pub struct ExHtml(scraper::Html);

/// A reference to one element of a parsed page.
#[verifier::external_type_specification]
#[verifier::external_body]
pub struct ExElementRef<'a>(scraper::ElementRef<'a>);

/// A page: its source text, read as a whole document or as a fragment.
pub struct Page {
    pub text: Seq<char>,
    pub fragment: bool,
}

/// An element of a page, told from the others by a number.
pub struct Node {
    pub page: Page,
    pub number: nat,
}

/// The page that a parsed page holds.
pub uninterp spec fn page_of(d: scraper::Html) -> Page;

/// The element that a reference denotes.
pub uninterp spec fn node_of(e: scraper::ElementRef<'_>) -> Node;

/// The elements that references denote.
pub open spec fn nodes(v: Seq<scraper::ElementRef<'_>>) -> Seq<Node> {
    Seq::new(v.len(), |i: int| node_of(v[i]))
}

/// The answer of `Html::select`; no element where `css` is no selector.
pub uninterp spec fn matched(page: Page, css: Seq<char>) -> Seq<Node>;

/// The answer of `ElementRef::select`; no element where `css` is no selector.
pub uninterp spec fn matched_in(scope: Node, css: Seq<char>) -> Seq<Node>;

/// The answer of `ElementRef::attr`.
pub uninterp spec fn attribute(node: Node, name: Seq<char>) -> Option<Seq<char>>;

/// The text nodes of `ElementRef::text`, one after the other.
pub uninterp spec fn raw_text(node: Node) -> Seq<char>;

/// The page of a whole document.
pub open spec fn document(text: Seq<char>) -> Page {
    Page { text, fragment: false }
}

/// The page of a fragment.
pub open spec fn snippet(text: Seq<char>) -> Page {
    Page { text, fragment: true }
}

/// The text of an element with its white space collapsed.
pub open spec fn node_text(node: Node) -> Seq<char> {
    model::collapsed(raw_text(node))
}

/// `Html::parse_document`: the page that the text spells as a document.
#[verifier::external_body]
pub(crate) fn parse_document(html: &str) -> (d: scraper::Html)
    ensures
        page_of(d) == document(html@),
{
    Html::parse_document(html)
}

/// `Html::parse_fragment`: the page that the text spells as a fragment.
#[verifier::external_body]
pub(crate) fn parse_fragment(html: &str) -> (d: scraper::Html)
    ensures
        page_of(d) == snippet(html@),
{
    Html::parse_fragment(html)
}

/// `Html::select`: the elements of the page that match `css`. What is no
/// selector (`Selector::parse` fails) matches nothing.
#[verifier::external_body]
pub(crate) fn select<'a>(d: &'a scraper::Html, css: &str) -> (r: Vec<scraper::ElementRef<'a>>)
    ensures
        nodes(r@) == matched(page_of(*d), css@),
{
    match Selector::parse(css) {
        Ok(s) => d.select(&s).collect(),
        Err(_) => Vec::new(),
    }
}

/// `ElementRef::select`: the elements inside `e` that match `css`. What is no
/// selector (`Selector::parse` fails) matches nothing.
#[verifier::external_body]
pub(crate) fn select_in<'a>(e: &scraper::ElementRef<'a>, css: &str) -> (r: Vec<
    scraper::ElementRef<'a>,
>)
    ensures
        nodes(r@) == matched_in(node_of(*e), css@),
{
    match Selector::parse(css) {
        Ok(s) => e.select(&s).collect(),
        Err(_) => Vec::new(),
    }
}

/// `ElementRef::attr`: the value of an attribute.
#[verifier::external_body]
pub(crate) fn attr(e: &scraper::ElementRef<'_>, name: &str) -> (r: Option<String>)
    ensures
        model::opt(r) == attribute(node_of(*e), name@),
{
    e.attr(name).map(str::to_string)
}

/// `ElementRef::text`: the text inside an element, as one string.
#[verifier::external_body]
pub(crate) fn full_text(e: &scraper::ElementRef<'_>) -> (r: String)
    ensures
        r@ == raw_text(node_of(*e)),
{
    e.text().collect()
}

/// The text of an element with its white space collapsed.
pub fn text_of(e: &scraper::ElementRef<'_>) -> (r: String)
    ensures
        r@ == node_text(node_of(*e)),
{
    let t = full_text(e);
    collapse(&t)
}

/// The first element inside `e` that matches `css`.
pub open spec fn first_in(scope: Node, css: Seq<char>) -> Option<Node> {
    if matched_in(scope, css).len() > 0 {
        Some(matched_in(scope, css)[0])
    } else {
        None
    }
}

/// The text of the first element inside `e` that matches `css`.
pub open spec fn first_text(scope: Node, css: Seq<char>) -> Option<Seq<char>> {
    match first_in(scope, css) {
        Some(n) => Some(node_text(n)),
        None => None,
    }
}

/// An attribute of the first element inside `e` that matches `css`.
pub open spec fn first_attribute(scope: Node, css: Seq<char>, name: Seq<char>) -> Option<Seq<char>> {
    match first_in(scope, css) {
        Some(n) => attribute(n, name),
        None => None,
    }
}

/// The text of the first element inside `e` that matches `css`.
pub(crate) fn text_in(e: &scraper::ElementRef<'_>, css: &str) -> (r: Option<String>)
    ensures
        model::opt(r) == first_text(node_of(*e), css@),
{
    let found = select_in(e, css);
    assert(nodes(found@).len() == found@.len());
    if found.len() > 0 {
        assert(nodes(found@)[0] == node_of(found@[0]));
        Some(text_of(&found[0]))
    } else {
        None
    }
}

/// An attribute of the first element inside `e` that matches `css`.
pub(crate) fn attr_in(e: &scraper::ElementRef<'_>, css: &str, name: &str) -> (r: Option<String>)
    ensures
        model::opt(r) == first_attribute(node_of(*e), css@, name@),
{
    let found = select_in(e, css);
    assert(nodes(found@).len() == found@.len());
    if found.len() > 0 {
        assert(nodes(found@)[0] == node_of(found@[0]));
        attr(&found[0], name)
    } else {
        None
    }
}

/// An attribute of each element of the page that matches `css`.
pub open spec fn attributes(page: Page, css: Seq<char>, name: Seq<char>) -> Seq<Option<Seq<char>>> {
    Seq::new(matched(page, css).len(), |i: int| attribute(matched(page, css)[i], name))
}

/// An attribute of each element of the page that matches `css`.
pub(crate) fn attrs(d: &scraper::Html, css: &str, name: &str) -> (r: Vec<Option<String>>)
    ensures
        model::opts(r@) == attributes(page_of(*d), css@, name@),
{
    let found = select(d, css);
    let ghost all = attributes(page_of(*d), css@, name@);
    let mut out: Vec<Option<String>> = Vec::new();
    let mut i: usize = 0;
    assert(nodes(found@).len() == found@.len());
    assert(model::opts(out@) == all.take(0));
    while i < found.len()
        invariant
            i <= found@.len(),
            nodes(found@) == matched(page_of(*d), css@),
            all == attributes(page_of(*d), css@, name@),
            all.len() == found@.len(),
            model::opts(out@) == all.take(i as int),
        decreases found@.len() - i,
    {
        assert(nodes(found@)[i as int] == node_of(found@[i as int]));
        let a = attr(&found[i], name);
        let ghost before = out@;
        out.push(a);
        assert(model::opts(out@) == model::opts(before).push(model::opt(a)));
        assert(model::opts(out@) == all.take(i + 1));
        i += 1;
    }
    assert(all.take(all.len() as int) == all);
    out
}

/// The first value of an attribute among the elements that match `css`, in order.
pub open spec fn first_attribute_of(page: Page, css: Seq<char>, name: Seq<char>) -> Option<Seq<char>> {
    model::first_present(attributes(page, css, name))
}

/// The first value of an attribute among the elements that match `css`, in order.
pub(crate) fn first_attr(d: &scraper::Html, css: &str, name: &str) -> (r: Option<String>)
    ensures
        model::opt(r) == first_attribute_of(page_of(*d), css@, name@),
{
    let all = attrs(d, css, name);
    first_present(&all)
}

} // verus!
