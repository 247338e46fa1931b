//! The pages of Uptodown.

use crate::common::contract as common;
use crate::html;
use crate::html::{attr, attr_in, first_attr, parse_document, select, select_in, text_of};
use crate::model;
use crate::model::Class;
use crate::order;
use crate::order::rank_order;
use crate::outside;
use crate::outside::{json_get, json_items, json_parse, json_str};
use crate::strings::{
    contains, contains_char, eq_ignore_ascii_case, is_all_digits, join, listed, plus, same,
    split_by, split_once, to_ascii_lowercase, trim, trim_end_by, trim_end_str,
};
use crate::textual::named;
use crate::textual::named::ProviderError;
use vstd::prelude::*;

verus! {

/// The page of the search.
pub const SEARCH_URL: &'static str = "https://en.uptodown.com/android/search";

/// An app that a search found.
pub struct SearchHit {
    /// Such as `https://spotify.en.uptodown.com` (no path).
    pub base: String,
    /// The number by which the versions are asked for.
    pub code: String,
    pub name: String,
}

/// What a [`SearchHit`] says.
pub struct HitView {
    pub base: Seq<char>,
    pub code: Seq<char>,
    pub name: Seq<char>,
}

impl View for SearchHit {
    type V = HitView;

    open spec fn view(&self) -> HitView {
        HitView { base: self.base@, code: self.code@, name: self.name@ }
    }
}

/// An item of the search page: its code, what a click does, the text of its image
/// and its own text.
pub struct SearchRow {
    pub code: Option<String>,
    pub onclick: Option<String>,
    pub alt: Option<String>,
    pub text: String,
}

/// What a [`SearchRow`] says.
pub struct SearchRowView {
    pub code: Option<Seq<char>>,
    pub onclick: Option<Seq<char>>,
    pub alt: Option<Seq<char>>,
    pub text: Seq<char>,
}

impl View for SearchRow {
    type V = SearchRowView;

    open spec fn view(&self) -> SearchRowView {
        SearchRowView {
            code: model::opt(self.code),
            onclick: model::opt(self.onclick),
            alt: model::opt(self.alt),
            text: self.text@,
        }
    }
}

/// The item that an element of the search page is.
pub open spec fn search_row(n: html::Node) -> SearchRowView {
    SearchRowView {
        code: html::attribute(n, "data-code"@),
        onclick: html::attribute(n, "onclick"@),
        alt: html::first_attribute(n, "img[alt]"@, "alt"@),
        text: html::node_text(n),
    }
}

/// The items of a search page.
pub open spec fn search_rows(page: html::Page) -> Seq<SearchRowView> {
    let ns = html::matched(page, "#content-list div.item[data-code]"@);
    Seq::new(ns.len(), |i: int| search_row(ns[i]))
}

/// The site of an app, from what a click does:
/// `location.href='https://<sub>.en.uptodown.com/android'`.
pub open spec fn base_in(onclick: Seq<char>) -> Option<Seq<char>> {
    match model::cut(onclick, "location.href='"@) {
        Some((_, rest)) => match model::cut(rest, "'"@) {
            Some((url, _)) => {
                let base = model::trimmed_end(
                    model::without_suffix(url, "/android"@),
                    Class::One('/'),
                );
                if model::holds(base, "uptodown.com"@) {
                    Some(base)
                } else {
                    None
                }
            },
            None => None,
        },
        None => None,
    }
}

/// The name of an app: the text of its image without ` icon`, else its own text.
pub open spec fn row_name(row: SearchRowView) -> Seq<char> {
    match row.alt {
        Some(a) => {
            let short = model::stripped(model::without_suffix(a, " icon"@));
            if short.len() > 0 {
                short
            } else {
                row.text
            }
        },
        None => row.text,
    }
}

/// The app that an item is.
pub open spec fn candidate(row: SearchRowView) -> Option<HitView> {
    match (row.code, row.onclick) {
        (Some(code), Some(onclick)) => match base_in(onclick) {
            Some(base) => Some(HitView { base, code, name: row_name(row) }),
            None => None,
        },
        _ => None,
    }
}

/// The apps that items are.
pub open spec fn found(rows: Seq<SearchRowView>) -> Seq<HitView>
    decreases rows.len(),
{
    if rows.len() == 0 {
        Seq::<HitView>::empty()
    } else {
        let front = found(rows.drop_last());
        match candidate(rows.last()) {
            Some(hit) => front.push(hit),
            None => front,
        }
    }
}

/// What a search comes to.
pub open spec fn searched(rows: Seq<SearchRowView>) -> Result<Seq<HitView>, named::ErrorView> {
    if found(rows).len() == 0 {
        Err(named::ErrorView::NotFound)
    } else {
        Ok(found(rows))
    }
}

/// The site of an app, from what a click does.
fn read_base(onclick: &str) -> (r: Option<String>)
    ensures
        model::opt(r) == base_in(onclick@),
{
    if let Some((_, rest)) = split_once(onclick, "location.href='") {
        if let Some((url, _)) = split_once(rest.as_str(), "'") {
            let base = trim_end_str(url.as_str(), "/android");
            let base = trim_end_by(base.as_str(), Class::One('/'));
            if contains(base.as_str(), "uptodown.com") {
                return Some(base);
            }
        }
    }
    None
}

/// The name of an app.
fn read_name(row: &SearchRow) -> (r: String)
    ensures
        r@ == row_name(row@),
{
    if let Some(a) = &row.alt {
        let short = trim_end_str(a.as_str(), " icon");
        let short = trim(short.as_str());
        if !short.as_str().is_empty() {
            return short;
        }
    }
    row.text.clone()
}

/// The app that an item is.
fn read_hit(row: &SearchRow) -> (r: Option<SearchHit>)
    ensures
        (match r {
            Some(h) => Some(h@),
            None => None,
        }) == candidate(row@),
{
    if let Some(code) = &row.code {
        if let Some(onclick) = &row.onclick {
            if let Some(base) = read_base(onclick.as_str()) {
                return Some(SearchHit { base, code: code.clone(), name: read_name(row) });
            }
        }
    }
    None
}

/// The apps that the items of a search page are.
pub fn search_hits(rows: &[SearchRow]) -> (r: Result<Vec<SearchHit>, ProviderError>)
    ensures
        common::outcomes(r) == searched(model::views(rows@)),
{
    let ghost rv = model::views(rows@);
    let mut hits: Vec<SearchHit> = Vec::new();
    let mut i: usize = 0;
    assert(model::views(hits@) == found(rv.take(0)));
    while i < rows.len()
        invariant
            i <= rows@.len(),
            rv == model::views(rows@),
            model::views(hits@) == found(rv.take(i as int)),
        decreases rows@.len() - i,
    {
        assert(rv.take(i + 1).drop_last() == rv.take(i as int));
        assert(rv.take(i + 1).last() == rows@[i as int]@);
        if let Some(hit) = read_hit(&rows[i]) {
            proof {
                model::lemma_views_push(hits@, hit);
            }
            hits.push(hit);
        }
        i += 1;
    }
    assert(rv.take(rv.len() as int) == rv);
    assert(model::views(hits@).len() == hits@.len());
    if hits.len() == 0 {
        Err(ProviderError::NotFound)
    } else {
        Ok(hits)
    }
}

/// The items of a search page.
fn read_search(doc: &scraper::Html) -> (r: Vec<SearchRow>)
    ensures
        model::views(r@) == search_rows(html::page_of(*doc)),
{
    let items = select(doc, "#content-list div.item[data-code]");
    let ghost rows = search_rows(html::page_of(*doc));
    let mut out: Vec<SearchRow> = Vec::new();
    let mut i: usize = 0;
    assert(html::nodes(items@).len() == items@.len());
    assert(model::views(out@) == rows.take(0));
    while i < items.len()
        invariant
            i <= items@.len(),
            html::nodes(items@) == html::matched(
                html::page_of(*doc),
                "#content-list div.item[data-code]"@,
            ),
            rows == search_rows(html::page_of(*doc)),
            rows.len() == items@.len(),
            model::views(out@) == rows.take(i as int),
        decreases items@.len() - i,
    {
        let el = &items[i];
        assert(html::nodes(items@)[i as int] == html::node_of(*el));
        let row = SearchRow {
            code: attr(el, "data-code"),
            onclick: attr(el, "onclick"),
            alt: attr_in(el, "img[alt]", "alt"),
            text: text_of(el),
        };
        assert(row@ == rows[i as int]);
        proof {
            model::lemma_views_push(out@, row);
        }
        out.push(row);
        assert(model::views(out@) == rows.take(i + 1));
        i += 1;
    }
    assert(rows.take(rows.len() as int) == rows);
    out
}

/// Reads a search page.
pub fn parse_search(html: &str) -> (r: Result<Vec<SearchHit>, ProviderError>)
    ensures
        common::outcomes(r) == searched(search_rows(html::document(html@))),
{
    let doc = parse_document(html);
    let rows = read_search(&doc);
    search_hits(&rows)
}

/// A row of a table: the texts of its heads and of its cells.
pub struct TableRow {
    pub heads: Vec<String>,
    pub cells: Vec<String>,
}

/// What a [`TableRow`] says.
pub struct TableRowView {
    pub heads: Seq<Seq<char>>,
    pub cells: Seq<Seq<char>>,
}

impl View for TableRow {
    type V = TableRowView;

    open spec fn view(&self) -> TableRowView {
        TableRowView { heads: model::texts(self.heads@), cells: model::texts(self.cells@) }
    }
}

/// The texts of the elements inside one that match a selector.
pub open spec fn texts_in(n: html::Node, css: Seq<char>) -> Seq<Seq<char>> {
    let ns = html::matched_in(n, css);
    Seq::new(ns.len(), |i: int| html::node_text(ns[i]))
}

/// The row that an element is.
pub open spec fn table_row(n: html::Node) -> TableRowView {
    TableRowView { heads: texts_in(n, "th"@), cells: texts_in(n, "td"@) }
}

/// The rows of the tables of a page.
pub open spec fn table_rows(page: html::Page) -> Seq<TableRowView> {
    let ns = html::matched(page, "tr"@);
    Seq::new(ns.len(), |i: int| table_row(ns[i]))
}

/// Whether a head says that the row has the package.
pub open spec fn names_package(heads: Seq<Seq<char>>) -> bool {
    exists|i: int|
        0 <= i < heads.len() && model::same_letters(#[trigger] heads[i], "Package Name"@)
}

/// The first cell that looks like a package id. The row holds an icon too.
pub open spec fn package_cell(cells: Seq<Seq<char>>) -> Option<Seq<char>>
    decreases cells.len(),
{
    if cells.len() == 0 {
        None
    } else if cells[0].contains('.') && !cells[0].contains(' ') {
        Some(cells[0])
    } else {
        package_cell(cells.skip(1))
    }
}

/// The package that rows name.
pub open spec fn package_row(rows: Seq<TableRowView>) -> Option<Seq<char>>
    decreases rows.len(),
{
    if rows.len() == 0 {
        None
    } else if names_package(rows[0].heads) && package_cell(rows[0].cells) is Some {
        package_cell(rows[0].cells)
    } else {
        package_row(rows.skip(1))
    }
}

/// Whether a head says that the row has the package.
fn has_package_head(heads: &Vec<String>) -> (r: bool)
    ensures
        r == names_package(model::texts(heads@)),
{
    let ghost hs = model::texts(heads@);
    let mut i: usize = 0;
    while i < heads.len()
        invariant
            i <= heads@.len(),
            hs == model::texts(heads@),
            forall|j: int| 0 <= j < i ==> !model::same_letters(#[trigger] hs[j], "Package Name"@),
        decreases heads@.len() - i,
    {
        if eq_ignore_ascii_case(heads[i].as_str(), "Package Name") {
            assert(model::same_letters(hs[i as int], "Package Name"@));
            return true;
        }
        i += 1;
    }
    false
}

/// The first cell that looks like a package id.
fn find_package_cell(cells: &Vec<String>) -> (r: Option<String>)
    ensures
        model::opt(r) == package_cell(model::texts(cells@)),
{
    let ghost cs = model::texts(cells@);
    let mut i: usize = 0;
    assert(cs.skip(0) == cs);
    while i < cells.len()
        invariant
            i <= cells@.len(),
            cs == model::texts(cells@),
            package_cell(cs) == package_cell(cs.skip(i as int)),
        decreases cells@.len() - i,
    {
        assert(cs.skip(i as int)[0] == cells@[i as int]@);
        assert(cs.skip(i as int).skip(1) == cs.skip(i + 1));
        if contains_char(cells[i].as_str(), '.') && !contains_char(cells[i].as_str(), ' ') {
            return Some(cells[i].clone());
        }
        i += 1;
    }
    None
}

/// The package that the rows of a page name.
pub fn package_in_rows(rows: &[TableRow]) -> (r: Option<String>)
    ensures
        model::opt(r) == package_row(model::views(rows@)),
{
    let ghost rv = model::views(rows@);
    let mut i: usize = 0;
    assert(rv.skip(0) == rv);
    while i < rows.len()
        invariant
            i <= rows@.len(),
            rv == model::views(rows@),
            package_row(rv) == package_row(rv.skip(i as int)),
        decreases rows@.len() - i,
    {
        assert(rv.skip(i as int)[0] == rows@[i as int]@);
        assert(rv.skip(i as int).skip(1) == rv.skip(i + 1));
        if has_package_head(&rows[i].heads) {
            if let Some(p) = find_package_cell(&rows[i].cells) {
                return Some(p);
            }
        }
        i += 1;
    }
    None
}

/// The texts of the elements inside one that match a selector.
fn read_texts(e: &scraper::ElementRef<'_>, css: &str) -> (r: Vec<String>)
    ensures
        model::texts(r@) == texts_in(html::node_of(*e), css@),
{
    let found = select_in(e, css);
    let ghost all = texts_in(html::node_of(*e), css@);
    let mut out: Vec<String> = Vec::new();
    let mut i: usize = 0;
    assert(html::nodes(found@).len() == found@.len());
    assert(model::texts(out@) == all.take(0));
    while i < found.len()
        invariant
            i <= found@.len(),
            html::nodes(found@) == html::matched_in(html::node_of(*e), css@),
            all == texts_in(html::node_of(*e), css@),
            all.len() == found@.len(),
            model::texts(out@) == all.take(i as int),
        decreases found@.len() - i,
    {
        assert(html::nodes(found@)[i as int] == html::node_of(found@[i as int]));
        let t = text_of(&found[i]);
        let ghost before = out@;
        let ghost tv = t@;
        out.push(t);
        assert(model::texts(out@) == model::texts(before).push(tv));
        assert(model::texts(out@) == all.take(i + 1));
        i += 1;
    }
    assert(all.take(all.len() as int) == all);
    out
}

/// The rows of the tables of a page.
fn read_rows(doc: &scraper::Html) -> (r: Vec<TableRow>)
    ensures
        model::views(r@) == table_rows(html::page_of(*doc)),
{
    let found = select(doc, "tr");
    let ghost rows = table_rows(html::page_of(*doc));
    let mut out: Vec<TableRow> = Vec::new();
    let mut i: usize = 0;
    assert(html::nodes(found@).len() == found@.len());
    assert(model::views(out@) == rows.take(0));
    while i < found.len()
        invariant
            i <= found@.len(),
            html::nodes(found@) == html::matched(html::page_of(*doc), "tr"@),
            rows == table_rows(html::page_of(*doc)),
            rows.len() == found@.len(),
            model::views(out@) == rows.take(i as int),
        decreases found@.len() - i,
    {
        let tr = &found[i];
        assert(html::nodes(found@)[i as int] == html::node_of(*tr));
        let row = TableRow { heads: read_texts(tr, "th"), cells: read_texts(tr, "td") };
        assert(row@ == rows[i as int]);
        proof {
            model::lemma_views_push(out@, row);
        }
        out.push(row);
        assert(model::views(out@) == rows.take(i + 1));
        i += 1;
    }
    assert(rows.take(rows.len() as int) == rows);
    out
}

/// The package that an app page is for.
pub fn app_package(html: &str) -> (r: Option<String>)
    ensures
        model::opt(r) == package_row(table_rows(html::document(html@))),
{
    let doc = parse_document(html);
    let rows = read_rows(&doc);
    package_in_rows(&rows)
}

/// A code, if it is a number.
pub open spec fn numeric(code: Option<Seq<char>>) -> Option<Seq<char>> {
    match code {
        Some(c) => if c.len() > 0 && model::all_digits(c) {
            Some(c)
        } else {
            None
        },
        None => None,
    }
}

/// The code on an app page.
pub open spec fn page_code(page: html::Page) -> Option<Seq<char>> {
    numeric(html::first_attribute_of(page, "[data-code]"@, "data-code"@))
}

/// A code, if it is a number.
pub fn numeric_code(code: Option<String>) -> (r: Option<String>)
    ensures
        model::opt(r) == numeric(model::opt(code)),
{
    match code {
        Some(c) => if !c.as_str().is_empty() && is_all_digits(c.as_str()) {
            Some(c)
        } else {
            None
        },
        None => None,
    }
}

/// The code on an app page, for where the search had none.
pub fn app_code(html: &str) -> (r: Option<String>)
    ensures
        model::opt(r) == page_code(html::document(html@)),
{
    let doc = parse_document(html);
    numeric_code(first_attr(&doc, "[data-code]", "data-code"))
}

/// A version of an app.
pub struct VersionRow {
    pub version: String,
    pub uploaded: Option<String>,
}

/// What a [`VersionRow`] says.
pub struct VersionRowView {
    pub version: Seq<char>,
    pub uploaded: Option<Seq<char>>,
}

impl View for VersionRow {
    type V = VersionRowView;

    open spec fn view(&self) -> VersionRowView {
        VersionRowView { version: self.version@, uploaded: model::opt(self.uploaded) }
    }
}

/// The text of a member of a JSON object.
pub open spec fn member_text(v: outside::Json, key: Seq<char>) -> Option<Seq<char>> {
    match outside::json_member(v, key) {
        Some(m) => outside::json_text(m),
        None => None,
    }
}

/// The version that an entry lists.
pub open spec fn listed_version(v: outside::Json) -> Option<VersionRowView> {
    match member_text(v, "version"@) {
        Some(version) => Some(
            VersionRowView { version, uploaded: member_text(v, "lastUpdate"@) },
        ),
        None => None,
    }
}

/// The versions that entries list.
pub open spec fn listed_versions(items: Seq<outside::Json>) -> Seq<VersionRowView>
    decreases items.len(),
{
    if items.len() == 0 {
        Seq::<VersionRowView>::empty()
    } else {
        let front = listed_versions(items.drop_last());
        match listed_version(items.last()) {
            Some(row) => front.push(row),
            None => front,
        }
    }
}

/// The entries of a list of versions.
pub open spec fn data_items(v: outside::Json) -> Option<Seq<outside::Json>> {
    match outside::json_member(v, "data"@) {
        Some(d) => outside::json_list(d),
        None => None,
    }
}

/// What a list of versions comes to.
pub open spec fn versions_found(parsed: Result<outside::Json, Seq<char>>) -> Result<
    Seq<VersionRowView>,
    named::ErrorView,
> {
    match parsed {
        Err(e) => Err(named::ErrorView::ParseError("versions json: "@ + e)),
        Ok(v) => match data_items(v) {
            None => Err(named::ErrorView::ParseError("versions json: no data array"@)),
            Some(items) => if listed_versions(items).len() == 0 {
                Err(named::ErrorView::NotFound)
            } else {
                Ok(listed_versions(items))
            },
        },
    }
}

/// The text of a member of a JSON object.
fn read_member(v: &serde_json::Value, key: &str) -> (r: Option<String>)
    ensures
        model::opt(r) == member_text(outside::json_of(*v), key@),
{
    match json_get(v, key) {
        Some(m) => json_str(m),
        None => None,
    }
}

/// What a parsed list of versions comes to.
pub fn version_rows(parsed: Result<serde_json::Value, String>) -> (r: Result<
    Vec<VersionRow>,
    ProviderError,
>)
    ensures
        common::outcomes(r) == versions_found(
            match parsed {
                Ok(v) => Ok(outside::json_of(v)),
                Err(e) => Err(e@),
            },
        ),
{
    let v = match parsed {
        Ok(v) => v,
        Err(e) => {
            let msg = plus("versions json: ", e.as_str());
            return Err(ProviderError::ParseError(msg));
        },
    };
    let data = match json_get(&v, "data") {
        Some(d) => json_items(d),
        None => None,
    };
    let items = match data {
        Some(items) => items,
        None => {
            return Err(ProviderError::ParseError("versions json: no data array".to_owned()));
        },
    };
    let ghost iv = data_items(outside::json_of(v))->0;
    let mut rows: Vec<VersionRow> = Vec::new();
    let mut i: usize = 0;
    assert(iv == Seq::new(items@.len(), |i: int| outside::json_of(items@[i])));
    assert(model::views(rows@) == listed_versions(iv.take(0)));
    while i < items.len()
        invariant
            i <= items@.len(),
            iv == Seq::new(items@.len(), |i: int| outside::json_of(items@[i])),
            model::views(rows@) == listed_versions(iv.take(i as int)),
        decreases items@.len() - i,
    {
        assert(iv.take(i + 1).drop_last() == iv.take(i as int));
        assert(iv.take(i + 1).last() == outside::json_of(items@[i as int]));
        if let Some(version) = read_member(&items[i], "version") {
            let row = VersionRow { version, uploaded: read_member(&items[i], "lastUpdate") };
            proof {
                model::lemma_views_push(rows@, row);
            }
            rows.push(row);
        }
        i += 1;
    }
    assert(iv.take(iv.len() as int) == iv);
    assert(model::views(rows@).len() == rows@.len());
    if rows.len() == 0 {
        Err(ProviderError::NotFound)
    } else {
        Ok(rows)
    }
}

/// Reads the JSON of `{base}/android/apps/{code}/versions/{n}`.
pub fn parse_versions_json(json: &str) -> (r: Result<Vec<VersionRow>, ProviderError>)
    ensures
        common::outcomes(r) == versions_found(outside::json_parsed(json@)),
{
    version_rows(json_parse(json))
}

/// Whether a segment of a package id says nothing of the app.
pub open spec fn is_generic(seg: Seq<char>) -> bool {
    let s = model::lowered(seg);
    s == "com"@ || s == "org"@ || s == "net"@ || s == "io"@ || s == "app"@ || s == "me"@ || s
        == "co"@ || s == "de"@ || s == "tv"@ || s == "fm"@ || s == "android"@ || s == "mobile"@ || s
        == "apps"@ || s == "free"@ || s == "the"@
}

/// Whether a segment of a package id says nothing of the app.
fn generic(seg: &str) -> (r: bool)
    ensures
        r == is_generic(seg@),
{
    let s = to_ascii_lowercase(seg);
    let s = s.as_str();
    same(s, "com") || same(s, "org") || same(s, "net") || same(s, "io") || same(s, "app") || same(
        s,
        "me",
    ) || same(s, "co") || same(s, "de") || same(s, "tv") || same(s, "fm") || same(s, "android")
        || same(s, "mobile") || same(s, "apps") || same(s, "free") || same(s, "the")
}

/// The length of a text in bytes.
pub open spec fn byte_len(s: Seq<char>) -> nat {
    vstd::utf8::encode_utf8(s).len()
}

/// The segments that say something of the app.
pub open spec fn telling(segs: Seq<Seq<char>>) -> Seq<Seq<char>>
    decreases segs.len(),
{
    if segs.len() == 0 {
        Seq::<Seq<char>>::empty()
    } else {
        let front = telling(segs.drop_last());
        if !is_generic(segs.last()) && byte_len(segs.last()) > 1 {
            front.push(segs.last())
        } else {
            front
        }
    }
}

/// The segments of a package id that say something of the app.
pub open spec fn telling_in(pkg: Seq<char>) -> Seq<Seq<char>> {
    telling(model::pieces(pkg, Class::One('.')))
}

/// The sort keys that put long texts first.
pub open spec fn length_keys(segs: Seq<Seq<char>>) -> Seq<(u128, u128)> {
    Seq::new(segs.len(), |i: int| ((usize::MAX - byte_len(segs[i])) as u128, 0u128))
}

/// The segments, the longest first; equally long ones in their order.
pub open spec fn longest_first(segs: Seq<Seq<char>>) -> Seq<Seq<char>> {
    order::arranged(segs, order::ranking(length_keys(segs)))
}

/// `out` and behind it the members of `more` that are not yet there.
pub open spec fn with_new(out: Seq<Seq<char>>, more: Seq<Seq<char>>) -> Seq<Seq<char>>
    decreases more.len(),
{
    if more.len() == 0 {
        out
    } else {
        let front = with_new(out, more.drop_last());
        if front.contains(more.last()) {
            front
        } else {
            front.push(more.last())
        }
    }
}

/// The terms to search for a package: its telling segments, together where there
/// are several and then one by one, the longest first; else the whole id.
pub open spec fn terms(pkg: Seq<char>) -> Seq<Seq<char>> {
    let segs = telling_in(pkg);
    let first = if segs.len() > 1 {
        seq![model::joined(segs, " "@)]
    } else {
        Seq::<Seq<char>>::empty()
    };
    let all = with_new(first, longest_first(segs));
    if all.len() == 0 {
        seq![pkg]
    } else {
        all
    }
}

/// The length of a text in bytes.
fn bytes_of(s: &str) -> (r: usize)
    ensures
        r == byte_len(s@),
{
    s.as_bytes().len()
}

/// The segments of a package id that say something of the app.
fn telling_segments(pkg: &str) -> (r: Vec<String>)
    ensures
        model::texts(r@) == telling_in(pkg@),
{
    let parts = split_by(pkg, Class::One('.'));
    let ghost ps = model::texts(parts@);
    let mut out: Vec<String> = Vec::new();
    let mut i: usize = 0;
    assert(model::texts(out@) == telling(ps.take(0)));
    while i < parts.len()
        invariant
            i <= parts@.len(),
            ps == model::texts(parts@),
            model::texts(out@) == telling(ps.take(i as int)),
        decreases parts@.len() - i,
    {
        assert(ps.take(i + 1).drop_last() == ps.take(i as int));
        assert(ps.take(i + 1).last() == parts@[i as int]@);
        if !generic(parts[i].as_str()) && bytes_of(parts[i].as_str()) > 1 {
            let ghost before = out@;
            out.push(parts[i].clone());
            assert(model::texts(out@) == model::texts(before).push(parts@[i as int]@));
        }
        i += 1;
    }
    assert(ps.take(ps.len() as int) == ps);
    out
}

/// The order that puts the longest first.
fn length_order(segs: &Vec<String>) -> (r: Vec<usize>)
    ensures
        r@ == order::ranking(length_keys(model::texts(segs@))),
        r@.len() == segs@.len(),
        forall|i: int| 0 <= i < r@.len() ==> (#[trigger] r@[i]) < segs@.len(),
{
    let ghost ss = model::texts(segs@);
    let ghost all = length_keys(ss);
    let mut keys: Vec<(u128, u128)> = Vec::new();
    let mut i: usize = 0;
    while i < segs.len()
        invariant
            i <= segs@.len(),
            ss == model::texts(segs@),
            all == length_keys(ss),
            keys@ == all.take(i as int),
        decreases segs@.len() - i,
    {
        let n: usize = bytes_of(segs[i].as_str());
        keys.push(((usize::MAX - n) as u128, 0));
        assert(keys@ == all.take(i + 1));
        i += 1;
    }
    assert(all.take(all.len() as int) == all);
    rank_order(&keys)
}

/// The terms to search for a package: `com.spotify.music` gives `spotify music`,
/// `spotify` and `music`.
pub fn search_terms(pkg: &str) -> (r: Vec<String>)
    ensures
        model::texts(r@) == terms(pkg@),
{
    let segs = telling_segments(pkg);
    let ghost ss = model::texts(segs@);
    let mut out: Vec<String> = Vec::new();
    if segs.len() > 1 {
        let both = join(&segs, " ");
        let ghost bv = both@;
        out.push(both);
        assert(model::texts(out@) == seq![bv]);
    } else {
        assert(model::texts(out@) == Seq::<Seq<char>>::empty());
    }
    let ghost first = model::texts(out@);
    let order = length_order(&segs);
    let ghost sorted = longest_first(ss);
    let mut i: usize = 0;
    assert(sorted.take(0) == Seq::<Seq<char>>::empty());
    while i < order.len()
        invariant
            i <= order@.len(),
            ss == model::texts(segs@),
            order@.len() == segs@.len(),
            forall|j: int| 0 <= j < order@.len() ==> (#[trigger] order@[j]) < segs@.len(),
            sorted == order::arranged(ss, order@),
            model::texts(out@) == with_new(first, sorted.take(i as int)),
        decreases order@.len() - i,
    {
        assert(sorted.take(i + 1).drop_last() == sorted.take(i as int));
        let k: usize = order[i];
        assert(sorted.take(i + 1).last() == segs@[k as int]@);
        if !listed(&out, segs[k].as_str()) {
            let ghost before = out@;
            out.push(segs[k].clone());
            assert(model::texts(out@) == model::texts(before).push(segs@[k as int]@));
        }
        i += 1;
    }
    assert(sorted.take(sorted.len() as int) == sorted);
    assert(model::texts(out@).len() == out@.len());
    if out.len() == 0 {
        out.push(pkg.to_owned());
        assert(model::texts(out@) == seq![pkg@]);
    }
    out
}

/// There is always a term to search for, and none is searched for twice.
pub proof fn lemma_terms(pkg: Seq<char>)
    ensures
        terms(pkg).len() > 0,
        forall|i: int, j: int|
            0 <= i < j < terms(pkg).len() ==> #[trigger] terms(pkg)[i] != #[trigger] terms(pkg)[j],
{
    let segs = telling_in(pkg);
    let first = if segs.len() > 1 {
        seq![model::joined(segs, " "@)]
    } else {
        Seq::<Seq<char>>::empty()
    };
    lemma_with_new(first, longest_first(segs));
}

/// Nothing that is added is there twice.
proof fn lemma_with_new(out: Seq<Seq<char>>, more: Seq<Seq<char>>)
    requires
        forall|i: int, j: int| 0 <= i < j < out.len() ==> #[trigger] out[i] != #[trigger] out[j],
    ensures
        forall|i: int, j: int|
            0 <= i < j < with_new(out, more).len() ==> #[trigger] with_new(out, more)[i]
                != #[trigger] with_new(out, more)[j],
    decreases more.len(),
{
    if more.len() > 0 {
        lemma_with_new(out, more.drop_last());
        let front = with_new(out, more.drop_last());
        assert forall|i: int, j: int| 0 <= i < j < with_new(out, more).len() implies #[trigger] with_new(
            out,
            more,
        )[i] != #[trigger] with_new(out, more)[j] by {
            if j == front.len() {
                assert(front.contains(front[i]));
            }
        }
    }
}

} // verus!
