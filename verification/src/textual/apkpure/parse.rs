//! The pages of APKPure.

use crate::common::contract as common;
use crate::html;
use crate::html::{attr, parse_document, select, text_in};
use crate::model;
use crate::numbers::hex2_text;
use crate::providers::apkpure::parse;
use crate::providers::apkpure::parse::{clean_version, package_from_href};
use crate::strings::{alnum, chars, listed, plus4, same, trim};
use crate::textual::contract;
use crate::textual::contract::ProviderError;
use vstd::prelude::*;
use vstd::string::StringExecFns;

verus! {

/// The site.
pub const BASE_URL: &'static str = "https://apkpure.com";

/// The host that serves the files: `{DL_URL}/b/{APK|XAPK}/{pkg}?version={v}` leads
/// to the file.
pub const DL_URL: &'static str = "https://d.apkpure.com";

/// An app that a search found.
pub struct SearchHit {
    pub package: String,
    pub title: String,
    pub developer: Option<String>,
}

/// What a [`SearchHit`] says.
pub struct HitView {
    pub package: Seq<char>,
    pub title: Seq<char>,
    pub developer: Option<Seq<char>>,
}

impl View for SearchHit {
    type V = HitView;

    open spec fn view(&self) -> HitView {
        HitView {
            package: self.package@,
            title: self.title@,
            developer: model::opt(self.developer),
        }
    }
}

/// A link of the search page: its address, the heading inside it and the line
/// below that.
pub struct SearchRow {
    pub href: Option<String>,
    pub heading: Option<String>,
    pub below: Option<String>,
}

/// What a [`SearchRow`] says.
pub struct SearchRowView {
    pub href: Option<Seq<char>>,
    pub heading: Option<Seq<char>>,
    pub below: Option<Seq<char>>,
}

impl View for SearchRow {
    type V = SearchRowView;

    open spec fn view(&self) -> SearchRowView {
        SearchRowView {
            href: model::opt(self.href),
            heading: model::opt(self.heading),
            below: model::opt(self.below),
        }
    }
}

/// The link that an element of the search page is.
pub open spec fn search_row(n: html::Node) -> SearchRowView {
    SearchRowView {
        href: html::attribute(n, "href"@),
        heading: html::first_text(n, "p.p1"@),
        below: html::first_text(n, "p.p2"@),
    }
}

/// The links of a search page.
pub open spec fn search_rows(page: html::Page) -> Seq<SearchRowView> {
    let ns = html::matched(page, "a[href*=\"apkpure.com/\"]"@);
    Seq::new(ns.len(), |i: int| search_row(ns[i]))
}

/// A text, if there is anything to it.
pub open spec fn not_empty(t: Option<Seq<char>>) -> Option<Seq<char>> {
    match t {
        Some(s) => if s.len() > 0 {
            t
        } else {
            None
        },
        None => None,
    }
}

/// A text, if there is anything to it.
fn keep_text(t: &Option<String>) -> (r: Option<String>)
    ensures
        model::opt(r) == not_empty(model::opt(*t)),
{
    match t {
        Some(s) => if s.as_str().is_empty() {
            None
        } else {
            Some(s.clone())
        },
        None => None,
    }
}

/// The app that a link leads to.
pub open spec fn candidate(row: SearchRowView) -> Option<HitView> {
    match row.href {
        Some(href) => match parse::package_in(href) {
            Some(package) => match not_empty(row.heading) {
                Some(title) => Some(
                    HitView { package, title, developer: not_empty(row.below) },
                ),
                None => None,
            },
            None => None,
        },
        None => None,
    }
}

/// Whether a package is among the hits.
pub open spec fn known(hits: Seq<HitView>, package: Seq<char>) -> bool {
    exists|i: int| 0 <= i < hits.len() && (#[trigger] hits[i]).package == package
}

/// The apps that the links of a search page lead to, each package once.
pub open spec fn found(rows: Seq<SearchRowView>) -> Seq<HitView>
    decreases rows.len(),
{
    if rows.len() == 0 {
        Seq::<HitView>::empty()
    } else {
        let front = found(rows.drop_last());
        match candidate(rows.last()) {
            Some(hit) => if known(front, hit.package) {
                front
            } else {
                front.push(hit)
            },
            None => front,
        }
    }
}

/// What a search comes to.
pub open spec fn searched(rows: Seq<SearchRowView>) -> Result<Seq<HitView>, contract::ErrorView> {
    if found(rows).len() == 0 {
        Err(contract::ErrorView::NotFound("search returned nothing"@))
    } else {
        Ok(found(rows))
    }
}

/// Whether a package is among the hits.
fn is_known(hits: &[SearchHit], package: &str) -> (r: bool)
    ensures
        r == known(model::views(hits@), package@),
{
    let mut i: usize = 0;
    while i < hits.len()
        invariant
            i <= hits@.len(),
            forall|j: int| 0 <= j < i ==> hits@[j].package@ != package@,
        decreases hits@.len() - i,
    {
        if same(hits[i].package.as_str(), package) {
            assert(model::views(hits@)[i as int].package == package@);
            return true;
        }
        i += 1;
    }
    false
}

/// The app that a link leads to.
fn read_hit(row: &SearchRow) -> (r: Option<SearchHit>)
    ensures
        (match r {
            Some(h) => Some(h@),
            None => None,
        }) == candidate(row@),
{
    if let Some(href) = &row.href {
        if let Some(package) = package_from_href(href.as_str()) {
            if let Some(title) = keep_text(&row.heading) {
                return Some(SearchHit { package, title, developer: keep_text(&row.below) });
            }
        }
    }
    None
}

/// The apps that the links of a search page lead to, each package once.
pub fn search_hits(rows: &[SearchRow]) -> (r: Result<Vec<SearchHit>, ProviderError>)
    ensures
        common::outcomes(r) == searched(model::views(rows@)),
{
    let ghost rv = model::views(rows@);
    let mut hits: Vec<SearchHit> = Vec::new();
    let mut i: usize = 0;
    assert(model::views(hits@) == found(rv.take(0)));
    while i < rows.len()
        invariant
            i <= rows@.len(),
            rv == model::views(rows@),
            model::views(hits@) == found(rv.take(i as int)),
        decreases rows@.len() - i,
    {
        assert(rv.take(i + 1).drop_last() == rv.take(i as int));
        assert(rv.take(i + 1).last() == rows@[i as int]@);
        if let Some(hit) = read_hit(&rows[i]) {
            if !is_known(&hits, hit.package.as_str()) {
                proof {
                    model::lemma_views_push(hits@, hit);
                }
                hits.push(hit);
            }
        }
        i += 1;
    }
    assert(rv.take(rv.len() as int) == rv);
    assert(model::views(hits@).len() == hits@.len());
    if hits.len() == 0 {
        Err(ProviderError::NotFound("search returned nothing".to_owned()))
    } else {
        Ok(hits)
    }
}

/// The links of a search page.
fn read_search(doc: &scraper::Html) -> (r: Vec<SearchRow>)
    ensures
        model::views(r@) == search_rows(html::page_of(*doc)),
{
    let links = select(doc, "a[href*=\"apkpure.com/\"]");
    let ghost rows = search_rows(html::page_of(*doc));
    let mut out: Vec<SearchRow> = Vec::new();
    let mut i: usize = 0;
    assert(html::nodes(links@).len() == links@.len());
    assert(model::views(out@) == rows.take(0));
    while i < links.len()
        invariant
            i <= links@.len(),
            html::nodes(links@) == html::matched(
                html::page_of(*doc),
                "a[href*=\"apkpure.com/\"]"@,
            ),
            rows == search_rows(html::page_of(*doc)),
            rows.len() == links@.len(),
            model::views(out@) == rows.take(i as int),
        decreases links@.len() - i,
    {
        let a = &links[i];
        assert(html::nodes(links@)[i as int] == html::node_of(*a));
        let row = SearchRow {
            href: attr(a, "href"),
            heading: text_in(a, "p.p1"),
            below: text_in(a, "p.p2"),
        };
        assert(row@ == rows[i as int]);
        proof {
            model::lemma_views_push(out@, row);
        }
        out.push(row);
        assert(model::views(out@) == rows.take(i + 1));
        i += 1;
    }
    assert(rows.take(rows.len() as int) == rows);
    out
}

/// Reads the page of `/search?q=...`: the match at its top and the rows of its
/// list.
pub fn parse_search(html: &str) -> (r: Result<Vec<SearchHit>, ProviderError>)
    ensures
        common::outcomes(r) == searched(search_rows(html::document(html@))),
{
    let doc = parse_document(html);
    let rows = read_search(&doc);
    search_hits(&rows)
}

/// A version of an app.
pub struct VersionRow {
    pub version: String,
    pub version_code: Option<String>,
}

/// What a [`VersionRow`] says.
pub struct VersionRowView {
    pub version: Seq<char>,
    pub version_code: Option<Seq<char>>,
}

impl View for VersionRow {
    type V = VersionRowView;

    open spec fn view(&self) -> VersionRowView {
        VersionRowView { version: self.version@, version_code: model::opt(self.version_code) }
    }
}

/// An entry of the list of versions: its version and its code.
pub struct VersionItem {
    pub version: Option<String>,
    pub code: Option<String>,
}

/// What a [`VersionItem`] says.
pub struct VersionItemView {
    pub version: Option<Seq<char>>,
    pub code: Option<Seq<char>>,
}

impl View for VersionItem {
    type V = VersionItemView;

    open spec fn view(&self) -> VersionItemView {
        VersionItemView { version: model::opt(self.version), code: model::opt(self.code) }
    }
}

/// The entry that an element of the list of versions is.
pub open spec fn version_item(n: html::Node) -> VersionItemView {
    VersionItemView {
        version: html::attribute(n, "data-dt-version"@),
        code: html::attribute(n, "data-dt-versioncode"@),
    }
}

/// The entries of a page of versions.
pub open spec fn version_items(page: html::Page) -> Seq<VersionItemView> {
    let ns = html::matched(page, "div.ver_download_link[data-dt-version]"@);
    Seq::new(ns.len(), |i: int| version_item(ns[i]))
}

/// The version that an entry lists.
pub open spec fn listed_version(item: VersionItemView) -> Option<VersionRowView> {
    match item.version {
        Some(v) => if parse::cleaned(v).len() > 0 {
            Some(
                VersionRowView {
                    version: parse::cleaned(v),
                    version_code: match item.code {
                        Some(c) => not_empty(Some(model::stripped(c))),
                        None => None,
                    },
                },
            )
        } else {
            None
        },
        None => None,
    }
}

/// Whether a version is among the rows.
pub open spec fn has_version(rows: Seq<VersionRowView>, version: Seq<char>) -> bool {
    exists|i: int| 0 <= i < rows.len() && (#[trigger] rows[i]).version == version
}

/// The versions that entries list, each once.
pub open spec fn listed_versions(items: Seq<VersionItemView>) -> Seq<VersionRowView>
    decreases items.len(),
{
    if items.len() == 0 {
        Seq::<VersionRowView>::empty()
    } else {
        let front = listed_versions(items.drop_last());
        match listed_version(items.last()) {
            Some(row) => if has_version(front, row.version) {
                front
            } else {
                front.push(row)
            },
            None => front,
        }
    }
}

/// What a list of versions comes to.
pub open spec fn versions_found(items: Seq<VersionItemView>) -> Result<
    Seq<VersionRowView>,
    contract::ErrorView,
> {
    if listed_versions(items).len() == 0 {
        Err(contract::ErrorView::NotFound("no versions listed"@))
    } else {
        Ok(listed_versions(items))
    }
}

/// The version that an entry lists.
fn read_version(item: &VersionItem) -> (r: Option<VersionRow>)
    ensures
        (match r {
            Some(row) => Some(row@),
            None => None,
        }) == listed_version(item@),
{
    if let Some(v) = &item.version {
        let version = clean_version(v.as_str());
        if !version.as_str().is_empty() {
            let version_code = match &item.code {
                Some(c) => {
                    let t = trim(c.as_str());
                    if t.as_str().is_empty() {
                        None
                    } else {
                        Some(t)
                    }
                },
                None => None,
            };
            return Some(VersionRow { version, version_code });
        }
    }
    None
}

/// Whether a version is among the rows.
fn is_listed(rows: &[VersionRow], version: &str) -> (r: bool)
    ensures
        r == has_version(model::views(rows@), version@),
{
    let mut i: usize = 0;
    while i < rows.len()
        invariant
            i <= rows@.len(),
            forall|j: int| 0 <= j < i ==> rows@[j].version@ != version@,
        decreases rows@.len() - i,
    {
        if same(rows[i].version.as_str(), version) {
            assert(model::views(rows@)[i as int].version == version@);
            return true;
        }
        i += 1;
    }
    false
}

/// The versions that the entries of a page list, each once.
pub fn version_rows(items: &[VersionItem]) -> (r: Result<Vec<VersionRow>, ProviderError>)
    ensures
        common::outcomes(r) == versions_found(model::views(items@)),
{
    let ghost iv = model::views(items@);
    let mut rows: Vec<VersionRow> = Vec::new();
    let mut i: usize = 0;
    assert(model::views(rows@) == listed_versions(iv.take(0)));
    while i < items.len()
        invariant
            i <= items@.len(),
            iv == model::views(items@),
            model::views(rows@) == listed_versions(iv.take(i as int)),
        decreases items@.len() - i,
    {
        assert(iv.take(i + 1).drop_last() == iv.take(i as int));
        assert(iv.take(i + 1).last() == items@[i as int]@);
        if let Some(row) = read_version(&items[i]) {
            if !is_listed(&rows, row.version.as_str()) {
                proof {
                    model::lemma_views_push(rows@, row);
                }
                rows.push(row);
            }
        }
        i += 1;
    }
    assert(iv.take(iv.len() as int) == iv);
    assert(model::views(rows@).len() == rows@.len());
    if rows.len() == 0 {
        Err(ProviderError::NotFound("no versions listed".to_owned()))
    } else {
        Ok(rows)
    }
}

/// The entries of a page of versions.
fn read_versions(doc: &scraper::Html) -> (r: Vec<VersionItem>)
    ensures
        model::views(r@) == version_items(html::page_of(*doc)),
{
    let found = select(doc, "div.ver_download_link[data-dt-version]");
    let ghost items = version_items(html::page_of(*doc));
    let mut out: Vec<VersionItem> = Vec::new();
    let mut i: usize = 0;
    assert(html::nodes(found@).len() == found@.len());
    assert(model::views(out@) == items.take(0));
    while i < found.len()
        invariant
            i <= found@.len(),
            html::nodes(found@) == html::matched(
                html::page_of(*doc),
                "div.ver_download_link[data-dt-version]"@,
            ),
            items == version_items(html::page_of(*doc)),
            items.len() == found@.len(),
            model::views(out@) == items.take(i as int),
        decreases found@.len() - i,
    {
        let el = &found[i];
        assert(html::nodes(found@)[i as int] == html::node_of(*el));
        let item = VersionItem {
            version: attr(el, "data-dt-version"),
            code: attr(el, "data-dt-versioncode"),
        };
        assert(item@ == items[i as int]);
        proof {
            model::lemma_views_push(out@, item);
        }
        out.push(item);
        assert(model::views(out@) == items.take(i + 1));
        i += 1;
    }
    assert(items.take(items.len() as int) == items);
    out
}

/// Reads the page of `/x/{pkg}/versions`.
pub fn parse_versions(html: &str) -> (r: Result<Vec<VersionRow>, ProviderError>)
    ensures
        common::outcomes(r) == versions_found(version_items(html::document(html@))),
{
    let doc = parse_document(html);
    let items = read_versions(&doc);
    version_rows(&items)
}

/// Whether a character stands for itself in a query.
pub open spec fn unreserved(c: char) -> bool {
    model::is_alnum(c) || c == '.' || c == '-' || c == '_' || c == '~'
}

/// `s` with `%` and the hexadecimal code of the character for those that do not
/// stand for themselves.
pub open spec fn escaped(s: Seq<char>) -> Seq<char>
    decreases s.len(),
{
    if s.len() == 0 {
        Seq::<char>::empty()
    } else {
        let front = escaped(s.drop_last());
        if unreserved(s.last()) {
            front.push(s.last())
        } else {
            front.push('%') + model::hex2(s.last() as nat)
        }
    }
}

/// The code of a character.
fn char_code(c: char) -> (r: u32)
    ensures
        r as nat == c as nat,
{
    c as u32
}

/// `s` with its reserved characters escaped.
fn pct(s: &str) -> (r: String)
    ensures
        r@ == escaped(s@),
{
    let cs = chars(s);
    let mut out = String::new();
    let mut i: usize = 0;
    assert(out@ == escaped(s@.take(0)));
    while i < cs.len()
        invariant
            i <= cs@.len(),
            cs@ == s@,
            out@ == escaped(s@.take(i as int)),
        decreases cs@.len() - i,
    {
        assert(s@.take(i + 1).drop_last() == s@.take(i as int));
        let c = cs[i];
        if alnum(c) || c == '.' || c == '-' || c == '_' || c == '~' {
            out.push(c);
        } else {
            out.push('%');
            let code = hex2_text(char_code(c));
            out.append(code.as_str());
        }
        i += 1;
    }
    assert(s@.take(s@.len() as int) == s@);
    out
}

/// Where the file of a version is served.
pub open spec fn file_url(pkg: Seq<char>, version: Seq<char>) -> Seq<char> {
    DL_URL@ + "/b/APK/"@ + pkg + "?version="@ + escaped(version)
}

/// `{DL_URL}/b/APK/{pkg}?version={version}`; `latest` where the version is not
/// known.
pub fn download_url(pkg: &str, version: &str) -> (r: String)
    ensures
        r@ == file_url(pkg@, version@),
{
    let mut out = plus4(DL_URL, "/b/APK/", pkg, "?version=");
    let v = pct(version);
    out.append(v.as_str());
    out
}

/// A text without reserved characters stands for itself.
pub proof fn lemma_plain_version(s: Seq<char>)
    requires
        forall|i: int| 0 <= i < s.len() ==> unreserved(#[trigger] s[i]),
    ensures
        escaped(s) == s,
    decreases s.len(),
{
    if s.len() > 0 {
        let front = s.drop_last();
        assert forall|i: int| 0 <= i < front.len() implies unreserved(#[trigger] front[i]) by {
            assert(front[i] == s[i]);
        }
        lemma_plain_version(front);
        assert(unreserved(s[s.len() - 1]));
        assert(front.push(s.last()) == s);
    }
}

} // verus!
