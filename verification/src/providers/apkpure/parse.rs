//! The pages of APKPure.

use crate::common::contract;
use crate::common::contract::{Date, ProviderConst, ProviderError};
use crate::html;
use crate::html::{attr, first_attr, parse_document, select, text_in};
use crate::model;
use crate::model::Class;
use crate::providers::apkpure::ApkPure;
use crate::providers::scrape;
use crate::providers::scrape::{keep_present, not_found, parse_date};
use crate::strings::{
    alnum, chars, count_char, plus4, same, split_by, split_once, trim, trim_end_by,
};
use vstd::prelude::*;

verus! {

/// A URL on the site.
pub type Url = contract::Url<ApkPure>;

/// The host that serves the files: `{DL_URL}/b/{APK|XAPK}/{pkg}?versionCode={c}`
/// leads to the file.
pub const DL_URL: &'static str = "https://d.apkpure.com";

/// `href` as a URL on the site.
pub open spec fn site(href: Seq<char>) -> Seq<char> {
    contract::absolute(ApkPure::base(), href)
}

/// A version without its code: `2.6.2(20653)` is `2.6.2`.
pub open spec fn cleaned(v: Seq<char>) -> Seq<char> {
    match model::cut(model::stripped(v), "("@) {
        Some((name, _)) => if model::stripped(name).len() > 0 {
            model::stripped(name)
        } else {
            model::stripped(v)
        },
        None => model::stripped(v),
    }
}

/// A version without its code: `2.6.2(20653)` is `2.6.2`.
pub fn clean_version(v: &str) -> (r: String)
    ensures
        r@ == cleaned(v@),
{
    let t = trim(v);
    if let Some((name, _)) = split_once(t.as_str(), "(") {
        let name = trim(name.as_str());
        if !name.as_str().is_empty() {
            return name;
        }
    }
    t
}

/// A version that has a number before its code loses the code: there is no bracket
/// in what is left.
pub proof fn lemma_code_stripped(v: Seq<char>)
    requires
        model::cut(model::stripped(v), "("@) matches Some((name, _)) ==> model::stripped(
            name,
        ).len() > 0,
    ensures
        !cleaned(v).contains('('),
{
    let t = model::stripped(v);
    reveal_strlit("(");
    crate::strings::lemma_first_from(t, "("@, 0);
    match model::first(t, "("@) {
        Some(n) => {
            let name = t.take(n);
            assert forall|i: int| 0 <= i < name.len() implies name[i] != '(' by {
                if name[i] == '(' {
                    assert(t.subrange(i, i + 1) == "("@);
                    assert(model::occurs_at(t, "("@, i));
                }
            }
            lemma_stripped_within(name, '(');
        },
        None => {
            assert forall|i: int| 0 <= i < t.len() implies t[i] != '(' by {
                if t[i] == '(' {
                    assert(t.subrange(i, i + 1) == "("@);
                    assert(model::occurs_at(t, "("@, i));
                }
            }
        },
    }
}

/// What is stripped of a text adds no character to it.
proof fn lemma_stripped_within(s: Seq<char>, c: char)
    requires
        !s.contains(c),
    ensures
        !model::stripped(s).contains(c),
{
    lemma_start_within(s, c);
    lemma_end_within(model::trimmed_start(s, Class::Space), c);
}

/// Trimming the start adds no character.
proof fn lemma_start_within(s: Seq<char>, c: char)
    requires
        !s.contains(c),
    ensures
        !model::trimmed_start(s, Class::Space).contains(c),
    decreases s.len(),
{
    if s.len() > 0 && Class::Space.has(s[0]) {
        assert forall|i: int| 0 <= i < s.skip(1).len() implies s.skip(1)[i] != c by {
            assert(s[i + 1] != c);
        }
        lemma_start_within(s.skip(1), c);
    }
}

/// Trimming the end adds no character.
proof fn lemma_end_within(s: Seq<char>, c: char)
    requires
        !s.contains(c),
    ensures
        !model::trimmed_end(s, Class::Space).contains(c),
    decreases s.len(),
{
    if s.len() > 0 && Class::Space.has(s.last()) {
        assert forall|i: int| 0 <= i < s.drop_last().len() implies s.drop_last()[i] != c by {
            assert(s[i] != c);
        }
        lemma_end_within(s.drop_last(), c);
    }
}

/// Whether a segment looks like the package id `a.b.c`.
pub open spec fn package_shaped(seg: Seq<char>) -> bool {
    &&& model::count(seg, '.') >= 2
    &&& forall|i: int|
        0 <= i < seg.len() ==> model::is_alnum(#[trigger] seg[i]) || seg[i] == '.' || seg[i] == '_'
}

/// The package id that an address ends in.
pub open spec fn package_in(href: Seq<char>) -> Option<Seq<char>> {
    let seg = model::pieces(model::trimmed_end(href, Class::One('/')), Class::One('/')).last();
    if package_shaped(seg) {
        Some(seg)
    } else {
        None
    }
}

/// Whether a segment looks like the package id `a.b.c`.
fn looks_like_package(seg: &str) -> (r: bool)
    ensures
        r == package_shaped(seg@),
{
    if count_char(seg, '.') < 2 {
        return false;
    }
    let cs = chars(seg);
    let mut i: usize = 0;
    while i < cs.len()
        invariant
            i <= cs@.len(),
            cs@ == seg@,
            forall|j: int|
                0 <= j < i ==> model::is_alnum(#[trigger] seg@[j]) || seg@[j] == '.' || seg@[j]
                    == '_',
        decreases cs@.len() - i,
    {
        let c = cs[i];
        if !(alnum(c) || c == '.' || c == '_') {
            assert(!(model::is_alnum(seg@[i as int]) || seg@[i as int] == '.' || seg@[i as int]
                == '_'));
            return false;
        }
        i += 1;
    }
    true
}

/// The package id that an address ends in, where it looks like one.
pub fn package_from_href(href: &str) -> (r: Option<String>)
    ensures
        model::opt(r) == package_in(href@),
{
    let inner = trim_end_by(href, Class::One('/'));
    let segs = split_by(inner.as_str(), Class::One('/'));
    proof {
        crate::strings::lemma_pieces_len(inner@, Class::One('/'));
    }
    assert(model::texts(segs@).len() == segs@.len());
    let last: usize = segs.len() - 1;
    assert(model::texts(segs@).last() == segs@[last as int]@);
    if looks_like_package(segs[last].as_str()) {
        Some(segs[last].clone())
    } else {
        None
    }
}

/// An app that a search found.
pub struct SearchHit {
    pub package: String,
    pub title: String,
}

impl View for SearchHit {
    type V = contract::AppView;

    open spec fn view(&self) -> contract::AppView {
        contract::AppView { package: self.package@, title: self.title@ }
    }
}

/// A link of the search page: its address and the heading inside it.
pub struct SearchRow {
    pub href: Option<String>,
    pub heading: Option<String>,
}

/// What a [`SearchRow`] says.
pub struct SearchRowView {
    pub href: Option<Seq<char>>,
    pub heading: Option<Seq<char>>,
}

impl View for SearchRow {
    type V = SearchRowView;

    open spec fn view(&self) -> SearchRowView {
        SearchRowView { href: model::opt(self.href), heading: model::opt(self.heading) }
    }
}

/// The link that an element of the search page is.
pub open spec fn search_row(n: html::Node) -> SearchRowView {
    SearchRowView {
        href: html::attribute(n, "href"@),
        heading: html::first_text(n, "p.p1"@),
    }
}

/// The links of a search page.
pub open spec fn search_rows(page: html::Page) -> Seq<SearchRowView> {
    let ns = html::matched(page, "a[href*=\"apkpure.com/\"]"@);
    Seq::new(ns.len(), |i: int| search_row(ns[i]))
}

/// Whether a package is among the hits.
pub open spec fn known(hits: Seq<contract::AppView>, package: Seq<char>) -> bool {
    exists|i: int| 0 <= i < hits.len() && (#[trigger] hits[i]).package == package
}

/// The app that a link leads to.
pub open spec fn candidate(row: SearchRowView) -> Option<contract::AppView> {
    match row.href {
        Some(href) => match package_in(href) {
            Some(package) => match row.heading {
                Some(title) => if title.len() > 0 {
                    Some(contract::AppView { package, title })
                } else {
                    None
                },
                None => None,
            },
            None => None,
        },
        None => None,
    }
}

/// The apps that the links of a search page lead to, each package once.
pub open spec fn found(rows: Seq<SearchRowView>) -> Seq<contract::AppView>
    decreases rows.len(),
{
    if rows.len() == 0 {
        Seq::<contract::AppView>::empty()
    } else {
        let front = found(rows.drop_last());
        match candidate(rows.last()) {
            Some(hit) => if known(front, hit.package) {
                front
            } else {
                front.push(hit)
            },
            None => front,
        }
    }
}

/// What a search comes to.
pub open spec fn searched(rows: Seq<SearchRowView>) -> Result<
    Seq<contract::AppView>,
    contract::ErrorView,
> {
    if found(rows).len() == 0 {
        Err(contract::ErrorView::NotFound("search returned nothing"@))
    } else {
        Ok(found(rows))
    }
}

/// Whether a package is among the hits.
fn is_known(hits: &[SearchHit], package: &str) -> (r: bool)
    ensures
        r == known(model::views(hits@), package@),
{
    let mut i: usize = 0;
    while i < hits.len()
        invariant
            i <= hits@.len(),
            forall|j: int| 0 <= j < i ==> hits@[j].package@ != package@,
        decreases hits@.len() - i,
    {
        if same(hits[i].package.as_str(), package) {
            assert(model::views(hits@)[i as int].package == package@);
            return true;
        }
        i += 1;
    }
    false
}

/// The app that a link leads to.
fn read_hit(row: &SearchRow) -> (r: Option<SearchHit>)
    ensures
        (match r {
            Some(h) => Some(h@),
            None => None,
        }) == candidate(row@),
{
    if let Some(href) = &row.href {
        if let Some(package) = package_from_href(href.as_str()) {
            if let Some(title) = &row.heading {
                if !title.as_str().is_empty() {
                    return Some(SearchHit { package, title: title.clone() });
                }
            }
        }
    }
    None
}

/// The apps that the links of a search page lead to, each package once.
pub fn search_hits(rows: &[SearchRow]) -> (r: Result<Vec<SearchHit>, ProviderError>)
    ensures
        contract::outcomes(r) == searched(model::views(rows@)),
{
    let ghost rv = model::views(rows@);
    let mut hits: Vec<SearchHit> = Vec::new();
    let mut i: usize = 0;
    assert(model::views(hits@) == found(rv.take(0)));
    while i < rows.len()
        invariant
            i <= rows@.len(),
            rv == model::views(rows@),
            model::views(hits@) == found(rv.take(i as int)),
        decreases rows@.len() - i,
    {
        assert(rv.take(i + 1).drop_last() == rv.take(i as int));
        assert(rv.take(i + 1).last() == rows@[i as int]@);
        if let Some(hit) = read_hit(&rows[i]) {
            if !is_known(&hits, hit.package.as_str()) {
                proof {
                    model::lemma_views_push(hits@, hit);
                }
                hits.push(hit);
            }
        }
        i += 1;
    }
    assert(rv.take(rv.len() as int) == rv);
    assert(model::views(hits@).len() == hits@.len());
    if hits.len() == 0 {
        Err(not_found("search returned nothing"))
    } else {
        Ok(hits)
    }
}

/// The links of a search page.
pub(crate) fn read_search(doc: &scraper::Html) -> (r: Vec<SearchRow>)
    ensures
        model::views(r@) == search_rows(html::page_of(*doc)),
{
    let links = select(doc, "a[href*=\"apkpure.com/\"]");
    let ghost rows = search_rows(html::page_of(*doc));
    let mut out: Vec<SearchRow> = Vec::new();
    let mut i: usize = 0;
    assert(html::nodes(links@).len() == links@.len());
    assert(model::views(out@) == rows.take(0));
    while i < links.len()
        invariant
            i <= links@.len(),
            html::nodes(links@) == html::matched(
                html::page_of(*doc),
                "a[href*=\"apkpure.com/\"]"@,
            ),
            rows == search_rows(html::page_of(*doc)),
            rows.len() == links@.len(),
            model::views(out@) == rows.take(i as int),
        decreases links@.len() - i,
    {
        let a = &links[i];
        assert(html::nodes(links@)[i as int] == html::node_of(*a));
        let row = SearchRow { href: attr(a, "href"), heading: text_in(a, "p.p1") };
        assert(row@ == rows[i as int]);
        proof {
            model::lemma_views_push(out@, row);
        }
        out.push(row);
        assert(model::views(out@) == rows.take(i + 1));
        i += 1;
    }
    assert(rows.take(rows.len() as int) == rows);
    out
}

/// Reads the page of `/search?q=...`: the match at its top and the rows of its
/// list.
pub fn parse_search(html: &str) -> (r: Result<Vec<SearchHit>, ProviderError>)
    ensures
        contract::outcomes(r) == searched(search_rows(html::document(html@))),
{
    let doc = parse_document(html);
    let rows = read_search(&doc);
    search_hits(&rows)
}

/// No package is found twice, and every title says something.
pub proof fn lemma_found_once(rows: Seq<SearchRowView>)
    ensures
        forall|i: int, j: int|
            0 <= i < j < found(rows).len() ==> (#[trigger] found(rows)[i]).package != (
            #[trigger] found(rows)[j]).package,
        forall|i: int|
            0 <= i < found(rows).len() ==> package_shaped((#[trigger] found(rows)[i]).package)
                && found(rows)[i].title.len() > 0,
    decreases rows.len(),
{
    if rows.len() > 0 {
        lemma_found_once(rows.drop_last());
        let front = found(rows.drop_last());
        assert forall|i: int, j: int| 0 <= i < j < found(rows).len() implies (
        #[trigger] found(rows)[i]).package != (#[trigger] found(rows)[j]).package by {
            assert(found(rows)[i] == front[i]);
            if j == front.len() && found(rows)[j].package == front[i].package {
                assert(known(front, found(rows)[j].package));
            }
        }
    }
}

/// A version of an app and the code to download it by.
pub struct VersionRow {
    pub version: String,
    /// The version code of the download.
    pub code: String,
    pub uploaded: Date,
}

/// What a [`VersionRow`] says.
pub struct VersionRowView {
    pub version: Seq<char>,
    pub code: Seq<char>,
    pub uploaded: Date,
}

impl View for VersionRow {
    type V = VersionRowView;

    open spec fn view(&self) -> VersionRowView {
        VersionRowView { version: self.version@, code: self.code@, uploaded: self.uploaded }
    }
}

/// An entry of the list of versions: its version, its code and its date.
pub struct VersionItem {
    pub version: Option<String>,
    pub code: Option<String>,
    pub date: Option<String>,
}

/// What a [`VersionItem`] says.
pub struct VersionItemView {
    pub version: Option<Seq<char>>,
    pub code: Option<Seq<char>>,
    pub date: Option<Seq<char>>,
}

impl View for VersionItem {
    type V = VersionItemView;

    open spec fn view(&self) -> VersionItemView {
        VersionItemView {
            version: model::opt(self.version),
            code: model::opt(self.code),
            date: model::opt(self.date),
        }
    }
}

/// The entry that an element of the list of versions is.
pub open spec fn version_item(n: html::Node) -> VersionItemView {
    VersionItemView {
        version: html::attribute(n, "data-dt-version"@),
        code: html::attribute(n, "data-dt-versioncode"@),
        date: html::first_text(n, "span.update-on"@),
    }
}

/// The entries of a page of versions.
pub open spec fn version_items(page: html::Page) -> Seq<VersionItemView> {
    let ns = html::matched(
        page,
        "div.ver_download_link[data-dt-version][data-dt-versioncode]"@,
    );
    Seq::new(ns.len(), |i: int| version_item(ns[i]))
}

/// The version and the code of an entry, where it has both.
pub open spec fn keyed(item: VersionItemView) -> Option<(Seq<char>, Seq<char>)> {
    match (item.version, item.code) {
        (Some(v), Some(c)) => if cleaned(v).len() > 0 && model::stripped(c).len() > 0 {
            Some((cleaned(v), model::stripped(c)))
        } else {
            None
        },
        _ => None,
    }
}

/// Whether a version is among the rows.
pub open spec fn has_version(rows: Seq<VersionRowView>, version: Seq<char>) -> bool {
    exists|i: int| 0 <= i < rows.len() && (#[trigger] rows[i]).version == version
}

/// The text of the date of an entry.
pub open spec fn date_part(item: VersionItemView) -> Seq<char> {
    match item.date {
        Some(t) => t,
        None => Seq::<char>::empty(),
    }
}

/// The date of an entry.
pub open spec fn item_date(item: VersionItemView) -> Option<Date> {
    scrape::dated(date_part(item), "%b %d, %Y"@)
}

/// The versions that entries list: those with a date, of each version the first
/// such entry. An entry without a date hides no other one.
pub open spec fn listed_versions(items: Seq<VersionItemView>) -> Seq<VersionRowView>
    decreases items.len(),
{
    if items.len() == 0 {
        Seq::<VersionRowView>::empty()
    } else {
        let front = listed_versions(items.drop_last());
        match keyed(items.last()) {
            Some((version, code)) => if has_version(front, version) {
                front
            } else {
                match item_date(items.last()) {
                    Some(uploaded) => front.push(VersionRowView { version, code, uploaded }),
                    None => front,
                }
            },
            None => front,
        }
    }
}

/// What a list of versions comes to.
pub open spec fn versions_found(items: Seq<VersionItemView>) -> Result<
    Seq<VersionRowView>,
    contract::ErrorView,
> {
    if listed_versions(items).len() == 0 {
        Err(contract::ErrorView::NotFound("no versions listed"@))
    } else {
        Ok(listed_versions(items))
    }
}

/// The version and the code of an entry, where it has both.
fn read_key(item: &VersionItem) -> (r: Option<(String, String)>)
    ensures
        (match r {
            Some((v, c)) => Some((v@, c@)),
            None => None,
        }) == keyed(item@),
{
    if let Some(v) = &item.version {
        if let Some(c) = &item.code {
            let version = clean_version(v.as_str());
            let code = trim(c.as_str());
            if !version.as_str().is_empty() && !code.as_str().is_empty() {
                return Some((version, code));
            }
        }
    }
    None
}

/// The date of an entry, or what is reported of it.
fn read_date(item: &VersionItem, version: &str) -> (r: Result<Date, String>)
    ensures
        match item_date(item@) {
            Some(d) => r == Ok::<Date, String>(d),
            None => r matches Err(e) && e@ == scrape::undated(
                "apkpure"@,
                version@,
                date_part(item@),
            ),
        },
{
    match &item.date {
        Some(t) => parse_date("apkpure", version, t.as_str(), "%b %d, %Y"),
        None => {
            let none = String::new();
            assert(none@ == Seq::<char>::empty());
            parse_date("apkpure", version, none.as_str(), "%b %d, %Y")
        },
    }
}

/// Whether a version is among the rows.
fn is_listed(rows: &[VersionRow], version: &str) -> (r: bool)
    ensures
        r == has_version(model::views(rows@), version@),
{
    let mut i: usize = 0;
    while i < rows.len()
        invariant
            i <= rows@.len(),
            forall|j: int| 0 <= j < i ==> rows@[j].version@ != version@,
        decreases rows@.len() - i,
    {
        if same(rows[i].version.as_str(), version) {
            assert(model::views(rows@)[i as int].version == version@);
            return true;
        }
        i += 1;
    }
    false
}

/// The versions that the entries list, and what is reported of the entries.
fn read_rows(items: &[VersionItem]) -> (r: (Vec<VersionRow>, Vec<Option<String>>))
    ensures
        model::views(r.0@) == listed_versions(model::views(items@)),
        model::opts(r.1@) == Seq::new(
            items@.len(),
            |i: int| complaint(model::views(items@), i),
        ),
{
    let ghost iv = model::views(items@);
    let ghost all = Seq::new(iv.len(), |i: int| complaint(iv, i));
    let mut rows: Vec<VersionRow> = Vec::new();
    let mut out: Vec<Option<String>> = Vec::new();
    let mut i: usize = 0;
    assert(model::views(rows@) == listed_versions(iv.take(0)));
    assert(model::opts(out@) == all.take(0));
    while i < items.len()
        invariant
            i <= items@.len(),
            iv == model::views(items@),
            all == Seq::new(iv.len(), |i: int| complaint(iv, i)),
            model::views(rows@) == listed_versions(iv.take(i as int)),
            model::opts(out@) == all.take(i as int),
        decreases items@.len() - i,
    {
        assert(iv.take(i + 1).drop_last() == iv.take(i as int));
        assert(iv.take(i + 1).last() == items@[i as int]@);
        let mut c: Option<String> = None;
        if let Some((version, code)) = read_key(&items[i]) {
            if !is_listed(&rows, version.as_str()) {
                match read_date(&items[i], version.as_str()) {
                    Ok(uploaded) => {
                        let row = VersionRow { version, code, uploaded };
                        proof {
                            model::lemma_views_push(rows@, row);
                        }
                        rows.push(row);
                    },
                    Err(e) => {
                        c = Some(e);
                    },
                }
            }
        }
        assert(model::opt(c) == complaint(iv, i as int));
        let ghost before = out@;
        out.push(c);
        assert(model::opts(out@) == model::opts(before).push(model::opt(c)));
        assert(model::opts(out@) == all.take(i + 1));
        i += 1;
    }
    assert(iv.take(iv.len() as int) == iv);
    assert(all.take(all.len() as int) == all);
    (rows, out)
}

/// The versions that the entries of a page list.
pub fn version_rows(items: &[VersionItem]) -> (r: Result<Vec<VersionRow>, ProviderError>)
    ensures
        contract::outcomes(r) == versions_found(model::views(items@)),
{
    let (rows, _) = read_rows(items);
    assert(model::views(rows@).len() == rows@.len());
    if rows.len() == 0 {
        Err(not_found("no versions listed"))
    } else {
        Ok(rows)
    }
}

/// What is reported of the entry at `i`: one of a version that is not listed yet,
/// with a date that cannot be read.
pub open spec fn complaint(items: Seq<VersionItemView>, i: int) -> Option<Seq<char>> {
    match keyed(items[i]) {
        Some((version, _)) => if !has_version(listed_versions(items.take(i)), version)
            && item_date(items[i]) is None {
            Some(scrape::undated("apkpure"@, version, date_part(items[i])))
        } else {
            None
        },
        None => None,
    }
}

/// What is reported of entries.
pub open spec fn complaints(items: Seq<VersionItemView>) -> Seq<Seq<char>> {
    scrape::present(Seq::new(items.len(), |i: int| complaint(items, i)))
}

/// What is reported of the entries of a page.
pub fn date_complaints(items: &[VersionItem]) -> (r: Vec<String>)
    ensures
        model::texts(r@) == complaints(model::views(items@)),
{
    let (_, out) = read_rows(items);
    assert(model::opts(out@) == Seq::new(
        model::views(items@).len(),
        |i: int| complaint(model::views(items@), i),
    ));
    keep_present(&out)
}

/// The entries of a page of versions.
pub(crate) fn read_versions(doc: &scraper::Html) -> (r: Vec<VersionItem>)
    ensures
        model::views(r@) == version_items(html::page_of(*doc)),
{
    let links = select(doc, "div.ver_download_link[data-dt-version][data-dt-versioncode]");
    let ghost items = version_items(html::page_of(*doc));
    let mut out: Vec<VersionItem> = Vec::new();
    let mut i: usize = 0;
    assert(html::nodes(links@).len() == links@.len());
    assert(model::views(out@) == items.take(0));
    while i < links.len()
        invariant
            i <= links@.len(),
            html::nodes(links@) == html::matched(
                html::page_of(*doc),
                "div.ver_download_link[data-dt-version][data-dt-versioncode]"@,
            ),
            items == version_items(html::page_of(*doc)),
            items.len() == links@.len(),
            model::views(out@) == items.take(i as int),
        decreases links@.len() - i,
    {
        let el = &links[i];
        assert(html::nodes(links@)[i as int] == html::node_of(*el));
        let item = VersionItem {
            version: attr(el, "data-dt-version"),
            code: attr(el, "data-dt-versioncode"),
            date: text_in(el, "span.update-on"),
        };
        assert(item@ == items[i as int]);
        proof {
            model::lemma_views_push(out@, item);
        }
        out.push(item);
        assert(model::views(out@) == items.take(i + 1));
        i += 1;
    }
    assert(items.take(items.len() as int) == items);
    out
}

/// Reads the page of `/x/{pkg}/versions`.
pub fn parse_versions(html: &str) -> (r: Result<Vec<VersionRow>, ProviderError>)
    ensures
        contract::outcomes(r) == versions_found(version_items(html::document(html@))),
{
    let doc = parse_document(html);
    let items = read_versions(&doc);
    version_rows(&items)
}

/// What is reported of a page of versions.
pub fn parse_complaints(html: &str) -> (r: Vec<String>)
    ensures
        model::texts(r@) == complaints(version_items(html::document(html@))),
{
    let doc = parse_document(html);
    let items = read_versions(&doc);
    date_complaints(&items)
}

/// No version is listed twice, and each has a number and a code.
pub proof fn lemma_versions_once(items: Seq<VersionItemView>)
    ensures
        forall|i: int, j: int|
            0 <= i < j < listed_versions(items).len() ==> (
            #[trigger] listed_versions(items)[i]).version != (
            #[trigger] listed_versions(items)[j]).version,
        forall|i: int|
            0 <= i < listed_versions(items).len() ==> (
            #[trigger] listed_versions(items)[i]).version.len() > 0
                && listed_versions(items)[i].code.len() > 0,
    decreases items.len(),
{
    if items.len() > 0 {
        let before = items.drop_last();
        lemma_versions_once(before);
        let front = listed_versions(before);
        assert forall|i: int, j: int| 0 <= i < j < listed_versions(items).len() implies (
        #[trigger] listed_versions(items)[i]).version != (
        #[trigger] listed_versions(items)[j]).version by {
            assert(listed_versions(items)[i] == front[i]);
            if j == front.len() && listed_versions(items)[j].version == front[i].version {
                assert(has_version(front, front[i].version));
            }
        }
    }
}

/// An entry with a number, a code and a date has its version listed, whatever stands
/// before it: only the entry whose date cannot be read is dropped, and that is
/// reported unless its version is listed already.
pub proof fn lemma_listed_or_reported(items: Seq<VersionItemView>, i: int)
    requires
        0 <= i < items.len(),
        keyed(items[i]) is Some,
    ensures
        item_date(items[i]) is Some ==> has_version(
            listed_versions(items),
            (keyed(items[i])->0).0,
        ),
        has_version(listed_versions(items), (keyed(items[i])->0).0) || complaints(items).contains(
            complaint(items, i)->0,
        ),
{
    let version = (keyed(items[i])->0).0;
    let upto = items.take(i + 1);
    assert(upto.drop_last() == items.take(i));
    assert(upto.last() == items[i]);
    let front = listed_versions(items.take(i));
    if has_version(front, version) {
        lemma_stays_listed(items, i, version);
    } else if item_date(items[i]) is Some {
        assert(listed_versions(upto).last().version == version);
        assert(listed_versions(upto)[front.len() as int].version == version);
        lemma_stays_listed(items, i + 1, version);
    } else {
        scrape::lemma_present(Seq::new(items.len(), |j: int| complaint(items, j)), i);
    }
}

/// A version that is listed stays listed.
proof fn lemma_stays_listed(items: Seq<VersionItemView>, n: int, version: Seq<char>)
    requires
        0 <= n <= items.len(),
        has_version(listed_versions(items.take(n)), version),
    ensures
        has_version(listed_versions(items), version),
    decreases items.len() - n,
{
    if n == items.len() {
        assert(items.take(n) == items);
    } else {
        assert(items.take(n + 1).drop_last() == items.take(n));
        let front = listed_versions(items.take(n));
        let k = choose|k: int| 0 <= k < front.len() && (#[trigger] front[k]).version == version;
        assert(listed_versions(items.take(n + 1))[k] == front[k]);
        lemma_stays_listed(items, n + 1, version);
    }
}

/// The latest version that markers give: that of the first marker that is there.
pub open spec fn latest_of(marker: Option<Seq<char>>) -> Option<Seq<char>> {
    match marker {
        Some(v) => if cleaned(v).len() > 0 {
            Some(cleaned(v))
        } else {
            None
        },
        None => None,
    }
}

/// The first version marker of an app page: that of the main button, else any.
pub open spec fn version_marker(page: html::Page) -> Option<Seq<char>> {
    match html::first_attribute_of(
        page,
        ".dt-main-download-btn[data-dt-version]"@,
        "data-dt-version"@,
    ) {
        Some(v) => Some(v),
        None => html::first_attribute_of(page, "[data-dt-version]"@, "data-dt-version"@),
    }
}

/// The latest version that a marker gives.
pub fn marked_version(marker: Option<&str>) -> (r: Option<String>)
    ensures
        model::opt(r) == latest_of(model::opt_str(marker)),
{
    match marker {
        Some(v) => {
            let t = clean_version(v);
            if t.as_str().is_empty() {
                None
            } else {
                Some(t)
            }
        },
        None => None,
    }
}

/// The latest version on an app page: that of the main download button, else of
/// the first element that has one.
pub fn latest_version(html: &str) -> (r: Option<String>)
    ensures
        model::opt(r) == latest_of(version_marker(html::document(html@))),
{
    let doc = parse_document(html);
    match first_attr(&doc, ".dt-main-download-btn[data-dt-version]", "data-dt-version") {
        Some(v) => marked_version(Some(v.as_str())),
        None => match first_attr(&doc, "[data-dt-version]", "data-dt-version") {
            Some(v) => marked_version(Some(v.as_str())),
            None => None,
        },
    }
}

/// Where the file of a package is served.
pub open spec fn file_url(pkg: Seq<char>, code: Option<Seq<char>>) -> Seq<char> {
    match code {
        Some(c) => DL_URL@ + "/b/APK/"@ + pkg + "?versionCode="@ + c,
        None => DL_URL@ + "/b/APK/"@ + pkg + "?version=latest"@,
    }
}

/// `{DL_URL}/b/APK/{pkg}?versionCode={code}`, or `?version=latest` without a code.
pub fn download_url(pkg: &str, code: Option<&str>) -> (r: String)
    ensures
        r@ == file_url(pkg@, model::opt_str(code)),
{
    match code {
        Some(c) => {
            let head = plus4(DL_URL, "/b/APK/", pkg, "?versionCode=");
            crate::strings::plus(head.as_str(), c)
        },
        None => plus4(DL_URL, "/b/APK/", pkg, "?version=latest"),
    }
}

} // verus!
