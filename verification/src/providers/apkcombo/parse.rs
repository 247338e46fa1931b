//! The pages of APKCombo.

use crate::common::contract;
use crate::common::contract::{Arch, Date, ProviderConst, ProviderError};
use crate::html;
use crate::html::{attr, parse_document, parse_fragment, select, select_in, text_in, text_of};
use crate::model;
use crate::model::Class;
use crate::providers::apkcombo::ApkCombo;
use crate::providers::scrape;
use crate::providers::scrape::{
    arch_listed, keep_present, not_found, parse_date, parse_err, version_token, Variant,
};
use crate::strings::{
    chars, contains_char, eq_ignore_ascii_case, find, is_all_alnum, listed, part, same, split_by, split_once,
    trim, trim_by, trim_end_str,
};
use vstd::prelude::*;
use vstd::string::StringExecFns;

verus! {

/// A URL on the site.
pub type Url = contract::Url<ApkCombo>;

/// The build tag where the download page has none.
pub const FALLBACK_XID: &'static str = "01a1200x20240308";

/// The locale under which a package id leads to its page.
pub const LOOKUP_LOCALE: &'static str = "en";

/// `href` as a URL on the site.
pub open spec fn site(href: Seq<char>) -> Seq<char> {
    contract::absolute(ApkCombo::base(), href)
}

/// `{BASE}/{slug}/{pkg}/{tail}`.
pub open spec fn app_page(slug: Seq<char>, pkg: Seq<char>, tail: Seq<char>) -> Seq<char> {
    site(slug + "/"@ + pkg + "/"@ + tail)
}

/// `{BASE}/{slug}/{pkg}/{tail}`.
pub fn app_url(slug: &str, pkg: &str, tail: &str) -> (r: Url)
    ensures
        r@ == app_page(slug@, pkg@, tail@),
{
    let mut path = slug.to_owned();
    path.append("/");
    path.append(pkg);
    path.append("/");
    path.append(tail);
    contract::Url::of(path.as_str())
}

/// The `{slug}` of a canonical app URL `{BASE}/{slug}/{pkg}/`.
pub open spec fn slug_in(url: Seq<char>, pkg: Seq<char>) -> Option<Seq<char>> {
    match contract::path_below(ApkCombo::base(), url) {
        Some(path) => {
            let segs = model::pieces(path, Class::One('/'));
            if segs.len() == 2 && segs[1] == pkg && segs[0] != LOOKUP_LOCALE@ {
                Some(segs[0])
            } else {
                None
            }
        },
        None => None,
    }
}

/// The `{slug}` of a canonical app URL `{BASE}/{slug}/{pkg}/`. `None` where the
/// URL has another shape, or still the locale that was asked for.
pub fn slug_from_canonical_url(url: &Url, pkg: &str) -> (r: Option<String>)
    ensures
        model::opt(r) == slug_in(url@, pkg@),
{
    let path = match url.path() {
        Some(p) => p,
        None => {
            return None;
        },
    };
    let segs = split_by(path.as_str(), Class::One('/'));
    assert(model::texts(segs@).len() == segs@.len());
    if segs.len() == 2 {
        assert(model::texts(segs@)[0] == segs@[0]@);
        assert(model::texts(segs@)[1] == segs@[1]@);
        if same(segs[1].as_str(), pkg) && !same(segs[0].as_str(), LOOKUP_LOCALE) {
            return Some(segs[0].clone());
        }
    }
    None
}

/// An app that a search found.
pub struct SearchHit {
    pub package: String,
    pub title: String,
}

impl View for SearchHit {
    type V = contract::AppView;

    open spec fn view(&self) -> contract::AppView {
        contract::AppView { package: self.package@, title: self.title@ }
    }
}

/// A link of the search page: its address, its title and its text.
pub struct SearchRow {
    pub href: Option<String>,
    pub title: Option<String>,
    pub text: String,
}

/// What a [`SearchRow`] says.
pub struct SearchRowView {
    pub href: Option<Seq<char>>,
    pub title: Option<Seq<char>>,
    pub text: Seq<char>,
}

impl View for SearchRow {
    type V = SearchRowView;

    open spec fn view(&self) -> SearchRowView {
        SearchRowView {
            href: model::opt(self.href),
            title: model::opt(self.title),
            text: self.text@,
        }
    }
}

/// The link that an element of the search page is.
pub open spec fn search_row(n: html::Node) -> SearchRowView {
    SearchRowView {
        href: html::attribute(n, "href"@),
        title: html::attribute(n, "title"@),
        text: html::node_text(n),
    }
}

/// The links of a search page.
pub open spec fn search_rows(page: html::Page) -> Seq<SearchRowView> {
    let ns = html::matched(page, "a.l_item"@);
    Seq::new(ns.len(), |i: int| search_row(ns[i]))
}

/// The package id in an address `/{slug}/{package}/`.
pub open spec fn package_in(href: Seq<char>) -> Option<Seq<char>> {
    let segs = model::pieces(model::trimmed(href, Class::One('/')), Class::One('/'));
    if segs.len() == 2 && segs[1].contains('.') {
        Some(segs[1])
    } else {
        None
    }
}

/// The title of a link: its title without ` APK`, else its text.
pub open spec fn row_title(row: SearchRowView) -> Seq<char> {
    match row.title {
        Some(t) => {
            let short = model::stripped(model::without_suffix(t, " APK"@));
            if short.len() > 0 {
                short
            } else {
                row.text
            }
        },
        None => row.text,
    }
}

/// Whether a package is among the hits.
pub open spec fn known(hits: Seq<contract::AppView>, package: Seq<char>) -> bool {
    exists|i: int| 0 <= i < hits.len() && (#[trigger] hits[i]).package == package
}

/// The apps that the links of a search page lead to, each package once.
pub open spec fn found(rows: Seq<SearchRowView>) -> Seq<contract::AppView>
    decreases rows.len(),
{
    if rows.len() == 0 {
        Seq::<contract::AppView>::empty()
    } else {
        let front = found(rows.drop_last());
        match rows.last().href {
            Some(href) => match package_in(href) {
                Some(package) => if known(front, package) {
                    front
                } else {
                    front.push(contract::AppView { package, title: row_title(rows.last()) })
                },
                None => front,
            },
            None => front,
        }
    }
}

/// What a search comes to.
pub open spec fn searched(rows: Seq<SearchRowView>) -> Result<
    Seq<contract::AppView>,
    contract::ErrorView,
> {
    if found(rows).len() == 0 {
        Err(contract::ErrorView::NotFound("search returned nothing"@))
    } else {
        Ok(found(rows))
    }
}

/// The package id in an address `/{slug}/{package}/`.
fn package_from(href: &str) -> (r: Option<String>)
    ensures
        model::opt(r) == package_in(href@),
{
    let inner = trim_by(href, Class::One('/'));
    let segs = split_by(inner.as_str(), Class::One('/'));
    assert(model::texts(segs@).len() == segs@.len());
    if segs.len() == 2 {
        assert(model::texts(segs@)[1] == segs@[1]@);
        if contains_char(segs[1].as_str(), '.') {
            return Some(segs[1].clone());
        }
    }
    None
}

/// The title of a link: its title without ` APK`, else its text.
fn title_of(row: &SearchRow) -> (r: String)
    ensures
        r@ == row_title(row@),
{
    if let Some(t) = &row.title {
        let short = trim_end_str(t.as_str(), " APK");
        let short = trim(short.as_str());
        if !short.as_str().is_empty() {
            return short;
        }
    }
    row.text.clone()
}

/// The apps that the links of a search page lead to, each package once.
pub fn search_hits(rows: &[SearchRow]) -> (r: Result<Vec<SearchHit>, ProviderError>)
    ensures
        contract::outcomes(r) == searched(model::views(rows@)),
{
    let ghost rv = model::views(rows@);
    let mut hits: Vec<SearchHit> = Vec::new();
    let mut seen: Vec<String> = Vec::new();
    let mut i: usize = 0;
    assert(model::views(hits@) == found(rv.take(0)));
    while i < rows.len()
        invariant
            i <= rows@.len(),
            rv == model::views(rows@),
            model::views(hits@) == found(rv.take(i as int)),
            seen@.len() == hits@.len(),
            forall|j: int| 0 <= j < seen@.len() ==> #[trigger] seen@[j]@ == hits@[j].package@,
        decreases rows@.len() - i,
    {
        let ghost front = found(rv.take(i as int));
        assert(rv.take(i + 1).drop_last() == rv.take(i as int));
        assert(rv.take(i + 1).last() == rows@[i as int]@);
        let row = &rows[i];
        if let Some(href) = &row.href {
            if let Some(package) = package_from(href.as_str()) {
                let again = listed(&seen, package.as_str());
                assert(again == known(front, package@)) by {
                    if again {
                        let k = choose|k: int|
                            0 <= k < seen@.len() && model::texts(seen@)[k] == package@;
                        assert(seen@[k]@ == package@);
                        assert(front[k].package == package@);
                    }
                    if known(front, package@) {
                        let k = choose|k: int|
                            0 <= k < front.len() && (#[trigger] front[k]).package == package@;
                        assert(hits@[k]@ == front[k]);
                        assert(seen@[k]@ == package@);
                        assert(model::texts(seen@)[k] == package@);
                    }
                }
                if !again {
                    let title = title_of(row);
                    seen.push(package.clone());
                    let ghost old_hits = hits@;
                    hits.push(SearchHit { package, title });
                    assert(model::views(hits@) == model::views(old_hits).push(hits@.last()@));
                }
            }
        }
        i += 1;
    }
    assert(rv.take(rv.len() as int) == rv);
    assert(model::views(hits@).len() == hits@.len());
    if hits.len() == 0 {
        Err(not_found("search returned nothing"))
    } else {
        Ok(hits)
    }
}

/// The links of a search page.
pub(crate) fn read_search(doc: &scraper::Html) -> (r: Vec<SearchRow>)
    ensures
        model::views(r@) == search_rows(html::page_of(*doc)),
{
    let links = select(doc, "a.l_item");
    let ghost rows = search_rows(html::page_of(*doc));
    let mut out: Vec<SearchRow> = Vec::new();
    let mut i: usize = 0;
    assert(html::nodes(links@).len() == links@.len());
    while i < links.len()
        invariant
            i <= links@.len(),
            html::nodes(links@) == html::matched(html::page_of(*doc), "a.l_item"@),
            rows == search_rows(html::page_of(*doc)),
            rows.len() == links@.len(),
            model::views(out@) == rows.take(i as int),
        decreases links@.len() - i,
    {
        let a = &links[i];
        assert(html::nodes(links@)[i as int] == html::node_of(*a));
        let ghost before = out@;
        out.push(SearchRow { href: attr(a, "href"), title: attr(a, "title"), text: text_of(a) });
        assert(out@.last()@ == rows[i as int]);
        assert(model::views(out@) == model::views(before).push(out@.last()@));
        assert(model::views(out@) == rows.take(i + 1));
        i += 1;
    }
    assert(rows.take(rows.len() as int) == rows);
    out
}

/// Reads the page of `/search?q=...`.
pub fn parse_search(html: &str) -> (r: Result<Vec<SearchHit>, ProviderError>)
    ensures
        contract::outcomes(r) == searched(search_rows(html::document(html@))),
{
    let doc = parse_document(html);
    let rows = read_search(&doc);
    search_hits(&rows)
}

/// No package is found twice.
pub proof fn lemma_found_once(rows: Seq<SearchRowView>)
    ensures
        forall|i: int, j: int|
            0 <= i < j < found(rows).len() ==> (#[trigger] found(rows)[i]).package != (
            #[trigger] found(rows)[j]).package,
        forall|i: int| 0 <= i < found(rows).len() ==> (#[trigger] found(rows)[i]).package.contains('.'),
    decreases rows.len(),
{
    if rows.len() > 0 {
        lemma_found_once(rows.drop_last());
        let front = found(rows.drop_last());
        assert forall|i: int, j: int| 0 <= i < j < found(rows).len() implies (
        #[trigger] found(rows)[i]).package != (#[trigger] found(rows)[j]).package by {
            assert(found(rows)[i] == front[i]);
            if j == front.len() && found(rows)[j].package == front[i].package {
                assert(known(front, found(rows)[j].package));
            }
        }
    }
}

/// A version of an app and the page to download it from.
pub struct VersionRow {
    pub version: String,
    pub uploaded: Date,
    /// `/{slug}/{pkg}/download/phone-{version}-apk`
    pub download_page_url: Url,
}

/// What a [`VersionRow`] says.
pub struct VersionRowView {
    pub version: Seq<char>,
    pub uploaded: Date,
    pub download_page_url: Seq<char>,
}

impl View for VersionRow {
    type V = VersionRowView;

    open spec fn view(&self) -> VersionRowView {
        VersionRowView {
            version: self.version@,
            uploaded: self.uploaded,
            download_page_url: self.download_page_url@,
        }
    }
}

/// An entry of the list of versions: its address, its name and its description.
pub struct VersionItem {
    pub href: Option<String>,
    pub name: Option<String>,
    pub description: Option<String>,
}

/// What a [`VersionItem`] says.
pub struct VersionItemView {
    pub href: Option<Seq<char>>,
    pub name: Option<Seq<char>>,
    pub description: Option<Seq<char>>,
}

impl View for VersionItem {
    type V = VersionItemView;

    open spec fn view(&self) -> VersionItemView {
        VersionItemView {
            href: model::opt(self.href),
            name: model::opt(self.name),
            description: model::opt(self.description),
        }
    }
}

/// The entry that an element of the list of versions is.
pub open spec fn version_item(n: html::Node) -> VersionItemView {
    VersionItemView {
        href: html::attribute(n, "href"@),
        name: html::first_text(n, ".vername"@),
        description: html::first_text(n, ".description"@),
    }
}

/// The entries of a page of old versions.
pub open spec fn version_items(page: html::Page) -> Seq<VersionItemView> {
    let ns = html::matched(page, "ul.list-versions li a.ver-item"@);
    Seq::new(ns.len(), |i: int| version_item(ns[i]))
}

/// The version in a name that may be absent.
pub open spec fn named_version(name: Option<Seq<char>>) -> Seq<char> {
    match name {
        Some(t) => scrape::version_of(t),
        None => Seq::<char>::empty(),
    }
}

/// The text of a description up to the first `\u{b7}`.
pub open spec fn date_part(description: Option<Seq<char>>) -> Seq<char> {
    match description {
        Some(t) => model::pieces(t, Class::One('\u{b7}'))[0],
        None => Seq::<char>::empty(),
    }
}

/// The version that an entry lists; none without an address or a date.
pub open spec fn listed_version(item: VersionItemView) -> Option<VersionRowView> {
    match item.href {
        Some(href) => match scrape::dated(date_part(item.description), "%b %d, %Y"@) {
            Some(uploaded) => Some(
                VersionRowView {
                    version: named_version(item.name),
                    uploaded,
                    download_page_url: site(href),
                },
            ),
            None => None,
        },
        None => None,
    }
}

/// The versions that the entries list.
pub open spec fn listed_versions(items: Seq<VersionItemView>) -> Seq<VersionRowView>
    decreases items.len(),
{
    if items.len() == 0 {
        Seq::<VersionRowView>::empty()
    } else {
        let front = listed_versions(items.drop_last());
        match listed_version(items.last()) {
            Some(row) => front.push(row),
            None => front,
        }
    }
}

/// What a list of versions comes to.
pub open spec fn versions_found(items: Seq<VersionItemView>) -> Result<
    Seq<VersionRowView>,
    contract::ErrorView,
> {
    if listed_versions(items).len() == 0 {
        Err(contract::ErrorView::NotFound("no versions listed"@))
    } else {
        Ok(listed_versions(items))
    }
}

/// The version in a name that may be absent.
fn version_named(name: &Option<String>) -> (r: String)
    ensures
        r@ == named_version(model::opt(*name)),
{
    match name {
        Some(t) => version_token(t.as_str()),
        None => {
            let out = String::new();
            assert(out@ == Seq::<char>::empty());
            out
        },
    }
}

/// The text of a description up to the first `\u{b7}`.
fn date_text(description: &Option<String>) -> (r: String)
    ensures
        r@ == date_part(model::opt(*description)),
{
    match description {
        Some(t) => {
            let parts = split_by(t.as_str(), Class::One('\u{b7}'));
            proof {
                crate::strings::lemma_pieces_len(t@, Class::One('\u{b7}'));
            }
            assert(model::texts(parts@)[0] == parts@[0]@);
            parts[0].clone()
        },
        None => {
            let out = String::new();
            assert(out@ == Seq::<char>::empty());
            out
        },
    }
}

/// The version that an entry lists.
fn read_version(item: &VersionItem) -> (r: Option<VersionRow>)
    ensures
        (match r {
            Some(row) => Some(row@),
            None => None,
        }) == listed_version(item@),
{
    let href = match &item.href {
        Some(h) => h,
        None => {
            return None;
        },
    };
    let version = version_named(&item.name);
    let date = date_text(&item.description);
    match parse_date("apkcombo", version.as_str(), date.as_str(), "%b %d, %Y") {
        Ok(uploaded) => Some(
            VersionRow {
                version,
                uploaded,
                download_page_url: contract::Url::of(href.as_str()),
            },
        ),
        Err(_) => None,
    }
}

/// What is reported of an entry: one with an address whose date cannot be read.
pub open spec fn complaint(item: VersionItemView) -> Option<Seq<char>> {
    let date = date_part(item.description);
    if item.href is Some && scrape::dated(date, "%b %d, %Y"@) is None {
        Some(scrape::undated("apkcombo"@, named_version(item.name), date))
    } else {
        None
    }
}

/// What is reported of entries.
pub open spec fn complaints(items: Seq<VersionItemView>) -> Seq<Seq<char>> {
    scrape::present(Seq::new(items.len(), |i: int| complaint(items[i])))
}

/// What is reported of an entry.
fn complain(item: &VersionItem) -> (r: Option<String>)
    ensures
        model::opt(r) == complaint(item@),
{
    if item.href.is_none() {
        return None;
    }
    let version = version_named(&item.name);
    let date = date_text(&item.description);
    match parse_date("apkcombo", version.as_str(), date.as_str(), "%b %d, %Y") {
        Ok(_) => None,
        Err(e) => Some(e),
    }
}

/// What is reported of the entries of a page.
pub fn date_complaints(items: &[VersionItem]) -> (r: Vec<String>)
    ensures
        model::texts(r@) == complaints(model::views(items@)),
{
    let ghost iv = model::views(items@);
    let ghost all = Seq::new(iv.len(), |i: int| complaint(iv[i]));
    let mut out: Vec<Option<String>> = Vec::new();
    let mut i: usize = 0;
    assert(model::opts(out@) == all.take(0));
    while i < items.len()
        invariant
            i <= items@.len(),
            iv == model::views(items@),
            all == Seq::new(iv.len(), |i: int| complaint(iv[i])),
            model::opts(out@) == all.take(i as int),
        decreases items@.len() - i,
    {
        let c = complain(&items[i]);
        let ghost before = out@;
        out.push(c);
        assert(model::opts(out@) == model::opts(before).push(model::opt(c)));
        assert(model::opts(out@) == all.take(i + 1));
        i += 1;
    }
    assert(all.take(all.len() as int) == all);
    keep_present(&out)
}

/// The versions that the entries of a page list.
pub fn version_rows(items: &[VersionItem]) -> (r: Result<Vec<VersionRow>, ProviderError>)
    ensures
        contract::outcomes(r) == versions_found(model::views(items@)),
{
    let ghost iv = model::views(items@);
    let mut rows: Vec<VersionRow> = Vec::new();
    let mut i: usize = 0;
    assert(model::views(rows@) == listed_versions(iv.take(0)));
    while i < items.len()
        invariant
            i <= items@.len(),
            iv == model::views(items@),
            model::views(rows@) == listed_versions(iv.take(i as int)),
        decreases items@.len() - i,
    {
        assert(iv.take(i + 1).drop_last() == iv.take(i as int));
        assert(iv.take(i + 1).last() == items@[i as int]@);
        if let Some(row) = read_version(&items[i]) {
            proof {
                model::lemma_views_push(rows@, row);
            }
            rows.push(row);
        }
        i += 1;
    }
    assert(iv.take(iv.len() as int) == iv);
    assert(model::views(rows@).len() == rows@.len());
    if rows.len() == 0 {
        Err(not_found("no versions listed"))
    } else {
        Ok(rows)
    }
}

/// The entries of a page of old versions.
pub(crate) fn read_versions(doc: &scraper::Html) -> (r: Vec<VersionItem>)
    ensures
        model::views(r@) == version_items(html::page_of(*doc)),
{
    let links = select(doc, "ul.list-versions li a.ver-item");
    let ghost items = version_items(html::page_of(*doc));
    let mut out: Vec<VersionItem> = Vec::new();
    let mut i: usize = 0;
    assert(html::nodes(links@).len() == links@.len());
    assert(model::views(out@) == items.take(0));
    while i < links.len()
        invariant
            i <= links@.len(),
            html::nodes(links@) == html::matched(
                html::page_of(*doc),
                "ul.list-versions li a.ver-item"@,
            ),
            items == version_items(html::page_of(*doc)),
            items.len() == links@.len(),
            model::views(out@) == items.take(i as int),
        decreases links@.len() - i,
    {
        let a = &links[i];
        assert(html::nodes(links@)[i as int] == html::node_of(*a));
        let item = VersionItem {
            href: attr(a, "href"),
            name: text_in(a, ".vername"),
            description: text_in(a, ".description"),
        };
        assert(item@ == items[i as int]);
        proof {
            model::lemma_views_push(out@, item);
        }
        out.push(item);
        assert(model::views(out@) == items.take(i + 1));
        i += 1;
    }
    assert(items.take(items.len() as int) == items);
    out
}

/// Reads the page of old versions.
pub fn parse_versions(html: &str) -> (r: Result<Vec<VersionRow>, ProviderError>)
    ensures
        contract::outcomes(r) == versions_found(version_items(html::document(html@))),
{
    let doc = parse_document(html);
    let items = read_versions(&doc);
    version_rows(&items)
}

/// An entry that could be downloaded is listed, or it is reported why not.
pub proof fn lemma_listed_or_reported(items: Seq<VersionItemView>, i: int)
    requires
        0 <= i < items.len(),
        items[i].href is Some,
    ensures
        listed_version(items[i]) is Some || complaints(items).contains(complaint(items[i])->0),
{
    let all = Seq::new(items.len(), |j: int| complaint(items[j]));
    if complaint(items[i]) is Some {
        scrape::lemma_present(all, i);
    }
}

/// What is reported of the entries of a page of old versions.
pub fn parse_complaints(html: &str) -> (r: Vec<String>)
    ensures
        model::texts(r@) == complaints(version_items(html::document(html@))),
{
    let doc = parse_document(html);
    let items = read_versions(&doc);
    date_complaints(&items)
}

/// The build tag of a download page: what stands in quotes after `var xid`, if
/// that is letters and digits.
pub open spec fn xid_in(html: Seq<char>) -> Option<Seq<char>> {
    match model::first(html, "var xid"@) {
        Some(i) => match model::cut(html.skip(i), "\""@) {
            Some((_, rest)) => match model::cut(rest, "\""@) {
                Some((tag, _)) => if tag.len() > 0 && model::all_alnum(tag) {
                    Some(tag)
                } else {
                    None
                },
                None => None,
            },
            None => None,
        },
        None => None,
    }
}

/// The build tag `var xid = "..."` of a download page, else [`FALLBACK_XID`].
pub fn extract_xid(html: &str) -> (r: String)
    ensures
        r@ == (match xid_in(html@) {
            Some(tag) => tag,
            None => FALLBACK_XID@,
        }),
{
    if let Some(i) = find(html, "var xid") {
        let cs = chars(html);
        proof {
            crate::strings::lemma_first_from(html@, "var xid"@, 0);
        }
        let tail = part(&cs, i, cs.len());
        assert(tail@ == html@.skip(i as int));
        if let Some((_, rest)) = split_once(tail.as_str(), "\"") {
            if let Some((tag, _)) = split_once(rest.as_str(), "\"") {
                if !tag.as_str().is_empty() && is_all_alnum(tag.as_str()) {
                    return tag;
                }
            }
        }
    }
    FALLBACK_XID.to_owned()
}

/// The tag that a download page is answered with is never empty, and letters and
/// digits only.
pub proof fn lemma_xid(html: Seq<char>)
    ensures
        ({
            let tag = match xid_in(html) {
                Some(tag) => tag,
                None => FALLBACK_XID@,
            };
            tag.len() > 0 && model::all_alnum(tag)
        }),
{
    reveal_strlit("01a1200x20240308");
}

/// A file of the variant fragment: its address, its name and its type.
pub struct VariantItem {
    pub href: Option<String>,
    pub name: Option<String>,
    pub kind: Option<String>,
}

/// What a [`VariantItem`] says.
pub struct VariantItemView {
    pub href: Option<Seq<char>>,
    pub name: Option<Seq<char>>,
    pub kind: Option<Seq<char>>,
}

impl View for VariantItem {
    type V = VariantItemView;

    open spec fn view(&self) -> VariantItemView {
        VariantItemView {
            href: model::opt(self.href),
            name: model::opt(self.name),
            kind: model::opt(self.kind),
        }
    }
}

/// A group of files for the same ABIs.
pub struct VariantGroup {
    pub arch: Option<String>,
    pub items: Vec<VariantItem>,
}

/// What a [`VariantGroup`] says.
pub struct VariantGroupView {
    pub arch: Option<Seq<char>>,
    pub items: Seq<VariantItemView>,
}

impl View for VariantGroup {
    type V = VariantGroupView;

    open spec fn view(&self) -> VariantGroupView {
        VariantGroupView { arch: model::opt(self.arch), items: model::views(self.items@) }
    }
}

/// The file that an element of the fragment is.
pub open spec fn variant_item(n: html::Node) -> VariantItemView {
    VariantItemView {
        href: html::attribute(n, "href"@),
        name: html::first_text(n, ".vername"@),
        kind: html::first_text(n, ".vtype"@),
    }
}

/// The files of a group.
pub open spec fn variant_items(group: html::Node) -> Seq<VariantItemView> {
    let ns = html::matched_in(group, "ul.file-list li a.variant"@);
    Seq::new(ns.len(), |i: int| variant_item(ns[i]))
}

/// The group that an element of the fragment is.
pub open spec fn variant_group(n: html::Node) -> VariantGroupView {
    VariantGroupView {
        arch: html::first_text(n, "span.blur code, code.blur, span.blur"@),
        items: variant_items(n),
    }
}

/// The groups of a fragment.
pub open spec fn variant_groups(page: html::Page) -> Seq<VariantGroupView> {
    let ns = html::matched(page, ".content-tab .tree > ul > li"@);
    Seq::new(ns.len(), |i: int| variant_group(ns[i]))
}

/// The variants so far and the addresses that they were found under.
pub struct Collected {
    pub variants: Seq<scrape::VariantView>,
    pub hrefs: Seq<Seq<char>>,
}

/// The variant that a file is.
pub open spec fn variant_at(arch: Arch, item: VariantItemView, href: Seq<char>) -> scrape::VariantView {
    scrape::VariantView {
        version: named_version(item.name),
        arch,
        bundle: match item.kind {
            Some(t) => model::same_letters(t, "xapk"@),
            None => false,
        },
        url: site(href),
    }
}

/// The variants after the files of a group, each address once.
pub open spec fn with_items(acc: Collected, arch: Arch, items: Seq<VariantItemView>) -> Collected
    decreases items.len(),
{
    if items.len() == 0 {
        acc
    } else {
        let front = with_items(acc, arch, items.drop_last());
        match items.last().href {
            Some(href) => if front.hrefs.contains(href) {
                front
            } else {
                Collected {
                    variants: front.variants.push(variant_at(arch, items.last(), href)),
                    hrefs: front.hrefs.push(href),
                }
            },
            None => front,
        }
    }
}

/// The variants of the groups, each address once.
pub open spec fn collected(groups: Seq<VariantGroupView>) -> Collected
    decreases groups.len(),
{
    if groups.len() == 0 {
        Collected {
            variants: Seq::<scrape::VariantView>::empty(),
            hrefs: Seq::<Seq<char>>::empty(),
        }
    } else {
        with_items(
            collected(groups.drop_last()),
            scrape::listed_arch(groups.last().arch),
            groups.last().items,
        )
    }
}

/// No address is taken twice, and every variant stands under its own.
pub proof fn lemma_variants_once(groups: Seq<VariantGroupView>)
    ensures
        addressed(collected(groups)),
    decreases groups.len(),
{
    if groups.len() > 0 {
        lemma_variants_once(groups.drop_last());
        lemma_items_once(
            collected(groups.drop_last()),
            scrape::listed_arch(groups.last().arch),
            groups.last().items,
        );
    }
}

/// Whether no address occurs twice and each is that of the variant at its place.
pub open spec fn addressed(c: Collected) -> bool {
    &&& c.hrefs.no_duplicates()
    &&& c.variants.len() == c.hrefs.len()
    &&& forall|i: int| 0 <= i < c.hrefs.len() ==> c.variants[i].url == site(#[trigger] c.hrefs[i])
}

/// The files of a group take no address twice.
proof fn lemma_items_once(acc: Collected, arch: Arch, items: Seq<VariantItemView>)
    requires
        addressed(acc),
    ensures
        addressed(with_items(acc, arch, items)),
    decreases items.len(),
{
    if items.len() > 0 {
        lemma_items_once(acc, arch, items.drop_last());
    }
}

/// What a variant fragment comes to.
pub open spec fn variants_found(groups: Seq<VariantGroupView>) -> Result<
    Seq<scrape::VariantView>,
    contract::ErrorView,
> {
    if collected(groups).variants.len() == 0 {
        Err(contract::ErrorView::ParseError("no variants in download fragment"@))
    } else {
        Ok(collected(groups).variants)
    }
}

/// Adds the files of a group to the variants.
fn add_items(
    variants: &mut Vec<Variant>,
    seen: &mut Vec<String>,
    arch: Arch,
    items: &[VariantItem],
)
    ensures
        ({
            let before = Collected {
                variants: model::views(old(variants)@),
                hrefs: model::texts(old(seen)@),
            };
            let after = with_items(before, arch, model::views(items@));
            model::views(final(variants)@) == after.variants && model::texts(final(seen)@)
                == after.hrefs
        }),
{
    let ghost iv = model::views(items@);
    let ghost before = Collected {
        variants: model::views(variants@),
        hrefs: model::texts(seen@),
    };
    let mut i: usize = 0;
    assert(iv.take(0) == Seq::<VariantItemView>::empty());
    while i < items.len()
        invariant
            i <= items@.len(),
            iv == model::views(items@),
            model::views(variants@) == with_items(before, arch, iv.take(i as int)).variants,
            model::texts(seen@) == with_items(before, arch, iv.take(i as int)).hrefs,
        decreases items@.len() - i,
    {
        assert(iv.take(i + 1).drop_last() == iv.take(i as int));
        assert(iv.take(i + 1).last() == items@[i as int]@);
        let item = &items[i];
        if let Some(href) = &item.href {
            if !listed(seen, href.as_str()) {
                let bundle = match &item.kind {
                    Some(t) => eq_ignore_ascii_case(t.as_str(), "xapk"),
                    None => false,
                };
                let url: Url = contract::Url::of(href.as_str());
                let v = Variant {
                    version: version_named(&item.name),
                    arch,
                    bundle,
                    url: url.into_string(),
                };
                assert(v@ == variant_at(arch, item@, href@));
                let ghost old_seen = seen@;
                seen.push(href.clone());
                assert(model::texts(seen@) == model::texts(old_seen).push(href@));
                proof {
                    model::lemma_views_push(variants@, v);
                }
                variants.push(v);
            }
        }
        i += 1;
    }
    assert(iv.take(iv.len() as int) == iv);
}

/// The variants of the groups, each address once.
pub fn variant_list(groups: &[VariantGroup]) -> (r: Result<Vec<Variant>, ProviderError>)
    ensures
        contract::outcomes(r) == variants_found(model::views(groups@)),
{
    let ghost gv = model::views(groups@);
    let mut variants: Vec<Variant> = Vec::new();
    let mut seen: Vec<String> = Vec::new();
    let mut i: usize = 0;
    assert(model::views(variants@) == collected(gv.take(0)).variants);
    assert(model::texts(seen@) == collected(gv.take(0)).hrefs);
    while i < groups.len()
        invariant
            i <= groups@.len(),
            gv == model::views(groups@),
            model::views(variants@) == collected(gv.take(i as int)).variants,
            model::texts(seen@) == collected(gv.take(i as int)).hrefs,
        decreases groups@.len() - i,
    {
        assert(gv.take(i + 1).drop_last() == gv.take(i as int));
        assert(gv.take(i + 1).last() == groups@[i as int]@);
        let arch = arch_listed(&groups[i].arch);
        add_items(&mut variants, &mut seen, arch, &groups[i].items);
        i += 1;
    }
    assert(gv.take(gv.len() as int) == gv);
    assert(model::views(variants@).len() == variants@.len());
    if variants.len() == 0 {
        Err(parse_err("no variants in download fragment"))
    } else {
        Ok(variants)
    }
}

/// The files of a group.
fn read_items(group: &scraper::ElementRef<'_>) -> (r: Vec<VariantItem>)
    ensures
        model::views(r@) == variant_items(html::node_of(*group)),
{
    let links = select_in(group, "ul.file-list li a.variant");
    let ghost items = variant_items(html::node_of(*group));
    let mut out: Vec<VariantItem> = Vec::new();
    let mut i: usize = 0;
    assert(html::nodes(links@).len() == links@.len());
    assert(model::views(out@) == items.take(0));
    while i < links.len()
        invariant
            i <= links@.len(),
            html::nodes(links@) == html::matched_in(
                html::node_of(*group),
                "ul.file-list li a.variant"@,
            ),
            items == variant_items(html::node_of(*group)),
            items.len() == links@.len(),
            model::views(out@) == items.take(i as int),
        decreases links@.len() - i,
    {
        let a = &links[i];
        assert(html::nodes(links@)[i as int] == html::node_of(*a));
        let item = VariantItem {
            href: attr(a, "href"),
            name: text_in(a, ".vername"),
            kind: text_in(a, ".vtype"),
        };
        assert(item@ == items[i as int]);
        proof {
            model::lemma_views_push(out@, item);
        }
        out.push(item);
        assert(model::views(out@) == items.take(i + 1));
        i += 1;
    }
    assert(items.take(items.len() as int) == items);
    out
}

/// The groups of a fragment.
pub(crate) fn read_groups(doc: &scraper::Html) -> (r: Vec<VariantGroup>)
    ensures
        model::views(r@) == variant_groups(html::page_of(*doc)),
{
    // The recommended pick and the rest stand in two tabs with rows of one shape.
    let found = select(doc, ".content-tab .tree > ul > li");
    let ghost groups = variant_groups(html::page_of(*doc));
    let mut out: Vec<VariantGroup> = Vec::new();
    let mut i: usize = 0;
    assert(html::nodes(found@).len() == found@.len());
    assert(model::views(out@) == groups.take(0));
    while i < found.len()
        invariant
            i <= found@.len(),
            html::nodes(found@) == html::matched(
                html::page_of(*doc),
                ".content-tab .tree > ul > li"@,
            ),
            groups == variant_groups(html::page_of(*doc)),
            groups.len() == found@.len(),
            model::views(out@) == groups.take(i as int),
        decreases found@.len() - i,
    {
        let g = &found[i];
        assert(html::nodes(found@)[i as int] == html::node_of(*g));
        let group = VariantGroup {
            arch: text_in(g, "span.blur code, code.blur, span.blur"),
            items: read_items(g),
        };
        assert(group@ == groups[i as int]);
        proof {
            model::lemma_views_push(out@, group);
        }
        out.push(group);
        assert(model::views(out@) == groups.take(i + 1));
        i += 1;
    }
    assert(groups.take(groups.len() as int) == groups);
    out
}

/// Reads the variant fragment. [`Variant::url`] is the absolute form of the link
/// `/r2?u=<encoded signed URL>`.
pub fn parse_variants(fragment: &str) -> (r: Result<Vec<Variant>, ProviderError>)
    ensures
        contract::outcomes(r) == variants_found(variant_groups(html::snippet(fragment@))),
{
    let doc = parse_fragment(fragment);
    let groups = read_groups(&doc);
    variant_list(&groups)
}

/// `{r2_url}&{checkin}&package_name={pkg}&lang=en`.
pub open spec fn final_url(r2_url: Seq<char>, checkin: Seq<char>, pkg: Seq<char>) -> Seq<char> {
    r2_url + "&"@ + model::stripped(checkin) + "&package_name="@ + pkg + "&lang=en"@
}

/// `{r2_url}&{checkin}&package_name={pkg}&lang=en`, as the site's own script
/// completes the link.
pub fn final_download_url(r2_url: &str, checkin: &str, pkg: &str) -> (r: String)
    ensures
        r@ == final_url(r2_url@, checkin@, pkg@),
{
    let mut out = r2_url.to_owned();
    out.append("&");
    let token = trim(checkin);
    out.append(token.as_str());
    out.append("&package_name=");
    out.append(pkg);
    out.append("&lang=en");
    out
}

} // verus!
