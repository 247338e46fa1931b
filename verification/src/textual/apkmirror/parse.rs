//! The pages of APKMirror.

use crate::common::contract as common;
use crate::html;
use crate::html::{attr_in, first_attr, parse_document, select, select_in, text_in};
use crate::model;
use crate::model::Class;
use crate::providers::apkmirror::parse;
use crate::providers::apkmirror::parse::{read_rows, read_search, SearchRow, VariantRow};
use crate::strings::{
    contains, eq_ignore_ascii_case, listed, plus4, same, split_runs, strip_prefix,
    to_ascii_lowercase, trim,
};
use crate::textual::named;
use crate::textual::named::ProviderError;
use crate::textual::urls;
use crate::textual::urls::abs_from;
use vstd::prelude::*;
use vstd::string::StringExecFns;

verus! {

/// The site.
pub const BASE_URL: &'static str = "https://www.apkmirror.com";

/// `href` as a URL on the site.
pub open spec fn site(href: Seq<char>) -> Seq<char> {
    urls::seen_from(BASE_URL@, href)
}

/// `href` as a URL on the site.
pub fn abs(href: &str) -> (r: String)
    ensures
        r@ == site(href@),
{
    abs_from(BASE_URL, href)
}

/// A release that a search found.
pub struct SearchHit {
    pub title: String,
    /// The page of the release (absolute).
    pub release_url: String,
}

impl View for SearchHit {
    type V = parse::HitView;

    open spec fn view(&self) -> parse::HitView {
        parse::HitView { title: self.title@, release_url: self.release_url@ }
    }
}

/// The hits that links are; a link without an address is none.
pub open spec fn hits_of(rows: Seq<parse::SearchRowView>) -> Seq<parse::HitView>
    decreases rows.len(),
{
    if rows.len() == 0 {
        Seq::<parse::HitView>::empty()
    } else {
        let front = hits_of(rows.drop_last());
        match rows.last().href {
            Some(href) => front.push(
                parse::HitView { title: rows.last().title, release_url: site(href) },
            ),
            None => front,
        }
    }
}

/// What a search comes to.
pub open spec fn searched(rows: Seq<parse::SearchRowView>) -> Result<
    Seq<parse::HitView>,
    named::ErrorView,
> {
    if hits_of(rows).len() == 0 {
        Err(named::ErrorView::NotFound)
    } else {
        Ok(hits_of(rows))
    }
}

/// The hits that the links of a results page are, in the order of the page.
pub fn search_hits(rows: &[SearchRow]) -> (r: Result<Vec<SearchHit>, ProviderError>)
    ensures
        common::outcomes(r) == searched(model::views(rows@)),
        r matches Ok(hits) ==> hits@.len() > 0,
{
    let ghost rv = model::views(rows@);
    let mut hits: Vec<SearchHit> = Vec::new();
    let mut i: usize = 0;
    assert(model::views(hits@) == hits_of(rv.take(0)));
    while i < rows.len()
        invariant
            i <= rows@.len(),
            rv == model::views(rows@),
            model::views(hits@) == hits_of(rv.take(i as int)),
        decreases rows@.len() - i,
    {
        assert(rv.take(i + 1).drop_last() == rv.take(i as int));
        assert(rv.take(i + 1).last() == rows@[i as int]@);
        if let Some(href) = &rows[i].href {
            let hit = SearchHit { title: rows[i].title.clone(), release_url: abs(href.as_str()) };
            proof {
                model::lemma_views_push(hits@, hit);
            }
            hits.push(hit);
        }
        i += 1;
    }
    assert(rv.take(rv.len() as int) == rv);
    assert(model::views(hits@).len() == hits@.len());
    if hits.len() == 0 {
        Err(ProviderError::NotFound)
    } else {
        Ok(hits)
    }
}

/// Reads the results page of `/?post_type=app_release&s=...`, in the order of the
/// page. A page without results still shows a grid of other apps, so what counts
/// is what it says.
pub fn parse_search(html: &str) -> (r: Result<Vec<SearchHit>, ProviderError>)
    ensures
        common::outcomes(r) == searched(parse::search_rows(html@)),
        r matches Ok(hits) ==> hits@.len() > 0,
{
    let rows = read_search(html);
    search_hits(&rows)
}

/// `/apk/{org}/{repo}/...` as the page `/apk/{org}/{repo}/` (absolute).
pub open spec fn app_page_of(url: Seq<char>) -> Option<Seq<char>> {
    match model::after_prefix(url, BASE_URL@) {
        Some(path) => {
            let segs = model::runs(path, Class::One('/'));
            if segs.len() >= 3 && segs[0] == "apk"@ {
                Some(BASE_URL@ + "/apk/"@ + segs[1] + "/"@ + segs[2] + "/"@)
            } else {
                None
            }
        },
        None => None,
    }
}

/// `/apk/{org}/{repo}/{repo}-x-y-release/` as `/apk/{org}/{repo}/` (absolute).
pub fn app_page_from_release(release_url: &str) -> (r: Option<String>)
    ensures
        model::opt(r) == app_page_of(release_url@),
{
    let path = match strip_prefix(release_url, BASE_URL) {
        Some(p) => p,
        None => {
            return None;
        },
    };
    let segs = split_runs(path.as_str(), Class::One('/'));
    assert(model::texts(segs@).len() == segs@.len());
    if segs.len() >= 3 {
        assert(model::texts(segs@)[0] == segs@[0]@);
        assert(model::texts(segs@)[1] == segs@[1]@);
        assert(model::texts(segs@)[2] == segs@[2]@);
        if same(segs[0].as_str(), "apk") {
            let mut out = plus4(BASE_URL, "/apk/", segs[1].as_str(), "/");
            out.append(segs[2].as_str());
            out.append("/");
            return Some(out);
        }
    }
    None
}

/// A version of an app and its page.
pub struct VersionRow {
    pub title: String,
    pub version_page_url: String,
    /// The date as the page has it, such as `09/7/2026 02:34 UTC`.
    pub uploaded: Option<String>,
}

/// What a [`VersionRow`] says.
pub struct VersionRowView {
    pub title: Seq<char>,
    pub version_page_url: Seq<char>,
    pub uploaded: Option<Seq<char>>,
}

impl View for VersionRow {
    type V = VersionRowView;

    open spec fn view(&self) -> VersionRowView {
        VersionRowView {
            title: self.title@,
            version_page_url: self.version_page_url@,
            uploaded: model::opt(self.uploaded),
        }
    }
}

/// The first of the elements that holds the anchor of the list of all versions.
pub open spec fn anchored(ns: Seq<html::Node>) -> Option<html::Node>
    decreases ns.len(),
{
    if ns.len() == 0 {
        None
    } else if html::matched_in(ns[0], "a[name=\"all_versions\"]"@).len() > 0 {
        Some(ns[0])
    } else {
        anchored(ns.skip(1))
    }
}

/// The list of all versions on an app page.
pub open spec fn versions_widget(page: html::Page) -> Option<html::Node> {
    anchored(html::matched(page, "div.listWidget"@))
}

/// The entries of the list of all versions; `None` where the page has no list.
pub open spec fn version_items(page: html::Page) -> Option<Seq<parse::VersionItemView>> {
    match versions_widget(page) {
        Some(w) => {
            let ns = html::matched_in(w, "div.appRow"@);
            Some(Seq::new(ns.len(), |i: int| parse::version_item(ns[i])))
        },
        None => None,
    }
}

/// The version that an entry lists, if its title is a link.
pub open spec fn listed_version(item: parse::VersionItemView) -> Option<VersionRowView> {
    match (item.title, item.href) {
        (Some(title), Some(href)) => Some(
            VersionRowView {
                title,
                version_page_url: site(href),
                uploaded: match item.date {
                    Some(d) => Some(model::stripped(d)),
                    None => None,
                },
            },
        ),
        _ => None,
    }
}

/// The versions that entries list.
pub open spec fn listed_versions(items: Seq<parse::VersionItemView>) -> Seq<VersionRowView>
    decreases items.len(),
{
    if items.len() == 0 {
        Seq::<VersionRowView>::empty()
    } else {
        let front = listed_versions(items.drop_last());
        match listed_version(items.last()) {
            Some(row) => front.push(row),
            None => front,
        }
    }
}

/// What a list of versions comes to.
pub open spec fn versions_found(items: Option<Seq<parse::VersionItemView>>) -> Result<
    Seq<VersionRowView>,
    named::ErrorView,
> {
    match items {
        None => Err(named::ErrorView::ParseError("no 'all versions' widget on app page"@)),
        Some(items) => if listed_versions(items).len() == 0 {
            Err(named::ErrorView::NotFound)
        } else {
            Ok(listed_versions(items))
        },
    }
}

/// The version that an entry lists.
fn read_version(item: &parse::VersionItem) -> (r: Option<VersionRow>)
    ensures
        (match r {
            Some(row) => Some(row@),
            None => None,
        }) == listed_version(item@),
{
    if let Some(title) = &item.title {
        if let Some(href) = &item.href {
            let uploaded = match &item.date {
                Some(d) => Some(trim(d.as_str())),
                None => None,
            };
            return Some(
                VersionRow {
                    title: title.clone(),
                    version_page_url: abs(href.as_str()),
                    uploaded,
                },
            );
        }
    }
    None
}

/// The versions that the entries of a page list; without a list the page is not
/// what it should be.
pub fn version_rows(items: Option<&[parse::VersionItem]>) -> (r: Result<
    Vec<VersionRow>,
    ProviderError,
>)
    ensures
        common::outcomes(r) == versions_found(
            match items {
                Some(v) => Some(model::views(v@)),
                None => None,
            },
        ),
{
    let items = match items {
        Some(v) => v,
        None => {
            return Err(
                ProviderError::ParseError("no 'all versions' widget on app page".to_owned()),
            );
        },
    };
    let ghost iv = model::views(items@);
    let mut rows: Vec<VersionRow> = Vec::new();
    let mut i: usize = 0;
    assert(model::views(rows@) == listed_versions(iv.take(0)));
    while i < items.len()
        invariant
            i <= items@.len(),
            iv == model::views(items@),
            model::views(rows@) == listed_versions(iv.take(i as int)),
        decreases items@.len() - i,
    {
        assert(iv.take(i + 1).drop_last() == iv.take(i as int));
        assert(iv.take(i + 1).last() == items@[i as int]@);
        if let Some(row) = read_version(&items[i]) {
            proof {
                model::lemma_views_push(rows@, row);
            }
            rows.push(row);
        }
        i += 1;
    }
    assert(iv.take(iv.len() as int) == iv);
    assert(model::views(rows@).len() == rows@.len());
    if rows.len() == 0 {
        Err(ProviderError::NotFound)
    } else {
        Ok(rows)
    }
}

/// The list of all versions on an app page.
fn find_widget<'a>(doc: &'a scraper::Html) -> (r: Option<scraper::ElementRef<'a>>)
    ensures
        (match r {
            Some(e) => Some(html::node_of(e)),
            None => None,
        }) == versions_widget(html::page_of(*doc)),
{
    let mut found = select(doc, "div.listWidget");
    let ghost ns = html::nodes(found@);
    let mut i: usize = 0;
    assert(ns.skip(0) == ns);
    while i < found.len()
        invariant
            i <= found@.len(),
            ns == html::nodes(found@),
            ns == html::matched(html::page_of(*doc), "div.listWidget"@),
            anchored(ns) == anchored(ns.skip(i as int)),
        decreases found@.len() - i,
    {
        assert(ns.skip(i as int)[0] == html::node_of(found@[i as int]));
        assert(ns.skip(i as int).skip(1) == ns.skip(i + 1));
        let anchors = select_in(&found[i], "a[name=\"all_versions\"]");
        assert(html::nodes(anchors@).len() == anchors@.len());
        if anchors.len() > 0 {
            return Some(found.swap_remove(i));
        }
        i += 1;
    }
    None
}

/// The entries of the list of all versions.
fn read_versions(doc: &scraper::Html) -> (r: Option<Vec<parse::VersionItem>>)
    ensures
        (match r {
            Some(v) => Some(model::views(v@)),
            None => None,
        }) == version_items(html::page_of(*doc)),
{
    let w = match find_widget(doc) {
        Some(w) => w,
        None => {
            return None;
        },
    };
    let found = select_in(&w, "div.appRow");
    let ghost scope = html::node_of(w);
    let ghost items = version_items(html::page_of(*doc))->0;
    let mut out: Vec<parse::VersionItem> = Vec::new();
    let mut i: usize = 0;
    assert(html::nodes(found@).len() == found@.len());
    assert(model::views(out@) == items.take(0));
    while i < found.len()
        invariant
            i <= found@.len(),
            html::nodes(found@) == html::matched_in(scope, "div.appRow"@),
            items == Seq::new(
                html::matched_in(scope, "div.appRow"@).len(),
                |i: int| parse::version_item(html::matched_in(scope, "div.appRow"@)[i]),
            ),
            items.len() == found@.len(),
            model::views(out@) == items.take(i as int),
        decreases found@.len() - i,
    {
        let row = &found[i];
        assert(html::nodes(found@)[i as int] == html::node_of(*row));
        let item = parse::VersionItem {
            title: text_in(row, "h5.appRowTitle a.fontBlack"),
            href: attr_in(row, "h5.appRowTitle a.fontBlack", "href"),
            date: attr_in(row, "span.dateyear_utc", "data-utcdate"),
        };
        assert(item@ == items[i as int]);
        proof {
            model::lemma_views_push(out@, item);
        }
        out.push(item);
        assert(model::views(out@) == items.take(i + 1));
        i += 1;
    }
    assert(items.take(items.len() as int) == items);
    Some(out)
}

/// Reads the list of all versions on an app page.
pub fn parse_versions(html: &str) -> (r: Result<Vec<VersionRow>, ProviderError>)
    ensures
        common::outcomes(r) == versions_found(version_items(html::document(html@))),
{
    let doc = parse_document(html);
    match read_versions(&doc) {
        Some(items) => version_rows(Some(items.as_slice())),
        None => version_rows(None),
    }
}

/// One build that can be downloaded.
pub struct Variant {
    pub version: String,
    pub arch: String,
    /// `APK` or `BUNDLE`.
    pub kind: String,
    pub download_page_url: String,
}

/// What a [`Variant`] says.
pub struct VariantView {
    pub version: Seq<char>,
    pub arch: Seq<char>,
    pub kind: Seq<char>,
    pub download_page_url: Seq<char>,
}

impl View for Variant {
    type V = VariantView;

    open spec fn view(&self) -> VariantView {
        VariantView {
            version: self.version@,
            arch: self.arch@,
            kind: self.kind@,
            download_page_url: self.download_page_url@,
        }
    }
}

/// The text, or none where it is absent.
pub open spec fn or_empty(t: Option<Seq<char>>) -> Seq<char> {
    match t {
        Some(s) => s,
        None => ""@,
    }
}

/// The text, or none where it is absent.
fn text_or_empty(t: &Option<String>) -> (r: String)
    ensures
        r@ == or_empty(model::opt(*t)),
{
    match t {
        Some(s) => s.clone(),
        None => "".to_owned(),
    }
}

/// The variant that a row lists, if it has a link.
pub open spec fn listed_variant(row: parse::VariantRowView) -> Option<VariantView> {
    match (row.name, row.href) {
        (Some(name), Some(href)) => Some(
            VariantView {
                version: name,
                arch: or_empty(row.arch),
                kind: or_empty(row.badge),
                download_page_url: site(href),
            },
        ),
        _ => None,
    }
}

/// The variants that rows list.
pub open spec fn listed_variants(rows: Seq<parse::VariantRowView>) -> Seq<VariantView>
    decreases rows.len(),
{
    if rows.len() == 0 {
        Seq::<VariantView>::empty()
    } else {
        let front = listed_variants(rows.drop_last());
        match listed_variant(rows.last()) {
            Some(v) => front.push(v),
            None => front,
        }
    }
}

/// The variant that a row lists.
fn read_variant(row: &VariantRow) -> (r: Option<Variant>)
    ensures
        (match r {
            Some(v) => Some(v@),
            None => None,
        }) == listed_variant(row@),
{
    if let Some(name) = &row.name {
        if let Some(href) = &row.href {
            return Some(
                Variant {
                    version: name.clone(),
                    arch: text_or_empty(&row.arch),
                    kind: text_or_empty(&row.badge),
                    download_page_url: abs(href.as_str()),
                },
            );
        }
    }
    None
}

/// The variants of a table whose first row is its heading.
pub fn variant_list(rows: &[VariantRow]) -> (r: Vec<Variant>)
    ensures
        model::views(r@) == listed_variants(parse::body_rows(model::views(rows@))),
{
    let ghost rv = model::views(rows@);
    let ghost body = parse::body_rows(rv);
    let mut out: Vec<Variant> = Vec::new();
    assert(model::views(out@) == listed_variants(body.take(0)));
    if rows.len() == 0 {
        assert(body == body.take(0));
        return out;
    }
    let mut i: usize = 1;
    while i < rows.len()
        invariant
            1 <= i <= rows@.len(),
            rv == model::views(rows@),
            body == rv.skip(1),
            model::views(out@) == listed_variants(body.take(i - 1)),
        decreases rows@.len() - i,
    {
        assert(body.take(i as int).drop_last() == body.take(i - 1));
        assert(body.take(i as int).last() == rows@[i as int]@);
        if let Some(v) = read_variant(&rows[i]) {
            proof {
                model::lemma_views_push(out@, v);
            }
            out.push(v);
        }
        i += 1;
    }
    assert(body.take(body.len() as int) == body);
    out
}

/// The variants of a version page.
pub open spec fn page_variants(html: Seq<char>) -> Seq<VariantView> {
    listed_variants(parse::body_rows(parse::variant_rows(html::document(html))))
}

/// Reads the table of variants on a version page; empty where there is no table.
pub fn parse_variants(html: &str) -> (r: Vec<Variant>)
    ensures
        model::views(r@) == page_variants(html@),
{
    let doc = parse_document(html);
    let rows = read_rows(&doc);
    variant_list(&rows)
}

/// The ABIs that a variant names: the runs of letters, digits, `-` and `_` in
/// lower case.
pub open spec fn abis(v: VariantView) -> Seq<Seq<char>> {
    model::runs(model::lowered(v.arch), Class::NotLabel)
}

/// Whether a variant names an ABI.
pub open spec fn arch_match(v: VariantView, arch: Seq<char>) -> bool {
    abis(v).contains(model::lowered(arch))
}

/// Whether a variant runs anywhere.
pub open spec fn runs_anywhere(v: VariantView) -> bool {
    let a = model::lowered(v.arch);
    a.len() == 0 || model::holds(a, "universal"@) || model::holds(a, "noarch"@) || a == "all"@
}

/// Whether a variant is a plain APK.
pub open spec fn plain_apk(v: VariantView) -> bool {
    model::same_letters(v.kind, "APK"@)
}

/// The ABIs that a variant names.
fn arch_tokens(v: &Variant) -> (r: Vec<String>)
    ensures
        model::texts(r@) == abis(v@),
{
    let a = to_ascii_lowercase(v.arch.as_str());
    split_runs(a.as_str(), Class::NotLabel)
}

/// Whether a variant runs anywhere.
fn is_universal(v: &Variant) -> (r: bool)
    ensures
        r == runs_anywhere(v@),
{
    let a = to_ascii_lowercase(v.arch.as_str());
    a.as_str().is_empty() || contains(a.as_str(), "universal") || contains(a.as_str(), "noarch")
        || same(a.as_str(), "all")
}

/// What a variant is to have to be picked.
pub enum Wish {
    /// A plain APK for the ABI.
    Exact,
    /// A plain APK that runs anywhere.
    Universal,
    /// A plain APK.
    Plain,
    /// Anything for the ABI.
    Arch,
}

/// Whether a variant is what is wished for.
pub open spec fn grants(v: VariantView, wish: Wish, arch: Seq<char>) -> bool {
    match wish {
        Wish::Exact => plain_apk(v) && arch_match(v, arch),
        Wish::Universal => plain_apk(v) && runs_anywhere(v),
        Wish::Plain => plain_apk(v),
        Wish::Arch => arch_match(v, arch),
    }
}

/// The first variant that is what is wished for.
pub open spec fn first_granted(vs: Seq<VariantView>, wish: Wish, arch: Seq<char>) -> Option<int>
    decreases vs.len(),
{
    if vs.len() == 0 {
        None
    } else {
        match first_granted(vs.drop_last(), wish, arch) {
            Some(i) => Some(i),
            None => if grants(vs.last(), wish, arch) {
                Some(vs.len() - 1)
            } else {
                None
            },
        }
    }
}

/// The variant to download: a plain APK for the ABI, else one that runs anywhere,
/// else any plain APK, else anything for the ABI, else the first.
pub open spec fn choice(vs: Seq<VariantView>, arch: Seq<char>) -> Option<int> {
    match first_granted(vs, Wish::Exact, arch) {
        Some(i) => Some(i),
        None => match first_granted(vs, Wish::Universal, arch) {
            Some(i) => Some(i),
            None => match first_granted(vs, Wish::Plain, arch) {
                Some(i) => Some(i),
                None => match first_granted(vs, Wish::Arch, arch) {
                    Some(i) => Some(i),
                    None => if vs.len() > 0 {
                        Some(0)
                    } else {
                        None
                    },
                },
            },
        },
    }
}

/// Whether a variant is what is wished for.
fn granted(v: &Variant, wish: &Wish, arch: &str) -> (r: bool)
    ensures
        r == grants(v@, *wish, arch@),
{
    let want = to_ascii_lowercase(arch);
    let apk = eq_ignore_ascii_case(v.kind.as_str(), "APK");
    let tokens = arch_tokens(v);
    let exact = listed(&tokens, want.as_str());
    match wish {
        Wish::Exact => apk && exact,
        Wish::Universal => apk && is_universal(v),
        Wish::Plain => apk,
        Wish::Arch => exact,
    }
}

/// What is found early stays the first.
proof fn lemma_first_granted(vs: Seq<VariantView>, wish: Wish, arch: Seq<char>, n: int)
    requires
        0 <= n <= vs.len(),
        first_granted(vs.take(n), wish, arch) is Some,
    ensures
        first_granted(vs, wish, arch) == first_granted(vs.take(n), wish, arch),
    decreases vs.len() - n,
{
    if n == vs.len() {
        assert(vs.take(n) == vs);
    } else {
        assert(vs.take(n + 1).drop_last() == vs.take(n));
        lemma_first_granted(vs, wish, arch, n + 1);
    }
}

/// The first variant that is what is wished for.
fn find_granted(variants: &[Variant], wish: Wish, arch: &str) -> (r: Option<usize>)
    ensures
        (match r {
            Some(i) => Some(i as int),
            None => None,
        }) == first_granted(model::views(variants@), wish, arch@),
        r matches Some(i) ==> i < variants@.len(),
{
    let ghost vs = model::views(variants@);
    let mut i: usize = 0;
    while i < variants.len()
        invariant
            i <= variants@.len(),
            vs == model::views(variants@),
            first_granted(vs.take(i as int), wish, arch@) is None,
        decreases variants@.len() - i,
    {
        assert(vs.take(i + 1).drop_last() == vs.take(i as int));
        assert(vs.take(i + 1).last() == variants@[i as int]@);
        if granted(&variants[i], &wish, arch) {
            proof {
                lemma_first_granted(vs, wish, arch@, i + 1);
            }
            return Some(i);
        }
        i += 1;
    }
    assert(vs.take(vs.len() as int) == vs);
    None
}

/// Picks a variant for `arch`: a plain APK for the ABI, else one that runs
/// anywhere, else any plain APK, else anything for the ABI, else the first.
pub fn choose_variant<'a>(variants: &'a [Variant], arch: &str) -> (r: Option<&'a Variant>)
    ensures
        match choice(model::views(variants@), arch@) {
            Some(i) => 0 <= i < variants@.len() && r == Some(&variants@[i]),
            None => r is None,
        },
{
    if let Some(i) = find_granted(variants, Wish::Exact, arch) {
        return Some(&variants[i]);
    }
    if let Some(i) = find_granted(variants, Wish::Universal, arch) {
        return Some(&variants[i]);
    }
    if let Some(i) = find_granted(variants, Wish::Plain, arch) {
        return Some(&variants[i]);
    }
    if let Some(i) = find_granted(variants, Wish::Arch, arch) {
        return Some(&variants[i]);
    }
    if variants.len() > 0 {
        Some(&variants[0])
    } else {
        None
    }
}

/// What [`first_granted`] finds.
proof fn lemma_granted(vs: Seq<VariantView>, wish: Wish, arch: Seq<char>)
    ensures
        match first_granted(vs, wish, arch) {
            Some(i) => 0 <= i < vs.len() && grants(vs[i], wish, arch) && forall|j: int|
                0 <= j < i ==> !grants(#[trigger] vs[j], wish, arch),
            None => forall|j: int| 0 <= j < vs.len() ==> !grants(#[trigger] vs[j], wish, arch),
        },
    decreases vs.len(),
{
    if vs.len() > 0 {
        let front = vs.drop_last();
        lemma_granted(front, wish, arch);
        assert forall|j: int| 0 <= j < front.len() implies front[j] == vs[j] by {}
    }
}

/// A variant is picked whenever there is one. It is a plain APK wherever there is
/// one, and it is one for the ABI wherever there is such a one.
pub proof fn lemma_choice(vs: Seq<VariantView>, arch: Seq<char>)
    ensures
        choice(vs, arch) is None <==> vs.len() == 0,
        match choice(vs, arch) {
            Some(i) => {
                &&& 0 <= i < vs.len()
                &&& forall|j: int|
                    0 <= j < vs.len() && plain_apk(#[trigger] vs[j]) ==> plain_apk(vs[i]) && (
                    arch_match(vs[j], arch) ==> arch_match(vs[i], arch))
            },
            None => true,
        },
{
    lemma_granted(vs, Wish::Exact, arch);
    lemma_granted(vs, Wish::Universal, arch);
    lemma_granted(vs, Wish::Plain, arch);
    lemma_granted(vs, Wish::Arch, arch);
    match choice(vs, arch) {
        Some(i) => {
            assert forall|j: int| 0 <= j < vs.len() && plain_apk(#[trigger] vs[j]) implies plain_apk(
                vs[i],
            ) && (arch_match(vs[j], arch) ==> arch_match(vs[i], arch)) by {
                assert(grants(vs[j], Wish::Plain, arch));
                if arch_match(vs[j], arch) {
                    assert(grants(vs[j], Wish::Exact, arch));
                }
            }
        },
        None => {},
    }
}

/// Whether a text is one label: letters, digits, `-` and `_`.
pub open spec fn is_label(s: Seq<char>) -> bool {
    s.len() > 0 && forall|i: int| 0 <= i < s.len() ==> !Class::NotLabel.has(#[trigger] s[i])
}

/// A variant that names just one ABI is one for that ABI, in whatever case.
proof fn lemma_exact_label(v: VariantView, arch: Seq<char>)
    requires
        is_label(v.arch),
        model::same_letters(v.arch, arch),
    ensures
        arch_match(v, arch),
{
    let low = model::lowered(v.arch);
    assert forall|i: int| 0 <= i < low.len() implies !Class::NotLabel.has(#[trigger] low[i]) by {
        assert(!Class::NotLabel.has(v.arch[i]));
    }
    crate::strings::lemma_one_piece(low, Class::NotLabel);
    assert(seq![low].drop_last() == Seq::<Seq<char>>::empty());
    assert(model::filled(Seq::<Seq<char>>::empty()) == Seq::<Seq<char>>::empty());
    assert(abis(v) == seq![low]);
    assert(abis(v)[0] == low);
}

/// Every ABI is named by one label, `x86_64` like the others.
pub proof fn lemma_one_label(arch: Seq<char>)
    requires
        arch == "arm64-v8a"@ || arch == "armeabi-v7a"@ || arch == "x86"@ || arch == "x86_64"@,
    ensures
        is_label(arch),
{
    reveal_strlit("arm64-v8a");
    reveal_strlit("armeabi-v7a");
    reveal_strlit("x86");
    reveal_strlit("x86_64");
}

/// Where a plain APK names just the ABI that is asked for, a plain APK for that ABI
/// is picked: the first there is.
pub proof fn lemma_exact_choice(vs: Seq<VariantView>, arch: Seq<char>, j: int)
    requires
        0 <= j < vs.len(),
        plain_apk(vs[j]),
        is_label(vs[j].arch),
        model::same_letters(vs[j].arch, arch),
    ensures
        choice(vs, arch) matches Some(i) && 0 <= i <= j && plain_apk(vs[i]) && arch_match(
            vs[i],
            arch,
        ) && forall|k: int|
            0 <= k < i ==> !(plain_apk(#[trigger] vs[k]) && arch_match(vs[k], arch)),
{
    lemma_exact_label(vs[j], arch);
    assert(grants(vs[j], Wish::Exact, arch));
    lemma_granted(vs, Wish::Exact, arch);
    let i = choice(vs, arch)->0;
    assert forall|k: int| 0 <= k < i implies !(plain_apk(#[trigger] vs[k]) && arch_match(
        vs[k],
        arch,
    )) by {
        assert(!grants(vs[k], Wish::Exact, arch));
    }
}

/// The address of a link as a URL, or a complaint that there is none.
pub open spec fn linked(href: Option<Seq<char>>, complaint: Seq<char>) -> Result<
    Seq<char>,
    named::ErrorView,
> {
    match href {
        Some(h) => Ok(site(h)),
        None => Err(named::ErrorView::ParseError(complaint)),
    }
}

/// The address of the keyed button of a download page.
pub open spec fn button_link(html: Seq<char>) -> Result<Seq<char>, named::ErrorView> {
    linked(
        html::first_attribute_of(html::document(html), "a.downloadButton"@, "href"@),
        "no download button on download page"@,
    )
}

/// The address of the file on the page that starts the download.
pub open spec fn file_link(html: Seq<char>) -> Result<Seq<char>, named::ErrorView> {
    let page = html::document(html);
    linked(
        match html::first_attribute_of(page, "a#download-link"@, "href"@) {
            Some(h) => Some(h),
            None => html::first_attribute_of(page, "div.card-with-tabs a[href]"@, "href"@),
        },
        "no final download link on 'starting' page"@,
    )
}

/// The address of a link as a URL, or a complaint that there is none.
pub fn link_or(href: Option<&str>, complaint: &str) -> (r: Result<String, ProviderError>)
    ensures
        common::outcome(r) == linked(model::opt_str(href), complaint@),
{
    match href {
        Some(h) => Ok(abs(h)),
        None => Err(ProviderError::ParseError(complaint.to_owned())),
    }
}

/// The keyed button of a download page (absolute).
pub fn parse_download_button(html: &str) -> (r: Result<String, ProviderError>)
    ensures
        common::outcome(r) == button_link(html@),
{
    let doc = parse_document(html);
    match first_attr(&doc, "a.downloadButton", "href") {
        Some(h) => link_or(Some(h.as_str()), "no download button on download page"),
        None => link_or(None, "no download button on download page"),
    }
}

/// The file on the page that starts the download (absolute).
pub fn parse_final_link(html: &str) -> (r: Result<String, ProviderError>)
    ensures
        common::outcome(r) == file_link(html@),
{
    let doc = parse_document(html);
    let href = match first_attr(&doc, "a#download-link", "href") {
        Some(h) => Some(h),
        None => first_attr(&doc, "div.card-with-tabs a[href]", "href"),
    };
    match href {
        Some(h) => link_or(Some(h.as_str()), "no final download link on 'starting' page"),
        None => link_or(None, "no final download link on 'starting' page"),
    }
}

} // verus!
