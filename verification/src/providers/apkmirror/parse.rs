//! The pages of APKMirror.

use crate::common::contract;
use crate::common::contract::{ProviderConst, ProviderError, VersionInfo};
use crate::html;
use crate::html::{attr, attr_in, first_attr, parse_document, select, select_in, text_in, text_of};
use crate::model;
use crate::model::Class;
use crate::order;
use crate::order::rank_order;
use crate::outside;
use crate::outside::to_lowercase;
use crate::providers::apkmirror::ApkMirror;
use crate::providers::scrape;
use crate::providers::scrape::{
    arch_listed, keep_present, not_found, parse_date, parse_err, version_token, Variant,
};
use crate::strings::{
    chars, contains, contains_char, eq_ignore_ascii_case, find, join, listed, part, plus3, same,
    split_by, split_runs, split_whitespace, starts_with, starts_with_digit, strip_prefix,
};
use vstd::prelude::*;

verus! {

/// A URL on the site.
pub type Url = contract::Url<ApkMirror>;

/// `href` as a URL on the site.
pub open spec fn site(href: Seq<char>) -> Seq<char> {
    contract::absolute(ApkMirror::base(), href)
}

/// A release that a search found.
pub struct SearchHit {
    /// `{App name} {version}`, such as `YouTube 21.36.45`.
    pub title: String,
    pub release_url: Url,
}

/// What a [`SearchHit`] says.
pub struct HitView {
    pub title: Seq<char>,
    pub release_url: Seq<char>,
}

impl View for SearchHit {
    type V = HitView;

    open spec fn view(&self) -> HitView {
        HitView { title: self.title@, release_url: self.release_url@ }
    }
}

impl SearchHit {
    /// The version in the title.
    pub fn version(&self) -> (r: String)
        ensures
            r@ == scrape::version_of(self@.title),
    {
        version_token(self.title.as_str())
    }
}

/// The tokens of a text: its runs of letters and numbers.
pub open spec fn tokens_of(s: Seq<char>) -> Seq<Seq<char>> {
    model::runs(s, Class::NotWord)
}

/// The tokens of a text: its runs of letters and numbers.
fn tokens(s: &str) -> (r: Vec<String>)
    ensures
        model::texts(r@) == tokens_of(s@),
{
    split_runs(s, Class::NotWord)
}

/// How well a token of the title meets a token of the query: 0 is equal.
pub open spec fn match_level(q: Seq<char>, t: Seq<char>) -> nat {
    if t == q {
        0
    } else if model::begins(t, q) {
        1
    } else if model::holds(t, q) {
        2
    } else {
        3
    }
}

/// How well a token of the title meets a token of the query: 0 is equal.
pub fn token_match(q: &str, t: &str) -> (r: u8)
    ensures
        r == match_level(q@, t@),
{
    if same(t, q) {
        0
    } else if starts_with(t, q) {
        1
    } else if contains(t, q) {
        2
    } else {
        3
    }
}

/// How well the best of the title's tokens meets a token of the query.
pub open spec fn best_level(q: Seq<char>, title: Seq<Seq<char>>) -> nat
    decreases title.len(),
{
    if title.len() == 0 {
        3
    } else {
        let front = best_level(q, title.drop_last());
        let last = match_level(q, title.last());
        if last < front {
            last
        } else {
            front
        }
    }
}

/// How well a title covers the tokens of a query, summed over these.
pub open spec fn coverage(query: Seq<Seq<char>>, title: Seq<Seq<char>>) -> nat
    decreases query.len(),
{
    if query.len() == 0 {
        0
    } else {
        coverage(query.drop_last(), title) + best_level(query.last(), title)
    }
}

/// The number of tokens of a slug that no token of the query equals.
pub open spec fn extras(slug: Seq<Seq<char>>, query: Seq<Seq<char>>) -> nat
    decreases slug.len(),
{
    if slug.len() == 0 {
        0
    } else {
        extras(slug.drop_last(), query) + if query.contains(slug.last()) {
            0nat
        } else {
            1nat
        }
    }
}

/// `{BASE}/apk/{org}/{repo}/...` as `{org}/{repo}`.
pub open spec fn slug_of(url: Seq<char>) -> Option<Seq<char>> {
    match contract::path_below(ApkMirror::base(), url) {
        Some(path) => match model::after_prefix(path, "apk/"@) {
            Some(rest) => {
                let segs = model::pieces(rest, Class::One('/'));
                if segs.len() >= 2 && segs[0].len() > 0 && segs[1].len() > 0 {
                    Some(segs[0] + "/"@ + segs[1])
                } else {
                    None
                }
            },
            None => None,
        },
        None => None,
    }
}

/// `{BASE}/apk/{org}/{repo}/{repo}-x-y-release/` as `{org}/{repo}`.
pub fn app_slug(release_url: &Url) -> (r: Option<String>)
    ensures
        model::opt(r) == slug_of(release_url@),
{
    if let Some(path) = release_url.path() {
        if let Some(rest) = strip_prefix(path.as_str(), "apk/") {
            let segs = split_by(rest.as_str(), Class::One('/'));
            assert(model::texts(segs@).len() == segs@.len());
            if segs.len() >= 2 {
                assert(model::texts(segs@)[0] == segs@[0]@);
                assert(model::texts(segs@)[1] == segs@[1]@);
                if !segs[0].as_str().is_empty() && !segs[1].as_str().is_empty() {
                    return Some(plus3(segs[0].as_str(), "/", segs[1].as_str()));
                }
            }
        }
    }
    None
}

/// The last segment of the slug in a URL, empty without a slug.
pub open spec fn repo_of(url: Seq<char>) -> Seq<char> {
    match slug_of(url) {
        Some(slug) => model::pieces(slug, Class::One('/')).last(),
        None => Seq::<char>::empty(),
    }
}

/// The last segment of the slug in a URL, empty without a slug.
fn repo(release_url: &Url) -> (r: String)
    ensures
        r@ == repo_of(release_url@),
{
    match app_slug(release_url) {
        Some(slug) => {
            let segs = split_by(slug.as_str(), Class::One('/'));
            proof {
                crate::strings::lemma_pieces_len(slug@, Class::One('/'));
            }
            assert(model::texts(segs@).len() == segs@.len());
            let last: usize = segs.len() - 1;
            assert(model::texts(segs@).last() == segs@[last as int]@);
            segs[last].clone()
        },
        None => {
            let none = String::new();
            assert(none@ == Seq::<char>::empty());
            none
        },
    }
}

/// The members of `ws` that are not `t`.
pub open spec fn others(ws: Seq<Seq<char>>, t: Seq<char>) -> Seq<Seq<char>>
    decreases ws.len(),
{
    if ws.len() == 0 {
        Seq::<Seq<char>>::empty()
    } else if ws.last() == t {
        others(ws.drop_last(), t)
    } else {
        others(ws.drop_last(), t).push(ws.last())
    }
}

/// Whether a word is a dotted version number.
pub open spec fn dotted(t: Seq<char>) -> bool {
    t.contains('.') && t.len() > 0 && model::is_digit(t[0])
}

/// A title without its version, wherever that stands.
pub open spec fn unversioned(title: Seq<char>) -> Seq<char> {
    let t = scrape::version_of(title);
    if t == title || !dotted(t) {
        title
    } else {
        model::joined(others(model::words(title), t), seq![' '])
    }
}

/// Drops the version number from the title of a hit: `YouTube Music 9.35.54` is
/// `YouTube Music`. The version is not always the last word.
pub fn strip_version(title: &str) -> (r: String)
    ensures
        r@ == unversioned(title@),
{
    let tok = version_token(title);
    if same(tok.as_str(), title) || !(contains_char(tok.as_str(), '.') && starts_with_digit(
        tok.as_str(),
    )) {
        return title.to_owned();
    }
    let words = split_whitespace(title);
    let ghost ws = model::texts(words@);
    let mut kept: Vec<String> = Vec::new();
    let mut i: usize = 0;
    assert(model::texts(kept@) == others(ws.take(0), tok@));
    while i < words.len()
        invariant
            i <= words@.len(),
            ws == model::texts(words@),
            model::texts(kept@) == others(ws.take(i as int), tok@),
        decreases words@.len() - i,
    {
        assert(ws.take(i + 1).drop_last() == ws.take(i as int));
        assert(ws.take(i + 1).last() == words@[i as int]@);
        if !same(words[i].as_str(), tok.as_str()) {
            let ghost before = kept@;
            kept.push(words[i].clone());
            assert(model::texts(kept@) == model::texts(before).push(words@[i as int]@));
        }
        i += 1;
    }
    assert(ws.take(ws.len() as int) == ws);
    proof {
        reveal_strlit(" ");
    }
    assert(" "@ == seq![' ']);
    join(&kept, " ")
}

/// The tokens of a query that count.
pub open spec fn query_tokens(query: Seq<char>) -> Seq<Seq<char>> {
    tokens_of(outside::unicode_lowercase(query))
}

/// The tokens of a title that count: those of its lower-case form without the
/// version.
pub open spec fn title_tokens(title: Seq<char>) -> Seq<Seq<char>> {
    tokens_of(outside::unicode_lowercase(unversioned(title)))
}

/// A number, or 255 where it is larger.
pub open spec fn capped(n: nat) -> nat {
    if n < 255 {
        n
    } else {
        255
    }
}

/// The rank of a hit, best first: how well the title covers the query, then how
/// many tokens of the slug the query does not name, with no difference from 255 on.
pub open spec fn rank_of(hit: HitView, query: Seq<char>) -> (nat, nat) {
    let q = query_tokens(query);
    (
        coverage(q, title_tokens(hit.title)),
        capped(extras(tokens_of(repo_of(hit.release_url)), q)),
    )
}

/// The rank of a hit as a sort key.
pub open spec fn rank_key(hit: HitView, query: Seq<char>) -> (u128, u128) {
    (rank_of(hit, query).0 as u128, rank_of(hit, query).1 as u128)
}

/// How well the best of the title's tokens meets a token of the query.
fn best_match(q: &str, title: &[String]) -> (r: u8)
    ensures
        r == best_level(q@, model::texts(title@)),
        r <= 3,
{
    let ghost ts = model::texts(title@);
    let mut best: u8 = 3;
    let mut i: usize = 0;
    while i < title.len()
        invariant
            i <= title@.len(),
            ts == model::texts(title@),
            best == best_level(q@, ts.take(i as int)),
            best <= 3,
        decreases title@.len() - i,
    {
        assert(ts.take(i + 1).drop_last() == ts.take(i as int));
        assert(ts.take(i + 1).last() == title@[i as int]@);
        let level: u8 = token_match(q, title[i].as_str());
        if level < best {
            best = level;
        }
        i += 1;
    }
    assert(ts.take(ts.len() as int) == ts);
    best
}

/// How well a title covers the tokens of a query.
fn covered(query: &[String], title: &[String]) -> (r: u128)
    ensures
        r == coverage(model::texts(query@), model::texts(title@)),
{
    let ghost qs = model::texts(query@);
    let ghost ts = model::texts(title@);
    let mut sum: u128 = 0;
    let mut i: usize = 0;
    while i < query.len()
        invariant
            i <= query@.len(),
            qs == model::texts(query@),
            ts == model::texts(title@),
            sum == coverage(qs.take(i as int), ts),
            sum <= 3 * i,
        decreases query@.len() - i,
    {
        assert(qs.take(i + 1).drop_last() == qs.take(i as int));
        assert(qs.take(i + 1).last() == query@[i as int]@);
        sum = sum + best_match(query[i].as_str(), title) as u128;
        i += 1;
    }
    assert(qs.take(qs.len() as int) == qs);
    sum
}

/// The number of tokens of a slug that no token of the query equals.
fn count_extras(slug: &[String], query: &[String]) -> (r: usize)
    ensures
        r == extras(model::texts(slug@), model::texts(query@)),
{
    let ghost ss = model::texts(slug@);
    let ghost qs = model::texts(query@);
    let mut n: usize = 0;
    let mut i: usize = 0;
    while i < slug.len()
        invariant
            n <= i <= slug@.len(),
            ss == model::texts(slug@),
            qs == model::texts(query@),
            n == extras(ss.take(i as int), qs),
        decreases slug@.len() - i,
    {
        assert(ss.take(i + 1).drop_last() == ss.take(i as int));
        assert(ss.take(i + 1).last() == slug@[i as int]@);
        if !listed(query, slug[i].as_str()) {
            n += 1;
        }
        i += 1;
    }
    assert(ss.take(ss.len() as int) == ss);
    n
}

/// The rank of a hit. The search of the site is a plain substring test with an
/// alphabetic order, so hits are ordered here:
///
/// - by coverage: for each token of the query its best [`token_match`] against
///   the title without the version, summed, so that every word counts and a hit
///   off the title comes last;
/// - then by the tokens of the slug that no token of the query equals. The phone
///   app has the bare slug and every spin-off appends to it, so `youtube` comes
///   before `youtube-beta` and that before `youtube-wear-os`, and naming the
///   channel lifts its penalty.
pub fn rank(hit: &SearchHit, query: &str) -> (r: (u128, u8))
    ensures
        (r.0 as nat, r.1 as nat) == rank_of(hit@, query@),
{
    let q = to_lowercase(query);
    let q = tokens(q.as_str());
    let title = strip_version(hit.title.as_str());
    let title = to_lowercase(title.as_str());
    let title = tokens(title.as_str());
    let slug = repo(&hit.release_url);
    let slug = tokens(slug.as_str());
    let extra: usize = count_extras(&slug, &q);
    let extra: u8 = if extra < 255 {
        extra as u8
    } else {
        255
    };
    (covered(&q, &title), extra)
}

/// The sort keys of hits.
pub open spec fn rank_keys(hits: Seq<HitView>, query: Seq<char>) -> Seq<(u128, u128)> {
    Seq::new(hits.len(), |i: int| rank_key(hits[i], query))
}

/// The hits, best first; equal ones in the order of the site.
pub open spec fn ranked(hits: Seq<HitView>, query: Seq<char>) -> Seq<HitView> {
    order::arranged(hits, order::ranking(rank_keys(hits, query)))
}

/// The hits, best first; equal ones in the order of the site.
fn sort_hits(hits: Vec<SearchHit>, query: &str) -> (r: Vec<SearchHit>)
    ensures
        model::views(r@) == ranked(model::views(hits@), query@),
        r@.len() == hits@.len(),
{
    let ghost hv = model::views(hits@);
    let ghost all = rank_keys(hv, query@);
    let mut keys: Vec<(u128, u128)> = Vec::new();
    let mut i: usize = 0;
    while i < hits.len()
        invariant
            i <= hits@.len(),
            hv == model::views(hits@),
            all == rank_keys(hv, query@),
            keys@ == all.take(i as int),
        decreases hits@.len() - i,
    {
        let (c, e) = rank(&hits[i], query);
        keys.push((c, e as u128));
        assert(keys@ == all.take(i + 1));
        i += 1;
    }
    assert(all.take(all.len() as int) == all);
    let order = rank_order(&keys);
    let ghost sorted = ranked(hv, query@);
    let mut out: Vec<SearchHit> = Vec::new();
    let mut k: usize = 0;
    assert(model::views(out@) == sorted.take(0));
    while k < order.len()
        invariant
            k <= order@.len(),
            hv == model::views(hits@),
            order@.len() == hits@.len(),
            forall|j: int| 0 <= j < order@.len() ==> (#[trigger] order@[j]) < hits@.len(),
            sorted == order::arranged(hv, order@),
            model::views(out@) == sorted.take(k as int),
            out@.len() == k,
        decreases order@.len() - k,
    {
        let h = &hits[order[k]];
        let copy = SearchHit { title: h.title.clone(), release_url: h.release_url.clone() };
        assert(copy@ == sorted[k as int]);
        proof {
            model::lemma_views_push(out@, copy);
        }
        out.push(copy);
        assert(model::views(out@) == sorted.take(k + 1));
        k += 1;
    }
    assert(sorted.take(sorted.len() as int) == sorted);
    out
}

/// A link of a search page: its text and its address.
pub struct SearchRow {
    pub title: String,
    pub href: Option<String>,
}

/// What a [`SearchRow`] says.
pub struct SearchRowView {
    pub title: Seq<char>,
    pub href: Option<Seq<char>>,
}

impl View for SearchRow {
    type V = SearchRowView;

    open spec fn view(&self) -> SearchRowView {
        SearchRowView { title: self.title@, href: model::opt(self.href) }
    }
}

/// The link that an element is.
pub open spec fn search_row(n: html::Node) -> SearchRowView {
    SearchRowView { title: html::node_text(n), href: html::attribute(n, "href"@) }
}

/// A results page without the widgets of popular and latest uploads.
pub open spec fn results_part(html: Seq<char>) -> Seq<char> {
    match model::first(html, "<h5 class=\"widgetHeader\">"@) {
        Some(i) => html.take(i),
        None => html,
    }
}

/// The links of a results page; none where the page says that there are none.
pub open spec fn search_rows(html: Seq<char>) -> Seq<SearchRowView> {
    if model::holds(html, "No results found matching your query"@) {
        Seq::<SearchRowView>::empty()
    } else {
        let ns = html::matched(
            html::document(results_part(html)),
            "h5.appRowTitle a.fontBlack"@,
        );
        Seq::new(ns.len(), |i: int| search_row(ns[i]))
    }
}

/// Whether every link has an address.
pub open spec fn complete(rows: Seq<SearchRowView>) -> bool {
    forall|i: int| 0 <= i < rows.len() ==> (#[trigger] rows[i]).href is Some
}

/// The hit that a link with an address is.
pub open spec fn hit_of(row: SearchRowView) -> HitView {
    HitView { title: row.title, release_url: site(row.href->0) }
}

/// The hits that links are.
pub open spec fn hits_of(rows: Seq<SearchRowView>) -> Seq<HitView> {
    Seq::new(rows.len(), |i: int| hit_of(rows[i]))
}

/// What a search for `query` comes to.
pub open spec fn searched(rows: Seq<SearchRowView>, query: Seq<char>) -> Result<
    Seq<HitView>,
    contract::ErrorView,
> {
    if rows.len() == 0 {
        Err(contract::ErrorView::NotFound("search returned nothing"@))
    } else {
        Ok(ranked(hits_of(rows), query))
    }
}

/// The hits that the links of a results page are, best first.
pub fn search_hits(rows: &[SearchRow], query: &str) -> (r: Result<Vec<SearchHit>, ProviderError>)
    requires
        complete(model::views(rows@)),
    ensures
        contract::outcomes(r) == searched(model::views(rows@), query@),
        r matches Ok(hits) ==> hits@.len() == rows@.len() && rows@.len() > 0,
{
    let ghost rv = model::views(rows@);
    let ghost all = hits_of(rv);
    let mut hits: Vec<SearchHit> = Vec::new();
    let mut i: usize = 0;
    assert(model::views(hits@) == all.take(0));
    while i < rows.len()
        invariant
            i <= rows@.len(),
            rv == model::views(rows@),
            all == hits_of(rv),
            complete(rv),
            model::views(hits@) == all.take(i as int),
            hits@.len() == i,
        decreases rows@.len() - i,
    {
        assert(rv[i as int].href is Some);
        if let Some(href) = &rows[i].href {
            let hit = SearchHit {
                title: rows[i].title.clone(),
                release_url: contract::Url::of(href.as_str()),
            };
            assert(hit@ == all[i as int]);
            proof {
                model::lemma_views_push(hits@, hit);
            }
            hits.push(hit);
        }
        assert(model::views(hits@) == all.take(i + 1));
        i += 1;
    }
    assert(all.take(all.len() as int) == all);
    if hits.len() == 0 {
        Err(not_found("search returned nothing"))
    } else {
        Ok(sort_hits(hits, query))
    }
}

/// Whether every link has an address.
fn is_complete(rows: &[SearchRow]) -> (r: bool)
    ensures
        r == complete(model::views(rows@)),
{
    let mut i: usize = 0;
    while i < rows.len()
        invariant
            i <= rows@.len(),
            forall|j: int| 0 <= j < i ==> (#[trigger] rows@[j]).href is Some,
        decreases rows@.len() - i,
    {
        if rows[i].href.is_none() {
            assert(model::views(rows@)[i as int].href is None);
            return false;
        }
        i += 1;
    }
    assert forall|j: int| 0 <= j < rows@.len() implies (
    #[trigger] model::views(rows@)[j]).href is Some by {
        assert(rows@[j].href is Some);
    }
    true
}

/// The links of a results page.
pub(crate) fn read_search(html: &str) -> (r: Vec<SearchRow>)
    ensures
        model::views(r@) == search_rows(html@),
{
    let mut out: Vec<SearchRow> = Vec::new();
    if contains(html, "No results found matching your query") {
        assert(model::views(out@) == Seq::<SearchRowView>::empty());
        return out;
    }
    let listing = match find(html, "<h5 class=\"widgetHeader\">") {
        Some(i) => {
            let cs = chars(html);
            proof {
                crate::strings::lemma_first_from(html@, "<h5 class=\"widgetHeader\">"@, 0);
            }
            let head = part(&cs, 0, i);
            assert(head@ == html@.take(i as int));
            head
        },
        None => html.to_owned(),
    };
    let doc = parse_document(listing.as_str());
    let links = select(&doc, "h5.appRowTitle a.fontBlack");
    let ghost rows = search_rows(html@);
    let mut i: usize = 0;
    assert(html::nodes(links@).len() == links@.len());
    assert(model::views(out@) == rows.take(0));
    while i < links.len()
        invariant
            i <= links@.len(),
            html::nodes(links@) == html::matched(
                html::document(results_part(html@)),
                "h5.appRowTitle a.fontBlack"@,
            ),
            !model::holds(html@, "No results found matching your query"@),
            rows == search_rows(html@),
            rows.len() == links@.len(),
            model::views(out@) == rows.take(i as int),
        decreases links@.len() - i,
    {
        let a = &links[i];
        assert(html::nodes(links@)[i as int] == html::node_of(*a));
        let row = SearchRow { title: text_of(a), href: attr(a, "href") };
        assert(row@ == rows[i as int]);
        proof {
            model::lemma_views_push(out@, row);
        }
        out.push(row);
        assert(model::views(out@) == rows.take(i + 1));
        i += 1;
    }
    assert(rows.take(rows.len() as int) == rows);
    out
}

/// Reads the results page of `/?post_type=app_release&s=...` for `query`, best
/// match first. Every link on it has an address.
pub fn parse_search(html: &str, query: &str) -> (r: Result<Vec<SearchHit>, ProviderError>)
    requires
        complete(search_rows(html@)),
    ensures
        contract::outcomes(r) == searched(search_rows(html@), query@),
        r matches Ok(hits) ==> hits@.len() == search_rows(html@).len() && hits@.len() > 0,
{
    let rows = read_search(html);
    search_hits(&rows, query)
}

/// Reads a results page like [`parse_search`]; `None` where a link on it has no
/// address.
pub fn try_parse_search(html: &str, query: &str) -> (r: Option<
    Result<Vec<SearchHit>, ProviderError>,
>)
    ensures
        match r {
            Some(out) => complete(search_rows(html@)) && contract::outcomes(out) == searched(
                search_rows(html@),
                query@,
            ) && (out matches Ok(hits) ==> hits@.len() == search_rows(html@).len() && hits@.len()
                > 0),
            None => !complete(search_rows(html@)),
        },
{
    let rows = read_search(html);
    if is_complete(&rows) {
        Some(search_hits(&rows, query))
    } else {
        None
    }
}

/// The first entry of the list of all versions on an app page.
pub struct Newest {
    /// Whether the page has the list.
    pub widget: bool,
    /// The link of the first entry.
    pub link: Option<SearchRow>,
}

/// What a [`Newest`] says.
pub struct NewestView {
    pub widget: bool,
    pub link: Option<SearchRowView>,
}

impl View for Newest {
    type V = NewestView;

    open spec fn view(&self) -> NewestView {
        NewestView {
            widget: self.widget,
            link: match self.link {
                Some(row) => Some(row@),
                None => None,
            },
        }
    }
}

/// The list of all versions on an app page.
pub open spec fn versions_widget(page: html::Page) -> Option<html::Node> {
    let ns = html::matched(page, "div.listWidget.p-relative"@);
    if ns.len() > 0 {
        Some(ns[0])
    } else {
        None
    }
}

/// The first entry of the list of all versions.
pub open spec fn newest(page: html::Page) -> NewestView {
    match versions_widget(page) {
        Some(w) => NewestView {
            widget: true,
            link: match html::first_in(w, "h5.appRowTitle a.fontBlack"@) {
                Some(a) => Some(search_row(a)),
                None => None,
            },
        },
        None => NewestView { widget: false, link: None },
    }
}

/// Whether the first entry, if there is one, has an address.
pub open spec fn newest_complete(n: NewestView) -> bool {
    n.widget && n.link is Some ==> n.link->0.href is Some
}

/// The release that the first entry is.
pub open spec fn newest_found(n: NewestView) -> Result<HitView, contract::ErrorView> {
    if !n.widget {
        Err(contract::ErrorView::ParseError("no 'All versions' widget on app page"@))
    } else {
        match n.link {
            Some(row) => Ok(hit_of(row)),
            None => Err(contract::ErrorView::ParseError("no item in 'All versions' widget"@)),
        }
    }
}

/// The release that the first entry is.
pub fn newest_hit(n: &Newest) -> (r: Result<SearchHit, ProviderError>)
    requires
        newest_complete(n@),
    ensures
        contract::outcome(r) == newest_found(n@),
{
    if !n.widget {
        return Err(parse_err("no 'All versions' widget on app page"));
    }
    if let Some(row) = &n.link {
        if let Some(href) = &row.href {
            return Ok(
                SearchHit {
                    title: row.title.clone(),
                    release_url: contract::Url::of(href.as_str()),
                },
            );
        }
    }
    Err(parse_err("no item in 'All versions' widget"))
}

/// The list of all versions on an app page.
fn find_widget<'a>(doc: &'a scraper::Html) -> (r: Option<scraper::ElementRef<'a>>)
    ensures
        (match r {
            Some(e) => Some(html::node_of(e)),
            None => None,
        }) == versions_widget(html::page_of(*doc)),
{
    let mut found = select(doc, "div.listWidget.p-relative");
    assert(html::nodes(found@).len() == found@.len());
    if found.len() > 0 {
        assert(html::nodes(found@)[0] == html::node_of(found@[0]));
        Some(found.swap_remove(0))
    } else {
        None
    }
}

/// The first entry of the list of all versions.
fn read_newest(html: &str) -> (r: Newest)
    ensures
        r@ == newest(html::document(html@)),
{
    let doc = parse_document(html);
    match find_widget(&doc) {
        Some(w) => {
            let links = select_in(&w, "h5.appRowTitle a.fontBlack");
            assert(html::nodes(links@).len() == links@.len());
            if links.len() > 0 {
                let a = &links[0];
                assert(html::nodes(links@)[0] == html::node_of(*a));
                let row = SearchRow { title: text_of(a), href: attr(a, "href") };
                Newest { widget: true, link: Some(row) }
            } else {
                Newest { widget: true, link: None }
            }
        },
        None => Newest { widget: false, link: None },
    }
}

/// The latest version in the list of all versions on an app page. Its entry has
/// an address.
pub fn latest_version(html: &str) -> (r: Result<SearchHit, ProviderError>)
    requires
        newest_complete(newest(html::document(html@))),
    ensures
        contract::outcome(r) == newest_found(newest(html::document(html@))),
{
    let n = read_newest(html);
    newest_hit(&n)
}

/// Reads the latest version like [`latest_version`]; `None` where its entry has
/// no address.
pub fn try_latest_version(html: &str) -> (r: Option<Result<SearchHit, ProviderError>>)
    ensures
        match r {
            Some(out) => newest_complete(newest(html::document(html@))) && contract::outcome(out)
                == newest_found(newest(html::document(html@))),
            None => !newest_complete(newest(html::document(html@))),
        },
{
    let n = read_newest(html);
    let whole = !n.widget || match &n.link {
        Some(row) => row.href.is_some(),
        None => true,
    };
    if whole {
        Some(newest_hit(&n))
    } else {
        None
    }
}

/// An entry of the list of all versions: the text and the address of its link,
/// and its date.
pub struct VersionItem {
    pub title: Option<String>,
    pub href: Option<String>,
    pub date: Option<String>,
}

/// What a [`VersionItem`] says.
pub struct VersionItemView {
    pub title: Option<Seq<char>>,
    pub href: Option<Seq<char>>,
    pub date: Option<Seq<char>>,
}

impl View for VersionItem {
    type V = VersionItemView;

    open spec fn view(&self) -> VersionItemView {
        VersionItemView {
            title: model::opt(self.title),
            href: model::opt(self.href),
            date: model::opt(self.date),
        }
    }
}

/// The entry that an element is.
pub open spec fn version_item(n: html::Node) -> VersionItemView {
    VersionItemView {
        title: html::first_text(n, "h5.appRowTitle a.fontBlack"@),
        href: html::first_attribute(n, "h5.appRowTitle a.fontBlack"@, "href"@),
        date: html::first_attribute(n, "span.dateyear_utc"@, "data-utcdate"@),
    }
}

/// The entries of the list of all versions; `None` where the page has no list.
pub open spec fn version_items(page: html::Page) -> Option<Seq<VersionItemView>> {
    match versions_widget(page) {
        Some(w) => {
            let ns = html::matched_in(w, "div.appRow"@);
            Some(Seq::new(ns.len(), |i: int| version_item(ns[i])))
        },
        None => None,
    }
}

/// The version that an entry lists: one with a link and a date.
pub open spec fn listed_version(item: VersionItemView) -> Option<contract::VersionView> {
    match (item.title, item.href) {
        (Some(title), Some(_)) => match scrape::dated(
            match item.date {
                Some(d) => d,
                None => ""@,
            },
            "%m/%d/%Y %H:%M UTC"@,
        ) {
            Some(uploaded) => Some(
                contract::VersionView { version: scrape::version_of(title), uploaded },
            ),
            None => None,
        },
        _ => None,
    }
}

/// The versions that entries list.
pub open spec fn listed_versions(items: Seq<VersionItemView>) -> Seq<contract::VersionView>
    decreases items.len(),
{
    if items.len() == 0 {
        Seq::<contract::VersionView>::empty()
    } else {
        let front = listed_versions(items.drop_last());
        match listed_version(items.last()) {
            Some(v) => front.push(v),
            None => front,
        }
    }
}

/// What a list of versions comes to.
pub open spec fn versions_found(items: Option<Seq<VersionItemView>>) -> Result<
    Seq<contract::VersionView>,
    contract::ErrorView,
> {
    match items {
        None => Err(contract::ErrorView::ParseError("no 'All versions' widget on app page"@)),
        Some(items) => if listed_versions(items).len() == 0 {
            Err(contract::ErrorView::NotFound("no versions listed"@))
        } else {
            Ok(listed_versions(items))
        },
    }
}

/// The version that an entry lists.
fn read_version(item: &VersionItem) -> (r: Option<VersionInfo>)
    ensures
        (match r {
            Some(v) => Some(v@),
            None => None,
        }) == listed_version(item@),
{
    if let Some(title) = &item.title {
        if item.href.is_some() {
            let date = match &item.date {
                Some(d) => d.as_str(),
                None => "",
            };
            let version = version_token(title.as_str());
            if let Ok(uploaded) = parse_date(
                "apkmirror",
                version.as_str(),
                date,
                "%m/%d/%Y %H:%M UTC",
            ) {
                return Some(VersionInfo { version, uploaded });
            }
        }
    }
    None
}

/// What is reported of an entry: one with a link whose date cannot be read.
pub open spec fn complaint(item: VersionItemView) -> Option<Seq<char>> {
    let date = match item.date {
        Some(d) => d,
        None => ""@,
    };
    match (item.title, item.href) {
        (Some(title), Some(_)) => if scrape::dated(date, "%m/%d/%Y %H:%M UTC"@) is None {
            Some(scrape::undated("apkmirror"@, scrape::version_of(title), date))
        } else {
            None
        },
        _ => None,
    }
}

/// What is reported of entries; nothing where there is no list.
pub open spec fn complaints(items: Option<Seq<VersionItemView>>) -> Seq<Seq<char>> {
    match items {
        Some(v) => scrape::present(Seq::new(v.len(), |i: int| complaint(v[i]))),
        None => Seq::<Seq<char>>::empty(),
    }
}

/// What is reported of an entry.
fn complain(item: &VersionItem) -> (r: Option<String>)
    ensures
        model::opt(r) == complaint(item@),
{
    if let Some(title) = &item.title {
        if item.href.is_some() {
            let date = match &item.date {
                Some(d) => d.as_str(),
                None => "",
            };
            let version = version_token(title.as_str());
            if let Err(e) = parse_date(
                "apkmirror",
                version.as_str(),
                date,
                "%m/%d/%Y %H:%M UTC",
            ) {
                return Some(e);
            }
        }
    }
    None
}

/// What is reported of the entries of a page.
pub fn date_complaints(items: &[VersionItem]) -> (r: Vec<String>)
    ensures
        model::texts(r@) == complaints(Some(model::views(items@))),
{
    let ghost iv = model::views(items@);
    let ghost all = Seq::new(iv.len(), |i: int| complaint(iv[i]));
    let mut out: Vec<Option<String>> = Vec::new();
    let mut i: usize = 0;
    assert(model::opts(out@) == all.take(0));
    while i < items.len()
        invariant
            i <= items@.len(),
            iv == model::views(items@),
            all == Seq::new(iv.len(), |i: int| complaint(iv[i])),
            model::opts(out@) == all.take(i as int),
        decreases items@.len() - i,
    {
        let c = complain(&items[i]);
        let ghost before = out@;
        out.push(c);
        assert(model::opts(out@) == model::opts(before).push(model::opt(c)));
        assert(model::opts(out@) == all.take(i + 1));
        i += 1;
    }
    assert(all.take(all.len() as int) == all);
    keep_present(&out)
}

/// The versions that the entries of a page list; without a list the page is not
/// what it should be.
pub fn version_rows(items: Option<&[VersionItem]>) -> (r: Result<Vec<VersionInfo>, ProviderError>)
    ensures
        contract::outcomes(r) == versions_found(
            match items {
                Some(v) => Some(model::views(v@)),
                None => None,
            },
        ),
{
    let items = match items {
        Some(v) => v,
        None => {
            return Err(parse_err("no 'All versions' widget on app page"));
        },
    };
    let ghost iv = model::views(items@);
    let mut rows: Vec<VersionInfo> = Vec::new();
    let mut i: usize = 0;
    assert(model::views(rows@) == listed_versions(iv.take(0)));
    while i < items.len()
        invariant
            i <= items@.len(),
            iv == model::views(items@),
            model::views(rows@) == listed_versions(iv.take(i as int)),
        decreases items@.len() - i,
    {
        assert(iv.take(i + 1).drop_last() == iv.take(i as int));
        assert(iv.take(i + 1).last() == items@[i as int]@);
        if let Some(v) = read_version(&items[i]) {
            proof {
                model::lemma_views_push(rows@, v);
            }
            rows.push(v);
        }
        i += 1;
    }
    assert(iv.take(iv.len() as int) == iv);
    assert(model::views(rows@).len() == rows@.len());
    if rows.len() == 0 {
        Err(not_found("no versions listed"))
    } else {
        Ok(rows)
    }
}

/// The entries of the list of all versions.
pub(crate) fn read_versions(doc: &scraper::Html) -> (r: Option<Vec<VersionItem>>)
    ensures
        (match r {
            Some(v) => Some(model::views(v@)),
            None => None,
        }) == version_items(html::page_of(*doc)),
{
    let w = match find_widget(doc) {
        Some(w) => w,
        None => {
            return None;
        },
    };
    let found = select_in(&w, "div.appRow");
    let ghost scope = html::node_of(w);
    let ghost items = version_items(html::page_of(*doc))->0;
    let mut out: Vec<VersionItem> = Vec::new();
    let mut i: usize = 0;
    assert(html::nodes(found@).len() == found@.len());
    assert(model::views(out@) == items.take(0));
    while i < found.len()
        invariant
            i <= found@.len(),
            html::nodes(found@) == html::matched_in(scope, "div.appRow"@),
            items == Seq::new(
                html::matched_in(scope, "div.appRow"@).len(),
                |i: int| version_item(html::matched_in(scope, "div.appRow"@)[i]),
            ),
            items.len() == found@.len(),
            model::views(out@) == items.take(i as int),
        decreases found@.len() - i,
    {
        let row = &found[i];
        assert(html::nodes(found@)[i as int] == html::node_of(*row));
        let item = VersionItem {
            title: text_in(row, "h5.appRowTitle a.fontBlack"),
            href: attr_in(row, "h5.appRowTitle a.fontBlack", "href"),
            date: attr_in(row, "span.dateyear_utc", "data-utcdate"),
        };
        assert(item@ == items[i as int]);
        proof {
            model::lemma_views_push(out@, item);
        }
        out.push(item);
        assert(model::views(out@) == items.take(i + 1));
        i += 1;
    }
    assert(items.take(items.len() as int) == items);
    Some(out)
}

/// Reads the list of all versions on an app page.
pub fn parse_versions(html: &str) -> (r: Result<Vec<VersionInfo>, ProviderError>)
    ensures
        contract::outcomes(r) == versions_found(version_items(html::document(html@))),
{
    let doc = parse_document(html);
    match read_versions(&doc) {
        Some(items) => version_rows(Some(items.as_slice())),
        None => version_rows(None),
    }
}

/// An entry that could be downloaded is listed, or it is reported why not.
pub proof fn lemma_listed_or_reported(items: Seq<VersionItemView>, i: int)
    requires
        0 <= i < items.len(),
        items[i].title is Some && items[i].href is Some,
    ensures
        listed_version(items[i]) is Some || complaints(Some(items)).contains(complaint(items[i])->0),
{
    let all = Seq::new(items.len(), |j: int| complaint(items[j]));
    if complaint(items[i]) is Some {
        scrape::lemma_present(all, i);
    }
}

/// What is reported of the list of all versions on an app page.
pub fn parse_complaints(html: &str) -> (r: Vec<String>)
    ensures
        model::texts(r@) == complaints(version_items(html::document(html@))),
{
    let doc = parse_document(html);
    match read_versions(&doc) {
        Some(items) => date_complaints(&items),
        None => {
            let none: Vec<String> = Vec::new();
            assert(model::texts(none@) == Seq::<Seq<char>>::empty());
            none
        },
    }
}

/// A row of the table of variants: the text and the address of its link, its
/// badge and its ABIs.
pub struct VariantRow {
    pub name: Option<String>,
    pub href: Option<String>,
    pub badge: Option<String>,
    pub arch: Option<String>,
}

/// What a [`VariantRow`] says.
pub struct VariantRowView {
    pub name: Option<Seq<char>>,
    pub href: Option<Seq<char>>,
    pub badge: Option<Seq<char>>,
    pub arch: Option<Seq<char>>,
}

impl View for VariantRow {
    type V = VariantRowView;

    open spec fn view(&self) -> VariantRowView {
        VariantRowView {
            name: model::opt(self.name),
            href: model::opt(self.href),
            badge: model::opt(self.badge),
            arch: model::opt(self.arch),
        }
    }
}

/// The row that an element is. The link and the badge stand in its first cell,
/// the ABIs in its second.
pub open spec fn variant_row(n: html::Node) -> VariantRowView {
    let cells = html::matched_in(n, "div.table-cell"@);
    if cells.len() == 0 {
        VariantRowView { name: None, href: None, badge: None, arch: None }
    } else {
        VariantRowView {
            name: html::first_text(cells[0], "a.accent_color"@),
            href: html::first_attribute(cells[0], "a.accent_color"@, "href"@),
            badge: html::first_text(cells[0], "span.apkm-badge"@),
            arch: if cells.len() > 1 {
                Some(html::node_text(cells[1]))
            } else {
                None
            },
        }
    }
}

/// The rows of the table of variants.
pub open spec fn variant_rows(page: html::Page) -> Seq<VariantRowView> {
    let ns = html::matched(page, "div.variants-table div.table-row"@);
    Seq::new(ns.len(), |i: int| variant_row(ns[i]))
}

/// The variant that a row lists, if it has a link. Without a badge it is a
/// bundle.
pub open spec fn listed_variant(row: VariantRowView) -> Option<scrape::VariantView> {
    match (row.name, row.href) {
        (Some(name), Some(href)) => Some(
            scrape::VariantView {
                version: name,
                arch: scrape::listed_arch(row.arch),
                bundle: match row.badge {
                    Some(t) => !model::same_letters(t, "apk"@),
                    None => true,
                },
                url: site(href),
            },
        ),
        _ => None,
    }
}

/// The variants that rows list.
pub open spec fn listed_variants(rows: Seq<VariantRowView>) -> Seq<scrape::VariantView>
    decreases rows.len(),
{
    if rows.len() == 0 {
        Seq::<scrape::VariantView>::empty()
    } else {
        let front = listed_variants(rows.drop_last());
        match listed_variant(rows.last()) {
            Some(v) => front.push(v),
            None => front,
        }
    }
}

/// The rows of a table without its heading.
pub open spec fn body_rows(rows: Seq<VariantRowView>) -> Seq<VariantRowView> {
    if rows.len() == 0 {
        rows
    } else {
        rows.skip(1)
    }
}

/// The variant that a row lists.
fn read_variant(row: &VariantRow) -> (r: Option<Variant>)
    ensures
        (match r {
            Some(v) => Some(v@),
            None => None,
        }) == listed_variant(row@),
{
    if let Some(name) = &row.name {
        if let Some(href) = &row.href {
            let bundle = match &row.badge {
                Some(t) => !eq_ignore_ascii_case(t.as_str(), "apk"),
                None => true,
            };
            let url: Url = contract::Url::of(href.as_str());
            return Some(
                Variant {
                    version: name.clone(),
                    arch: arch_listed(&row.arch),
                    bundle,
                    url: url.into_string(),
                },
            );
        }
    }
    None
}

/// The variants of a table whose first row is its heading.
pub fn variant_list(rows: &[VariantRow]) -> (r: Vec<Variant>)
    ensures
        model::views(r@) == listed_variants(body_rows(model::views(rows@))),
{
    let ghost rv = model::views(rows@);
    let ghost body = body_rows(rv);
    let mut out: Vec<Variant> = Vec::new();
    assert(model::views(out@) == listed_variants(body.take(0)));
    if rows.len() == 0 {
        assert(body == body.take(0));
        return out;
    }
    let mut i: usize = 1;
    while i < rows.len()
        invariant
            1 <= i <= rows@.len(),
            rv == model::views(rows@),
            body == rv.skip(1),
            model::views(out@) == listed_variants(body.take(i - 1)),
        decreases rows@.len() - i,
    {
        assert(body.take(i as int).drop_last() == body.take(i - 1));
        assert(body.take(i as int).last() == rows@[i as int]@);
        if let Some(v) = read_variant(&rows[i]) {
            proof {
                model::lemma_views_push(out@, v);
            }
            out.push(v);
        }
        i += 1;
    }
    assert(body.take(body.len() as int) == body);
    out
}

/// The row that an element is.
fn read_row(row: &scraper::ElementRef<'_>) -> (r: VariantRow)
    ensures
        r@ == variant_row(html::node_of(*row)),
{
    let cells = select_in(row, "div.table-cell");
    assert(html::nodes(cells@).len() == cells@.len());
    if cells.len() == 0 {
        return VariantRow { name: None, href: None, badge: None, arch: None };
    }
    assert(html::nodes(cells@)[0] == html::node_of(cells@[0]));
    let arch = if cells.len() > 1 {
        assert(html::nodes(cells@)[1] == html::node_of(cells@[1]));
        Some(text_of(&cells[1]))
    } else {
        None
    };
    VariantRow {
        name: text_in(&cells[0], "a.accent_color"),
        href: attr_in(&cells[0], "a.accent_color", "href"),
        badge: text_in(&cells[0], "span.apkm-badge"),
        arch,
    }
}

/// The rows of the table of variants.
pub(crate) fn read_rows(doc: &scraper::Html) -> (r: Vec<VariantRow>)
    ensures
        model::views(r@) == variant_rows(html::page_of(*doc)),
{
    let found = select(doc, "div.variants-table div.table-row");
    let ghost rows = variant_rows(html::page_of(*doc));
    let mut out: Vec<VariantRow> = Vec::new();
    let mut i: usize = 0;
    assert(html::nodes(found@).len() == found@.len());
    assert(model::views(out@) == rows.take(0));
    while i < found.len()
        invariant
            i <= found@.len(),
            html::nodes(found@) == html::matched(
                html::page_of(*doc),
                "div.variants-table div.table-row"@,
            ),
            rows == variant_rows(html::page_of(*doc)),
            rows.len() == found@.len(),
            model::views(out@) == rows.take(i as int),
        decreases found@.len() - i,
    {
        assert(html::nodes(found@)[i as int] == html::node_of(found@[i as int]));
        let row = read_row(&found[i]);
        assert(row@ == rows[i as int]);
        proof {
            model::lemma_views_push(out@, row);
        }
        out.push(row);
        assert(model::views(out@) == rows.take(i + 1));
        i += 1;
    }
    assert(rows.take(rows.len() as int) == rows);
    out
}

/// The variants of a version page.
pub open spec fn page_variants(html: Seq<char>) -> Seq<scrape::VariantView> {
    listed_variants(body_rows(variant_rows(html::document(html))))
}

/// Reads the table of variants on a version page; empty where there is no table.
pub fn parse_variants(html: &str) -> (r: Vec<Variant>)
    ensures
        model::views(r@) == page_variants(html@),
{
    let doc = parse_document(html);
    let rows = read_rows(&doc);
    variant_list(&rows)
}

/// The address of a link as a URL, or a complaint that there is none.
pub open spec fn linked(href: Option<Seq<char>>, complaint: Seq<char>) -> Result<
    Seq<char>,
    contract::ErrorView,
> {
    match href {
        Some(h) => Ok(site(h)),
        None => Err(contract::ErrorView::ParseError(complaint)),
    }
}

/// The address of the keyed button of a download page.
pub open spec fn button_link(html: Seq<char>) -> Result<Seq<char>, contract::ErrorView> {
    linked(
        html::first_attribute_of(html::document(html), "a.downloadButton"@, "href"@),
        "no download button on download page"@,
    )
}

/// The address of the file on the page that starts the download.
pub open spec fn file_link(html: Seq<char>) -> Result<Seq<char>, contract::ErrorView> {
    let page = html::document(html);
    linked(
        match html::first_attribute_of(page, "a#download-link"@, "href"@) {
            Some(h) => Some(h),
            None => html::first_attribute_of(page, "div.card-with-tabs a[href]"@, "href"@),
        },
        "no final download link on 'starting' page"@,
    )
}

/// The address of a link as a URL, or a complaint that there is none.
pub fn link_or(href: Option<&str>, complaint: &str) -> (r: Result<Url, ProviderError>)
    ensures
        contract::outcome(r) == linked(model::opt_str(href), complaint@),
{
    match href {
        Some(h) => Ok(contract::Url::of(h)),
        None => Err(parse_err(complaint)),
    }
}

/// The keyed button of a download page (absolute).
pub fn parse_download_button(html: &str) -> (r: Result<Url, ProviderError>)
    ensures
        contract::outcome(r) == button_link(html@),
{
    let doc = parse_document(html);
    match first_attr(&doc, "a.downloadButton", "href") {
        Some(h) => link_or(Some(h.as_str()), "no download button on download page"),
        None => link_or(None, "no download button on download page"),
    }
}

/// The file on the page that starts the download (absolute).
pub fn parse_final_link(html: &str) -> (r: Result<Url, ProviderError>)
    ensures
        contract::outcome(r) == file_link(html@),
{
    let doc = parse_document(html);
    let href = match first_attr(&doc, "a#download-link", "href") {
        Some(h) => Some(h),
        None => first_attr(&doc, "div.card-with-tabs a[href]", "href"),
    };
    match href {
        Some(h) => link_or(Some(h.as_str()), "no final download link on 'starting' page"),
        None => link_or(None, "no final download link on 'starting' page"),
    }
}

/// A hit is never ranked behind a later one with a worse key, and the hits are
/// those that were found, each as often as it was.
pub proof fn lemma_ranked(hits: Seq<HitView>, query: Seq<char>)
    requires
        hits.len() <= usize::MAX,
    ensures
        ranked(hits, query).len() == hits.len(),
        ranked(hits, query).to_multiset() == hits.to_multiset(),
        forall|i: int, j: int|
            0 <= i < j < hits.len() ==> !order::key_less(
                rank_key(#[trigger] ranked(hits, query)[j], query),
                rank_key(#[trigger] ranked(hits, query)[i], query),
            ),
{
    let keys = rank_keys(hits, query);
    order::lemma_ranking(hits, keys);
    let order = order::ranking(keys);
    assert forall|i: int, j: int| 0 <= i < j < hits.len() implies !order::key_less(
        rank_key(#[trigger] ranked(hits, query)[j], query),
        rank_key(#[trigger] ranked(hits, query)[i], query),
    ) by {
        assert(order::precedes(keys, order[i] as int, order[j] as int));
    }
}

} // verus!
