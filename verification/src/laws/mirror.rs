//! Laws of APKMirror: what its pages say, how hits are ranked, and how a download goes
//! through the pages.

use crate::common::contract;
use crate::common::contract::{Arch, ProviderId};
use crate::common::flow;
use crate::html;
use crate::laws::scraping;
use crate::laws::texts;
use crate::model;
use crate::model::Class;
use crate::order;
use crate::outside;
use crate::providers::apkmirror;
use crate::providers::apkmirror::parse;
use crate::providers::apkmirror::{DownloadView, ListingView, StageView};
use crate::providers::scrape;
use vstd::prelude::*;

verus! {

/// An address below the site.
pub open spec fn below(href: Seq<char>) -> Seq<char> {
    contract::absolute("https://www.apkmirror.com"@, href)
}

/// Whether a text is `apk` in any case.
pub open spec fn says_apk(t: Seq<char>) -> bool {
    &&& t.len() == 3
    &&& t[0] == 'a' || t[0] == 'A'
    &&& t[1] == 'p' || t[1] == 'P'
    &&& t[2] == 'k' || t[2] == 'K'
}

/// A row of the table of variants lists a variant just where it has a name and a link: with
/// that name as its version, its address below the site and the ABIs of its label. It is a
/// plain APK just where its badge says `APK`, in any case; with another badge or none it is a
/// bundle.
pub proof fn lemma_variant(row: parse::VariantRowView)
    ensures
        parse::listed_variant(row) is Some <==> row.name is Some && row.href is Some,
        parse::listed_variant(row) matches Some(v) ==> {
            &&& Some(v.version) == row.name
            &&& v.url == below(row.href->0)
            &&& v.arch == scrape::listed_arch(row.arch)
            &&& !v.bundle <==> row.badge is Some && says_apk(row.badge->0)
        },
{
    reveal_strlit("apk");
    if let Some(t) = row.badge {
        texts::lemma_same_letters(t, "apk"@);
        assert("apk"@.len() == 3);
        if says_apk(t) {
            assert forall|i: int| 0 <= i < t.len() implies texts::same_letter(
                #[trigger] t[i],
                "apk"@[i],
            ) by {}
        }
        if model::same_letters(t, "apk"@) {
            assert(texts::same_letter(t[0], "apk"@[0]));
            assert(texts::same_letter(t[1], "apk"@[1]));
            assert(texts::same_letter(t[2], "apk"@[2]));
            lemma_letter(t[0], 'a', 'A');
            lemma_letter(t[1], 'p', 'P');
            lemma_letter(t[2], 'k', 'K');
        }
    }
}

/// The two forms of a letter.
proof fn lemma_letter(c: char, small: char, big: char)
    requires
        0x61 <= small as int <= 0x7a,
        small as int == big as int + 32,
        texts::same_letter(c, small),
    ensures
        c == small || c == big,
{
}

/// The badges of the site: a row with `APK` lists a plain APK, one with `BUNDLE` a bundle.
pub proof fn lemma_badges(name: Seq<char>, href: Seq<char>, arch: Option<Seq<char>>)
    ensures
        parse::listed_variant(
            parse::VariantRowView { name: Some(name), href: Some(href), badge: Some("APK"@), arch },
        ) matches Some(v) && !v.bundle,
        parse::listed_variant(
            parse::VariantRowView {
                name: Some(name),
                href: Some(href),
                badge: Some("BUNDLE"@),
                arch,
            },
        ) matches Some(v) && v.bundle,
{
    reveal_strlit("APK");
    reveal_strlit("BUNDLE");
    lemma_variant(
        parse::VariantRowView { name: Some(name), href: Some(href), badge: Some("APK"@), arch },
    );
    lemma_variant(
        parse::VariantRowView { name: Some(name), href: Some(href), badge: Some("BUNDLE"@), arch },
    );
}

/// The variants of a table: those that its rows list, in order, but for the heading.
pub proof fn lemma_variants(rows: Seq<parse::VariantRowView>, row: parse::VariantRowView)
    ensures
        parse::listed_variants(Seq::<parse::VariantRowView>::empty()).len() == 0,
        parse::listed_variant(row) is None ==> parse::listed_variants(rows.push(row))
            == parse::listed_variants(rows),
        parse::listed_variant(row) matches Some(v) ==> parse::listed_variants(rows.push(row))
            == parse::listed_variants(rows).push(v),
        parse::body_rows(seq![row] + rows) == rows,
        parse::body_rows(Seq::<parse::VariantRowView>::empty()).len() == 0,
{
    assert(rows.push(row).drop_last() == rows);
    assert((seq![row] + rows).skip(1) == rows);
}

/// How well a token of a title meets one of the query: 0 where they are equal, 1 where it
/// begins with it, 2 where it holds it, else 3.
pub proof fn lemma_match_level(q: Seq<char>, t: Seq<char>)
    ensures
        parse::match_level(q, t) == 0 <==> t == q,
        parse::match_level(q, t) <= 1 <==> exists|rest: Seq<char>| t == #[trigger] (q + rest),
        parse::match_level(q, t) <= 2 <==> exists|a: Seq<char>, b: Seq<char>|
            t == #[trigger] (a + q + b),
        parse::match_level(q, t) <= 3,
{
    texts::lemma_begins(t, q);
    texts::lemma_holds(t, q);
    let e = Seq::<char>::empty();
    if t == q {
        assert(t == q + e);
        assert(t == e + q + e);
    }
    if model::begins(t, q) {
        let rest = t.skip(q.len() as int);
        assert(t == q + rest);
        assert(t == e + q + rest);
    }
}

/// The best of a title's tokens counts: no token is better, and one is as good, or there is
/// none and it is 3.
pub proof fn lemma_best_level(q: Seq<char>, title: Seq<Seq<char>>)
    ensures
        parse::best_level(q, title) <= 3,
        forall|i: int|
            0 <= i < title.len() ==> parse::best_level(q, title) <= parse::match_level(
                q,
                #[trigger] title[i],
            ),
        parse::best_level(q, title) == 3 || exists|i: int|
            0 <= i < title.len() && parse::best_level(q, title) == parse::match_level(
                q,
                #[trigger] title[i],
            ),
    decreases title.len(),
{
    if title.len() > 0 {
        let front = title.drop_last();
        lemma_best_level(q, front);
        assert forall|i: int| 0 <= i < title.len() implies parse::best_level(q, title)
            <= parse::match_level(q, #[trigger] title[i]) by {
            if i < front.len() {
                assert(front[i] == title[i]);
            }
        }
        let last = parse::match_level(q, title.last());
        if last < parse::best_level(q, front) {
            assert(title[title.len() - 1] == title.last());
        } else if parse::best_level(q, front) < 3 {
            let i = choose|i: int|
                0 <= i < front.len() && parse::best_level(q, front) == parse::match_level(
                    q,
                    #[trigger] front[i],
                );
            assert(title[i] == front[i]);
        }
    }
}

/// Coverage adds up over the tokens of the query, and extras count the tokens of a slug that
/// none of these equals.
pub proof fn lemma_rank_sums(ws: Seq<Seq<char>>, w: Seq<char>, other: Seq<Seq<char>>)
    ensures
        parse::coverage(Seq::<Seq<char>>::empty(), other) == 0,
        parse::coverage(ws.push(w), other) == parse::coverage(ws, other) + parse::best_level(w, other),
        parse::extras(Seq::<Seq<char>>::empty(), other) == 0,
        other.contains(w) ==> parse::extras(ws.push(w), other) == parse::extras(ws, other),
        !other.contains(w) ==> parse::extras(ws.push(w), other) == parse::extras(ws, other) + 1,
{
    assert(ws.push(w).drop_last() == ws);
}

/// A rank: first how well the title without its version covers the query, then how many tokens
/// of the app's slug the query does not name, in lower case, with 255 for more than that.
pub proof fn lemma_rank(hit: parse::HitView, query: Seq<char>)
    ensures
        ({
            let q = model::runs(outside::unicode_lowercase(query), Class::NotWord);
            let title = model::runs(
                outside::unicode_lowercase(parse::unversioned(hit.title)),
                Class::NotWord,
            );
            let slug = model::runs(parse::repo_of(hit.release_url), Class::NotWord);
            &&& parse::rank_of(hit, query).0 == parse::coverage(q, title)
            &&& parse::extras(slug, q) <= 255 ==> parse::rank_of(hit, query).1 == parse::extras(slug, q)
            &&& parse::extras(slug, q) > 255 ==> parse::rank_of(hit, query).1 == 255
            &&& parse::rank_key(hit, query) == (
                parse::rank_of(hit, query).0 as u128,
                parse::rank_of(hit, query).1 as u128,
            )
        }),
{
}

/// The app of a release: the two parts behind `apk/` in its path, neither of them empty.
pub proof fn lemma_slug(org: Seq<char>, repo: Seq<char>, rest: Seq<char>, url: Seq<char>)
    requires
        org.len() > 0 && !org.contains('/'),
        repo.len() > 0 && !repo.contains('/'),
    ensures
        contract::path_below("https://www.apkmirror.com"@, url) == Some(
            "apk/"@ + (org + seq!['/'] + repo),
        ) || contract::path_below("https://www.apkmirror.com"@, url) == Some(
            "apk/"@ + (org + seq!['/'] + repo + seq!['/'] + rest),
        ) ==> parse::slug_of(url) == Some(org + seq!['/'] + repo) && parse::repo_of(url) == repo,
{
    reveal_strlit("/");
    assert("/"@ == seq!['/']);
    let k = Class::One('/');
    let slug = org + seq!['/'] + repo;
    let long = slug + seq!['/'] + rest;
    texts::lemma_two_pieces(slug, '/', org, repo);
    assert(model::pieces(slug, k)[0] == org);
    assert(model::pieces(slug, k).last() == repo);
    lemma_pieces_prefix(slug, '/', rest);
    texts::lemma_begins("apk/"@ + slug, "apk/"@);
    texts::lemma_begins("apk/"@ + long, "apk/"@);
    assert(("apk/"@ + slug).skip("apk/"@.len() as int) == slug);
    assert(("apk/"@ + long).skip("apk/"@.len() as int) == long);
}

/// What follows a separator does not change the pieces before it.
proof fn lemma_pieces_prefix(s: Seq<char>, c: char, rest: Seq<char>)
    ensures
        ({
            let ps = model::pieces(s, Class::One(c));
            let all = model::pieces(s + seq![c] + rest, Class::One(c));
            all.len() > ps.len() && all.take(ps.len() as int) == ps
        }),
    decreases rest.len(),
{
    let k = Class::One(c);
    let ps = model::pieces(s, k);
    let t = s + seq![c] + rest;
    if rest.len() == 0 {
        assert(t.drop_last() == s);
        assert(model::pieces(t, k) == ps.push(Seq::<char>::empty()));
        assert(ps.push(Seq::<char>::empty()).take(ps.len() as int) == ps);
    } else {
        lemma_pieces_prefix(s, c, rest.drop_last());
        assert(t.drop_last() == s + seq![c] + rest.drop_last());
        let front = model::pieces(t.drop_last(), k);
        assert(model::pieces(t, k).take(ps.len() as int) == front.take(ps.len() as int));
    }
}

/// A URL of another site, or not of an app, has no slug; a slug has a part on either side of
/// one slash.
pub proof fn lemma_slug_shape(url: Seq<char>)
    ensures
        contract::path_below("https://www.apkmirror.com"@, url) is None ==> parse::slug_of(
            url,
        ) is None,
        contract::path_below("https://www.apkmirror.com"@, url) matches Some(path)
            ==> !model::begins(path, "apk/"@) ==> parse::slug_of(url) is None,
        parse::slug_of(url) is None ==> parse::repo_of(url).len() == 0,
        parse::slug_of(url) matches Some(slug) ==> exists|org: Seq<char>, repo: Seq<char>|
            {
                &&& slug == #[trigger] (org + seq!['/'] + repo)
                &&& org.len() > 0 && !org.contains('/')
                &&& repo.len() > 0 && !repo.contains('/')
                &&& repo == parse::repo_of(url)
            },
{
    reveal_strlit("/");
    assert("/"@ == seq!['/']);
    if let Some(slug) = parse::slug_of(url) {
        let path = contract::path_below("https://www.apkmirror.com"@, url)->0;
        let rest = model::after_prefix(path, "apk/"@)->0;
        let segs = model::pieces(rest, Class::One('/'));
        texts::lemma_pieces(rest, '/');
        assert(!segs[0].contains('/') && !segs[1].contains('/'));
        assert(slug == segs[0] + seq!['/'] + segs[1]);
        texts::lemma_two_pieces(slug, '/', segs[0], segs[1]);
        assert(model::pieces(slug, Class::One('/')).last() == segs[1]);
    }
}

/// A title loses its version where that is a dotted number and not all of it: every such word
/// goes, and the others stay in order with one space between them. Any other title stays.
pub proof fn lemma_unversioned(title: Seq<char>)
    ensures
        ({
            let t = scrape::version_of(title);
            let goes = t != title && scraping::numeric(t) && t.contains('.');
            &&& !goes ==> parse::unversioned(title) == title
            &&& goes ==> parse::unversioned(title) == model::joined(
                parse::others(model::words(title), t),
                seq![' '],
            )
        }),
{
}

/// The words that are not one: that one goes wherever it stands, the others stay in order.
pub proof fn lemma_others(ws: Seq<Seq<char>>, w: Seq<char>, t: Seq<char>)
    ensures
        parse::others(Seq::<Seq<char>>::empty(), t).len() == 0,
        w == t ==> parse::others(ws.push(w), t) == parse::others(ws, t),
        w != t ==> parse::others(ws.push(w), t) == parse::others(ws, t).push(w),
{
    assert(ws.push(w).drop_last() == ws);
}

/// The hits of a search come by rank, and hits of equal rank in the order of the page.
pub proof fn lemma_ranked(hits: Seq<parse::HitView>, query: Seq<char>)
    requires
        hits.len() <= usize::MAX,
    ensures
        ({
            let o = order::ranking(
                Seq::new(hits.len(), |i: int| parse::rank_key(hits[i], query)),
            );
            &&& parse::ranked(hits, query).len() == hits.len()
            &&& o.len() == hits.len()
            &&& forall|i: int|
                0 <= i < o.len() ==> parse::ranked(hits, query)[i] == hits[#[trigger] o[i] as int]
        }),
{
    let keys = Seq::new(hits.len(), |i: int| parse::rank_key(hits[i], query));
    assert(parse::rank_keys(hits, query) == keys);
    scraping::lemma_sorted(keys);
}

/// The part of a results page that counts: what stands before the first widget. A page that
/// says that it found nothing has no links.
pub proof fn lemma_results(page: Seq<char>, front: Seq<char>, rest: Seq<char>)
    ensures
        model::first(page, "<h5 class=\"widgetHeader\">"@) == Some(front.len() as int) && page
            == front + "<h5 class=\"widgetHeader\">"@ + rest ==> parse::results_part(page) == front,
        !model::holds(page, "<h5 class=\"widgetHeader\">"@) ==> parse::results_part(page) == page,
        model::holds(page, "No results found matching your query"@) ==> parse::search_rows(
            page,
        ).len() == 0,
        !model::holds(page, "No results found matching your query"@) ==> {
            let ns = html::matched(
                html::document(parse::results_part(page)),
                "h5.appRowTitle a.fontBlack"@,
            );
            &&& parse::search_rows(page).len() == ns.len()
            &&& forall|i: int|
                0 <= i < ns.len() ==> (#[trigger] parse::search_rows(page)[i]).title
                    == html::node_text(ns[i]) && parse::search_rows(page)[i].href == html::attribute(
                    ns[i],
                    "href"@,
                )
        },
{
    if !model::holds(page, "<h5 class=\"widgetHeader\">"@) {
        texts::lemma_occurs_none(page, "<h5 class=\"widgetHeader\">"@);
    }
    if page == front + "<h5 class=\"widgetHeader\">"@ + rest {
        assert(page.take(front.len() as int) == front);
    }
}

/// The hits of a search are its links, each with its text and its address below the site.
pub proof fn lemma_searched(rows: Seq<parse::SearchRowView>, query: Seq<char>)
    ensures
        parse::complete(rows) <==> forall|i: int|
            0 <= i < rows.len() ==> (#[trigger] rows[i]).href is Some,
        parse::hits_of(rows).len() == rows.len(),
        forall|i: int|
            0 <= i < rows.len() ==> (#[trigger] parse::hits_of(rows)[i]).title == rows[i].title
                && parse::hits_of(rows)[i].release_url == below(rows[i].href->0),
        rows.len() == 0 ==> parse::searched(rows, query) == Err::<
            Seq<parse::HitView>,
            contract::ErrorView,
        >(contract::ErrorView::NotFound("search returned nothing"@)),
        rows.len() > 0 ==> parse::searched(rows, query) == Ok::<
            Seq<parse::HitView>,
            contract::ErrorView,
        >(parse::ranked(parse::hits_of(rows), query)),
{
}

/// The newest release on an app page is the first entry of its first list of versions.
pub proof fn lemma_newest(page: html::Page)
    ensures
        ({
            let ws = html::matched(page, "div.listWidget.p-relative"@);
            let n = parse::newest(page);
            &&& ws.len() == 0 ==> parse::newest_complete(n) && parse::newest_found(n) == Err::<
                parse::HitView,
                contract::ErrorView,
            >(contract::ErrorView::ParseError("no 'All versions' widget on app page"@))
            &&& ws.len() > 0 ==> match html::first_in(ws[0], "h5.appRowTitle a.fontBlack"@) {
                None => parse::newest_complete(n) && parse::newest_found(n) == Err::<
                    parse::HitView,
                    contract::ErrorView,
                >(contract::ErrorView::ParseError("no item in 'All versions' widget"@)),
                Some(a) => {
                    &&& parse::newest_complete(n) <==> html::attribute(a, "href"@) is Some
                    &&& html::attribute(a, "href"@) matches Some(href) ==> parse::newest_found(n)
                        == Ok::<parse::HitView, contract::ErrorView>(
                        parse::HitView { title: html::node_text(a), release_url: below(href) },
                    )
                },
            }
        }),
{
}

/// The entries of the list of versions, and what each stands for.
pub proof fn lemma_version_items(page: html::Page, n: html::Node)
    ensures
        parse::version_item(n).title == html::first_text(n, "h5.appRowTitle a.fontBlack"@),
        parse::version_item(n).href == html::first_attribute(
            n,
            "h5.appRowTitle a.fontBlack"@,
            "href"@,
        ),
        parse::version_item(n).date == html::first_attribute(
            n,
            "span.dateyear_utc"@,
            "data-utcdate"@,
        ),
        html::matched(page, "div.listWidget.p-relative"@).len() == 0 ==> parse::version_items(
            page,
        ) is None,
        html::matched(page, "div.listWidget.p-relative"@).len() > 0 ==> {
            let ns = html::matched_in(
                html::matched(page, "div.listWidget.p-relative"@)[0],
                "div.appRow"@,
            );
            parse::version_items(page) matches Some(items) && items.len() == ns.len() && forall|
                i: int,
            |
                0 <= i < ns.len() ==> #[trigger] items[i] == parse::version_item(ns[i])
        },
{
}

/// The rows of the table of variants: the link and the badge of the first cell, and the text
/// of the second.
pub proof fn lemma_variant_rows(page: html::Page, n: html::Node)
    ensures
        ({
            let cells = html::matched_in(n, "div.table-cell"@);
            let row = parse::variant_row(n);
            &&& cells.len() == 0 ==> row.name is None && row.href is None && row.badge is None
                && row.arch is None
            &&& cells.len() > 0 ==> {
                &&& row.name == html::first_text(cells[0], "a.accent_color"@)
                &&& row.href == html::first_attribute(cells[0], "a.accent_color"@, "href"@)
                &&& row.badge == html::first_text(cells[0], "span.apkm-badge"@)
            }
            &&& cells.len() == 1 ==> row.arch is None
            &&& cells.len() > 1 ==> row.arch == Some(html::node_text(cells[1]))
        }),
        parse::variant_rows(page).len() == html::matched(
            page,
            "div.variants-table div.table-row"@,
        ).len(),
        forall|i: int|
            0 <= i < parse::variant_rows(page).len() ==> #[trigger] parse::variant_rows(page)[i]
                == parse::variant_row(html::matched(page, "div.variants-table div.table-row"@)[i]),
        parse::page_variants(page.text) == parse::listed_variants(
            parse::body_rows(parse::variant_rows(html::document(page.text))),
        ),
{
}

/// An entry lists a version just where it has a link and a date in the form of the site; with
/// a link and without such a date it is reported.
pub proof fn lemma_listed(item: parse::VersionItemView)
    ensures
        ({
            let text = match item.date {
                Some(d) => d,
                None => Seq::<char>::empty(),
            };
            let date = scrape::dated(text, "%m/%d/%Y %H:%M UTC"@);
            let linked = item.title is Some && item.href is Some;
            &&& parse::listed_version(item) is Some <==> linked && date is Some
            &&& parse::listed_version(item) matches Some(v) ==> v.version == scrape::version_of(
                item.title->0,
            ) && Some(v.uploaded) == date
            &&& parse::complaint(item) is Some <==> linked && date is None
            &&& parse::complaint(item) matches Some(t) ==> t == scrape::undated(
                "apkmirror"@,
                scrape::version_of(item.title->0),
                text,
            )
        }),
{
    reveal_strlit("");
    assert(""@ == Seq::<char>::empty());
}

/// The versions of a list: those of its entries that list one, in order. No list, or none in
/// it, is reported.
pub proof fn lemma_versions(items: Seq<parse::VersionItemView>, item: parse::VersionItemView)
    ensures
        parse::listed_versions(Seq::<parse::VersionItemView>::empty()).len() == 0,
        parse::listed_version(item) is None ==> parse::listed_versions(items.push(item))
            == parse::listed_versions(items),
        parse::listed_version(item) matches Some(v) ==> parse::listed_versions(items.push(item))
            == parse::listed_versions(items).push(v),
        parse::versions_found(None) == Err::<Seq<contract::VersionView>, contract::ErrorView>(
            contract::ErrorView::ParseError("no 'All versions' widget on app page"@),
        ),
        parse::listed_versions(items).len() == 0 ==> parse::versions_found(Some(items)) == Err::<
            Seq<contract::VersionView>,
            contract::ErrorView,
        >(contract::ErrorView::NotFound("no versions listed"@)),
        parse::listed_versions(items).len() > 0 ==> parse::versions_found(Some(items)) == Ok::<
            Seq<contract::VersionView>,
            contract::ErrorView,
        >(parse::listed_versions(items)),
        parse::complaints(None).len() == 0,
        parse::complaint(item) is None ==> parse::complaints(Some(items.push(item)))
            == parse::complaints(Some(items)),
        parse::complaint(item) matches Some(t) ==> parse::complaints(Some(items.push(item)))
            == parse::complaints(Some(items)).push(t),
{
    let all = items.push(item);
    assert(all.drop_last() == items);
    let cs = Seq::new(items.len(), |i: int| parse::complaint(items[i]));
    let ds = Seq::new(all.len(), |i: int| parse::complaint(all[i]));
    assert(ds == cs.push(parse::complaint(item)));
    scraping::lemma_present_order(cs, parse::complaint(item)->0);
}

/// The links on the way to a file: the button of a download page, and on the page that starts
/// the download its link, else the first of the cards. Without one it is reported.
pub proof fn lemma_links(page: Seq<char>)
    ensures
        match html::first_attribute_of(html::document(page), "a.downloadButton"@, "href"@) {
            Some(href) => parse::button_link(page) == Ok::<Seq<char>, contract::ErrorView>(
                below(href),
            ),
            None => parse::button_link(page) == Err::<Seq<char>, contract::ErrorView>(
                contract::ErrorView::ParseError("no download button on download page"@),
            ),
        },
        match html::first_attribute_of(html::document(page), "a#download-link"@, "href"@) {
            Some(href) => parse::file_link(page) == Ok::<Seq<char>, contract::ErrorView>(below(href)),
            None => match html::first_attribute_of(
                html::document(page),
                "div.card-with-tabs a[href]"@,
                "href"@,
            ) {
                Some(href) => parse::file_link(page) == Ok::<Seq<char>, contract::ErrorView>(
                    below(href),
                ),
                None => parse::file_link(page) == Err::<Seq<char>, contract::ErrorView>(
                    contract::ErrorView::ParseError("no final download link on 'starting' page"@),
                ),
            },
        },
{
}

/// The app of a hit: its slug, decoded, and its title without the version.
pub proof fn lemma_app_of(hit: parse::HitView)
    ensures
        parse::slug_of(hit.release_url) is None ==> apkmirror::app_of(hit) is None
            && apkmirror::app_page(hit) == Err::<Seq<char>, contract::ErrorView>(
            contract::ErrorView::ParseError("bad release url"@),
        ),
        parse::slug_of(hit.release_url) matches Some(slug) ==> {
            &&& apkmirror::app_of(hit) == Some(
                contract::AppView {
                    package: outside::percent_decoded(slug),
                    title: parse::unversioned(hit.title),
                },
            )
            &&& apkmirror::app_page(hit) == Ok::<Seq<char>, contract::ErrorView>(
                below("/apk/"@ + slug + "/"@),
            )
        },
{
}

/// The apps of a search: a hit of no app adds none, nor does one of an app that is there; any
/// other adds its app behind the others.
pub proof fn lemma_apps(hits: Seq<parse::HitView>, hit: parse::HitView)
    ensures
        apkmirror::apps_of(Seq::<parse::HitView>::empty()).len() == 0,
        apkmirror::app_of(hit) is None ==> apkmirror::apps_of(hits.push(hit)) == apkmirror::apps_of(
            hits,
        ),
        apkmirror::app_of(hit) matches Some(app) ==> {
            let seen = exists|i: int|
                0 <= i < apkmirror::apps_of(hits).len() && (
                #[trigger] apkmirror::apps_of(hits)[i]).package == app.package;
            &&& seen ==> apkmirror::apps_of(hits.push(hit)) == apkmirror::apps_of(hits)
            &&& !seen ==> apkmirror::apps_of(hits.push(hit)) == apkmirror::apps_of(hits).push(app)
        },
{
    assert(hits.push(hit).drop_last() == hits);
}

/// What the hits of a page are: none to read where a link has no address.
pub proof fn lemma_hits_read(page: Seq<char>, q: Seq<char>)
    ensures
        apkmirror::hits_read(page, q) is None <==> exists|i: int|
            0 <= i < parse::search_rows(page).len() && (
            #[trigger] parse::search_rows(page)[i]).href is None,
        apkmirror::hits_read(page, q) matches Some(r) ==> r == parse::searched(
            parse::search_rows(page),
            q,
        ),
        apkmirror::newest_read(page) is None <==> !parse::newest_complete(
            parse::newest(html::document(page)),
        ),
        apkmirror::newest_read(page) matches Some(r) ==> r == parse::newest_found(
            parse::newest(html::document(page)),
        ),
{
}

/// A search is one for apps, and answers with the apps of the hits that the page holds for
/// it.
pub proof fn lemma_search(q: Seq<char>, page: Seq<char>, e: contract::ErrorView)
    ensures
        apkmirror::app_search(q) == flow::RequestView::Get(
            below("/?post_type=app_release&"@ + "searchtype=app"@ + "&s="@ + scrape::encoded(q)),
        ),
        apkmirror::apk_search(q) == flow::RequestView::Get(
            below("/?post_type=app_release&"@ + "searchtype=apk"@ + "&s="@ + scrape::encoded(q)),
        ),
        apkmirror::search_start(q) == flow::StepView::<_, Seq<contract::AppView>>::Ask(
            apkmirror::app_search(q),
            q,
        ),
        apkmirror::search_next(q, Err(e)) == flow::StepView::<
            Seq<char>,
            Seq<contract::AppView>,
        >::Done(Err(e)),
        apkmirror::search_next(q, Ok(page)) == match apkmirror::hits_read(page, q) {
            None => flow::StepView::<Seq<char>, Seq<contract::AppView>>::Abort,
            Some(Err(x)) => flow::StepView::Done(Err(x)),
            Some(Ok(hits)) => flow::StepView::Done(Ok(apkmirror::apps_of(hits))),
        },
{
}

/// A listing searches for the package, opens the best hit, from its newest release the page of
/// the app, and answers with the versions there.
pub proof fn lemma_listing(pkg: Seq<char>, page: Seq<char>, s: ListingView, e: contract::ErrorView)
    ensures
        apkmirror::versions_start(pkg) == flow::StepView::<_, Seq<contract::VersionView>>::Ask(
            apkmirror::app_search(pkg),
            ListingView::Apps(pkg),
        ),
        apkmirror::versions_next(s, Err(e)) == flow::StepView::<
            ListingView,
            Seq<contract::VersionView>,
        >::Done(Err(e)),
        apkmirror::versions_next(ListingView::Apps(pkg), Ok(page)) == match apkmirror::hits_read(
            page,
            pkg,
        ) {
            None => flow::StepView::<ListingView, Seq<contract::VersionView>>::Abort,
            Some(Err(x)) => flow::StepView::Done(Err(x)),
            Some(Ok(hits)) => flow::StepView::Ask(
                flow::RequestView::Get(hits[0].release_url),
                ListingView::App,
            ),
        },
        apkmirror::versions_next(ListingView::App, Ok(page)) == match apkmirror::newest_read(page) {
            None => flow::StepView::<ListingView, Seq<contract::VersionView>>::Abort,
            Some(Err(x)) => flow::StepView::Done(Err(x)),
            Some(Ok(hit)) => match apkmirror::app_page(hit) {
                Err(x) => flow::StepView::Done(Err(x)),
                Ok(url) => flow::StepView::Ask(flow::RequestView::Get(url), ListingView::Versions),
            },
        },
        apkmirror::versions_next(ListingView::Versions, Ok(page)) == flow::StepView::<
            ListingView,
            Seq<contract::VersionView>,
        >::Done(parse::versions_found(parse::version_items(html::document(page)))),
        apkmirror::reported(true, Ok(page)) == parse::complaints(
            parse::version_items(html::document(page)),
        ),
        apkmirror::reported(false, Ok(page)).len() == 0,
        apkmirror::reported(true, Err(e)).len() == 0,
{
}

/// The page of the version asked for is that of the hit that is taken for it, whose version is
/// that in its title.
pub proof fn lemma_build_page(hits: Seq<parse::HitView>, want: Seq<char>, pkg: Seq<char>)
    ensures
        apkmirror::versions_in(hits).len() == hits.len(),
        forall|i: int|
            0 <= i < hits.len() ==> #[trigger] apkmirror::versions_in(hits)[i] == scrape::version_of(
                hits[i].title,
            ),
        scrape::pinned(apkmirror::versions_in(hits), want) matches Some(i) ==> apkmirror::build_page(
            hits,
            want,
            pkg,
        ) == Ok::<Seq<char>, contract::ErrorView>(hits[i].release_url),
        scrape::pinned(apkmirror::versions_in(hits), want) is None ==> apkmirror::build_page(
            hits,
            want,
            pkg,
        ) == Err::<Seq<char>, contract::ErrorView>(
            contract::ErrorView::NotFound("no build "@ + want + " for "@ + pkg),
        ),
{
}

/// What a download asks first: for the app, or for builds of the package in the version asked
/// for. A failure of the site ends it at any step.
pub proof fn lemma_download_start(
    d: DownloadView,
    pkg: Seq<char>,
    want: Seq<char>,
    arch: Arch,
    e: contract::ErrorView,
)
    ensures
        apkmirror::download_start(pkg, None, arch) == flow::StepView::<
            DownloadView,
            contract::TargetView,
        >::Ask(
            apkmirror::app_search(pkg),
            DownloadView { pkg, version: None, arch, stage: StageView::Apps },
        ),
        apkmirror::download_start(pkg, Some(want), arch) == flow::StepView::<
            DownloadView,
            contract::TargetView,
        >::Ask(
            apkmirror::apk_search(pkg + " "@ + want),
            DownloadView { pkg, version: Some(want), arch, stage: StageView::Builds(want) },
        ),
        apkmirror::download_next(d, Err(e)) == flow::StepView::<
            DownloadView,
            contract::TargetView,
        >::Done(Err(e)),
{
}

/// How a download comes to a version page: without a version from the best hit to the newest
/// release of its app; with one from the hit that is taken for it.
pub proof fn lemma_download_version(d: DownloadView, page: Seq<char>)
    ensures
        d.stage is Apps ==> apkmirror::download_next(d, Ok(page)) == match apkmirror::hits_read(
            page,
            d.pkg,
        ) {
            None => flow::StepView::<DownloadView, contract::TargetView>::Abort,
            Some(Err(x)) => flow::StepView::Done(Err(x)),
            Some(Ok(hits)) => flow::StepView::Ask(
                flow::RequestView::Get(hits[0].release_url),
                DownloadView { stage: StageView::App, ..d },
            ),
        },
        d.stage is App ==> apkmirror::download_next(d, Ok(page)) == match apkmirror::newest_read(
            page,
        ) {
            None => flow::StepView::<DownloadView, contract::TargetView>::Abort,
            Some(Err(x)) => flow::StepView::Done(Err(x)),
            Some(Ok(hit)) => flow::StepView::Ask(
                flow::RequestView::Get(hit.release_url),
                DownloadView { stage: StageView::Version, ..d },
            ),
        },
        d.stage matches StageView::Builds(want) ==> apkmirror::download_next(d, Ok(page))
            == match apkmirror::hits_read(page, d.pkg + " "@ + want) {
            None => flow::StepView::<DownloadView, contract::TargetView>::Abort,
            Some(Err(x)) => flow::StepView::Done(Err(x)),
            Some(Ok(hits)) => match apkmirror::build_page(hits, want, d.pkg) {
                Err(x) => flow::StepView::Done(Err(x)),
                Ok(url) => flow::StepView::Ask(
                    flow::RequestView::Get(url),
                    DownloadView { stage: StageView::Version, ..d },
                ),
            },
        },
{
}

/// How a download goes on from a version page: to the page of the variant that is chosen for
/// the ABIs; without variants the page is that of the only build, which runs anywhere.
pub proof fn lemma_download_variant(d: DownloadView, page: Seq<char>)
    requires
        d.stage is Version,
    ensures
        ({
            let vs = parse::page_variants(page);
            match scrape::choice(vs, d.arch) {
                Some(i) => apkmirror::download_next(d, Ok(page)) == flow::StepView::<
                    DownloadView,
                    contract::TargetView,
                >::Ask(
                    flow::RequestView::Get(vs[i].url),
                    DownloadView { stage: StageView::Page(Some(vs[i].version), vs[i].arch), ..d },
                ),
                None => apkmirror::download_next(d, Ok(page)) == match parse::button_link(page) {
                    Err(x) => flow::StepView::<DownloadView, contract::TargetView>::Done(Err(x)),
                    Ok(button) => flow::StepView::Ask(
                        flow::RequestView::Get(button),
                        DownloadView {
                            stage: StageView::Starting(
                                d.version,
                                Arch { arm64_v8a: true, armeabi_v7a: true, x86: true, x86_64: true },
                                button,
                            ),
                            ..d
                        },
                    ),
                },
            }
        }),
{
}

/// From the page of a build over its button to the file, which is served to whoever comes
/// from the page behind the button.
pub proof fn lemma_download_file(
    d: DownloadView,
    version: Option<Seq<char>>,
    arch: Arch,
    button: Seq<char>,
    page: Seq<char>,
)
    ensures
        d.stage == StageView::Page(version, arch) ==> apkmirror::download_next(d, Ok(page))
            == match parse::button_link(page) {
            Err(x) => flow::StepView::<DownloadView, contract::TargetView>::Done(Err(x)),
            Ok(b) => flow::StepView::Ask(
                flow::RequestView::Get(b),
                DownloadView { stage: StageView::Starting(version, arch, b), ..d },
            ),
        },
        d.stage == StageView::Starting(version, arch, button) ==> match parse::file_link(page) {
            Err(x) => apkmirror::download_next(d, Ok(page)) == flow::StepView::<
                DownloadView,
                contract::TargetView,
            >::Done(Err(x)),
            Ok(url) => apkmirror::download_next(d, Ok(page)) matches flow::StepView::Done(Ok(t)) && {
                &&& t.url == url
                &&& version matches Some(v) ==> t.version == v
                &&& version is None ==> t.version == "latest"@
                &&& t.arch == arch
                &&& t.provider == ProviderId::Apkmirror
                &&& t.headers == seq![("Referer"@, button)]
            },
        },
{
}

} // verus!
