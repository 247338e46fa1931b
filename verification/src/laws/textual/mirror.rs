//! Laws of APKMirror where what its pages say stays text.

use crate::common::flow;
use crate::html;
use crate::laws::texts;
use crate::model;
use crate::model::Class;
use crate::providers::apkmirror::parse as pages;
use crate::providers::scrape;
use crate::textual::apkmirror;
use crate::textual::apkmirror::parse;
use crate::textual::apkmirror::{DownloadView, StageView};
use crate::textual::contract;
use crate::textual::named;
use crate::textual::urls;
use vstd::prelude::*;

verus! {

/// The addresses of the site: what a link leads to, and a search for APKs with `+` for spaces.
pub proof fn lemma_addresses(href: Seq<char>, q: Seq<char>)
    ensures
        parse::site(href) == urls::seen_from("https://www.apkmirror.com"@, href),
        apkmirror::search_page(q) == "https://www.apkmirror.com"@
            + "/?post_type=app_release&searchtype=apk&s="@ + model::replaced(
            model::stripped(q),
            ' ',
            '+',
        ),
        apkmirror::NAME@ == "apkmirror"@,
{
}

/// The page of the app of a release stands two parts below `apk`, whatever follows them.
pub proof fn lemma_app_page(url: Seq<char>)
    ensures
        parse::app_page_of(url) is Some <==> exists|path: Seq<char>|
            {
                let parts = model::runs(path, Class::One('/'));
                &&& url == #[trigger] ("https://www.apkmirror.com"@ + path)
                &&& parts.len() >= 3
                &&& parts[0] == "apk"@
            },
        forall|path: Seq<char>|
            url == #[trigger] ("https://www.apkmirror.com"@ + path) && parse::app_page_of(url) is Some
                ==> parse::app_page_of(url) == Some(
                "https://www.apkmirror.com"@ + "/apk/"@ + model::runs(path, Class::One('/'))[1]
                    + "/"@ + model::runs(path, Class::One('/'))[2] + "/"@,
            ),
{
    let base = "https://www.apkmirror.com"@;
    texts::lemma_begins(url, base);
    assert forall|path: Seq<char>| url == #[trigger] (base + path) implies model::after_prefix(
        url,
        base,
    ) == Some(path) by {
        assert(model::begins(url, base));
        assert((base + path).skip(base.len() as int) == path);
    }
    if parse::app_page_of(url) is Some {
        let path = model::after_prefix(url, base)->0;
        assert(url == base + path);
    }
    if exists|path: Seq<char>|
        {
            let parts = model::runs(path, Class::One('/'));
            &&& url == #[trigger] (base + path)
            &&& parts.len() >= 3
            &&& parts[0] == "apk"@
        } {
        let path = choose|path: Seq<char>|
            {
                let parts = model::runs(path, Class::One('/'));
                &&& url == #[trigger] (base + path)
                &&& parts.len() >= 3
                &&& parts[0] == "apk"@
            };
        assert(model::after_prefix(url, base) == Some(path));
    }
}

/// Whether a text is something, a word, and something.
pub open spec fn around(t: Seq<char>, word: Seq<char>) -> bool {
    exists|a: Seq<char>, b: Seq<char>| t == #[trigger] (a + word + b)
}

/// Whether a package is one for early releases, and whether an address leads to one: by the
/// same four words, in an address behind a hyphen.
pub proof fn lemma_early(t: Seq<char>)
    ensures
        apkmirror::wants_prerelease(t) <==> around(t, "beta"@) || around(t, "alpha"@) || around(
            t,
            "dev"@,
        ) || around(t, "canary"@),
        apkmirror::is_prerelease(t) <==> around(t, "-beta"@) || around(t, "-alpha"@) || around(
            t,
            "-dev"@,
        ) || around(t, "-canary"@),
{
    texts::lemma_holds(t, "beta"@);
    texts::lemma_holds(t, "alpha"@);
    texts::lemma_holds(t, "dev"@);
    texts::lemma_holds(t, "canary"@);
    texts::lemma_holds(t, "-beta"@);
    texts::lemma_holds(t, "-alpha"@);
    texts::lemma_holds(t, "-dev"@);
    texts::lemma_holds(t, "-canary"@);
}

/// The first release that may be taken.
proof fn lemma_first_release(hits: Seq<pages::HitView>, wanted: bool)
    ensures
        match apkmirror::first_release(hits, wanted) {
            Some(url) => exists|i: int|
                {
                    &&& 0 <= i < hits.len()
                    &&& (#[trigger] hits[i]).release_url == url
                    &&& wanted ==> i == 0
                    &&& !wanted ==> !apkmirror::is_prerelease(url) && forall|j: int|
                        0 <= j < i ==> apkmirror::is_prerelease((#[trigger] hits[j]).release_url)
                },
            None => hits.len() == 0 || !wanted && forall|j: int|
                0 <= j < hits.len() ==> apkmirror::is_prerelease((#[trigger] hits[j]).release_url),
        },
    decreases hits.len(),
{
    if hits.len() > 0 && !wanted && apkmirror::is_prerelease(hits[0].release_url) {
        let rest = hits.skip(1);
        lemma_first_release(rest, wanted);
        match apkmirror::first_release(rest, wanted) {
            Some(url) => {
                let i = choose|i: int|
                    {
                        &&& 0 <= i < rest.len()
                        &&& (#[trigger] rest[i]).release_url == url
                        &&& !apkmirror::is_prerelease(url)
                        &&& forall|j: int|
                            0 <= j < i ==> apkmirror::is_prerelease((#[trigger] rest[j]).release_url)
                    };
                assert(hits[i + 1] == rest[i]);
                assert forall|j: int| 0 <= j < i + 1 implies apkmirror::is_prerelease(
                    (#[trigger] hits[j]).release_url,
                ) by {
                    if j > 0 {
                        assert(rest[j - 1] == hits[j]);
                    }
                }
            },
            None => {
                assert forall|j: int| 0 <= j < hits.len() implies apkmirror::is_prerelease(
                    (#[trigger] hits[j]).release_url,
                ) by {
                    if j > 0 {
                        assert(rest[j - 1] == hits[j]);
                    }
                }
            },
        }
    } else if hits.len() > 0 {
        assert(hits[0].release_url == hits[0].release_url);
    }
}

/// The release to take: for a package of early releases the first; for another the first that
/// is none, and where all are the first; and without hits none.
pub proof fn lemma_top_release(hits: Seq<pages::HitView>, pkg: Seq<char>)
    ensures
        hits.len() == 0 ==> apkmirror::top_release(hits, pkg) == Err::<Seq<char>, named::ErrorView>(
            named::ErrorView::NotFound,
        ),
        hits.len() > 0 ==> (apkmirror::top_release(hits, pkg) matches Ok(url) && {
            &&& apkmirror::wants_prerelease(pkg) ==> url == hits[0].release_url
            &&& !apkmirror::wants_prerelease(pkg) ==> {
                ||| exists|i: int|
                    {
                        &&& 0 <= i < hits.len()
                        &&& (#[trigger] hits[i]).release_url == url
                        &&& !apkmirror::is_prerelease(url)
                        &&& forall|j: int|
                            0 <= j < i ==> apkmirror::is_prerelease((#[trigger] hits[j]).release_url)
                    }
                ||| url == hits[0].release_url && forall|j: int|
                    0 <= j < hits.len() ==> apkmirror::is_prerelease(
                        (#[trigger] hits[j]).release_url,
                    )
            }
        }),
{
    lemma_first_release(hits, apkmirror::wants_prerelease(pkg));
}

/// The hits of a search: every link, with its title, in order; without any the search found
/// nothing.
pub proof fn lemma_hits(rows: Seq<pages::SearchRowView>, row: pages::SearchRowView)
    ensures
        parse::hits_of(Seq::<pages::SearchRowView>::empty()).len() == 0,
        row.href is None ==> parse::hits_of(rows.push(row)) == parse::hits_of(rows),
        row.href matches Some(href) ==> parse::hits_of(rows.push(row)) == parse::hits_of(rows).push(
            pages::HitView {
                title: row.title,
                release_url: urls::seen_from("https://www.apkmirror.com"@, href),
            },
        ),
        parse::hits_of(rows).len() > 0 ==> parse::searched(rows) == Ok::<
            Seq<pages::HitView>,
            named::ErrorView,
        >(parse::hits_of(rows)),
        parse::hits_of(rows).len() == 0 ==> parse::searched(rows) == Err::<
            Seq<pages::HitView>,
            named::ErrorView,
        >(named::ErrorView::NotFound),
{
    assert(rows.push(row).drop_last() == rows);
}

/// The apps of a search: every hit of one, under the path of its page and its own title.
pub proof fn lemma_results(hits: Seq<pages::HitView>, hit: pages::HitView)
    ensures
        apkmirror::results(Seq::<pages::HitView>::empty()).len() == 0,
        parse::app_page_of(hit.release_url) is None ==> apkmirror::results(hits.push(hit))
            == apkmirror::results(hits),
        parse::app_page_of(hit.release_url) matches Some(page) ==> apkmirror::results(
            hits.push(hit),
        ) == apkmirror::results(hits).push(
            named::AppView {
                package: apkmirror::app_ident(page),
                title: hit.title,
                developer: None,
                provider: "apkmirror"@,
            },
        ),
{
    assert(hits.push(hit).drop_last() == hits);
}

/// An app is known by its page below `apk`, without slashes around it.
pub proof fn lemma_ident(page: Seq<char>)
    ensures
        apkmirror::app_ident(page) == model::without_prefix(
            model::trimmed(
                model::without_prefix(page, "https://www.apkmirror.com"@),
                Class::One('/'),
            ),
            "apk/"@,
        ),
{
}

/// A search asks for the term and answers with what the page holds, or as the site failed.
pub proof fn lemma_search(q: Seq<char>, page: Seq<char>, e: named::ErrorView)
    ensures
        apkmirror::search_start(q) matches flow::StepView::Ask(flow::RequestView::Get(url), _) && url
            == apkmirror::search_page(q),
        apkmirror::search_next(apkmirror::Searching, Err(e)) matches flow::StepView::Done(Err(x))
            && x == e,
        match parse::searched(pages::search_rows(page)) {
            Ok(hits) => apkmirror::search_next(
                apkmirror::Searching,
                Ok(page),
            ) matches flow::StepView::Done(Ok(rs)) && rs == apkmirror::results(hits),
            Err(x) => apkmirror::search_next(
                apkmirror::Searching,
                Ok(page),
            ) matches flow::StepView::Done(Err(y)) && y == x,
        },
{
}

/// The list of all versions is the first that has its anchor.
pub proof fn lemma_anchored(ns: Seq<html::Node>)
    ensures
        match parse::anchored(ns) {
            Some(n) => exists|i: int|
                {
                    &&& 0 <= i < ns.len()
                    &&& #[trigger] ns[i] == n
                    &&& html::matched_in(n, "a[name=\"all_versions\"]"@).len() > 0
                    &&& forall|j: int|
                        0 <= j < i ==> html::matched_in(
                            #[trigger] ns[j],
                            "a[name=\"all_versions\"]"@,
                        ).len() == 0
                },
            None => forall|j: int|
                0 <= j < ns.len() ==> html::matched_in(
                    #[trigger] ns[j],
                    "a[name=\"all_versions\"]"@,
                ).len() == 0,
        },
    decreases ns.len(),
{
    let css = "a[name=\"all_versions\"]"@;
    if ns.len() > 0 {
        let rest = ns.skip(1);
        if html::matched_in(ns[0], css).len() > 0 {
            assert(ns[0] == ns[0]);
        } else {
            lemma_anchored(rest);
            match parse::anchored(rest) {
                Some(n) => {
                    let i = choose|i: int|
                        {
                            &&& 0 <= i < rest.len()
                            &&& #[trigger] rest[i] == n
                            &&& html::matched_in(n, css).len() > 0
                            &&& forall|j: int|
                                0 <= j < i ==> html::matched_in(#[trigger] rest[j], css).len() == 0
                        };
                    assert(ns[i + 1] == n);
                    assert forall|j: int| 0 <= j < i + 1 implies html::matched_in(
                        #[trigger] ns[j],
                        css,
                    ).len() == 0 by {
                        if j > 0 {
                            assert(rest[j - 1] == ns[j]);
                        }
                    }
                },
                None => {
                    assert forall|j: int| 0 <= j < ns.len() implies html::matched_in(
                        #[trigger] ns[j],
                        css,
                    ).len() == 0 by {
                        if j > 0 {
                            assert(rest[j - 1] == ns[j]);
                        }
                    }
                },
            }
        }
    }
}

/// The entries of the list of all versions.
pub proof fn lemma_version_items(page: html::Page)
    ensures
        match parse::anchored(html::matched(page, "div.listWidget"@)) {
            None => parse::version_items(page) is None,
            Some(w) => parse::version_items(page) matches Some(items) && items.len()
                == html::matched_in(w, "div.appRow"@).len() && forall|i: int|
                0 <= i < items.len() ==> #[trigger] items[i] == pages::version_item(
                    html::matched_in(w, "div.appRow"@)[i],
                ),
        },
{
}

/// An entry lists a version just where it has a title and an address.
pub proof fn lemma_listed(item: pages::VersionItemView)
    ensures
        parse::listed_version(item) is Some <==> item.title is Some && item.href is Some,
        parse::listed_version(item) matches Some(row) ==> {
            &&& Some(row.title) == item.title
            &&& row.version_page_url == urls::seen_from("https://www.apkmirror.com"@, item.href->0)
            &&& item.date is None ==> row.uploaded is None
            &&& item.date matches Some(d) ==> row.uploaded == Some(model::stripped(d))
        },
{
}

/// The versions of a list: those of its entries that list one, in order. A page without the
/// list is reported, and so is a list without versions.
pub proof fn lemma_versions(items: Seq<pages::VersionItemView>, item: pages::VersionItemView)
    ensures
        parse::listed_versions(Seq::<pages::VersionItemView>::empty()).len() == 0,
        parse::listed_version(item) is None ==> parse::listed_versions(items.push(item))
            == parse::listed_versions(items),
        parse::listed_version(item) matches Some(row) ==> parse::listed_versions(items.push(item))
            == parse::listed_versions(items).push(row),
        parse::versions_found(None) == Err::<Seq<parse::VersionRowView>, named::ErrorView>(
            named::ErrorView::ParseError("no 'all versions' widget on app page"@),
        ),
        parse::listed_versions(items).len() > 0 ==> parse::versions_found(Some(items)) == Ok::<
            Seq<parse::VersionRowView>,
            named::ErrorView,
        >(parse::listed_versions(items)),
        parse::listed_versions(items).len() == 0 ==> parse::versions_found(Some(items)) == Err::<
            Seq<parse::VersionRowView>,
            named::ErrorView,
        >(named::ErrorView::NotFound),
{
    assert(items.push(item).drop_last() == items);
}

/// What is listed of rows: the version in the title of each.
pub proof fn lemma_infos(rows: Seq<parse::VersionRowView>)
    ensures
        apkmirror::infos(rows).len() == rows.len(),
        forall|i: int|
            0 <= i < rows.len() ==> {
                let r = #[trigger] apkmirror::infos(rows)[i];
                &&& r.version == scrape::version_of(rows[i].title)
                &&& r.version_code is None
                &&& r.uploaded is None
                &&& r.provider == "apkmirror"@
            },
        apkmirror::versions_in(rows).len() == rows.len(),
        forall|i: int|
            0 <= i < rows.len() ==> #[trigger] apkmirror::versions_in(rows)[i] == scrape::version_of(
                rows[i].title,
            ),
{
}

/// A row of the table is a variant just where it has a name and an address.
pub proof fn lemma_variant(row: pages::VariantRowView)
    ensures
        parse::listed_variant(row) is Some <==> row.name is Some && row.href is Some,
        parse::listed_variant(row) matches Some(v) ==> {
            &&& Some(v.version) == row.name
            &&& row.arch matches Some(a) ==> v.arch == a
            &&& row.arch is None ==> v.arch.len() == 0
            &&& row.badge matches Some(b) ==> v.kind == b
            &&& row.badge is None ==> v.kind.len() == 0
            &&& v.download_page_url == urls::seen_from("https://www.apkmirror.com"@, row.href->0)
        },
{
    reveal_strlit("");
}

/// The variants of a page: those of the rows of its table that are one, in order.
pub proof fn lemma_variants(
    rows: Seq<pages::VariantRowView>,
    row: pages::VariantRowView,
    html: Seq<char>,
)
    ensures
        parse::listed_variants(Seq::<pages::VariantRowView>::empty()).len() == 0,
        parse::listed_variant(row) is None ==> parse::listed_variants(rows.push(row))
            == parse::listed_variants(rows),
        parse::listed_variant(row) matches Some(v) ==> parse::listed_variants(rows.push(row))
            == parse::listed_variants(rows).push(v),
        parse::page_variants(html) == parse::listed_variants(
            pages::body_rows(pages::variant_rows(html::document(html))),
        ),
{
    assert(rows.push(row).drop_last() == rows);
}

/// A variant has an ABI where its label names it as a whole, in any case: `x86` is not in
/// `x86_64`. It runs anywhere where its label is empty, is `all`, or speaks of `universal` or
/// `noarch`. It is a plain APK where its badge says so, in any case.
pub proof fn lemma_suits(v: parse::VariantView, arch: Seq<char>)
    ensures
        parse::arch_match(v, arch) <==> model::runs(
            model::lowered(v.arch),
            Class::NotLabel,
        ).contains(model::lowered(arch)),
        parse::runs_anywhere(v) <==> {
            let a = model::lowered(v.arch);
            ||| a.len() == 0
            ||| a == "all"@
            ||| around(a, "universal"@)
            ||| around(a, "noarch"@)
        },
        parse::plain_apk(v) <==> texts::spells(v.kind, "APK"@),
{
    let a = model::lowered(v.arch);
    texts::lemma_holds(a, "universal"@);
    texts::lemma_holds(a, "noarch"@);
    texts::lemma_same_letters(v.kind, "APK"@);
}

/// The first variant that grants a wish.
proof fn lemma_first_granted(vs: Seq<parse::VariantView>, wish: parse::Wish, arch: Seq<char>)
    ensures
        match parse::first_granted(vs, wish, arch) {
            Some(i) => 0 <= i < vs.len() && parse::grants(vs[i], wish, arch) && forall|j: int|
                0 <= j < i ==> !parse::grants(#[trigger] vs[j], wish, arch),
            None => forall|j: int| 0 <= j < vs.len() ==> !parse::grants(#[trigger] vs[j], wish, arch),
        },
    decreases vs.len(),
{
    if vs.len() > 0 {
        let front = vs.drop_last();
        lemma_first_granted(front, wish, arch);
        assert forall|j: int| 0 <= j < front.len() implies #[trigger] vs[j] == front[j] by {}
    }
}

/// The variant to take: the first plain APK with the ABI; else the first plain APK that runs
/// anywhere; else the first plain APK; else the first variant with the ABI; else the first;
/// and none just where there are none.
pub proof fn lemma_choice(vs: Seq<parse::VariantView>, arch: Seq<char>)
    ensures
        parse::choice(vs, arch) is None <==> vs.len() == 0,
        parse::choice(vs, arch) matches Some(i) ==> {
            let exact = |k: int| parse::plain_apk(vs[k]) && parse::arch_match(vs[k], arch);
            let anywhere = |k: int| parse::plain_apk(vs[k]) && parse::runs_anywhere(vs[k]);
            let no_exact = forall|k: int|
                0 <= k < vs.len() ==> !(parse::plain_apk(#[trigger] vs[k]) && parse::arch_match(
                    vs[k],
                    arch,
                ));
            let no_anywhere = forall|k: int|
                0 <= k < vs.len() ==> !(parse::plain_apk(#[trigger] vs[k]) && parse::runs_anywhere(
                    vs[k],
                ));
            let no_plain = forall|k: int| 0 <= k < vs.len() ==> !parse::plain_apk(#[trigger] vs[k]);
            &&& 0 <= i < vs.len()
            &&& forall|k: int| 0 <= k < vs.len() && #[trigger] exact(k) ==> exact(i) && i <= k
            &&& forall|k: int|
                no_exact && 0 <= k < vs.len() && #[trigger] anywhere(k) ==> anywhere(i) && i <= k
            &&& forall|k: int|
                no_exact && no_anywhere && 0 <= k < vs.len() && parse::plain_apk(#[trigger] vs[k])
                    ==> parse::plain_apk(vs[i]) && i <= k
            &&& forall|k: int|
                no_plain && 0 <= k < vs.len() && parse::arch_match(#[trigger] vs[k], arch)
                    ==> parse::arch_match(vs[i], arch) && i <= k
            &&& no_plain && (forall|k: int|
                0 <= k < vs.len() ==> !parse::arch_match(#[trigger] vs[k], arch)) ==> i == 0
        },
{
    lemma_first_granted(vs, parse::Wish::Exact, arch);
    lemma_first_granted(vs, parse::Wish::Universal, arch);
    lemma_first_granted(vs, parse::Wish::Plain, arch);
    lemma_first_granted(vs, parse::Wish::Arch, arch);
    assert forall|k: int, w: parse::Wish| #[trigger] parse::grants(vs[k], w, arch) == match w {
        parse::Wish::Exact => parse::plain_apk(vs[k]) && parse::arch_match(vs[k], arch),
        parse::Wish::Universal => parse::plain_apk(vs[k]) && parse::runs_anywhere(vs[k]),
        parse::Wish::Plain => parse::plain_apk(vs[k]),
        parse::Wish::Arch => parse::arch_match(vs[k], arch),
    } by {}
}

/// The links of a download: the button of the page, and on the page behind it the download
/// link, else the first link of the card. Each is reported where it is not there.
pub proof fn lemma_links(html: Seq<char>)
    ensures
        ({
            let page = html::document(html);
            let button = html::first_attribute_of(page, "a.downloadButton"@, "href"@);
            let link = html::first_attribute_of(page, "a#download-link"@, "href"@);
            let card = html::first_attribute_of(page, "div.card-with-tabs a[href]"@, "href"@);
            &&& button matches Some(h) ==> parse::button_link(html) == Ok::<
                Seq<char>,
                named::ErrorView,
            >(urls::seen_from("https://www.apkmirror.com"@, h))
            &&& button is None ==> parse::button_link(html) == Err::<Seq<char>, named::ErrorView>(
                named::ErrorView::ParseError("no download button on download page"@),
            )
            &&& link matches Some(h) ==> parse::file_link(html) == Ok::<
                Seq<char>,
                named::ErrorView,
            >(urls::seen_from("https://www.apkmirror.com"@, h))
            &&& link is None && card is Some ==> parse::file_link(html) == Ok::<
                Seq<char>,
                named::ErrorView,
            >(urls::seen_from("https://www.apkmirror.com"@, card->0))
            &&& link is None && card is None ==> parse::file_link(html) == Err::<
                Seq<char>,
                named::ErrorView,
            >(named::ErrorView::ParseError("no final download link on 'starting' page"@))
        }),
{
}

/// The release and the app that a page of hits leads to.
pub proof fn lemma_read(page: Seq<char>, pkg: Seq<char>)
    ensures
        match parse::searched(pages::search_rows(page)) {
            Err(e) => apkmirror::release_read(page, pkg) == Err::<Seq<char>, named::ErrorView>(e)
                && apkmirror::app_read(page, pkg) == Err::<Seq<char>, named::ErrorView>(e),
            Ok(hits) => {
                &&& apkmirror::release_read(page, pkg) == apkmirror::top_release(hits, pkg)
                &&& apkmirror::top_release(hits, pkg) matches Ok(url) ==> match parse::app_page_of(
                    url,
                ) {
                    Some(app) => apkmirror::app_read(page, pkg) == Ok::<
                        Seq<char>,
                        named::ErrorView,
                    >(app),
                    None => apkmirror::app_read(page, pkg) == Err::<Seq<char>, named::ErrorView>(
                        named::ErrorView::ParseError("bad release url"@),
                    ),
                }
            },
        },
{
}

/// A listing asks for the package, then for the page of its app, and answers with the versions
/// that it lists. A failure of the site ends it.
pub proof fn lemma_listing(pkg: Seq<char>, page: Seq<char>, e: named::ErrorView)
    ensures
        apkmirror::versions_start(pkg) matches flow::StepView::Ask(
            flow::RequestView::Get(url),
            apkmirror::ListingView::Hits(p),
        ) && url == apkmirror::search_page(pkg) && p == pkg,
        match apkmirror::app_read(page, pkg) {
            Ok(app) => apkmirror::versions_next(
                apkmirror::ListingView::Hits(pkg),
                Ok(page),
            ) matches flow::StepView::Ask(flow::RequestView::Get(url), apkmirror::ListingView::App)
                && url == app,
            Err(x) => apkmirror::versions_next(
                apkmirror::ListingView::Hits(pkg),
                Ok(page),
            ) matches flow::StepView::Done(Err(y)) && y == x,
        },
        match parse::versions_found(parse::version_items(html::document(page))) {
            Ok(rows) => apkmirror::versions_next(
                apkmirror::ListingView::App,
                Ok(page),
            ) matches flow::StepView::Done(Ok(vs)) && vs == apkmirror::infos(rows),
            Err(x) => apkmirror::versions_next(
                apkmirror::ListingView::App,
                Ok(page),
            ) matches flow::StepView::Done(Err(y)) && y == x,
        },
        apkmirror::versions_next(
            apkmirror::ListingView::Hits(pkg),
            Err(e),
        ) matches flow::StepView::Done(Err(y)) && y == e,
        apkmirror::versions_next(apkmirror::ListingView::App, Err(e)) matches flow::StepView::Done(
            Err(y),
        ) && y == e,
{
}

/// The page of the version asked for is that of the row that is taken for it.
pub proof fn lemma_build_page(rows: Seq<parse::VersionRowView>, want: Seq<char>)
    ensures
        scrape::pinned(apkmirror::versions_in(rows), want) matches Some(i) ==> apkmirror::build_page(
            rows,
            want,
        ) == Ok::<Seq<char>, named::ErrorView>(rows[i].version_page_url),
        scrape::pinned(apkmirror::versions_in(rows), want) is None ==> apkmirror::build_page(
            rows,
            want,
        ) == Err::<Seq<char>, named::ErrorView>(named::ErrorView::NotFound),
{
}

/// How a download starts and goes on to the page of a version: it asks for the package; the
/// hits lead to the release to take, or to the app for the version asked for, and the list of
/// the app to that version. A failure of the site ends it.
pub proof fn lemma_download(d: DownloadView, page: Seq<char>, e: named::ErrorView)
    ensures
        apkmirror::download_start(d.pkg, d.version, d.arch) matches flow::StepView::Ask(
            flow::RequestView::Get(url),
            next,
        ) && url == apkmirror::search_page(d.pkg) && next == (DownloadView {
            stage: StageView::Hits,
            ..d
        }),
        apkmirror::download_next(d, Err(e)) matches flow::StepView::Done(Err(y)) && y == e,
        d.stage is Hits && d.version is None ==> match apkmirror::release_read(page, d.pkg) {
            Err(x) => apkmirror::download_next(d, Ok(page)) matches flow::StepView::Done(Err(y))
                && y == x,
            Ok(release) => apkmirror::download_next(d, Ok(page)) matches flow::StepView::Ask(
                flow::RequestView::Get(url),
                next,
            ) && url == release && next == (DownloadView { stage: StageView::Version, ..d }),
        },
        d.stage is Hits && d.version is Some ==> match apkmirror::app_read(page, d.pkg) {
            Err(x) => apkmirror::download_next(d, Ok(page)) matches flow::StepView::Done(Err(y))
                && y == x,
            Ok(app) => apkmirror::download_next(d, Ok(page)) matches flow::StepView::Ask(
                flow::RequestView::Get(url),
                next,
            ) && url == app && next == (DownloadView { stage: StageView::App(d.version->0), ..d }),
        },
        d.stage matches StageView::App(want) ==> match parse::versions_found(
            parse::version_items(html::document(page)),
        ) {
            Err(x) => apkmirror::download_next(d, Ok(page)) matches flow::StepView::Done(Err(y))
                && y == x,
            Ok(rows) => match apkmirror::build_page(rows, want) {
                Err(x) => apkmirror::download_next(d, Ok(page)) matches flow::StepView::Done(Err(y))
                    && y == x,
                Ok(to) => apkmirror::download_next(d, Ok(page)) matches flow::StepView::Ask(
                    flow::RequestView::Get(url),
                    next,
                ) && url == to && next == (DownloadView { stage: StageView::Version, ..d }),
            },
        },
{
}

/// How it goes on from there: to the variant to take, and from its page, or where there are no
/// variants from this page, over the button to the file. The target has the version of that
/// variant, else the one asked for, else the latest, and is asked for from the button's page.
pub proof fn lemma_file(d: DownloadView, page: Seq<char>)
    ensures
        d.stage is Version ==> {
            let vs = parse::page_variants(page);
            match parse::choice(vs, d.arch) {
                Some(i) => apkmirror::download_next(d, Ok(page)) matches flow::StepView::Ask(
                    flow::RequestView::Get(url),
                    next,
                ) && url == vs[i].download_page_url && next == (DownloadView {
                    stage: StageView::Page(Some(vs[i].version)),
                    ..d
                }),
                None => match parse::button_link(page) {
                    Err(x) => apkmirror::download_next(d, Ok(page)) matches flow::StepView::Done(
                        Err(y),
                    ) && y == x,
                    Ok(button) => apkmirror::download_next(d, Ok(page)) matches flow::StepView::Ask(
                        flow::RequestView::Get(url),
                        next,
                    ) && url == button && next == (DownloadView {
                        stage: StageView::Starting(d.version, button),
                        ..d
                    }),
                },
            }
        },
        d.stage matches StageView::Page(version) ==> match parse::button_link(page) {
            Err(x) => apkmirror::download_next(d, Ok(page)) matches flow::StepView::Done(Err(y))
                && y == x,
            Ok(button) => apkmirror::download_next(d, Ok(page)) matches flow::StepView::Ask(
                flow::RequestView::Get(url),
                next,
            ) && url == button && next == (DownloadView {
                stage: StageView::Starting(version, button),
                ..d
            }),
        },
        d.stage matches StageView::Starting(version, button) ==> match parse::file_link(page) {
            Err(x) => apkmirror::download_next(d, Ok(page)) matches flow::StepView::Done(Err(y))
                && y == x,
            Ok(url) => apkmirror::download_next(d, Ok(page)) matches flow::StepView::Done(Ok(t)) && {
                &&& t.url == url
                &&& version is Some ==> t.version == version
                &&& version is None ==> t.version == Some("latest"@)
                &&& t.filename == contract::file_safe(d.pkg + "_"@ + t.version->0 + ".apk"@)
                &&& t.provider == "apkmirror"@
                &&& t.headers.len() == 1
                &&& t.headers[0] == ("Referer"@, button)
            },
        },
{
}

} // verus!
