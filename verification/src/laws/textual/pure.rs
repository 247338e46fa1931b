//! Laws of APKPure where what its pages say stays text.

use crate::common::contract::ProviderId;
use crate::common::flow;
use crate::html;
use crate::laws::texts;
use crate::model;
use crate::providers::apkpure::parse as pages;
use crate::providers::scrape;
use crate::textual::apkpure;
use crate::textual::apkpure::parse;
use crate::textual::apkpure::DownloadView;
use crate::textual::contract;
use vstd::prelude::*;

verus! {

/// A text counts where it says something.
pub proof fn lemma_not_empty(t: Seq<char>)
    ensures
        t.len() > 0 ==> parse::not_empty(Some(t)) == Some(t),
        t.len() == 0 ==> parse::not_empty(Some(t)) is None,
        parse::not_empty(None) is None,
{
}

/// A link leads to an app just where its address ends in a package and it has a heading that
/// says something; its developer is named where that says something.
pub proof fn lemma_candidate(row: parse::SearchRowView)
    ensures
        parse::candidate(row) is Some <==> row.href is Some && pages::package_in(row.href->0) is Some
            && row.heading is Some && (row.heading->0).len() > 0,
        parse::candidate(row) matches Some(hit) ==> {
            &&& Some(hit.package) == pages::package_in(row.href->0)
            &&& Some(hit.title) == row.heading
            &&& row.below is Some && (row.below->0).len() > 0 ==> hit.developer == row.below
            &&& row.below is None || (row.below->0).len() == 0 ==> hit.developer is None
        },
{
}

/// The apps of a search: a link to no app adds none, nor does one to an app that is there; any
/// other adds its app behind the others. Nothing found is reported.
pub proof fn lemma_found(rows: Seq<parse::SearchRowView>, row: parse::SearchRowView)
    ensures
        parse::found(Seq::<parse::SearchRowView>::empty()).len() == 0,
        parse::candidate(row) is None ==> parse::found(rows.push(row)) == parse::found(rows),
        parse::candidate(row) matches Some(hit) ==> {
            let seen = exists|i: int|
                0 <= i < parse::found(rows).len() && (#[trigger] parse::found(rows)[i]).package
                    == hit.package;
            &&& seen ==> parse::found(rows.push(row)) == parse::found(rows)
            &&& !seen ==> parse::found(rows.push(row)) == parse::found(rows).push(hit)
        },
        parse::found(rows).len() > 0 ==> parse::searched(rows) == Ok::<
            Seq<parse::HitView>,
            contract::ErrorView,
        >(parse::found(rows)),
        parse::found(rows).len() == 0 ==> parse::searched(rows) == Err::<
            Seq<parse::HitView>,
            contract::ErrorView,
        >(contract::ErrorView::NotFound("search returned nothing"@)),
{
    assert(rows.push(row).drop_last() == rows);
}

/// An entry of the list is a version just where it has one that says something; its code
/// counts where it says something too.
pub proof fn lemma_listed(item: parse::VersionItemView)
    ensures
        parse::listed_version(item) is Some <==> item.version is Some && pages::cleaned(
            item.version->0,
        ).len() > 0,
        parse::listed_version(item) matches Some(row) ==> {
            &&& row.version == pages::cleaned(item.version->0)
            &&& item.code is None ==> row.version_code is None
            &&& item.code matches Some(c) ==> {
                &&& model::stripped(c).len() > 0 ==> row.version_code == Some(model::stripped(c))
                &&& model::stripped(c).len() == 0 ==> row.version_code is None
            }
        },
{
}

/// The versions of a list: an entry of none adds none, nor does one of a version that is there;
/// any other adds its own behind the others. None is reported.
pub proof fn lemma_versions(items: Seq<parse::VersionItemView>, item: parse::VersionItemView)
    ensures
        parse::listed_versions(Seq::<parse::VersionItemView>::empty()).len() == 0,
        parse::listed_version(item) is None ==> parse::listed_versions(items.push(item))
            == parse::listed_versions(items),
        parse::listed_version(item) matches Some(row) ==> {
            let seen = exists|i: int|
                0 <= i < parse::listed_versions(items).len() && (
                #[trigger] parse::listed_versions(items)[i]).version == row.version;
            &&& seen ==> parse::listed_versions(items.push(item)) == parse::listed_versions(items)
            &&& !seen ==> parse::listed_versions(items.push(item)) == parse::listed_versions(
                items,
            ).push(row)
        },
        parse::listed_versions(items).len() > 0 ==> parse::versions_found(items) == Ok::<
            Seq<parse::VersionRowView>,
            contract::ErrorView,
        >(parse::listed_versions(items)),
        parse::listed_versions(items).len() == 0 ==> parse::versions_found(items) == Err::<
            Seq<parse::VersionRowView>,
            contract::ErrorView,
        >(contract::ErrorView::NotFound("no versions listed"@)),
{
    assert(items.push(item).drop_last() == items);
}

/// What the elements of the pages stand for.
pub proof fn lemma_elements(n: html::Node, page: html::Page)
    ensures
        parse::search_row(n).href == html::attribute(n, "href"@),
        parse::search_row(n).heading == html::first_text(n, "p.p1"@),
        parse::search_row(n).below == html::first_text(n, "p.p2"@),
        parse::search_rows(page).len() == html::matched(page, "a[href*=\"apkpure.com/\"]"@).len(),
        forall|i: int|
            0 <= i < parse::search_rows(page).len() ==> #[trigger] parse::search_rows(page)[i]
                == parse::search_row(html::matched(page, "a[href*=\"apkpure.com/\"]"@)[i]),
        parse::version_item(n).version == html::attribute(n, "data-dt-version"@),
        parse::version_item(n).code == html::attribute(n, "data-dt-versioncode"@),
        parse::version_items(page).len() == html::matched(
            page,
            "div.ver_download_link[data-dt-version]"@,
        ).len(),
        forall|i: int|
            0 <= i < parse::version_items(page).len() ==> #[trigger] parse::version_items(page)[i]
                == parse::version_item(
                html::matched(page, "div.ver_download_link[data-dt-version]"@)[i],
            ),
{
}

/// In an address ASCII letters, digits, `.`, `-`, `_` and `~` stand for themselves, and any
/// other character as a percent sign and its code in hexadecimal digits, two at least.
pub proof fn lemma_escaped(s: Seq<char>, c: char)
    ensures
        parse::escaped(Seq::<char>::empty()).len() == 0,
        ({
            let k = c as int;
            let plain = 0x30 <= k <= 0x39 || 0x41 <= k <= 0x5a || 0x61 <= k <= 0x7a || c == '.'
                || c == '-' || c == '_' || c == '~';
            &&& plain ==> parse::escaped(s.push(c)) == parse::escaped(s).push(c)
            &&& !plain ==> parse::escaped(s.push(c)) == parse::escaped(s) + seq!['%'] + model::hex2(
                k as nat,
            )
        }),
{
    assert(s.push(c).drop_last() == s);
    texts::lemma_ascii(c);
    assert(parse::escaped(s).push('%') == parse::escaped(s) + seq!['%']);
}

/// A file is served under its package, for a version.
pub proof fn lemma_file_url(pkg: Seq<char>, version: Seq<char>)
    ensures
        parse::file_url(pkg, version) == "https://d.apkpure.com"@ + "/b/APK/"@ + pkg + "?version="@
            + parse::escaped(version),
{
}

/// What a search answers of each app, and a listing of each row, in order.
pub proof fn lemma_answers(hits: Seq<parse::HitView>, rows: Seq<parse::VersionRowView>)
    ensures
        apkpure::results(hits).len() == hits.len(),
        forall|i: int|
            0 <= i < hits.len() ==> {
                let r = #[trigger] apkpure::results(hits)[i];
                &&& r.package == hits[i].package
                &&& r.title == hits[i].title
                &&& r.version is None
                &&& r.developer == hits[i].developer
                &&& r.provider == ProviderId::Apkpure
            },
        apkpure::infos(rows).len() == rows.len(),
        forall|i: int|
            0 <= i < rows.len() ==> {
                let r = #[trigger] apkpure::infos(rows)[i];
                &&& r.version == rows[i].version
                &&& r.version_code == rows[i].version_code
                &&& r.uploaded is None
                &&& r.provider == ProviderId::Apkpure
            },
        apkpure::versions_in(rows).len() == rows.len(),
        forall|i: int|
            0 <= i < rows.len() ==> #[trigger] apkpure::versions_in(rows)[i] == rows[i].version,
{
}

/// A search asks for the term and answers with what the page holds, or as the site failed.
pub proof fn lemma_search(q: Seq<char>, page: Seq<char>, e: contract::ErrorView)
    ensures
        apkpure::search_start(q) matches flow::StepView::Ask(flow::RequestView::Get(url), _) && url
            == "https://apkpure.com"@ + "/search?q="@ + model::replaced(
            model::stripped(q),
            ' ',
            '+',
        ),
        apkpure::search_next(apkpure::Searching, Err(e)) matches flow::StepView::Done(Err(x)) && x
            == e,
        match parse::searched(parse::search_rows(html::document(page))) {
            Ok(hits) => apkpure::search_next(
                apkpure::Searching,
                Ok(page),
            ) matches flow::StepView::Done(Ok(rs)) && rs == apkpure::results(hits),
            Err(x) => apkpure::search_next(
                apkpure::Searching,
                Ok(page),
            ) matches flow::StepView::Done(Err(y)) && y == x,
        },
{
}

/// A listing asks for the versions of the package and answers with those that the page lists,
/// or as the site failed.
pub proof fn lemma_listing(pkg: Seq<char>, page: Seq<char>, e: contract::ErrorView)
    ensures
        apkpure::versions_start(pkg) matches flow::StepView::Ask(flow::RequestView::Get(url), _)
            && url == "https://apkpure.com"@ + "/x/"@ + pkg + "/versions"@,
        apkpure::versions_next(apkpure::Listing, Err(e)) matches flow::StepView::Done(Err(x)) && x
            == e,
        match parse::versions_found(parse::version_items(html::document(page))) {
            Ok(rows) => apkpure::versions_next(
                apkpure::Listing,
                Ok(page),
            ) matches flow::StepView::Done(Ok(vs)) && vs == apkpure::infos(rows),
            Err(x) => apkpure::versions_next(
                apkpure::Listing,
                Ok(page),
            ) matches flow::StepView::Done(Err(y)) && y == x,
        },
{
}

/// A target: the file of the package that was asked for, named by its version.
pub proof fn lemma_target(pkg: Seq<char>, asked: Seq<char>, label: Seq<char>)
    ensures
        ({
            let t = apkpure::target(pkg, asked, label);
            &&& t.url == parse::file_url(pkg, asked)
            &&& t.filename == contract::filename(pkg, label, None, "apk"@)
            &&& t.version == Some(label)
            &&& t.arch is None
            &&& t.provider == ProviderId::Apkpure
            &&& t.headers.len() == 0
        }),
{
}

/// A download asks for the list where it is for a version, else for the page of the app. From
/// the list it takes the row for that version and asks for the file of that row; from the page
/// the version that it shows, and asks for the latest file.
pub proof fn lemma_download(
    pkg: Seq<char>,
    want: Seq<char>,
    d: DownloadView,
    page: Seq<char>,
    e: contract::ErrorView,
)
    ensures
        apkpure::download_start(pkg, Some(want)) matches flow::StepView::Ask(
            flow::RequestView::Get(url),
            next,
        ) && url == "https://apkpure.com"@ + "/x/"@ + pkg + "/versions"@ && next
            == DownloadView::Rows(pkg, want),
        apkpure::download_start(pkg, None) matches flow::StepView::Ask(
            flow::RequestView::Get(url),
            next,
        ) && url == "https://apkpure.com"@ + "/x/"@ + pkg && next == DownloadView::App(pkg),
        apkpure::download_next(d, Err(e)) matches flow::StepView::Done(Err(x)) && x == e,
        match parse::versions_found(parse::version_items(html::document(page))) {
            Err(x) => apkpure::download_next(
                DownloadView::Rows(pkg, want),
                Ok(page),
            ) matches flow::StepView::Done(Err(y)) && y == x,
            Ok(rows) => match scrape::pinned(apkpure::versions_in(rows), want) {
                Some(i) => apkpure::download_next(
                    DownloadView::Rows(pkg, want),
                    Ok(page),
                ) matches flow::StepView::Done(Ok(t)) && t == apkpure::target(
                    pkg,
                    rows[i].version,
                    rows[i].version,
                ),
                None => apkpure::download_next(
                    DownloadView::Rows(pkg, want),
                    Ok(page),
                ) matches flow::StepView::Done(Err(contract::ErrorView::NotFound(t))) && t
                    == "no build "@ + want + " for "@ + pkg,
            },
        },
        match pages::latest_of(pages::version_marker(html::document(page))) {
            Some(v) => apkpure::download_next(
                DownloadView::App(pkg),
                Ok(page),
            ) matches flow::StepView::Done(Ok(t)) && t == apkpure::target(pkg, "latest"@, v),
            None => apkpure::download_next(
                DownloadView::App(pkg),
                Ok(page),
            ) matches flow::StepView::Done(Err(contract::ErrorView::NotFound(t))) && t
                == "no app page for "@ + pkg,
        },
{
}

} // verus!
