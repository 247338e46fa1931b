//! APKPure. It is addressed by package id, so that no search stands before a
//! download. The site serves one build per app, so the ABI is not known.

use crate::common::contract as common;
use crate::common::contract::ProviderId;
use crate::common::flow;
use crate::common::flow::{Reply, Request, Step};
use crate::html;
use crate::model;
use crate::providers::apkpure::parse as pages;
use crate::providers::apkpure::parse::latest_version;
use crate::providers::scrape;
use crate::providers::scrape::find_pinned;
use crate::strings::{plus, plus3, plus4};
use crate::textual::contract;
use crate::textual::contract::{
    download_filename, AppResult, DownloadTarget, ProviderError, VersionInfo,
};
use crate::textual::urls;
use crate::textual::urls::spaced;
use vstd::prelude::*;

pub mod parse;

verus! {

/// The site.
pub struct ApkPure;

/// A search is waiting for its page.
pub struct Searching;

impl View for Searching {
    type V = Searching;

    open spec fn view(&self) -> Searching {
        *self
    }
}

/// The results that hits are.
pub open spec fn results(hits: Seq<parse::HitView>) -> Seq<contract::AppView> {
    Seq::new(
        hits.len(),
        |i: int|
            contract::AppView {
                package: hits[i].package,
                title: hits[i].title,
                version: None,
                developer: hits[i].developer,
                provider: ProviderId::Apkpure,
            },
    )
}

/// The results that hits are.
fn app_results(hits: Vec<parse::SearchHit>) -> (r: Vec<AppResult>)
    ensures
        model::views(r@) == results(model::views(hits@)),
{
    let ghost all = results(model::views(hits@));
    let mut out: Vec<AppResult> = Vec::new();
    let mut i: usize = 0;
    assert(model::views(out@) == all.take(0));
    while i < hits.len()
        invariant
            i <= hits@.len(),
            all == results(model::views(hits@)),
            model::views(out@) == all.take(i as int),
        decreases hits@.len() - i,
    {
        let developer = match &hits[i].developer {
            Some(d) => Some(d.clone()),
            None => None,
        };
        let a = AppResult {
            package: hits[i].package.clone(),
            title: hits[i].title.clone(),
            version: None,
            developer,
            provider: ProviderId::Apkpure,
        };
        assert(a@ == all[i as int]);
        proof {
            model::lemma_views_push(out@, a);
        }
        out.push(a);
        assert(model::views(out@) == all.take(i + 1));
        i += 1;
    }
    assert(all.take(all.len() as int) == all);
    out
}

/// What a search asks first.
pub open spec fn search_start(q: Seq<char>) -> flow::StepView<
    Searching,
    Seq<contract::AppView>,
    contract::ErrorView,
> {
    flow::StepView::Ask(
        flow::RequestView::Get(parse::BASE_URL@ + "/search?q="@ + urls::plussed(q)),
        Searching,
    )
}

/// What a reply to a search comes to.
pub open spec fn search_next(state: Searching, reply: flow::ReplyView<contract::ErrorView>) -> flow::StepView<
    Searching,
    Seq<contract::AppView>,
    contract::ErrorView,
> {
    flow::StepView::Done(
        match reply {
            Ok(page) => match parse::searched(parse::search_rows(html::document(page))) {
                Ok(hits) => Ok(results(hits)),
                Err(e) => Err(e),
            },
            Err(e) => Err(e),
        },
    )
}

impl Searching {
    /// Goes on with the reply.
    pub fn advance(self, reply: Reply<ProviderError>) -> (r: Step<
        Searching,
        Vec<AppResult>,
        ProviderError,
    >)
        ensures
            flow::list_step(r) == search_next(self@, flow::reply_view(reply)),
    {
        let page = match reply {
            Ok(page) => page,
            Err(e) => {
                return Step::Done(Err(e));
            },
        };
        match parse::parse_search(page.as_str()) {
            Ok(hits) => Step::Done(Ok(app_results(hits))),
            Err(e) => Step::Done(Err(e)),
        }
    }
}

/// The request for the list of versions.
pub open spec fn rows_request(pkg: Seq<char>) -> flow::RequestView {
    flow::RequestView::Get(parse::BASE_URL@ + "/x/"@ + pkg + "/versions"@)
}

/// The list of versions on a page.
pub open spec fn rows_read(page: Seq<char>) -> Result<
    Seq<parse::VersionRowView>,
    contract::ErrorView,
> {
    parse::versions_found(parse::version_items(html::document(page)))
}

/// The versions of rows.
pub open spec fn infos(rows: Seq<parse::VersionRowView>) -> Seq<contract::VersionView> {
    Seq::new(
        rows.len(),
        |i: int|
            contract::VersionView {
                version: rows[i].version,
                version_code: rows[i].version_code,
                uploaded: None,
                provider: ProviderId::Apkpure,
            },
    )
}

/// The versions of rows.
fn version_infos(rows: Vec<parse::VersionRow>) -> (r: Vec<VersionInfo>)
    ensures
        model::views(r@) == infos(model::views(rows@)),
{
    let ghost all = infos(model::views(rows@));
    let mut out: Vec<VersionInfo> = Vec::new();
    let mut i: usize = 0;
    assert(model::views(out@) == all.take(0));
    while i < rows.len()
        invariant
            i <= rows@.len(),
            all == infos(model::views(rows@)),
            model::views(out@) == all.take(i as int),
        decreases rows@.len() - i,
    {
        let version_code = match &rows[i].version_code {
            Some(c) => Some(c.clone()),
            None => None,
        };
        let v = VersionInfo {
            version: rows[i].version.clone(),
            version_code,
            uploaded: None,
            provider: ProviderId::Apkpure,
        };
        assert(v@ == all[i as int]);
        proof {
            model::lemma_views_push(out@, v);
        }
        out.push(v);
        assert(model::views(out@) == all.take(i + 1));
        i += 1;
    }
    assert(all.take(all.len() as int) == all);
    out
}

/// A listing of versions is waiting for its page.
pub struct Listing;

impl View for Listing {
    type V = Listing;

    open spec fn view(&self) -> Listing {
        *self
    }
}

/// What a listing asks first.
pub open spec fn versions_start(pkg: Seq<char>) -> flow::StepView<
    Listing,
    Seq<contract::VersionView>,
    contract::ErrorView,
> {
    flow::StepView::Ask(rows_request(pkg), Listing)
}

/// What a reply to a listing comes to.
pub open spec fn versions_next(state: Listing, reply: flow::ReplyView<contract::ErrorView>) -> flow::StepView<
    Listing,
    Seq<contract::VersionView>,
    contract::ErrorView,
> {
    flow::StepView::Done(
        match reply {
            Ok(page) => match rows_read(page) {
                Ok(rows) => Ok(infos(rows)),
                Err(e) => Err(e),
            },
            Err(e) => Err(e),
        },
    )
}

impl Listing {
    /// Goes on with the reply.
    pub fn advance(self, reply: Reply<ProviderError>) -> (r: Step<
        Listing,
        Vec<VersionInfo>,
        ProviderError,
    >)
        ensures
            flow::list_step(r) == versions_next(self@, flow::reply_view(reply)),
    {
        let page = match reply {
            Ok(page) => page,
            Err(e) => {
                return Step::Done(Err(e));
            },
        };
        match parse::parse_versions(page.as_str()) {
            Ok(rows) => Step::Done(Ok(version_infos(rows))),
            Err(e) => Step::Done(Err(e)),
        }
    }
}

/// A download is waiting for a page.
pub enum Download {
    /// The list of versions of a package, for the version asked for.
    Rows(String, String),
    /// The app page of a package.
    App(String),
}

/// What a [`Download`] says.
pub enum DownloadView {
    Rows(Seq<char>, Seq<char>),
    App(Seq<char>),
}

impl View for Download {
    type V = DownloadView;

    open spec fn view(&self) -> DownloadView {
        match *self {
            Download::Rows(pkg, want) => DownloadView::Rows(pkg@, want@),
            Download::App(pkg) => DownloadView::App(pkg@),
        }
    }
}

/// The target for a version: what the file host is asked for, and how the file
/// is labelled.
pub open spec fn target(pkg: Seq<char>, asked: Seq<char>, label: Seq<char>) -> contract::TargetView {
    contract::TargetView {
        url: parse::file_url(pkg, asked),
        filename: contract::filename(pkg, label, None, "apk"@),
        version: Some(label),
        arch: None,
        provider: ProviderId::Apkpure,
        headers: Seq::<(Seq<char>, Seq<char>)>::empty(),
    }
}

/// The versions of rows.
pub open spec fn versions_in(rows: Seq<parse::VersionRowView>) -> Seq<Seq<char>> {
    Seq::new(rows.len(), |i: int| rows[i].version)
}

/// The version to take: the one asked for, else the first below it.
pub open spec fn build_at(rows: Seq<parse::VersionRowView>, want: Seq<char>) -> Option<
    parse::VersionRowView,
> {
    match scrape::pinned(versions_in(rows), want) {
        Some(i) => Some(rows[i]),
        None => None,
    }
}

/// The version to take: the one asked for, else the first below it.
fn find_row(rows: &[parse::VersionRow], want: &str) -> (r: Option<usize>)
    ensures
        r matches Some(i) ==> i < rows@.len(),
        (match r {
            Some(i) => Some(rows@[i as int]@),
            None => None,
        }) == build_at(model::views(rows@), want@),
{
    let ghost rv = model::views(rows@);
    let ghost all = versions_in(rv);
    let mut versions: Vec<String> = Vec::new();
    let mut i: usize = 0;
    assert(model::texts(versions@) == all.take(0));
    while i < rows.len()
        invariant
            i <= rows@.len(),
            rv == model::views(rows@),
            all == versions_in(rv),
            model::texts(versions@) == all.take(i as int),
        decreases rows@.len() - i,
    {
        assert(rv[i as int] == rows@[i as int]@);
        let v = rows[i].version.clone();
        let ghost before = versions@;
        versions.push(v);
        assert(model::texts(versions@) == model::texts(before).push(v@));
        assert(model::texts(versions@) == all.take(i + 1));
        i += 1;
    }
    assert(all.take(all.len() as int) == all);
    assert(model::texts(versions@).len() == versions@.len());
    let found = find_pinned(&versions, want);
    assert(found matches Some(k) ==> rv[k as int] == rows@[k as int]@);
    found
}

/// A row of the version asked for wins wherever it stands, and the first of them.
pub proof fn lemma_exact_wins(rows: Seq<parse::VersionRowView>, want: Seq<char>, n: int)
    requires
        0 <= n < rows.len(),
        versions_in(rows)[n] == want,
    ensures
        exists|i: int|
            0 <= i <= n && build_at(rows, want) == Some(#[trigger] rows[i]) && versions_in(rows)[i]
                == want,
{
    let vs = versions_in(rows);
    scrape::lemma_pinned(vs, want);
    assert(vs.contains(vs[n]));
    let i = scrape::pinned(vs, want)->0;
    assert(build_at(rows, want) == Some(rows[i]));
}

/// The target for the version asked for. It has to be on the list, so that a
/// version that is not there is no download of the latest one.
pub open spec fn build_target(
    rows: Seq<parse::VersionRowView>,
    want: Seq<char>,
    pkg: Seq<char>,
) -> Result<contract::TargetView, contract::ErrorView> {
    match build_at(rows, want) {
        Some(row) => Ok(target(pkg, row.version, row.version)),
        None => Err(contract::ErrorView::NotFound("no build "@ + want + " for "@ + pkg)),
    }
}

/// The target for the latest build, under the number that it has.
pub open spec fn latest_target(version: Option<Seq<char>>, pkg: Seq<char>) -> Result<
    contract::TargetView,
    contract::ErrorView,
> {
    match version {
        Some(v) => Ok(target(pkg, "latest"@, v)),
        None => Err(contract::ErrorView::NotFound("no app page for "@ + pkg)),
    }
}

/// The target for a version.
fn make_target(pkg: &str, asked: &str, label: String) -> (r: DownloadTarget)
    ensures
        r@ == target(pkg@, asked@, label@),
{
    let headers: Vec<(String, String)> = Vec::new();
    assert(common::header_texts(headers@) == Seq::<(Seq<char>, Seq<char>)>::empty());
    DownloadTarget {
        url: parse::download_url(pkg, asked),
        filename: download_filename(pkg, label.as_str(), None, "apk"),
        version: Some(label),
        arch: None,
        provider: ProviderId::Apkpure,
        headers,
    }
}

/// The target for the version asked for.
pub fn find_build(rows: &[parse::VersionRow], want: &str, pkg: &str) -> (r: Result<
    DownloadTarget,
    ProviderError,
>)
    ensures
        common::outcome(r) == build_target(model::views(rows@), want@, pkg@),
{
    match find_row(rows, want) {
        Some(i) => Ok(make_target(pkg, rows[i].version.as_str(), rows[i].version.clone())),
        None => Err(ProviderError::NotFound(plus4("no build ", want, " for ", pkg))),
    }
}

/// The target for the latest build, whose version was read off the app page.
pub fn latest_build(version: Option<String>, pkg: &str) -> (r: Result<DownloadTarget, ProviderError>)
    ensures
        common::outcome(r) == latest_target(model::opt(version), pkg@),
{
    match version {
        Some(v) => Ok(make_target(pkg, "latest", v)),
        None => {
            let msg = plus("no app page for ", pkg);
            Err(ProviderError::NotFound(msg))
        },
    }
}

/// What a download asks first.
pub open spec fn download_start(pkg: Seq<char>, version: Option<Seq<char>>) -> flow::StepView<
    DownloadView,
    contract::TargetView,
    contract::ErrorView,
> {
    match version {
        Some(want) => flow::StepView::Ask(rows_request(pkg), DownloadView::Rows(pkg, want)),
        None => flow::StepView::Ask(
            flow::RequestView::Get(parse::BASE_URL@ + "/x/"@ + pkg),
            DownloadView::App(pkg),
        ),
    }
}

/// What a reply to a download comes to.
pub open spec fn download_next(
    d: DownloadView,
    reply: flow::ReplyView<contract::ErrorView>,
) -> flow::StepView<DownloadView, contract::TargetView, contract::ErrorView> {
    flow::StepView::Done(
        match reply {
            Err(e) => Err(e),
            Ok(page) => match d {
                DownloadView::Rows(pkg, want) => match rows_read(page) {
                    Err(e) => Err(e),
                    Ok(rows) => build_target(rows, want, pkg),
                },
                DownloadView::App(pkg) => latest_target(
                    pages::latest_of(pages::version_marker(html::document(page))),
                    pkg,
                ),
            },
        },
    )
}

impl Download {
    /// Goes on with the reply.
    pub fn advance(self, reply: Reply<ProviderError>) -> (r: Step<
        Download,
        DownloadTarget,
        ProviderError,
    >)
        ensures
            flow::step(r) == download_next(self@, flow::reply_view(reply)),
    {
        let page = match reply {
            Ok(page) => page,
            Err(e) => {
                return Step::Done(Err(e));
            },
        };
        match self {
            Download::Rows(pkg, want) => match parse::parse_versions(page.as_str()) {
                Ok(rows) => Step::Done(find_build(&rows, want.as_str(), pkg.as_str())),
                Err(e) => Step::Done(Err(e)),
            },
            Download::App(pkg) => Step::Done(
                latest_build(latest_version(page.as_str()), pkg.as_str()),
            ),
        }
    }
}

impl ApkPure {
    /// Searches for an app.
    pub fn search(query: &str) -> (r: Step<Searching, Vec<AppResult>, ProviderError>)
        ensures
            flow::list_step(r) == search_start(query@),
    {
        let term = spaced(query);
        Step::Ask(
            Request::Get(plus3(parse::BASE_URL, "/search?q=", term.as_str())),
            Searching,
        )
    }

    /// Lists the versions of an app.
    pub fn versions(pkg: &str) -> (r: Step<Listing, Vec<VersionInfo>, ProviderError>)
        ensures
            flow::list_step(r) == versions_start(pkg@),
    {
        Step::Ask(Request::Get(plus4(parse::BASE_URL, "/x/", pkg, "/versions")), Listing)
    }

    /// Resolves a download. The ABI that is asked for does not count.
    pub fn download_url(pkg: &str, version: Option<&str>, _arch: &str) -> (r: Step<
        Download,
        DownloadTarget,
        ProviderError,
    >)
        ensures
            flow::step(r) == download_start(pkg@, model::opt_str(version)),
    {
        match version {
            Some(want) => Step::Ask(
                Request::Get(plus4(parse::BASE_URL, "/x/", pkg, "/versions")),
                Download::Rows(pkg.to_owned(), want.to_owned()),
            ),
            None => Step::Ask(
                Request::Get(plus3(parse::BASE_URL, "/x/", pkg)),
                Download::App(pkg.to_owned()),
            ),
        }
    }
}

/// A pinned version is never answered with another one: the target has a version
/// from the list that is the one asked for, or one below it where that one is not
/// listed.
pub proof fn lemma_pinned(rows: Seq<parse::VersionRowView>, want: Seq<char>, pkg: Seq<char>)
    ensures
        build_target(rows, want, pkg) matches Ok(t) ==> t.version matches Some(v)
            && scrape::matches_version(v, want) && parse::has_version(rows, v) && t.url
            == parse::file_url(pkg, v) && (versions_in(rows).contains(want) ==> v == want),
{
    let vs = versions_in(rows);
    scrape::lemma_pinned(vs, want);
    if let Some(i) = scrape::pinned(vs, want) {
        assert(rows[i].version == vs[i]);
    }
}

} // verus!
