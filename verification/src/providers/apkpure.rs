//! APKPure. It is addressed by package id: `/x/{pkg}` leads to the app page and
//! `d.apkpure.com/b/APK/{pkg}?versionCode=...` straight to the file.
//!
//! The ABIs that are asked for do not count: the site serves one build per app,
//! so the target is always a universal one.

use crate::common::contract;
use crate::common::contract::{
    AppResult, Arch, DownloadTarget, ProviderConst, ProviderError, ProviderId, VersionInfo,
};
use crate::common::flow;
use crate::common::flow::{Reply, Request, Step};
use crate::html;
use crate::model;
use crate::providers::scrape;
use crate::providers::scrape::{find_pinned, query};
use crate::strings::{plus, plus3, plus4};
use vstd::prelude::*;

pub mod parse;

verus! {

/// The site.
pub struct ApkPure;

impl ProviderConst for ApkPure {
    open spec fn ident() -> ProviderId {
        ProviderId::Apkpure
    }

    open spec fn base() -> Seq<char> {
        "https://apkpure.com"@
    }

    fn id() -> (r: ProviderId) {
        ProviderId::Apkpure
    }

    fn base_url() -> (r: &'static str) {
        "https://apkpure.com"
    }
}

/// A search is waiting for its page.
pub struct Searching;

impl View for Searching {
    type V = Searching;

    open spec fn view(&self) -> Searching {
        *self
    }
}

/// What a search asks first.
pub open spec fn search_start(q: Seq<char>) -> flow::StepView<Searching, Seq<contract::AppView>> {
    flow::StepView::Ask(
        flow::RequestView::Get(parse::site("/search?q="@ + scrape::encoded(q))),
        Searching,
    )
}

/// What a reply to a search comes to.
pub open spec fn search_next(state: Searching, reply: flow::ReplyView) -> flow::StepView<
    Searching,
    Seq<contract::AppView>,
> {
    flow::StepView::Done(
        match reply {
            Ok(page) => parse::searched(parse::search_rows(html::document(page))),
            Err(e) => Err(e),
        },
    )
}

impl Searching {
    /// Goes on with the reply.
    pub fn advance(self, reply: Reply) -> (r: Step<Searching, Vec<AppResult>>)
        ensures
            flow::list_step(r) == search_next(self@, flow::reply_view(reply)),
    {
        let page = match reply {
            Ok(page) => page,
            Err(e) => {
                return Step::Done(Err(e));
            },
        };
        match parse::parse_search(page.as_str()) {
            Ok(hits) => Step::Done(Ok(app_results(hits))),
            Err(e) => Step::Done(Err(e)),
        }
    }
}

/// The hits as results.
fn app_results(hits: Vec<parse::SearchHit>) -> (r: Vec<AppResult>)
    ensures
        model::views(r@) == model::views(hits@),
{
    let mut out: Vec<AppResult> = Vec::new();
    let mut i: usize = 0;
    while i < hits.len()
        invariant
            i <= hits@.len(),
            model::views(out@) == model::views(hits@).take(i as int),
        decreases hits@.len() - i,
    {
        let a = AppResult { package: hits[i].package.clone(), title: hits[i].title.clone() };
        proof {
            model::lemma_views_push(out@, a);
        }
        out.push(a);
        assert(model::views(out@) == model::views(hits@).take(i + 1));
        i += 1;
    }
    assert(model::views(hits@).take(hits@.len() as int) == model::views(hits@));
    out
}

/// The request for the list of versions.
pub open spec fn rows_request(pkg: Seq<char>) -> flow::RequestView {
    flow::RequestView::Get(parse::site("/x/"@ + pkg + "/versions"@))
}

/// The list of versions on a page.
pub open spec fn rows_read(page: Seq<char>) -> Result<
    Seq<parse::VersionRowView>,
    contract::ErrorView,
> {
    parse::versions_found(parse::version_items(html::document(page)))
}

/// The request for the list of versions.
fn ask_rows(pkg: &str) -> (r: Request)
    ensures
        r@ == rows_request(pkg@),
{
    let path = plus3("/x/", pkg, "/versions");
    let url: parse::Url = contract::Url::of(path.as_str());
    Request::Get(url.into_string())
}

/// The versions of rows.
pub open spec fn infos(rows: Seq<parse::VersionRowView>) -> Seq<contract::VersionView> {
    Seq::new(
        rows.len(),
        |i: int| contract::VersionView { version: rows[i].version, uploaded: rows[i].uploaded },
    )
}

/// The versions of rows.
fn version_infos(rows: Vec<parse::VersionRow>) -> (r: Vec<VersionInfo>)
    ensures
        model::views(r@) == infos(model::views(rows@)),
{
    let ghost all = infos(model::views(rows@));
    let mut out: Vec<VersionInfo> = Vec::new();
    let mut i: usize = 0;
    assert(model::views(out@) == all.take(0));
    while i < rows.len()
        invariant
            i <= rows@.len(),
            all == infos(model::views(rows@)),
            model::views(out@) == all.take(i as int),
        decreases rows@.len() - i,
    {
        let v = VersionInfo { version: rows[i].version.clone(), uploaded: rows[i].uploaded };
        assert(v@ == all[i as int]);
        proof {
            model::lemma_views_push(out@, v);
        }
        out.push(v);
        assert(model::views(out@) == all.take(i + 1));
        i += 1;
    }
    assert(all.take(all.len() as int) == all);
    out
}

/// A listing of versions is waiting for its page.
pub struct Listing;

impl View for Listing {
    type V = Listing;

    open spec fn view(&self) -> Listing {
        *self
    }
}

/// What a listing asks first.
pub open spec fn versions_start(pkg: Seq<char>) -> flow::StepView<
    Listing,
    Seq<contract::VersionView>,
> {
    flow::StepView::Ask(rows_request(pkg), Listing)
}

/// What a reply to a listing comes to.
pub open spec fn versions_next(state: Listing, reply: flow::ReplyView) -> flow::StepView<
    Listing,
    Seq<contract::VersionView>,
> {
    flow::StepView::Done(
        match reply {
            Ok(page) => match rows_read(page) {
                Ok(rows) => Ok(infos(rows)),
                Err(e) => Err(e),
            },
            Err(e) => Err(e),
        },
    )
}

/// What is reported of a list of versions that is awaited.
pub open spec fn reported(awaited: bool, reply: flow::ReplyView) -> Seq<Seq<char>> {
    match reply {
        Ok(page) if awaited => parse::complaints(parse::version_items(html::document(page))),
        _ => Seq::<Seq<char>>::empty(),
    }
}

/// What is reported of a list of versions that is awaited.
fn report(awaited: bool, reply: &Reply) -> (r: Vec<String>)
    ensures
        model::texts(r@) == reported(awaited, flow::reply_view(*reply)),
{
    match reply {
        Ok(page) if awaited => parse::parse_complaints(page.as_str()),
        _ => {
            let none: Vec<String> = Vec::new();
            assert(model::texts(none@) == Seq::<Seq<char>>::empty());
            none
        },
    }
}

impl Listing {
    /// What to report before going on with the reply: the dates of a list of versions
    /// that cannot be read.
    pub fn reports(&self, reply: &Reply) -> (r: Vec<String>)
        ensures
            model::texts(r@) == reported(true, flow::reply_view(*reply)),
    {
        report(true, reply)
    }

    /// Goes on with the reply.
    pub fn advance(self, reply: Reply) -> (r: Step<Listing, Vec<VersionInfo>>)
        ensures
            flow::list_step(r) == versions_next(self@, flow::reply_view(reply)),
    {
        let page = match reply {
            Ok(page) => page,
            Err(e) => {
                return Step::Done(Err(e));
            },
        };
        match parse::parse_versions(page.as_str()) {
            Ok(rows) => Step::Done(Ok(version_infos(rows))),
            Err(e) => Step::Done(Err(e)),
        }
    }
}

/// A download is waiting for a page.
pub enum Download {
    /// The list of versions of a package, for the version asked for.
    Rows(String, String),
    /// The app page of a package.
    App(String),
}

/// What a [`Download`] says.
pub enum DownloadView {
    Rows(Seq<char>, Seq<char>),
    App(Seq<char>),
}

impl View for Download {
    type V = DownloadView;

    open spec fn view(&self) -> DownloadView {
        match *self {
            Download::Rows(pkg, want) => DownloadView::Rows(pkg@, want@),
            Download::App(pkg) => DownloadView::App(pkg@),
        }
    }
}

/// The versions of rows.
pub open spec fn versions_in(rows: Seq<parse::VersionRowView>) -> Seq<Seq<char>> {
    Seq::new(rows.len(), |i: int| rows[i].version)
}

/// The version to take: the one asked for, else the first below it.
pub open spec fn build_at(rows: Seq<parse::VersionRowView>, want: Seq<char>) -> Option<
    parse::VersionRowView,
> {
    match scrape::pinned(versions_in(rows), want) {
        Some(i) => Some(rows[i]),
        None => None,
    }
}

/// The version to take: the one asked for, else the first below it.
fn find_row(rows: &[parse::VersionRow], want: &str) -> (r: Option<usize>)
    ensures
        r matches Some(i) ==> i < rows@.len(),
        (match r {
            Some(i) => Some(rows@[i as int]@),
            None => None,
        }) == build_at(model::views(rows@), want@),
{
    let ghost rv = model::views(rows@);
    let ghost all = versions_in(rv);
    let mut versions: Vec<String> = Vec::new();
    let mut i: usize = 0;
    assert(model::texts(versions@) == all.take(0));
    while i < rows.len()
        invariant
            i <= rows@.len(),
            rv == model::views(rows@),
            all == versions_in(rv),
            model::texts(versions@) == all.take(i as int),
        decreases rows@.len() - i,
    {
        assert(rv[i as int] == rows@[i as int]@);
        let v = rows[i].version.clone();
        let ghost before = versions@;
        versions.push(v);
        assert(model::texts(versions@) == model::texts(before).push(v@));
        assert(model::texts(versions@) == all.take(i + 1));
        i += 1;
    }
    assert(all.take(all.len() as int) == all);
    assert(model::texts(versions@).len() == versions@.len());
    let found = find_pinned(&versions, want);
    assert(found matches Some(k) ==> rv[k as int] == rows@[k as int]@);
    found
}

/// A row of the version asked for wins wherever it stands, and the first of them.
pub proof fn lemma_exact_wins(rows: Seq<parse::VersionRowView>, want: Seq<char>, n: int)
    requires
        0 <= n < rows.len(),
        versions_in(rows)[n] == want,
    ensures
        exists|i: int|
            0 <= i <= n && build_at(rows, want) == Some(#[trigger] rows[i]) && versions_in(rows)[i]
                == want,
{
    let vs = versions_in(rows);
    scrape::lemma_pinned(vs, want);
    assert(vs.contains(vs[n]));
    let i = scrape::pinned(vs, want)->0;
    assert(build_at(rows, want) == Some(rows[i]));
}

/// The target for a version code, or for the latest build.
pub open spec fn target(pkg: Seq<char>, code: Option<Seq<char>>, version: Seq<char>) -> contract::TargetView {
    contract::TargetView {
        url: parse::file_url(pkg, code),
        version,
        arch: contract::every_abi(),
        provider: ProviderId::Apkpure,
        headers: Seq::<(Seq<char>, Seq<char>)>::empty(),
    }
}

/// The target for the version asked for.
pub open spec fn build_target(
    rows: Seq<parse::VersionRowView>,
    want: Seq<char>,
    pkg: Seq<char>,
) -> Result<contract::TargetView, contract::ErrorView> {
    match build_at(rows, want) {
        Some(row) => Ok(target(pkg, Some(row.code), row.version)),
        None => Err(contract::ErrorView::NotFound("no version "@ + want + " for "@ + pkg)),
    }
}

/// The target for the latest build.
pub open spec fn latest_target(version: Option<Seq<char>>, pkg: Seq<char>) -> Result<
    contract::TargetView,
    contract::ErrorView,
> {
    match version {
        Some(v) => Ok(target(pkg, None, v)),
        None => Err(contract::ErrorView::NotFound("no app page for "@ + pkg)),
    }
}

/// The target for a version code, or for the latest build.
fn make_target(pkg: &str, code: Option<&str>, version: String) -> (r: DownloadTarget)
    ensures
        r@ == target(pkg@, model::opt_str(code), version@),
{
    let headers: Vec<(String, String)> = Vec::new();
    assert(contract::header_texts(headers@) == Seq::<(Seq<char>, Seq<char>)>::empty());
    DownloadTarget {
        url: parse::download_url(pkg, code),
        version,
        arch: Arch::all(),
        provider: ProviderId::Apkpure,
        headers,
    }
}

/// The target for the version asked for.
pub fn find_build(rows: &[parse::VersionRow], want: &str, pkg: &str) -> (r: Result<
    DownloadTarget,
    ProviderError,
>)
    ensures
        contract::outcome(r) == build_target(model::views(rows@), want@, pkg@),
{
    match find_row(rows, want) {
        Some(i) => {
            let row = &rows[i];
            Ok(make_target(pkg, Some(row.code.as_str()), row.version.clone()))
        },
        None => Err(ProviderError::NotFound(plus4("no version ", want, " for ", pkg))),
    }
}

/// The target for the latest build, whose version was read off the app page.
pub fn latest_build(version: Option<String>, pkg: &str) -> (r: Result<DownloadTarget, ProviderError>)
    ensures
        contract::outcome(r) == latest_target(model::opt(version), pkg@),
{
    match version {
        Some(v) => Ok(make_target(pkg, None, v)),
        None => {
            let msg = plus("no app page for ", pkg);
            Err(ProviderError::NotFound(msg))
        },
    }
}

/// What a download asks first.
pub open spec fn download_start(pkg: Seq<char>, version: Option<Seq<char>>) -> flow::StepView<
    DownloadView,
    contract::TargetView,
> {
    match version {
        Some(want) => flow::StepView::Ask(rows_request(pkg), DownloadView::Rows(pkg, want)),
        None => flow::StepView::Ask(
            flow::RequestView::Get(parse::site("/x/"@ + pkg)),
            DownloadView::App(pkg),
        ),
    }
}

/// What a reply to a download comes to.
pub open spec fn download_next(d: DownloadView, reply: flow::ReplyView) -> flow::StepView<
    DownloadView,
    contract::TargetView,
> {
    flow::StepView::Done(
        match reply {
            Err(e) => Err(e),
            Ok(page) => match d {
                DownloadView::Rows(pkg, want) => match rows_read(page) {
                    Err(e) => Err(e),
                    Ok(rows) => build_target(rows, want, pkg),
                },
                DownloadView::App(pkg) => latest_target(
                    parse::latest_of(parse::version_marker(html::document(page))),
                    pkg,
                ),
            },
        },
    )
}

impl Download {
    /// What to report before going on with the reply: the dates of a list of versions
    /// that cannot be read.
    pub fn reports(&self, reply: &Reply) -> (r: Vec<String>)
        ensures
            model::texts(r@) == reported(self@ is Rows, flow::reply_view(*reply)),
    {
        report(matches!(self, Download::Rows(_, _)), reply)
    }

    /// Goes on with the reply.
    pub fn advance(self, reply: Reply) -> (r: Step<Download, DownloadTarget>)
        ensures
            flow::step(r) == download_next(self@, flow::reply_view(reply)),
    {
        let page = match reply {
            Ok(page) => page,
            Err(e) => {
                return Step::Done(Err(e));
            },
        };
        match self {
            Download::Rows(pkg, want) => match parse::parse_versions(page.as_str()) {
                Ok(rows) => Step::Done(find_build(&rows, want.as_str(), pkg.as_str())),
                Err(e) => Step::Done(Err(e)),
            },
            Download::App(pkg) => Step::Done(
                latest_build(parse::latest_version(page.as_str()), pkg.as_str()),
            ),
        }
    }
}

impl ApkPure {
    /// Searches for an app.
    pub fn search(q: &str) -> (r: Step<Searching, Vec<AppResult>>)
        ensures
            flow::list_step(r) == search_start(q@),
    {
        let term = query(q);
        let path = plus("/search?q=", term.as_str());
        let url: parse::Url = contract::Url::of(path.as_str());
        Step::Ask(Request::Get(url.into_string()), Searching)
    }

    /// Lists the versions of an app.
    pub fn versions(pkg: &str) -> (r: Step<Listing, Vec<VersionInfo>>)
        ensures
            flow::list_step(r) == versions_start(pkg@),
    {
        Step::Ask(ask_rows(pkg), Listing)
    }

    /// Resolves a download. The ABIs that are asked for do not count.
    pub fn download_url(pkg: &str, version: Option<&str>, _arch: Arch) -> (r: Step<
        Download,
        DownloadTarget,
    >)
        ensures
            flow::step(r) == download_start(pkg@, model::opt_str(version)),
    {
        match version {
            Some(want) => Step::Ask(
                ask_rows(pkg),
                Download::Rows(pkg.to_owned(), want.to_owned()),
            ),
            None => {
                let path = plus("/x/", pkg);
                let url: parse::Url = contract::Url::of(path.as_str());
                Step::Ask(Request::Get(url.into_string()), Download::App(pkg.to_owned()))
            },
        }
    }
}

/// A download takes one request. Where it succeeds the target is a universal
/// build under the file host, without extra headers.
pub proof fn lemma_download_resolves(world: flow::World, pkg: Seq<char>, version: Option<Seq<char>>)
    ensures
        ({
            let end = flow::run(
                world,
                |d: DownloadView, reply: flow::ReplyView| download_next(d, reply),
                download_start(pkg, version),
                1,
            );
            end is Done && match end->Done_0 {
                Ok(t) => t.arch == contract::every_abi() && t.provider == ProviderId::Apkpure
                    && t.headers.len() == 0 && exists|code: Option<Seq<char>>|
                    t.url == #[trigger] parse::file_url(pkg, code),
                Err(_) => true,
            }
        }),
{
    reveal_with_fuel(flow::run, 2);
}

/// A pinned version is never answered with another one: the target is that of an
/// entry of the list whose version is the one asked for, or one below it where that
/// one is not listed.
pub proof fn lemma_pinned(rows: Seq<parse::VersionRowView>, want: Seq<char>, pkg: Seq<char>)
    ensures
        build_target(rows, want, pkg) matches Ok(t) ==> {
            &&& scrape::matches_version(t.version, want)
            &&& versions_in(rows).contains(want) ==> t.version == want
            &&& exists|i: int|
                0 <= i < rows.len() && (#[trigger] rows[i]).version == t.version && t.url
                    == parse::file_url(pkg, Some(rows[i].code))
        },
        build_target(rows, want, pkg) is Err ==> forall|i: int|
            0 <= i < rows.len() ==> !scrape::matches_version((#[trigger] rows[i]).version, want),
{
    let vs = versions_in(rows);
    scrape::lemma_pinned(vs, want);
    match scrape::pinned(vs, want) {
        Some(i) => {
            assert(rows[i].version == vs[i]);
        },
        None => {
            assert forall|i: int| 0 <= i < rows.len() implies !scrape::matches_version(
                (#[trigger] rows[i]).version,
                want,
            ) by {
                assert(rows[i].version == vs[i]);
            }
        },
    }
}

} // verus!
