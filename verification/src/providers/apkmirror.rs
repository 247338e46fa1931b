//! APKMirror. The site has no index by package id, so everything starts with its
//! own search, for the package id, and goes on from the best hit: list of
//! versions, table of variants, download page, the page that starts the download.

use crate::common::contract;
use crate::common::contract::{
    AppResult, Arch, DownloadTarget, ProviderConst, ProviderError, ProviderId, VersionInfo,
};
use crate::common::flow;
use crate::common::flow::{field, Reply, Request, Step};
use crate::html;
use crate::model;
use crate::outside;
use crate::outside::percent_decode;
use crate::providers::scrape;
use crate::providers::scrape::{choose_variant, find_pinned, query, Variant};
use crate::strings::{copied, plus3, plus4, same};
use vstd::prelude::*;

pub mod parse;

verus! {

/// The site.
pub struct ApkMirror;

impl ProviderConst for ApkMirror {
    open spec fn ident() -> ProviderId {
        ProviderId::Apkmirror
    }

    open spec fn base() -> Seq<char> {
        "https://www.apkmirror.com"@
    }

    fn id() -> (r: ProviderId) {
        ProviderId::Apkmirror
    }

    fn base_url() -> (r: &'static str) {
        "https://www.apkmirror.com"
    }
}

/// The request of a search: for apps or for builds, as `arg` says.
pub open spec fn search_request(arg: Seq<char>, q: Seq<char>) -> flow::RequestView {
    flow::RequestView::Get(
        parse::site("/?post_type=app_release&"@ + arg + "&s="@ + scrape::encoded(q)),
    )
}

/// The request of a search for apps.
pub open spec fn app_search(q: Seq<char>) -> flow::RequestView {
    search_request("searchtype=app"@, q)
}

/// The request of a search for builds.
pub open spec fn apk_search(q: Seq<char>) -> flow::RequestView {
    search_request("searchtype=apk"@, q)
}

/// The request of a search: for apps or for builds, as `arg` says.
fn base_search(arg: &str, q: &str) -> (r: Request)
    ensures
        r@ == search_request(arg@, q@),
{
    let term = query(q);
    let path = plus4("/?post_type=app_release&", arg, "&s=", term.as_str());
    let url: parse::Url = contract::Url::of(path.as_str());
    Request::Get(url.into_string())
}

/// The hits of a results page for `q`; `None` where a link has no address.
pub open spec fn hits_read(page: Seq<char>, q: Seq<char>) -> Option<
    Result<Seq<parse::HitView>, contract::ErrorView>,
> {
    if parse::complete(parse::search_rows(page)) {
        Some(parse::searched(parse::search_rows(page), q))
    } else {
        None
    }
}

/// The newest release on an app page; `None` where its link has no address.
pub open spec fn newest_read(page: Seq<char>) -> Option<
    Result<parse::HitView, contract::ErrorView>,
> {
    let n = parse::newest(html::document(page));
    if parse::newest_complete(n) {
        Some(parse::newest_found(n))
    } else {
        None
    }
}

/// The app that a hit is a release of: `{org}/{repo}` and the title without the
/// version. The pages do not carry the package id.
pub open spec fn app_of(hit: parse::HitView) -> Option<contract::AppView> {
    match parse::slug_of(hit.release_url) {
        Some(slug) => Some(
            contract::AppView {
                package: outside::percent_decoded(slug),
                title: parse::unversioned(hit.title),
            },
        ),
        None => None,
    }
}

/// Whether a package is among the apps.
pub open spec fn known(apps: Seq<contract::AppView>, package: Seq<char>) -> bool {
    exists|i: int| 0 <= i < apps.len() && (#[trigger] apps[i]).package == package
}

/// The apps that hits are releases of, each once: a row stands for a release, and
/// the first release of an app is the best one.
pub open spec fn apps_of(hits: Seq<parse::HitView>) -> Seq<contract::AppView>
    decreases hits.len(),
{
    if hits.len() == 0 {
        Seq::<contract::AppView>::empty()
    } else {
        let front = apps_of(hits.drop_last());
        match app_of(hits.last()) {
            Some(app) => if known(front, app.package) {
                front
            } else {
                front.push(app)
            },
            None => front,
        }
    }
}

/// Whether a package is among the apps.
fn is_known(apps: &[AppResult], package: &str) -> (r: bool)
    ensures
        r == known(model::views(apps@), package@),
{
    let mut i: usize = 0;
    while i < apps.len()
        invariant
            i <= apps@.len(),
            forall|j: int| 0 <= j < i ==> apps@[j].package@ != package@,
        decreases apps@.len() - i,
    {
        if same(apps[i].package.as_str(), package) {
            assert(model::views(apps@)[i as int].package == package@);
            return true;
        }
        i += 1;
    }
    false
}

/// No app is found twice, and every app that a hit is a release of is found, with
/// the title of its first release.
pub proof fn lemma_apps_once(hits: Seq<parse::HitView>)
    ensures
        forall|i: int, j: int|
            0 <= i < j < apps_of(hits).len() ==> (#[trigger] apps_of(hits)[i]).package != (
            #[trigger] apps_of(hits)[j]).package,
        forall|n: int|
            0 <= n < hits.len() && app_of(#[trigger] hits[n]) is Some && !known(
                apps_of(hits.take(n)),
                (app_of(hits[n])->0).package,
            ) ==> apps_of(hits).contains(app_of(hits[n])->0),
        forall|n: int|
            0 <= n < hits.len() && app_of(#[trigger] hits[n]) is Some ==> known(
                apps_of(hits),
                (app_of(hits[n])->0).package,
            ),
    decreases hits.len(),
{
    if hits.len() > 0 {
        let before = hits.drop_last();
        lemma_apps_once(before);
        let front = apps_of(before);
        let all = apps_of(hits);
        assert forall|i: int, j: int| 0 <= i < j < all.len() implies (#[trigger] all[i]).package != (
        #[trigger] all[j]).package by {
            assert(all[i] == front[i]);
            if j == front.len() && all[j].package == front[i].package {
                assert(known(front, all[j].package));
            }
        }
        assert forall|n: int|
            0 <= n < hits.len() && app_of(#[trigger] hits[n]) is Some && !known(
                apps_of(hits.take(n)),
                (app_of(hits[n])->0).package,
            ) implies all.contains(app_of(hits[n])->0) by {
            if n < before.len() {
                assert(before[n] == hits[n]);
                assert(before.take(n) == hits.take(n));
                let k = choose|k: int| 0 <= k < front.len() && front[k] == app_of(hits[n])->0;
                assert(all[k] == front[k]);
            } else {
                assert(hits.take(n) == before);
                assert(all.last() == app_of(hits[n])->0);
            }
        }
        assert forall|n: int| 0 <= n < hits.len() && app_of(#[trigger] hits[n]) is Some implies known(
            all,
            (app_of(hits[n])->0).package,
        ) by {
            let package = (app_of(hits[n])->0).package;
            if n < before.len() {
                assert(before[n] == hits[n]);
                assert(known(front, package));
            }
            if known(front, package) {
                let k = choose|k: int|
                    0 <= k < front.len() && (#[trigger] front[k]).package == package;
                assert(all[k] == front[k]);
            } else {
                assert(all[front.len() as int].package == package);
            }
        }
    }
}

/// The apps that hits are releases of, each once.
pub fn apps(hits: &[parse::SearchHit]) -> (r: Vec<AppResult>)
    ensures
        model::views(r@) == apps_of(model::views(hits@)),
{
    let ghost hv = model::views(hits@);
    let mut out: Vec<AppResult> = Vec::new();
    let mut i: usize = 0;
    assert(model::views(out@) == apps_of(hv.take(0)));
    while i < hits.len()
        invariant
            i <= hits@.len(),
            hv == model::views(hits@),
            model::views(out@) == apps_of(hv.take(i as int)),
        decreases hits@.len() - i,
    {
        assert(hv.take(i + 1).drop_last() == hv.take(i as int));
        assert(hv.take(i + 1).last() == hits@[i as int]@);
        if let Some(slug) = parse::app_slug(&hits[i].release_url) {
            let a = AppResult {
                package: percent_decode(slug.as_str()),
                title: parse::strip_version(hits[i].title.as_str()),
            };
            if !is_known(&out, a.package.as_str()) {
                proof {
                    model::lemma_views_push(out@, a);
                }
                out.push(a);
            }
        }
        i += 1;
    }
    assert(hv.take(hv.len() as int) == hv);
    out
}

/// A search for a query is waiting for its page.
pub struct Searching {
    pub query: String,
}

impl View for Searching {
    type V = Seq<char>;

    open spec fn view(&self) -> Seq<char> {
        self.query@
    }
}

/// What a search asks first.
pub open spec fn search_start(q: Seq<char>) -> flow::StepView<Seq<char>, Seq<contract::AppView>> {
    flow::StepView::Ask(app_search(q), q)
}

/// What a reply to a search comes to.
pub open spec fn search_next(q: Seq<char>, reply: flow::ReplyView) -> flow::StepView<
    Seq<char>,
    Seq<contract::AppView>,
> {
    match reply {
        Err(e) => flow::StepView::Done(Err(e)),
        Ok(page) => match hits_read(page, q) {
            None => flow::StepView::Abort,
            Some(Err(e)) => flow::StepView::Done(Err(e)),
            Some(Ok(hits)) => flow::StepView::Done(Ok(apps_of(hits))),
        },
    }
}

impl Searching {
    /// Goes on with the reply.
    pub fn advance(self, reply: Reply) -> (r: Step<Searching, Vec<AppResult>>)
        ensures
            flow::list_step(r) == search_next(self@, flow::reply_view(reply)),
    {
        let page = match reply {
            Ok(page) => page,
            Err(e) => {
                return Step::Done(Err(e));
            },
        };
        match parse::try_parse_search(page.as_str(), self.query.as_str()) {
            None => Step::Abort,
            Some(Err(e)) => Step::Done(Err(e)),
            Some(Ok(hits)) => Step::Done(Ok(apps(&hits))),
        }
    }
}

/// A listing of versions is waiting for a page.
pub enum Listing {
    /// The results of a search for a package.
    Apps(String),
    /// The page of the best hit.
    App,
    /// The page of the app.
    Versions,
}

/// What a [`Listing`] says.
pub enum ListingView {
    Apps(Seq<char>),
    App,
    Versions,
}

impl View for Listing {
    type V = ListingView;

    open spec fn view(&self) -> ListingView {
        match *self {
            Listing::Apps(pkg) => ListingView::Apps(pkg@),
            Listing::App => ListingView::App,
            Listing::Versions => ListingView::Versions,
        }
    }
}

/// What a listing asks first.
pub open spec fn versions_start(pkg: Seq<char>) -> flow::StepView<
    ListingView,
    Seq<contract::VersionView>,
> {
    flow::StepView::Ask(app_search(pkg), ListingView::Apps(pkg))
}

/// The page of an app, from one of its releases.
pub open spec fn app_page(hit: parse::HitView) -> Result<Seq<char>, contract::ErrorView> {
    match parse::slug_of(hit.release_url) {
        Some(slug) => Ok(parse::site("/apk/"@ + slug + "/"@)),
        None => Err(contract::ErrorView::ParseError("bad release url"@)),
    }
}

/// The page of an app, from one of its releases.
pub fn page_of_app(hit: &parse::SearchHit) -> (r: Result<String, ProviderError>)
    ensures
        contract::outcome(r) == app_page(hit@),
{
    match parse::app_slug(&hit.release_url) {
        Some(slug) => {
            let path = plus3("/apk/", slug.as_str(), "/");
            let url: parse::Url = contract::Url::of(path.as_str());
            Ok(url.into_string())
        },
        None => Err(ProviderError::ParseError("bad release url".to_owned())),
    }
}

/// How a listing goes on with a reply.
pub open spec fn versions_next(state: ListingView, reply: flow::ReplyView) -> flow::StepView<
    ListingView,
    Seq<contract::VersionView>,
> {
    match reply {
        Err(e) => flow::StepView::Done(Err(e)),
        Ok(page) => match state {
            ListingView::Apps(pkg) => match hits_read(page, pkg) {
                None => flow::StepView::Abort,
                Some(Err(e)) => flow::StepView::Done(Err(e)),
                Some(Ok(hits)) => flow::StepView::Ask(
                    flow::RequestView::Get(hits[0].release_url),
                    ListingView::App,
                ),
            },
            ListingView::App => match newest_read(page) {
                None => flow::StepView::Abort,
                Some(Err(e)) => flow::StepView::Done(Err(e)),
                Some(Ok(hit)) => match app_page(hit) {
                    Err(e) => flow::StepView::Done(Err(e)),
                    Ok(url) => flow::StepView::Ask(
                        flow::RequestView::Get(url),
                        ListingView::Versions,
                    ),
                },
            },
            ListingView::Versions => flow::StepView::Done(
                parse::versions_found(parse::version_items(html::document(page))),
            ),
        },
    }
}

/// What is reported of a list of versions that is awaited.
pub open spec fn reported(awaited: bool, reply: flow::ReplyView) -> Seq<Seq<char>> {
    match reply {
        Ok(page) if awaited => parse::complaints(parse::version_items(html::document(page))),
        _ => Seq::<Seq<char>>::empty(),
    }
}

/// What is reported of a list of versions that is awaited.
fn report(awaited: bool, reply: &Reply) -> (r: Vec<String>)
    ensures
        model::texts(r@) == reported(awaited, flow::reply_view(*reply)),
{
    match reply {
        Ok(page) if awaited => parse::parse_complaints(page.as_str()),
        _ => {
            let none: Vec<String> = Vec::new();
            assert(model::texts(none@) == Seq::<Seq<char>>::empty());
            none
        },
    }
}

impl Listing {
    /// What to report before going on with the reply: the dates of a list of versions
    /// that cannot be read.
    pub fn reports(&self, reply: &Reply) -> (r: Vec<String>)
        ensures
            model::texts(r@) == reported(self@ is Versions, flow::reply_view(*reply)),
    {
        report(matches!(self, Listing::Versions), reply)
    }

    /// Goes on with the reply.
    pub fn advance(self, reply: Reply) -> (r: Step<Listing, Vec<VersionInfo>>)
        ensures
            flow::list_step(r) == versions_next(self@, flow::reply_view(reply)),
    {
        let page = match reply {
            Ok(page) => page,
            Err(e) => {
                return Step::Done(Err(e));
            },
        };
        match self {
            Listing::Apps(pkg) => match parse::try_parse_search(page.as_str(), pkg.as_str()) {
                None => Step::Abort,
                Some(Err(e)) => Step::Done(Err(e)),
                Some(Ok(hits)) => {
                    assert(model::views(hits@)[0] == hits@[0]@);
                    Step::Ask(Request::Get(hits[0].release_url.to_string()), Listing::App)
                },
            },
            Listing::App => match parse::try_latest_version(page.as_str()) {
                None => Step::Abort,
                Some(Err(e)) => Step::Done(Err(e)),
                Some(Ok(hit)) => match page_of_app(&hit) {
                    Ok(url) => Step::Ask(Request::Get(url), Listing::Versions),
                    Err(e) => Step::Done(Err(e)),
                },
            },
            Listing::Versions => Step::Done(parse::parse_versions(page.as_str())),
        }
    }
}

/// Which page a download is waiting for.
pub enum Stage {
    /// The results of a search for the package.
    Apps,
    /// The page of the best hit.
    App,
    /// The results of a search for the version asked for.
    Builds(String),
    /// The version page.
    Version,
    /// The download page of a build: its version, if known, and its ABIs.
    Page(Option<String>, Arch),
    /// The page that starts the download, behind a button.
    Starting(Option<String>, Arch, String),
}

/// What a [`Stage`] says.
pub enum StageView {
    Apps,
    App,
    Builds(Seq<char>),
    Version,
    Page(Option<Seq<char>>, Arch),
    Starting(Option<Seq<char>>, Arch, Seq<char>),
}

impl View for Stage {
    type V = StageView;

    open spec fn view(&self) -> StageView {
        match *self {
            Stage::Apps => StageView::Apps,
            Stage::App => StageView::App,
            Stage::Builds(want) => StageView::Builds(want@),
            Stage::Version => StageView::Version,
            Stage::Page(version, arch) => StageView::Page(model::opt(version), arch),
            Stage::Starting(version, arch, button) => StageView::Starting(
                model::opt(version),
                arch,
                button@,
            ),
        }
    }
}

/// A download on its way: what was asked for, and the page it is waiting for.
pub struct Download {
    pub pkg: String,
    pub version: Option<String>,
    pub arch: Arch,
    pub stage: Stage,
}

/// What a [`Download`] says.
pub struct DownloadView {
    pub pkg: Seq<char>,
    pub version: Option<Seq<char>>,
    pub arch: Arch,
    pub stage: StageView,
}

impl View for Download {
    type V = DownloadView;

    open spec fn view(&self) -> DownloadView {
        DownloadView {
            pkg: self.pkg@,
            version: model::opt(self.version),
            arch: self.arch,
            stage: self.stage@,
        }
    }
}

/// What is searched for to find a version of a package.
pub open spec fn build_query(pkg: Seq<char>, want: Seq<char>) -> Seq<char> {
    pkg + " "@ + want
}

/// The versions of rows.
pub open spec fn versions_in(rows: Seq<parse::HitView>) -> Seq<Seq<char>> {
    Seq::new(rows.len(), |i: int| scrape::version_of(rows[i].title))
}

/// The version to take: the one asked for, else the first below it.
pub open spec fn build_at(rows: Seq<parse::HitView>, want: Seq<char>) -> Option<
    parse::HitView,
> {
    match scrape::pinned(versions_in(rows), want) {
        Some(i) => Some(rows[i]),
        None => None,
    }
}

/// The version to take: the one asked for, else the first below it.
fn find_row(rows: &[parse::SearchHit], want: &str) -> (r: Option<usize>)
    ensures
        r matches Some(i) ==> i < rows@.len(),
        (match r {
            Some(i) => Some(rows@[i as int]@),
            None => None,
        }) == build_at(model::views(rows@), want@),
{
    let ghost rv = model::views(rows@);
    let ghost all = versions_in(rv);
    let mut versions: Vec<String> = Vec::new();
    let mut i: usize = 0;
    assert(model::texts(versions@) == all.take(0));
    while i < rows.len()
        invariant
            i <= rows@.len(),
            rv == model::views(rows@),
            all == versions_in(rv),
            model::texts(versions@) == all.take(i as int),
        decreases rows@.len() - i,
    {
        assert(rv[i as int] == rows@[i as int]@);
        let v = rows[i].version();
        let ghost before = versions@;
        versions.push(v);
        assert(model::texts(versions@) == model::texts(before).push(v@));
        assert(model::texts(versions@) == all.take(i + 1));
        i += 1;
    }
    assert(all.take(all.len() as int) == all);
    assert(model::texts(versions@).len() == versions@.len());
    let found = find_pinned(&versions, want);
    assert(found matches Some(k) ==> rv[k as int] == rows@[k as int]@);
    found
}

/// A row of the version asked for wins wherever it stands, and the first of them.
pub proof fn lemma_exact_wins(rows: Seq<parse::HitView>, want: Seq<char>, n: int)
    requires
        0 <= n < rows.len(),
        versions_in(rows)[n] == want,
    ensures
        exists|i: int|
            0 <= i <= n && build_at(rows, want) == Some(#[trigger] rows[i]) && versions_in(rows)[i]
                == want,
{
    let vs = versions_in(rows);
    scrape::lemma_pinned(vs, want);
    assert(vs.contains(vs[n]));
    let i = scrape::pinned(vs, want)->0;
    assert(build_at(rows, want) == Some(rows[i]));
}

/// The page of the version asked for.
pub open spec fn build_page(
    hits: Seq<parse::HitView>,
    want: Seq<char>,
    pkg: Seq<char>,
) -> Result<Seq<char>, contract::ErrorView> {
    match build_at(hits, want) {
        Some(hit) => Ok(hit.release_url),
        None => Err(contract::ErrorView::NotFound("no build "@ + want + " for "@ + pkg)),
    }
}

/// The page of the version asked for.
pub fn find_build(hits: &[parse::SearchHit], want: &str, pkg: &str) -> (r: Result<
    String,
    ProviderError,
>)
    ensures
        contract::outcome(r) == build_page(model::views(hits@), want@, pkg@),
{
    match find_row(hits, want) {
        Some(i) => Ok(hits[i].release_url.to_string()),
        None => Err(ProviderError::NotFound(plus4("no build ", want, " for ", pkg))),
    }
}

/// Goes on from a download page to the page that starts the download.
pub open spec fn press_button(
    d: DownloadView,
    version: Option<Seq<char>>,
    arch: Arch,
    page: Seq<char>,
) -> flow::StepView<DownloadView, contract::TargetView> {
    match parse::button_link(page) {
        Err(e) => flow::StepView::Done(Err(e)),
        Ok(button) => flow::StepView::Ask(
            flow::RequestView::Get(button),
            DownloadView { stage: StageView::Starting(version, arch, button), ..d },
        ),
    }
}

/// Goes on from a version page. Without a table of variants it is the download
/// page of the only build, which runs anywhere.
pub open spec fn open_version(
    d: DownloadView,
    vs: Seq<scrape::VariantView>,
    page: Seq<char>,
) -> flow::StepView<DownloadView, contract::TargetView> {
    match scrape::choice(vs, d.arch) {
        None => press_button(d, d.version, contract::every_abi(), page),
        Some(i) => flow::StepView::Ask(
            flow::RequestView::Get(vs[i].url),
            DownloadView { stage: StageView::Page(Some(vs[i].version), vs[i].arch), ..d },
        ),
    }
}

/// The target at the end. The site checks which page a download comes from.
pub open spec fn target(
    version: Option<Seq<char>>,
    arch: Arch,
    button: Seq<char>,
    url: Seq<char>,
) -> contract::TargetView {
    contract::TargetView {
        url,
        version: match version {
            Some(v) => v,
            None => "latest"@,
        },
        arch,
        provider: ProviderId::Apkmirror,
        headers: seq![("Referer"@, button)],
    }
}

/// What a download asks first. The list of versions on an app page leaves older
/// builds out, so a version is searched for.
pub open spec fn download_start(pkg: Seq<char>, version: Option<Seq<char>>, arch: Arch) -> flow::StepView<
    DownloadView,
    contract::TargetView,
> {
    match version {
        None => flow::StepView::Ask(
            app_search(pkg),
            DownloadView { pkg, version, arch, stage: StageView::Apps },
        ),
        Some(want) => flow::StepView::Ask(
            apk_search(build_query(pkg, want)),
            DownloadView { pkg, version, arch, stage: StageView::Builds(want) },
        ),
    }
}

/// How a download goes on with a reply.
pub open spec fn download_next(d: DownloadView, reply: flow::ReplyView) -> flow::StepView<
    DownloadView,
    contract::TargetView,
> {
    match reply {
        Err(e) => flow::StepView::Done(Err(e)),
        Ok(page) => match d.stage {
            StageView::Apps => match hits_read(page, d.pkg) {
                None => flow::StepView::Abort,
                Some(Err(e)) => flow::StepView::Done(Err(e)),
                Some(Ok(hits)) => flow::StepView::Ask(
                    flow::RequestView::Get(hits[0].release_url),
                    DownloadView { stage: StageView::App, ..d },
                ),
            },
            StageView::App => match newest_read(page) {
                None => flow::StepView::Abort,
                Some(Err(e)) => flow::StepView::Done(Err(e)),
                Some(Ok(hit)) => flow::StepView::Ask(
                    flow::RequestView::Get(hit.release_url),
                    DownloadView { stage: StageView::Version, ..d },
                ),
            },
            StageView::Builds(want) => match hits_read(page, build_query(d.pkg, want)) {
                None => flow::StepView::Abort,
                Some(Err(e)) => flow::StepView::Done(Err(e)),
                Some(Ok(hits)) => match build_page(hits, want, d.pkg) {
                    Err(e) => flow::StepView::Done(Err(e)),
                    Ok(url) => flow::StepView::Ask(
                        flow::RequestView::Get(url),
                        DownloadView { stage: StageView::Version, ..d },
                    ),
                },
            },
            StageView::Version => open_version(d, parse::page_variants(page), page),
            StageView::Page(version, arch) => press_button(d, version, arch, page),
            StageView::Starting(version, arch, button) => flow::StepView::Done(
                match parse::file_link(page) {
                    Err(e) => Err(e),
                    Ok(url) => Ok(target(version, arch, button, url)),
                },
            ),
        },
    }
}

impl Download {
    /// The same download, waiting for another page.
    fn at(self, stage: Stage) -> (r: Download)
        ensures
            r@ == (DownloadView { stage: stage@, ..self@ }),
    {
        Download { pkg: self.pkg, version: self.version, arch: self.arch, stage }
    }

    /// Goes on from a download page.
    fn press(self, version: Option<String>, arch: Arch, page: &str) -> (r: Step<
        Download,
        DownloadTarget,
    >)
        ensures
            flow::step(r) == press_button(self@, model::opt(version), arch, page@),
    {
        match parse::parse_download_button(page) {
            Ok(button) => {
                let url = button.to_string();
                Step::Ask(
                    Request::Get(url),
                    self.at(Stage::Starting(version, arch, button.into_string())),
                )
            },
            Err(e) => Step::Done(Err(e)),
        }
    }

    /// Goes on from a version page with the variants on it.
    pub fn open_page(self, variants: &[Variant], page: &str) -> (r: Step<Download, DownloadTarget>)
        ensures
            flow::step(r) == open_version(self@, model::views(variants@), page@),
    {
        match choose_variant(variants, self.arch) {
            Some(v) => {
                let version = Some(v.version.clone());
                Step::Ask(Request::Get(v.url.clone()), self.at(Stage::Page(version, v.arch)))
            },
            None => {
                let version = match &self.version {
                    Some(v) => Some(v.clone()),
                    None => None,
                };
                assert(model::opt(version) == model::opt(self.version));
                self.press(version, Arch::all(), page)
            },
        }
    }

    /// Goes on with the results of a search.
    fn after_search(self, want: Option<String>, page: &str) -> (r: Step<Download, DownloadTarget>)
        ensures
            flow::step(r) == download_next(
                (DownloadView {
                    stage: match model::opt(want) {
                        Some(w) => StageView::Builds(w),
                        None => StageView::Apps,
                    },
                    ..self@
                }),
                Ok(page@),
            ),
    {
        match want {
            None => match parse::try_parse_search(page, self.pkg.as_str()) {
                None => Step::Abort,
                Some(Err(e)) => Step::Done(Err(e)),
                Some(Ok(hits)) => {
                    assert(model::views(hits@)[0] == hits@[0]@);
                    let url = hits[0].release_url.to_string();
                    Step::Ask(Request::Get(url), self.at(Stage::App))
                },
            },
            Some(want) => {
                let q = plus3(self.pkg.as_str(), " ", want.as_str());
                match parse::try_parse_search(page, q.as_str()) {
                    None => Step::Abort,
                    Some(Err(e)) => Step::Done(Err(e)),
                    Some(Ok(hits)) => match find_build(&hits, want.as_str(), self.pkg.as_str()) {
                        Ok(url) => Step::Ask(Request::Get(url), self.at(Stage::Version)),
                        Err(e) => Step::Done(Err(e)),
                    },
                }
            },
        }
    }

    /// Goes on with the reply.
    pub fn advance(self, reply: Reply) -> (r: Step<Download, DownloadTarget>)
        ensures
            flow::step(r) == download_next(self@, flow::reply_view(reply)),
    {
        let page = match reply {
            Ok(page) => page,
            Err(e) => {
                return Step::Done(Err(e));
            },
        };
        let Download { pkg, version, arch, stage } = self;
        let d = Download { pkg, version, arch, stage: Stage::Version };
        match stage {
            Stage::Apps => d.after_search(None, page.as_str()),
            Stage::App => match parse::try_latest_version(page.as_str()) {
                None => Step::Abort,
                Some(Err(e)) => Step::Done(Err(e)),
                Some(Ok(hit)) => Step::Ask(
                    Request::Get(hit.release_url.into_string()),
                    d.at(Stage::Version),
                ),
            },
            Stage::Builds(want) => d.after_search(Some(want), page.as_str()),
            Stage::Version => {
                let variants = parse::parse_variants(page.as_str());
                d.open_page(&variants, page.as_str())
            },
            Stage::Page(version, arch) => d.press(version, arch, page.as_str()),
            Stage::Starting(version, arch, button) => match parse::parse_final_link(
                page.as_str(),
            ) {
                Err(e) => Step::Done(Err(e)),
                Ok(url) => {
                    let mut headers: Vec<(String, String)> = Vec::new();
                    field(&mut headers, "Referer", button.as_str());
                    assert(contract::header_texts(headers@) == seq![("Referer"@, button@)]);
                    let version = match version {
                        Some(v) => v,
                        None => "latest".to_owned(),
                    };
                    Step::Done(
                        Ok(
                            DownloadTarget {
                                url: url.into_string(),
                                version,
                                arch,
                                provider: ProviderId::Apkmirror,
                                headers,
                            },
                        ),
                    )
                },
            },
        }
    }
}

impl ApkMirror {
    /// Searches for an app.
    pub fn search(q: &str) -> (r: Step<Searching, Vec<AppResult>>)
        ensures
            flow::list_step(r) == search_start(q@),
    {
        Step::Ask(base_search("searchtype=app", q), Searching { query: q.to_owned() })
    }

    /// Lists the versions of an app.
    pub fn versions(pkg: &str) -> (r: Step<Listing, Vec<VersionInfo>>)
        ensures
            flow::list_step(r) == versions_start(pkg@),
    {
        Step::Ask(base_search("searchtype=app", pkg), Listing::Apps(pkg.to_owned()))
    }

    /// Resolves a download.
    pub fn download_url(pkg: &str, version: Option<&str>, arch: Arch) -> (r: Step<
        Download,
        DownloadTarget,
    >)
        ensures
            flow::step(r) == download_start(pkg@, model::opt_str(version), arch),
    {
        let d = Download {
            pkg: pkg.to_owned(),
            version: copied(version),
            arch,
            stage: Stage::Apps,
        };
        match version {
            None => Step::Ask(base_search("searchtype=app", pkg), d),
            Some(want) => {
                let q = plus3(pkg, " ", want);
                Step::Ask(
                    base_search("searchtype=apk", q.as_str()),
                    d.at(Stage::Builds(want.to_owned())),
                )
            },
        }
    }
}

/// The version page: of the newest release, or of the version asked for.
pub open spec fn version_page(world: flow::World, pkg: Seq<char>, version: Option<Seq<char>>) -> Option<
    Result<Seq<char>, contract::ErrorView>,
> {
    match version {
        None => match world(app_search(pkg)) {
            Err(e) => Some(Err(e)),
            Ok(page) => match hits_read(page, pkg) {
                None => None,
                Some(Err(e)) => Some(Err(e)),
                Some(Ok(hits)) => match world(flow::RequestView::Get(hits[0].release_url)) {
                    Err(e) => Some(Err(e)),
                    Ok(app) => match newest_read(app) {
                        None => None,
                        Some(Err(e)) => Some(Err(e)),
                        Some(Ok(hit)) => Some(Ok(hit.release_url)),
                    },
                },
            },
        },
        Some(want) => match world(apk_search(build_query(pkg, want))) {
            Err(e) => Some(Err(e)),
            Ok(page) => match hits_read(page, build_query(pkg, want)) {
                None => None,
                Some(Err(e)) => Some(Err(e)),
                Some(Ok(hits)) => Some(build_page(hits, want, pkg)),
            },
        },
    }
}

/// The target behind a download page.
pub open spec fn page_target(
    world: flow::World,
    version: Option<Seq<char>>,
    arch: Arch,
    page: Seq<char>,
) -> Result<contract::TargetView, contract::ErrorView> {
    match parse::button_link(page) {
        Err(e) => Err(e),
        Ok(button) => match world(flow::RequestView::Get(button)) {
            Err(e) => Err(e),
            Ok(starting) => match parse::file_link(starting) {
                Err(e) => Err(e),
                Ok(url) => Ok(target(version, arch, button, url)),
            },
        },
    }
}

/// The target behind a version page.
pub open spec fn version_target(
    world: flow::World,
    version: Option<Seq<char>>,
    arch: Arch,
    page: Seq<char>,
) -> Result<contract::TargetView, contract::ErrorView> {
    let vs = parse::page_variants(page);
    match scrape::choice(vs, arch) {
        None => page_target(world, version, contract::every_abi(), page),
        Some(i) => match world(flow::RequestView::Get(vs[i].url)) {
            Err(e) => Err(e),
            Ok(html) => page_target(world, Some(vs[i].version), vs[i].arch, html),
        },
    }
}

/// A download as a whole: what it comes to at a site that replies as `world`
/// does. `None` where a page lacks the address of a link.
pub open spec fn resolved(
    world: flow::World,
    pkg: Seq<char>,
    version: Option<Seq<char>>,
    arch: Arch,
) -> Option<Result<contract::TargetView, contract::ErrorView>> {
    match version_page(world, pkg, version) {
        None => None,
        Some(Err(e)) => Some(Err(e)),
        Some(Ok(url)) => match world(flow::RequestView::Get(url)) {
            Err(e) => Some(Err(e)),
            Ok(page) => Some(version_target(world, version, arch, page)),
        },
    }
}

/// A download ends after at most five requests, with what [`resolved`] says.
pub proof fn lemma_download_resolves(
    world: flow::World,
    pkg: Seq<char>,
    version: Option<Seq<char>>,
    arch: Arch,
)
    ensures
        flow::run(
            world,
            |d: DownloadView, reply: flow::ReplyView| download_next(d, reply),
            download_start(pkg, version, arch),
            5,
        ) == match resolved(world, pkg, version, arch) {
            Some(r) => flow::StepView::<DownloadView, contract::TargetView>::Done(r),
            None => flow::StepView::<DownloadView, contract::TargetView>::Abort,
        },
{
    reveal_with_fuel(flow::run, 6);
}

/// A target names the page that the site wants the download to come from.
pub proof fn lemma_target_referer(
    world: flow::World,
    pkg: Seq<char>,
    version: Option<Seq<char>>,
    arch: Arch,
)
    ensures
        resolved(world, pkg, version, arch) matches Some(Ok(t)) ==> {
            &&& t.provider == ProviderId::Apkmirror
            &&& t.headers.len() == 1
            &&& t.headers[0].0 == "Referer"@
            &&& world(flow::RequestView::Get(t.headers[0].1)) matches Ok(starting)
                && parse::file_link(starting) == Ok::<Seq<char>, contract::ErrorView>(t.url)
        },
{
}

} // verus!
