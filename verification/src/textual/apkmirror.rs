//! APKMirror. The site has no index by package id, so everything starts with its
//! own search for the id and goes on from the best hit: list of versions, table
//! of variants, download page, the page that starts the download.

use crate::common::contract as common;
use crate::common::flow;
use crate::common::flow::{field, Reply, Request, Step};
use crate::html;
use crate::model;
use crate::model::Class;
use crate::providers::apkmirror::parse as pages;
use crate::providers::scrape;
use crate::providers::scrape::{find_pinned, version_token};
use crate::strings::{contains, copied, plus3, plus4, trim_by, trim_start_str};
use crate::textual::contract;
use crate::textual::contract::sanitize_filename;
use crate::textual::named;
use crate::textual::named::{AppResult, DownloadTarget, ProviderError, VersionInfo};
use crate::textual::urls;
use crate::textual::urls::spaced;
use vstd::prelude::*;

pub mod parse;

verus! {

/// The name of the provider.
pub const NAME: &'static str = "apkmirror";

/// The site.
pub struct ApkMirror;

/// The page of a search.
pub open spec fn search_page(q: Seq<char>) -> Seq<char> {
    parse::BASE_URL@ + "/?post_type=app_release&searchtype=apk&s="@ + urls::plussed(q)
}

/// The page of a search.
fn search_url(query: &str) -> (r: String)
    ensures
        r@ == search_page(query@),
{
    let term = spaced(query);
    plus3(parse::BASE_URL, "/?post_type=app_release&searchtype=apk&s=", term.as_str())
}

/// Whether a package id names a channel before release.
pub open spec fn wants_prerelease(pkg: Seq<char>) -> bool {
    model::holds(pkg, "beta"@) || model::holds(pkg, "alpha"@) || model::holds(pkg, "dev"@)
        || model::holds(pkg, "canary"@)
}

/// Whether a release belongs to a channel before release.
pub open spec fn is_prerelease(url: Seq<char>) -> bool {
    model::holds(url, "-beta"@) || model::holds(url, "-alpha"@) || model::holds(url, "-dev"@)
        || model::holds(url, "-canary"@)
}

/// The first hit that is no prerelease, unless one is wanted.
pub open spec fn first_release(hits: Seq<pages::HitView>, wanted: bool) -> Option<Seq<char>>
    decreases hits.len(),
{
    if hits.len() == 0 {
        None
    } else if wanted || !is_prerelease(hits[0].release_url) {
        Some(hits[0].release_url)
    } else {
        first_release(hits.skip(1), wanted)
    }
}

/// The release to go on from: the first that is no prerelease, unless the package
/// asks for one; else the first.
pub open spec fn top_release(hits: Seq<pages::HitView>, pkg: Seq<char>) -> Result<
    Seq<char>,
    named::ErrorView,
> {
    match first_release(hits, wants_prerelease(pkg)) {
        Some(url) => Ok(url),
        None => if hits.len() > 0 {
            Ok(hits[0].release_url)
        } else {
            Err(named::ErrorView::NotFound)
        },
    }
}

/// Whether a release belongs to a channel before release.
fn prerelease(url: &str) -> (r: bool)
    ensures
        r == is_prerelease(url@),
{
    contains(url, "-beta") || contains(url, "-alpha") || contains(url, "-dev") || contains(
        url,
        "-canary",
    )
}

/// The release to go on from.
pub fn top_release_url(hits: &[parse::SearchHit], pkg: &str) -> (r: Result<String, ProviderError>)
    ensures
        common::outcome(r) == top_release(model::views(hits@), pkg@),
{
    let wanted = contains(pkg, "beta") || contains(pkg, "alpha") || contains(pkg, "dev")
        || contains(pkg, "canary");
    let ghost hv = model::views(hits@);
    let mut i: usize = 0;
    assert(hv.skip(0) == hv);
    while i < hits.len()
        invariant
            i <= hits@.len(),
            hv == model::views(hits@),
            wanted == wants_prerelease(pkg@),
            first_release(hv, wanted) == first_release(hv.skip(i as int), wanted),
        decreases hits@.len() - i,
    {
        assert(hv.skip(i as int)[0] == hits@[i as int]@);
        assert(hv.skip(i as int).skip(1) == hv.skip(i + 1));
        if wanted || !prerelease(hits[i].release_url.as_str()) {
            return Ok(hits[i].release_url.clone());
        }
        i += 1;
    }
    if hits.len() > 0 {
        assert(hv[0] == hits@[0]@);
        Ok(hits[0].release_url.clone())
    } else {
        Err(ProviderError::NotFound)
    }
}

/// A search is waiting for its page.
pub struct Searching;

impl View for Searching {
    type V = Searching;

    open spec fn view(&self) -> Searching {
        *self
    }
}

/// The `{org}/{repo}` of an app page.
pub open spec fn app_ident(page: Seq<char>) -> Seq<char> {
    model::without_prefix(
        model::trimmed(model::without_prefix(page, parse::BASE_URL@), Class::One('/')),
        "apk/"@,
    )
}

/// The apps that hits are releases of. The pages do not carry the package id.
pub open spec fn results(hits: Seq<pages::HitView>) -> Seq<named::AppView>
    decreases hits.len(),
{
    if hits.len() == 0 {
        Seq::<named::AppView>::empty()
    } else {
        let front = results(hits.drop_last());
        match parse::app_page_of(hits.last().release_url) {
            Some(page) => front.push(
                named::AppView {
                    package: app_ident(page),
                    title: hits.last().title,
                    developer: None,
                    provider: NAME@,
                },
            ),
            None => front,
        }
    }
}

/// The apps that hits are releases of.
pub fn app_results(hits: &[parse::SearchHit]) -> (r: Vec<AppResult>)
    ensures
        model::views(r@) == results(model::views(hits@)),
{
    let ghost hv = model::views(hits@);
    let mut out: Vec<AppResult> = Vec::new();
    let mut i: usize = 0;
    assert(model::views(out@) == results(hv.take(0)));
    while i < hits.len()
        invariant
            i <= hits@.len(),
            hv == model::views(hits@),
            model::views(out@) == results(hv.take(i as int)),
        decreases hits@.len() - i,
    {
        assert(hv.take(i + 1).drop_last() == hv.take(i as int));
        assert(hv.take(i + 1).last() == hits@[i as int]@);
        if let Some(page) = parse::app_page_from_release(hits[i].release_url.as_str()) {
            let path = trim_start_str(page.as_str(), parse::BASE_URL);
            let path = trim_by(path.as_str(), Class::One('/'));
            let a = AppResult {
                package: trim_start_str(path.as_str(), "apk/"),
                title: hits[i].title.clone(),
                developer: None,
                provider: NAME.to_owned(),
            };
            proof {
                model::lemma_views_push(out@, a);
            }
            out.push(a);
        }
        i += 1;
    }
    assert(hv.take(hv.len() as int) == hv);
    out
}

/// What a search asks first.
pub open spec fn search_start(q: Seq<char>) -> flow::StepView<
    Searching,
    Seq<named::AppView>,
    named::ErrorView,
> {
    flow::StepView::Ask(flow::RequestView::Get(search_page(q)), Searching)
}

/// What a reply to a search comes to.
pub open spec fn search_next(state: Searching, reply: flow::ReplyView<named::ErrorView>) -> flow::StepView<
    Searching,
    Seq<named::AppView>,
    named::ErrorView,
> {
    flow::StepView::Done(
        match reply {
            Ok(page) => match parse::searched(pages::search_rows(page)) {
                Ok(hits) => Ok(results(hits)),
                Err(e) => Err(e),
            },
            Err(e) => Err(e),
        },
    )
}

impl Searching {
    /// Goes on with the reply.
    pub fn advance(self, reply: Reply<ProviderError>) -> (r: Step<
        Searching,
        Vec<AppResult>,
        ProviderError,
    >)
        ensures
            flow::list_step(r) == search_next(self@, flow::reply_view(reply)),
    {
        let page = match reply {
            Ok(page) => page,
            Err(e) => {
                return Step::Done(Err(e));
            },
        };
        match parse::parse_search(page.as_str()) {
            Ok(hits) => Step::Done(Ok(app_results(&hits))),
            Err(e) => Step::Done(Err(e)),
        }
    }
}

/// The release to go on from, on a results page.
pub open spec fn release_read(page: Seq<char>, pkg: Seq<char>) -> Result<
    Seq<char>,
    named::ErrorView,
> {
    match parse::searched(pages::search_rows(page)) {
        Ok(hits) => top_release(hits, pkg),
        Err(e) => Err(e),
    }
}

/// The release to go on from, on a results page.
fn read_release(page: &str, pkg: &str) -> (r: Result<String, ProviderError>)
    ensures
        common::outcome(r) == release_read(page@, pkg@),
{
    match parse::parse_search(page) {
        Ok(hits) => top_release_url(&hits, pkg),
        Err(e) => Err(e),
    }
}

/// The page of the app that a release belongs to.
pub open spec fn app_of(release: Seq<char>) -> Result<Seq<char>, named::ErrorView> {
    match parse::app_page_of(release) {
        Some(page) => Ok(page),
        None => Err(named::ErrorView::ParseError("bad release url"@)),
    }
}

/// The page of the app on which the search for a package leads.
pub open spec fn app_read(page: Seq<char>, pkg: Seq<char>) -> Result<Seq<char>, named::ErrorView> {
    match release_read(page, pkg) {
        Ok(release) => app_of(release),
        Err(e) => Err(e),
    }
}

/// The page of the app on which the search for a package leads.
fn read_app(page: &str, pkg: &str) -> (r: Result<String, ProviderError>)
    ensures
        common::outcome(r) == app_read(page@, pkg@),
{
    match read_release(page, pkg) {
        Ok(release) => match parse::app_page_from_release(release.as_str()) {
            Some(app) => Ok(app),
            None => Err(ProviderError::ParseError("bad release url".to_owned())),
        },
        Err(e) => Err(e),
    }
}

/// The versions of rows.
pub open spec fn infos(rows: Seq<parse::VersionRowView>) -> Seq<named::VersionView> {
    Seq::new(
        rows.len(),
        |i: int|
            named::VersionView {
                version: scrape::version_of(rows[i].title),
                version_code: None,
                uploaded: None,
                provider: NAME@,
            },
    )
}

/// The versions of rows.
fn version_infos(rows: Vec<parse::VersionRow>) -> (r: Vec<VersionInfo>)
    ensures
        model::views(r@) == infos(model::views(rows@)),
{
    let ghost all = infos(model::views(rows@));
    let mut out: Vec<VersionInfo> = Vec::new();
    let mut i: usize = 0;
    assert(model::views(out@) == all.take(0));
    while i < rows.len()
        invariant
            i <= rows@.len(),
            all == infos(model::views(rows@)),
            model::views(out@) == all.take(i as int),
        decreases rows@.len() - i,
    {
        let v = VersionInfo {
            version: version_token(rows[i].title.as_str()),
            version_code: None,
            uploaded: None,
            provider: NAME.to_owned(),
        };
        assert(v@ == all[i as int]);
        proof {
            model::lemma_views_push(out@, v);
        }
        out.push(v);
        assert(model::views(out@) == all.take(i + 1));
        i += 1;
    }
    assert(all.take(all.len() as int) == all);
    out
}

/// The list of versions on a page.
pub open spec fn rows_read(page: Seq<char>) -> Result<Seq<parse::VersionRowView>, named::ErrorView> {
    parse::versions_found(parse::version_items(html::document(page)))
}

/// A listing of versions is waiting for a page.
pub enum Listing {
    /// The results of a search for a package.
    Hits(String),
    /// The app page.
    App,
}

/// What a [`Listing`] says.
pub enum ListingView {
    Hits(Seq<char>),
    App,
}

impl View for Listing {
    type V = ListingView;

    open spec fn view(&self) -> ListingView {
        match *self {
            Listing::Hits(pkg) => ListingView::Hits(pkg@),
            Listing::App => ListingView::App,
        }
    }
}

/// What a listing asks first.
pub open spec fn versions_start(pkg: Seq<char>) -> flow::StepView<
    ListingView,
    Seq<named::VersionView>,
    named::ErrorView,
> {
    flow::StepView::Ask(flow::RequestView::Get(search_page(pkg)), ListingView::Hits(pkg))
}

/// How a listing goes on with a reply.
pub open spec fn versions_next(
    state: ListingView,
    reply: flow::ReplyView<named::ErrorView>,
) -> flow::StepView<ListingView, Seq<named::VersionView>, named::ErrorView> {
    match reply {
        Err(e) => flow::StepView::Done(Err(e)),
        Ok(page) => match state {
            ListingView::Hits(pkg) => match app_read(page, pkg) {
                Ok(app) => flow::StepView::Ask(flow::RequestView::Get(app), ListingView::App),
                Err(e) => flow::StepView::Done(Err(e)),
            },
            ListingView::App => flow::StepView::Done(
                match rows_read(page) {
                    Ok(rows) => Ok(infos(rows)),
                    Err(e) => Err(e),
                },
            ),
        },
    }
}

impl Listing {
    /// Goes on with the reply.
    pub fn advance(self, reply: Reply<ProviderError>) -> (r: Step<
        Listing,
        Vec<VersionInfo>,
        ProviderError,
    >)
        ensures
            flow::list_step(r) == versions_next(self@, flow::reply_view(reply)),
    {
        let page = match reply {
            Ok(page) => page,
            Err(e) => {
                return Step::Done(Err(e));
            },
        };
        match self {
            Listing::Hits(pkg) => match read_app(page.as_str(), pkg.as_str()) {
                Ok(app) => Step::Ask(Request::Get(app), Listing::App),
                Err(e) => Step::Done(Err(e)),
            },
            Listing::App => match parse::parse_versions(page.as_str()) {
                Ok(rows) => Step::Done(Ok(version_infos(rows))),
                Err(e) => Step::Done(Err(e)),
            },
        }
    }
}

/// Which page a download is waiting for.
pub enum Stage {
    /// The results of a search for the package.
    Hits,
    /// The app page, for the version asked for.
    App(String),
    /// The version page.
    Version,
    /// The download page of a build of a version, if that is known.
    Page(Option<String>),
    /// The page that starts the download, behind a button.
    Starting(Option<String>, String),
}

/// What a [`Stage`] says.
pub enum StageView {
    Hits,
    App(Seq<char>),
    Version,
    Page(Option<Seq<char>>),
    Starting(Option<Seq<char>>, Seq<char>),
}

impl View for Stage {
    type V = StageView;

    open spec fn view(&self) -> StageView {
        match *self {
            Stage::Hits => StageView::Hits,
            Stage::App(want) => StageView::App(want@),
            Stage::Version => StageView::Version,
            Stage::Page(version) => StageView::Page(model::opt(version)),
            Stage::Starting(version, button) => StageView::Starting(model::opt(version), button@),
        }
    }
}

/// A download on its way: what was asked for, and the page it is waiting for.
pub struct Download {
    pub pkg: String,
    pub version: Option<String>,
    pub arch: String,
    pub stage: Stage,
}

/// What a [`Download`] says.
pub struct DownloadView {
    pub pkg: Seq<char>,
    pub version: Option<Seq<char>>,
    pub arch: Seq<char>,
    pub stage: StageView,
}

impl View for Download {
    type V = DownloadView;

    open spec fn view(&self) -> DownloadView {
        DownloadView {
            pkg: self.pkg@,
            version: model::opt(self.version),
            arch: self.arch@,
            stage: self.stage@,
        }
    }
}

/// The versions of rows.
pub open spec fn versions_in(rows: Seq<parse::VersionRowView>) -> Seq<Seq<char>> {
    Seq::new(rows.len(), |i: int| scrape::version_of(rows[i].title))
}

/// The version to take: the one asked for, else the first below it.
pub open spec fn build_at(rows: Seq<parse::VersionRowView>, want: Seq<char>) -> Option<
    parse::VersionRowView,
> {
    match scrape::pinned(versions_in(rows), want) {
        Some(i) => Some(rows[i]),
        None => None,
    }
}

/// The version to take: the one asked for, else the first below it.
fn find_row(rows: &[parse::VersionRow], want: &str) -> (r: Option<usize>)
    ensures
        r matches Some(i) ==> i < rows@.len(),
        (match r {
            Some(i) => Some(rows@[i as int]@),
            None => None,
        }) == build_at(model::views(rows@), want@),
{
    let ghost rv = model::views(rows@);
    let ghost all = versions_in(rv);
    let mut versions: Vec<String> = Vec::new();
    let mut i: usize = 0;
    assert(model::texts(versions@) == all.take(0));
    while i < rows.len()
        invariant
            i <= rows@.len(),
            rv == model::views(rows@),
            all == versions_in(rv),
            model::texts(versions@) == all.take(i as int),
        decreases rows@.len() - i,
    {
        assert(rv[i as int] == rows@[i as int]@);
        let v = version_token(rows[i].title.as_str());
        let ghost before = versions@;
        versions.push(v);
        assert(model::texts(versions@) == model::texts(before).push(v@));
        assert(model::texts(versions@) == all.take(i + 1));
        i += 1;
    }
    assert(all.take(all.len() as int) == all);
    assert(model::texts(versions@).len() == versions@.len());
    let found = find_pinned(&versions, want);
    assert(found matches Some(k) ==> rv[k as int] == rows@[k as int]@);
    found
}

/// A row of the version asked for wins wherever it stands, and the first of them.
pub proof fn lemma_exact_wins(rows: Seq<parse::VersionRowView>, want: Seq<char>, n: int)
    requires
        0 <= n < rows.len(),
        versions_in(rows)[n] == want,
    ensures
        exists|i: int|
            0 <= i <= n && build_at(rows, want) == Some(#[trigger] rows[i]) && versions_in(rows)[i]
                == want,
{
    let vs = versions_in(rows);
    scrape::lemma_pinned(vs, want);
    assert(vs.contains(vs[n]));
    let i = scrape::pinned(vs, want)->0;
    assert(build_at(rows, want) == Some(rows[i]));
}

/// The page of the version asked for.
pub open spec fn build_page(rows: Seq<parse::VersionRowView>, want: Seq<char>) -> Result<
    Seq<char>,
    named::ErrorView,
> {
    match build_at(rows, want) {
        Some(row) => Ok(row.version_page_url),
        None => Err(named::ErrorView::NotFound),
    }
}

/// The page of the version asked for.
pub fn find_build(rows: &[parse::VersionRow], want: &str) -> (r: Result<String, ProviderError>)
    ensures
        common::outcome(r) == build_page(model::views(rows@), want@),
{
    match find_row(rows, want) {
        Some(i) => Ok(rows[i].version_page_url.clone()),
        None => Err(ProviderError::NotFound),
    }
}

/// Goes on from a download page to the page that starts the download.
pub open spec fn press_button(d: DownloadView, version: Option<Seq<char>>, page: Seq<char>) -> flow::StepView<
    DownloadView,
    named::TargetView,
    named::ErrorView,
> {
    match parse::button_link(page) {
        Err(e) => flow::StepView::Done(Err(e)),
        Ok(button) => flow::StepView::Ask(
            flow::RequestView::Get(button),
            DownloadView { stage: StageView::Starting(version, button), ..d },
        ),
    }
}

/// Goes on from a version page. Without a table of variants it is the download
/// page of the only build.
pub open spec fn open_version(
    d: DownloadView,
    vs: Seq<parse::VariantView>,
    page: Seq<char>,
) -> flow::StepView<DownloadView, named::TargetView, named::ErrorView> {
    match parse::choice(vs, d.arch) {
        None => press_button(d, d.version, page),
        Some(i) => flow::StepView::Ask(
            flow::RequestView::Get(vs[i].download_page_url),
            DownloadView { stage: StageView::Page(Some(vs[i].version)), ..d },
        ),
    }
}

/// The target at the end. The site checks which page a download comes from.
pub open spec fn target(
    pkg: Seq<char>,
    version: Option<Seq<char>>,
    button: Seq<char>,
    url: Seq<char>,
) -> named::TargetView {
    let label = match version {
        Some(v) => v,
        None => "latest"@,
    };
    named::TargetView {
        url,
        filename: contract::file_safe(pkg + "_"@ + label + ".apk"@),
        version: Some(label),
        provider: NAME@,
        headers: seq![("Referer"@, button)],
    }
}

/// What a download asks first.
pub open spec fn download_start(
    pkg: Seq<char>,
    version: Option<Seq<char>>,
    arch: Seq<char>,
) -> flow::StepView<DownloadView, named::TargetView, named::ErrorView> {
    flow::StepView::Ask(
        flow::RequestView::Get(search_page(pkg)),
        DownloadView { pkg, version, arch, stage: StageView::Hits },
    )
}

/// How a download goes on with a reply.
pub open spec fn download_next(d: DownloadView, reply: flow::ReplyView<named::ErrorView>) -> flow::StepView<
    DownloadView,
    named::TargetView,
    named::ErrorView,
> {
    match reply {
        Err(e) => flow::StepView::Done(Err(e)),
        Ok(page) => match d.stage {
            StageView::Hits => match d.version {
                None => match release_read(page, d.pkg) {
                    Err(e) => flow::StepView::Done(Err(e)),
                    Ok(url) => flow::StepView::Ask(
                        flow::RequestView::Get(url),
                        DownloadView { stage: StageView::Version, ..d },
                    ),
                },
                Some(want) => match app_read(page, d.pkg) {
                    Err(e) => flow::StepView::Done(Err(e)),
                    Ok(app) => flow::StepView::Ask(
                        flow::RequestView::Get(app),
                        DownloadView { stage: StageView::App(want), ..d },
                    ),
                },
            },
            StageView::App(want) => match rows_read(page) {
                Err(e) => flow::StepView::Done(Err(e)),
                Ok(rows) => match build_page(rows, want) {
                    Err(e) => flow::StepView::Done(Err(e)),
                    Ok(url) => flow::StepView::Ask(
                        flow::RequestView::Get(url),
                        DownloadView { stage: StageView::Version, ..d },
                    ),
                },
            },
            StageView::Version => open_version(d, parse::page_variants(page), page),
            StageView::Page(version) => press_button(d, version, page),
            StageView::Starting(version, button) => flow::StepView::Done(
                match parse::file_link(page) {
                    Err(e) => Err(e),
                    Ok(url) => Ok(target(d.pkg, version, button, url)),
                },
            ),
        },
    }
}

impl Download {
    /// The same download, waiting for another page.
    fn at(self, stage: Stage) -> (r: Download)
        ensures
            r@ == (DownloadView { stage: stage@, ..self@ }),
    {
        Download { pkg: self.pkg, version: self.version, arch: self.arch, stage }
    }

    /// Goes on with the results of the search.
    fn after_search(self, page: &str) -> (r: Step<Download, DownloadTarget, ProviderError>)
        ensures
            flow::step(r) == download_next(
                (DownloadView { stage: StageView::Hits, ..self@ }),
                Ok(page@),
            ),
    {
        match &self.version {
            None => match read_release(page, self.pkg.as_str()) {
                Ok(url) => Step::Ask(Request::Get(url), self.at(Stage::Version)),
                Err(e) => Step::Done(Err(e)),
            },
            Some(want) => {
                let want = want.clone();
                match read_app(page, self.pkg.as_str()) {
                    Ok(app) => Step::Ask(Request::Get(app), self.at(Stage::App(want))),
                    Err(e) => Step::Done(Err(e)),
                }
            },
        }
    }

    /// Goes on from a download page.
    fn press(self, version: Option<String>, page: &str) -> (r: Step<
        Download,
        DownloadTarget,
        ProviderError,
    >)
        ensures
            flow::step(r) == press_button(self@, model::opt(version), page@),
    {
        match parse::parse_download_button(page) {
            Ok(button) => Step::Ask(
                Request::Get(button.clone()),
                self.at(Stage::Starting(version, button)),
            ),
            Err(e) => Step::Done(Err(e)),
        }
    }

    /// Goes on from a version page with the variants on it.
    pub fn open_page(self, variants: &[parse::Variant], page: &str) -> (r: Step<
        Download,
        DownloadTarget,
        ProviderError,
    >)
        ensures
            flow::step(r) == open_version(self@, model::views(variants@), page@),
    {
        match parse::choose_variant(variants, self.arch.as_str()) {
            Some(v) => {
                let version = Some(v.version.clone());
                Step::Ask(
                    Request::Get(v.download_page_url.clone()),
                    self.at(Stage::Page(version)),
                )
            },
            None => {
                let version = match &self.version {
                    Some(v) => Some(v.clone()),
                    None => None,
                };
                assert(model::opt(version) == model::opt(self.version));
                self.press(version, page)
            },
        }
    }

    /// Ends with the page that starts the download.
    fn finish(self, version: Option<String>, button: String, page: &str) -> (r: Result<
        DownloadTarget,
        ProviderError,
    >)
        ensures
            common::outcome(r) == (match parse::file_link(page@) {
                Err(e) => Err(e),
                Ok(url) => Ok(target(self@.pkg, model::opt(version), button@, url)),
            }),
    {
        match parse::parse_final_link(page) {
            Err(e) => Err(e),
            Ok(url) => {
                let label = match version {
                    Some(v) => v,
                    None => "latest".to_owned(),
                };
                let name = plus4(self.pkg.as_str(), "_", label.as_str(), ".apk");
                let mut headers: Vec<(String, String)> = Vec::new();
                field(&mut headers, "Referer", button.as_str());
                assert(common::header_texts(headers@) == seq![("Referer"@, button@)]);
                Ok(
                    DownloadTarget {
                        url,
                        filename: sanitize_filename(name.as_str()),
                        version: Some(label),
                        provider: NAME.to_owned(),
                        headers,
                    },
                )
            },
        }
    }

    /// Goes on with the reply.
    pub fn advance(self, reply: Reply<ProviderError>) -> (r: Step<
        Download,
        DownloadTarget,
        ProviderError,
    >)
        ensures
            flow::step(r) == download_next(self@, flow::reply_view(reply)),
    {
        let page = match reply {
            Ok(page) => page,
            Err(e) => {
                return Step::Done(Err(e));
            },
        };
        let Download { pkg, version, arch, stage } = self;
        let d = Download { pkg, version, arch, stage: Stage::Version };
        match stage {
            Stage::Hits => d.after_search(page.as_str()),
            Stage::App(want) => {
                let rows = match parse::parse_versions(page.as_str()) {
                    Ok(rows) => rows,
                    Err(e) => {
                        return Step::Done(Err(e));
                    },
                };
                match find_build(&rows, want.as_str()) {
                    Ok(url) => Step::Ask(Request::Get(url), d.at(Stage::Version)),
                    Err(e) => Step::Done(Err(e)),
                }
            },
            Stage::Version => {
                let variants = parse::parse_variants(page.as_str());
                d.open_page(&variants, page.as_str())
            },
            Stage::Page(version) => d.press(version, page.as_str()),
            Stage::Starting(version, button) => Step::Done(
                d.finish(version, button, page.as_str()),
            ),
        }
    }
}

impl ApkMirror {
    /// Searches for an app.
    pub fn search(query: &str) -> (r: Step<Searching, Vec<AppResult>, ProviderError>)
        ensures
            flow::list_step(r) == search_start(query@),
    {
        Step::Ask(Request::Get(search_url(query)), Searching)
    }

    /// Lists the versions of an app.
    pub fn versions(pkg: &str) -> (r: Step<Listing, Vec<VersionInfo>, ProviderError>)
        ensures
            flow::list_step(r) == versions_start(pkg@),
    {
        Step::Ask(Request::Get(search_url(pkg)), Listing::Hits(pkg.to_owned()))
    }

    /// Resolves a download for an ABI.
    pub fn download_url(pkg: &str, version: Option<&str>, arch: &str) -> (r: Step<
        Download,
        DownloadTarget,
        ProviderError,
    >)
        ensures
            flow::step(r) == download_start(pkg@, model::opt_str(version), arch@),
    {
        Step::Ask(
            Request::Get(search_url(pkg)),
            Download {
                pkg: pkg.to_owned(),
                version: copied(version),
                arch: arch.to_owned(),
                stage: Stage::Hits,
            },
        )
    }
}

/// A download ends after at most five requests.
pub proof fn lemma_download_ends(
    world: flow::World<named::ErrorView>,
    pkg: Seq<char>,
    version: Option<Seq<char>>,
    arch: Seq<char>,
)
    ensures
        flow::run(
            world,
            |d: DownloadView, reply: flow::ReplyView<named::ErrorView>| download_next(d, reply),
            download_start(pkg, version, arch),
            5,
        ) is Done,
{
    reveal_with_fuel(flow::run, 6);
}

/// A prerelease is gone on from only where the package asks for one, or where
/// there is nothing else.
pub proof fn lemma_no_prerelease(hits: Seq<pages::HitView>, pkg: Seq<char>)
    ensures
        top_release(hits, pkg) matches Ok(url) && is_prerelease(url) ==> wants_prerelease(pkg)
            || forall|i: int| 0 <= i < hits.len() ==> is_prerelease((#[trigger] hits[i]).release_url),
{
    lemma_first_release(hits);
}

/// Without a prerelease in mind the first release that is none is found.
proof fn lemma_first_release(hits: Seq<pages::HitView>)
    ensures
        match first_release(hits, false) {
            Some(url) => !is_prerelease(url),
            None => forall|i: int|
                0 <= i < hits.len() ==> is_prerelease((#[trigger] hits[i]).release_url),
        },
    decreases hits.len(),
{
    if hits.len() > 0 && is_prerelease(hits[0].release_url) {
        lemma_first_release(hits.skip(1));
        assert forall|i: int|
            0 <= i < hits.len() && first_release(hits, false) is None implies is_prerelease(
            (#[trigger] hits[i]).release_url,
        ) by {
            if i > 0 {
                assert(hits.skip(1)[i - 1] == hits[i]);
            }
        }
    }
}

} // verus!
