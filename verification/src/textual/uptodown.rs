//! Uptodown. Searching and listing versions work; the download stands behind a
//! captcha, so it is reported as blocked and someone else is asked.
//!
//! An app has a subdomain made of its name, and there is no index by package id.
//! So a package is resolved by searching for fragments of its id and looking at
//! the pages of the apps that are found.

use crate::common::contract as common;
use crate::common::flow;
use crate::common::flow::{Reply, Request, Step};
use crate::html;
use crate::model;
use crate::model::Class;
use crate::outside;
use crate::strings::{listed, plus, plus3, plus4, same, split_by, trim_start_str};
use crate::textual::named;
use crate::textual::named::{AppResult, DownloadTarget, ProviderError, VersionInfo};
use crate::textual::urls;
use crate::textual::urls::spaced;
use vstd::prelude::*;

pub mod parse;

verus! {

/// The name of the provider.
pub const NAME: &'static str = "uptodown";

/// How many of the apps that a search finds are looked at.
pub const MAX_CANDIDATES: usize = 6;

/// The site.
pub struct Uptodown;

/// The page of a search.
pub open spec fn search_page(q: Seq<char>) -> Seq<char> {
    parse::SEARCH_URL@ + "?query="@ + urls::plussed(q)
}

/// The page of a search.
fn search_url(query: &str) -> (r: String)
    ensures
        r@ == search_page(query@),
{
    let term = spaced(query);
    plus3(parse::SEARCH_URL, "?query=", term.as_str())
}

/// An app of the site: where it is, and the number of its versions.
pub struct App {
    pub base: String,
    pub code: String,
}

/// What an [`App`] says.
pub struct AppView {
    pub base: Seq<char>,
    pub code: Seq<char>,
}

impl View for App {
    type V = AppView;

    open spec fn view(&self) -> AppView {
        AppView { base: self.base@, code: self.code@ }
    }
}

/// What a resolution is waiting for.
pub enum Wait {
    /// The results of a search.
    Hits,
    /// The page of an app.
    Page(App),
}

/// What a [`Wait`] says.
pub enum WaitView {
    Hits,
    Page(AppView),
}

impl View for Wait {
    type V = WaitView;

    open spec fn view(&self) -> WaitView {
        match *self {
            Wait::Hits => WaitView::Hits,
            Wait::Page(a) => WaitView::Page(a@),
        }
    }
}

/// A package that is being resolved: the terms and the apps that are left to look
/// at, where it has looked, and what it is waiting for.
pub struct Resolving {
    pub pkg: String,
    pub terms: Vec<String>,
    pub apps: Vec<App>,
    pub checked: Vec<String>,
    pub wait: Wait,
}

/// What a [`Resolving`] says.
pub struct ResolvingView {
    pub pkg: Seq<char>,
    pub terms: Seq<Seq<char>>,
    pub apps: Seq<AppView>,
    pub checked: Seq<Seq<char>>,
    pub wait: WaitView,
}

impl View for Resolving {
    type V = ResolvingView;

    open spec fn view(&self) -> ResolvingView {
        ResolvingView {
            pkg: self.pkg@,
            terms: model::texts(self.terms@),
            apps: model::views(self.apps@),
            checked: model::texts(self.checked@),
            wait: self.wait@,
        }
    }
}

/// The request for the page of an app.
pub open spec fn app_request(base: Seq<char>) -> flow::RequestView {
    flow::RequestView::Get(base + "/android"@)
}

/// Looks at the next app that has not been looked at, else searches for the next
/// term, else gives up.
pub open spec fn move_on(s: ResolvingView) -> flow::StepView<
    ResolvingView,
    AppView,
    named::ErrorView,
>
    decreases s.apps.len(),
{
    if s.apps.len() > 0 {
        let app = s.apps[0];
        let rest = ResolvingView { apps: s.apps.skip(1), ..s };
        if s.checked.contains(app.base) {
            move_on(rest)
        } else {
            flow::StepView::Ask(
                app_request(app.base),
                ResolvingView {
                    checked: s.checked.push(app.base),
                    wait: WaitView::Page(app),
                    ..rest
                },
            )
        }
    } else if s.terms.len() > 0 {
        flow::StepView::Ask(
            flow::RequestView::Get(search_page(s.terms[0])),
            ResolvingView { terms: s.terms.skip(1), wait: WaitView::Hits, ..s },
        )
    } else {
        flow::StepView::Done(Err(named::ErrorView::NotFound))
    }
}

/// The apps to look at: the first few of the hits.
pub open spec fn candidates(hits: Seq<parse::HitView>) -> Seq<AppView> {
    Seq::new(
        if hits.len() < MAX_CANDIDATES { hits.len() } else { MAX_CANDIDATES as nat },
        |i: int| AppView { base: hits[i].base, code: hits[i].code },
    )
}

/// Whether an app page is for a package.
pub open spec fn page_is_for(page: Seq<char>, pkg: Seq<char>) -> bool {
    parse::package_row(parse::table_rows(html::document(page))) == Some(pkg)
}

/// An app with the code on its page, or else with the one that the search had.
pub open spec fn confirmed(app: AppView, page: Seq<char>) -> AppView {
    AppView {
        base: app.base,
        code: match parse::page_code(html::document(page)) {
            Some(c) => c,
            None => app.code,
        },
    }
}

/// What a resolution asks first.
pub open spec fn resolve_start(pkg: Seq<char>) -> flow::StepView<
    ResolvingView,
    AppView,
    named::ErrorView,
> {
    move_on(
        ResolvingView {
            pkg,
            terms: parse::terms(pkg),
            apps: Seq::<AppView>::empty(),
            checked: Seq::<Seq<char>>::empty(),
            wait: WaitView::Hits,
        },
    )
}

/// How a resolution goes on with a reply. A search that finds nothing is passed
/// over.
pub open spec fn resolve_next(s: ResolvingView, reply: flow::ReplyView<named::ErrorView>) -> flow::StepView<
    ResolvingView,
    AppView,
    named::ErrorView,
> {
    match s.wait {
        WaitView::Hits => match reply {
            Err(named::ErrorView::NotFound) => move_on(s),
            Err(e) => flow::StepView::Done(Err(e)),
            Ok(page) => match parse::searched(parse::search_rows(html::document(page))) {
                Err(_) => move_on(s),
                Ok(hits) => move_on(ResolvingView { apps: candidates(hits), ..s }),
            },
        },
        WaitView::Page(app) => match reply {
            Err(e) => flow::StepView::Done(Err(e)),
            Ok(page) => if page_is_for(page, s.pkg) {
                flow::StepView::Done(Ok(confirmed(app, page)))
            } else {
                move_on(s)
            },
        },
    }
}

impl Resolving {
    /// Looks at the next app, else searches for the next term, else gives up.
    fn proceed(self) -> (r: Step<Resolving, App, ProviderError>)
        ensures
            flow::step(r) == move_on(self@),
        decreases self.apps@.len(),
    {
        let Resolving { pkg, mut terms, mut apps, mut checked, wait } = self;
        if apps.len() > 0 {
            let ghost all = model::views(apps@);
            let app = apps.remove(0);
            assert(model::views(apps@) == all.skip(1));
            assert(all[0] == app@);
            if listed(&checked, app.base.as_str()) {
                let next = Resolving { pkg, terms, apps, checked, wait };
                assert(next@ == (ResolvingView { apps: self@.apps.skip(1), ..self@ }));
                next.proceed()
            } else {
                let ghost before = checked@;
                checked.push(app.base.clone());
                assert(model::texts(checked@) == model::texts(before).push(app.base@));
                let url = plus(app.base.as_str(), "/android");
                Step::Ask(
                    Request::Get(url),
                    Resolving { pkg, terms, apps, checked, wait: Wait::Page(app) },
                )
            }
        } else if terms.len() > 0 {
            let ghost all = model::texts(terms@);
            let term = terms.remove(0);
            assert(model::texts(terms@) == all.skip(1));
            assert(all[0] == term@);
            Step::Ask(
                Request::Get(search_url(term.as_str())),
                Resolving { pkg, terms, apps, checked, wait: Wait::Hits },
            )
        } else {
            Step::Done(Err(ProviderError::NotFound))
        }
    }

    /// Goes on with the reply.
    pub fn advance(self, reply: Reply<ProviderError>) -> (r: Step<Resolving, App, ProviderError>)
        ensures
            flow::step(r) == resolve_next(self@, flow::reply_view(reply)),
    {
        match &self.wait {
            Wait::Hits => match reply {
                Err(ProviderError::NotFound) => self.proceed(),
                Err(e) => Step::Done(Err(e)),
                Ok(page) => match parse::parse_search(page.as_str()) {
                    Err(_) => self.proceed(),
                    Ok(hits) => {
                        let apps = take_candidates(&hits);
                        let next = Resolving {
                            pkg: self.pkg,
                            terms: self.terms,
                            apps,
                            checked: self.checked,
                            wait: self.wait,
                        };
                        next.proceed()
                    },
                },
            },
            Wait::Page(app) => match reply {
                Err(e) => Step::Done(Err(e)),
                Ok(page) => {
                    let found = match parse::app_package(page.as_str()) {
                        Some(p) => same(p.as_str(), self.pkg.as_str()),
                        None => false,
                    };
                    if found {
                        let code = match parse::app_code(page.as_str()) {
                            Some(c) => c,
                            None => app.code.clone(),
                        };
                        Step::Done(Ok(App { base: app.base.clone(), code }))
                    } else {
                        self.proceed()
                    }
                },
            },
        }
    }
}

/// The apps to look at: the first few of the hits.
pub fn take_candidates(hits: &[parse::SearchHit]) -> (r: Vec<App>)
    ensures
        model::views(r@) == candidates(model::views(hits@)),
{
    let ghost all = candidates(model::views(hits@));
    let mut out: Vec<App> = Vec::new();
    let mut i: usize = 0;
    assert(model::views(out@) == all.take(0));
    while i < hits.len() && i < MAX_CANDIDATES
        invariant
            i <= hits@.len(),
            i <= MAX_CANDIDATES,
            all == candidates(model::views(hits@)),
            model::views(out@) == all.take(i as int),
        decreases hits@.len() - i,
    {
        let a = App { base: hits[i].base.clone(), code: hits[i].code.clone() };
        assert(a@ == all[i as int]);
        proof {
            model::lemma_views_push(out@, a);
        }
        out.push(a);
        assert(model::views(out@) == all.take(i + 1));
        i += 1;
    }
    assert(all.take(all.len() as int) == all);
    out
}

/// How many requests a resolution can still make after the one it is waiting for:
/// for every term one, and one for each app that its search can bring up.
pub open spec fn requests_left(s: ResolvingView) -> int {
    s.terms.len() * (MAX_CANDIDATES + 1) + match s.wait {
        WaitView::Hits => MAX_CANDIDATES as int,
        WaitView::Page(_) => s.apps.len() as int,
    }
}

/// Every reply brings a resolution closer to its end, so it ends.
pub proof fn lemma_resolve_ends(s: ResolvingView, reply: flow::ReplyView<named::ErrorView>)
    requires
        s.wait is Hits ==> s.apps.len() == 0,
    ensures
        !(resolve_next(s, reply) is Abort),
        resolve_next(s, reply) matches flow::StepView::Ask(_, next) ==> {
            &&& next.wait is Hits ==> next.apps.len() == 0
            &&& 0 <= requests_left(next) < requests_left(s)
        },
{
    lemma_next_is_move(s, reply);
    if !(resolve_next(s, reply) is Done) {
        let from = choose|from: ResolvingView| #[trigger] moved_from(s, from) && resolve_next(s, reply)
            == move_on(from);
        lemma_move_on(from);
        let next = resolve_next(s, reply)->Ask_1;
        assert(next.terms.len() * (MAX_CANDIDATES + 1) >= 0) by (nonlinear_arith);
        if next.wait is Hits {
            assert((next.terms.len() + 1) * (MAX_CANDIDATES + 1) == next.terms.len() * (
            MAX_CANDIDATES + 1) + MAX_CANDIDATES + 1) by (nonlinear_arith);
        }
    }
}

/// The states that a resolution can move on from: its own, or that with the apps
/// of a search.
spec fn moved_from(s: ResolvingView, from: ResolvingView) -> bool {
    from == s || (s.wait is Hits && from.apps.len() <= MAX_CANDIDATES && from == (ResolvingView {
        apps: from.apps,
        ..s
    }))
}

/// A resolution that does not end moves on.
proof fn lemma_next_is_move(s: ResolvingView, reply: flow::ReplyView<named::ErrorView>)
    ensures
        resolve_next(s, reply) is Done || exists|from: ResolvingView| #[trigger]
            moved_from(s, from) && resolve_next(s, reply) == move_on(from),
{
    assert(moved_from(s, s));
    match (s.wait, reply) {
        (WaitView::Hits, Ok(page)) => {
            match parse::searched(parse::search_rows(html::document(page))) {
                Ok(hits) => {
                    assert(moved_from(s, ResolvingView { apps: candidates(hits), ..s }));
                },
                Err(_) => {},
            }
        },
        _ => {},
    }
}

/// Moving on uses up an app or a term, and looks at no page twice.
proof fn lemma_move_on(s: ResolvingView)
    ensures
        match move_on(s) {
            flow::StepView::Ask(q, next) => {
                &&& next.wait is Hits ==> next.apps.len() == 0 && next.terms.len() + 1
                    == s.terms.len()
                &&& next.wait is Page ==> next.apps.len() < s.apps.len() && next.terms == s.terms
                &&& next.wait matches WaitView::Page(app) ==> !s.checked.contains(app.base)
                    && next.checked == s.checked.push(app.base) && q == app_request(app.base)
                &&& next.wait is Hits ==> next.checked == s.checked
            },
            flow::StepView::Done(r) => r is Err,
            flow::StepView::Abort => false,
        },
    decreases s.apps.len(),
{
    if s.apps.len() > 0 {
        lemma_move_on(ResolvingView { apps: s.apps.skip(1), ..s });
    }
}

/// The page of an app is looked at only if it has not been looked at before.
pub proof fn lemma_no_page_twice(s: ResolvingView, reply: flow::ReplyView<named::ErrorView>)
    ensures
        resolve_next(s, reply) matches flow::StepView::Ask(q, next) ==> (next.wait matches WaitView::Page(
            app,
        ) ==> q == app_request(app.base) && !s.checked.contains(app.base) && next.checked
            == s.checked.push(app.base)),
{
    lemma_next_is_move(s, reply);
    if resolve_next(s, reply) is Ask {
        let from = choose|from: ResolvingView| #[trigger] moved_from(s, from) && resolve_next(s, reply)
            == move_on(from);
        lemma_move_on(from);
    }
}

/// Only an app whose page names the package is the answer.
pub proof fn lemma_resolve_confirms(s: ResolvingView, reply: flow::ReplyView<named::ErrorView>)
    ensures
        resolve_next(s, reply) matches flow::StepView::Done(Ok(app)) ==> {
            &&& s.wait matches WaitView::Page(asked) && asked.base == app.base
            &&& reply matches Ok(page) && page_is_for(page, s.pkg)
        },
{
    lemma_move_on(s);
    lemma_next_is_move(s, reply);
    match (s.wait, reply) {
        (WaitView::Hits, Ok(page)) => {
            match parse::searched(parse::search_rows(html::document(page))) {
                Ok(hits) => {
                    lemma_move_on(ResolvingView { apps: candidates(hits), ..s });
                },
                Err(_) => {},
            }
        },
        _ => {},
    }
}

/// A search is waiting for its page.
pub struct Searching;

impl View for Searching {
    type V = Searching;

    open spec fn view(&self) -> Searching {
        *self
    }
}

/// The subdomain of an app, which stands for the package id that the page has not.
pub open spec fn subdomain(base: Seq<char>) -> Seq<char> {
    model::pieces(model::without_prefix(base, "https://"@), Class::One('.'))[0]
}

/// The results that hits are.
pub open spec fn results(hits: Seq<parse::HitView>) -> Seq<named::AppView> {
    Seq::new(
        hits.len(),
        |i: int|
            named::AppView {
                package: subdomain(hits[i].base),
                title: hits[i].name,
                developer: None,
                provider: NAME@,
            },
    )
}

/// The subdomain of an app.
fn read_subdomain(base: &str) -> (r: String)
    ensures
        r@ == subdomain(base@),
{
    let host = trim_start_str(base, "https://");
    let parts = split_by(host.as_str(), Class::One('.'));
    proof {
        crate::strings::lemma_pieces_len(host@, Class::One('.'));
    }
    assert(model::texts(parts@)[0] == parts@[0]@);
    parts[0].clone()
}

/// The results that hits are.
pub fn app_results(hits: &[parse::SearchHit]) -> (r: Vec<AppResult>)
    ensures
        model::views(r@) == results(model::views(hits@)),
{
    let ghost all = results(model::views(hits@));
    let mut out: Vec<AppResult> = Vec::new();
    let mut i: usize = 0;
    assert(model::views(out@) == all.take(0));
    while i < hits.len()
        invariant
            i <= hits@.len(),
            all == results(model::views(hits@)),
            model::views(out@) == all.take(i as int),
        decreases hits@.len() - i,
    {
        let a = AppResult {
            package: read_subdomain(hits[i].base.as_str()),
            title: hits[i].name.clone(),
            developer: None,
            provider: NAME.to_owned(),
        };
        assert(a@ == all[i as int]);
        proof {
            model::lemma_views_push(out@, a);
        }
        out.push(a);
        assert(model::views(out@) == all.take(i + 1));
        i += 1;
    }
    assert(all.take(all.len() as int) == all);
    out
}

/// What a search asks first.
pub open spec fn search_start(q: Seq<char>) -> flow::StepView<
    Searching,
    Seq<named::AppView>,
    named::ErrorView,
> {
    flow::StepView::Ask(flow::RequestView::Get(search_page(q)), Searching)
}

/// What a reply to a search comes to.
pub open spec fn search_next(state: Searching, reply: flow::ReplyView<named::ErrorView>) -> flow::StepView<
    Searching,
    Seq<named::AppView>,
    named::ErrorView,
> {
    flow::StepView::Done(
        match reply {
            Ok(page) => match parse::searched(parse::search_rows(html::document(page))) {
                Ok(hits) => Ok(results(hits)),
                Err(e) => Err(e),
            },
            Err(e) => Err(e),
        },
    )
}

impl Searching {
    /// Goes on with the reply.
    pub fn advance(self, reply: Reply<ProviderError>) -> (r: Step<
        Searching,
        Vec<AppResult>,
        ProviderError,
    >)
        ensures
            flow::list_step(r) == search_next(self@, flow::reply_view(reply)),
    {
        let page = match reply {
            Ok(page) => page,
            Err(e) => {
                return Step::Done(Err(e));
            },
        };
        match parse::parse_search(page.as_str()) {
            Ok(hits) => Step::Done(Ok(app_results(&hits))),
            Err(e) => Step::Done(Err(e)),
        }
    }
}

/// The versions of rows.
pub open spec fn infos(rows: Seq<parse::VersionRowView>) -> Seq<named::VersionView> {
    Seq::new(
        rows.len(),
        |i: int|
            named::VersionView {
                version: rows[i].version,
                version_code: None,
                uploaded: rows[i].uploaded,
                provider: NAME@,
            },
    )
}

/// The versions of rows.
fn version_infos(rows: Vec<parse::VersionRow>) -> (r: Vec<VersionInfo>)
    ensures
        model::views(r@) == infos(model::views(rows@)),
{
    let ghost all = infos(model::views(rows@));
    let mut out: Vec<VersionInfo> = Vec::new();
    let mut i: usize = 0;
    assert(model::views(out@) == all.take(0));
    while i < rows.len()
        invariant
            i <= rows@.len(),
            all == infos(model::views(rows@)),
            model::views(out@) == all.take(i as int),
        decreases rows@.len() - i,
    {
        let uploaded = match &rows[i].uploaded {
            Some(d) => Some(d.clone()),
            None => None,
        };
        let v = VersionInfo {
            version: rows[i].version.clone(),
            version_code: None,
            uploaded,
            provider: NAME.to_owned(),
        };
        assert(v@ == all[i as int]);
        proof {
            model::lemma_views_push(out@, v);
        }
        out.push(v);
        assert(model::views(out@) == all.take(i + 1));
        i += 1;
    }
    assert(all.take(all.len() as int) == all);
    out
}

/// A listing of versions: the package is being resolved, or the list is awaited.
pub enum Listing {
    Resolve(Resolving),
    Rows,
}

/// What a [`Listing`] says.
pub enum ListingView {
    Resolve(ResolvingView),
    Rows,
}

impl View for Listing {
    type V = ListingView;

    open spec fn view(&self) -> ListingView {
        match *self {
            Listing::Resolve(s) => ListingView::Resolve(s@),
            Listing::Rows => ListingView::Rows,
        }
    }
}

/// A listing after a step of its resolution.
pub open spec fn then_list(s: flow::StepView<ResolvingView, AppView, named::ErrorView>) -> flow::StepView<
    ListingView,
    Seq<named::VersionView>,
    named::ErrorView,
> {
    match s {
        flow::StepView::Ask(q, next) => flow::StepView::Ask(q, ListingView::Resolve(next)),
        flow::StepView::Done(Ok(app)) => flow::StepView::Ask(
            flow::RequestView::Get(
                app.base + "/android/apps/"@ + app.code + "/versions/1"@,
            ),
            ListingView::Rows,
        ),
        flow::StepView::Done(Err(e)) => flow::StepView::Done(Err(e)),
        flow::StepView::Abort => flow::StepView::Abort,
    }
}

/// How a listing goes on with a reply.
pub open spec fn versions_next(
    state: ListingView,
    reply: flow::ReplyView<named::ErrorView>,
) -> flow::StepView<ListingView, Seq<named::VersionView>, named::ErrorView> {
    match state {
        ListingView::Resolve(s) => then_list(resolve_next(s, reply)),
        ListingView::Rows => flow::StepView::Done(
            match reply {
                Err(e) => Err(e),
                Ok(json) => match parse::versions_found(outside::json_parsed(json)) {
                    Ok(rows) => Ok(infos(rows)),
                    Err(e) => Err(e),
                },
            },
        ),
    }
}

/// A listing after a step of its resolution.
fn list_after(s: Step<Resolving, App, ProviderError>) -> (r: Step<
    Listing,
    Vec<VersionInfo>,
    ProviderError,
>)
    ensures
        flow::list_step(r) == then_list(flow::step(s)),
{
    match s {
        Step::Ask(q, next) => Step::Ask(q, Listing::Resolve(next)),
        Step::Done(Ok(app)) => {
            let url = plus4(app.base.as_str(), "/android/apps/", app.code.as_str(), "/versions/1");
            Step::Ask(Request::Get(url), Listing::Rows)
        },
        Step::Done(Err(e)) => Step::Done(Err(e)),
        Step::Abort => Step::Abort,
    }
}

impl Listing {
    /// Goes on with the reply.
    pub fn advance(self, reply: Reply<ProviderError>) -> (r: Step<
        Listing,
        Vec<VersionInfo>,
        ProviderError,
    >)
        ensures
            flow::list_step(r) == versions_next(self@, flow::reply_view(reply)),
    {
        match self {
            Listing::Resolve(s) => list_after(s.advance(reply)),
            Listing::Rows => match reply {
                Err(e) => Step::Done(Err(e)),
                Ok(json) => match parse::parse_versions_json(json.as_str()) {
                    Ok(rows) => Step::Done(Ok(version_infos(rows))),
                    Err(e) => Step::Done(Err(e)),
                },
            },
        }
    }
}

/// A download, which only finds out whether the app exists.
pub struct Download {
    pub resolve: Resolving,
}

impl View for Download {
    type V = ResolvingView;

    open spec fn view(&self) -> ResolvingView {
        self.resolve@
    }
}

/// A download after a step of its resolution: blocked where the app exists.
pub open spec fn then_block(s: flow::StepView<ResolvingView, AppView, named::ErrorView>) -> flow::StepView<
    ResolvingView,
    named::TargetView,
    named::ErrorView,
> {
    match s {
        flow::StepView::Ask(q, next) => flow::StepView::Ask(q, next),
        flow::StepView::Done(Ok(_)) => flow::StepView::Done(
            Err(named::ErrorView::Blocked { retry_after: None }),
        ),
        flow::StepView::Done(Err(e)) => flow::StepView::Done(Err(e)),
        flow::StepView::Abort => flow::StepView::Abort,
    }
}

/// A download after a step of its resolution.
fn block_after(s: Step<Resolving, App, ProviderError>) -> (r: Step<
    Download,
    DownloadTarget,
    ProviderError,
>)
    ensures
        flow::step(r) == then_block(flow::step(s)),
{
    match s {
        Step::Ask(q, next) => Step::Ask(q, Download { resolve: next }),
        Step::Done(Ok(_)) => Step::Done(Err(ProviderError::Blocked { retry_after: None })),
        Step::Done(Err(e)) => Step::Done(Err(e)),
        Step::Abort => Step::Abort,
    }
}

impl Download {
    /// Goes on with the reply.
    pub fn advance(self, reply: Reply<ProviderError>) -> (r: Step<
        Download,
        DownloadTarget,
        ProviderError,
    >)
        ensures
            flow::step(r) == then_block(resolve_next(self@, flow::reply_view(reply))),
    {
        block_after(self.resolve.advance(reply))
    }
}

impl Uptodown {
    /// Finds the app of a package, by searching for fragments of its id and looking
    /// at the pages of the apps that are found.
    pub fn resolve(pkg: &str) -> (r: Step<Resolving, App, ProviderError>)
        ensures
            flow::step(r) == resolve_start(pkg@),
    {
        let start = Resolving {
            pkg: pkg.to_owned(),
            terms: parse::search_terms(pkg),
            apps: Vec::new(),
            checked: Vec::new(),
            wait: Wait::Hits,
        };
        assert(model::views(start.apps@) == Seq::<AppView>::empty());
        assert(model::texts(start.checked@) == Seq::<Seq<char>>::empty());
        start.proceed()
    }

    /// Searches for an app.
    pub fn search(query: &str) -> (r: Step<Searching, Vec<AppResult>, ProviderError>)
        ensures
            flow::list_step(r) == search_start(query@),
    {
        Step::Ask(Request::Get(search_url(query)), Searching)
    }

    /// Lists the versions of an app.
    pub fn versions(pkg: &str) -> (r: Step<Listing, Vec<VersionInfo>, ProviderError>)
        ensures
            flow::list_step(r) == then_list(resolve_start(pkg@)),
    {
        list_after(Uptodown::resolve(pkg))
    }

    /// Resolves a download: whether the app exists comes first, then the block.
    pub fn download_url(pkg: &str, _version: Option<&str>, _arch: &str) -> (r: Step<
        Download,
        DownloadTarget,
        ProviderError,
    >)
        ensures
            flow::step(r) == then_block(resolve_start(pkg@)),
    {
        block_after(Uptodown::resolve(pkg))
    }
}

/// A download is never resolved.
pub proof fn lemma_always_blocked(s: ResolvingView, reply: flow::ReplyView<named::ErrorView>)
    ensures
        !(then_block(resolve_next(s, reply)) matches flow::StepView::Done(Ok(_))),
{
}

} // verus!
