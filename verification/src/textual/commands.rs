//! The commands over providers known by identity: whom they ask, what they report
//! and how they end.

use crate::cli::commands::{announce, col_width, pad, Notice};
use crate::cli::commands as layout;
use crate::cli::exit;
use crate::cli::exit::{
    AppError, EXIT_BLOCKED, EXIT_GENERIC, EXIT_NETWORK, EXIT_NOT_FOUND,
};
use crate::common::contract as common;
use crate::common::contract::ProviderId;
use crate::common::fallback::copy;
use crate::model;
use crate::strings::{join, plus, plus3, plus4};
use crate::textual::contract;
use crate::textual::contract::{
    AppResult, DownloadTarget, Provider, ProviderError, ProviderFailure, ProviderRegistry,
    ResolveError, VersionInfo,
};
use vstd::prelude::*;
use vstd::string::StringExecFns;

verus! {

/// The provider that is asked where none is named.
pub open spec fn default_provider() -> ProviderId {
    common::priority()[0]
}

/// The provider that is asked where none is named.
fn usual_provider() -> (r: ProviderId)
    ensures
        r == default_provider(),
{
    ProviderId::Apkcombo
}

/// The exit code for one provider's failure.
pub open spec fn error_code(e: contract::ErrorView) -> u8 {
    match e {
        contract::ErrorView::NotFound(_) => EXIT_NOT_FOUND,
        contract::ErrorView::Blocked { .. } => EXIT_BLOCKED,
        contract::ErrorView::RateLimited => EXIT_BLOCKED,
        contract::ErrorView::Network(_) => EXIT_NETWORK,
        contract::ErrorView::ParseError(_) => EXIT_GENERIC,
    }
}

/// The exit code for one provider's failure.
pub fn provider_error_code(e: &ProviderError) -> (r: u8)
    ensures
        r == error_code(e@),
{
    match e {
        ProviderError::NotFound(_) => EXIT_NOT_FOUND,
        ProviderError::Blocked { .. } => EXIT_BLOCKED,
        ProviderError::RateLimited => EXIT_BLOCKED,
        ProviderError::Network(_) => EXIT_NETWORK,
        ProviderError::ParseError(_) => EXIT_GENERIC,
    }
}

/// One provider's failure as it ends the process.
pub open spec fn failed(f: contract::FailureView) -> exit::AppErrorView {
    exit::AppErrorView { code: error_code(f.source), source: contract::failure_text(f) }
}

/// One provider's failure as it ends the process.
pub fn provider_fail(f: &ProviderFailure) -> (r: AppError)
    ensures
        r@ == failed(f@),
{
    AppError { code: provider_error_code(&f.source), source: f.to_string() }
}

/// Whether there are failures and each found nothing.
pub open spec fn all_missing(fs: Seq<contract::FailureView>) -> bool {
    fs.len() > 0 && forall|i: int| 0 <= i < fs.len() ==> (#[trigger] fs[i]).source is NotFound
}

/// Whether there are failures and each met a block or a rate limit.
pub open spec fn all_refused(fs: Seq<contract::FailureView>) -> bool {
    fs.len() > 0 && forall|i: int|
        0 <= i < fs.len() ==> contract::is_block((#[trigger] fs[i]).source)
}

/// Whether a failure is one of the network.
pub open spec fn some_unreached(fs: Seq<contract::FailureView>) -> bool {
    exists|i: int| 0 <= i < fs.len() && (#[trigger] fs[i]).source is Network
}

/// The exit code for the failure of every provider.
pub open spec fn resolve_code(fs: Seq<contract::FailureView>) -> u8 {
    if all_missing(fs) {
        EXIT_NOT_FOUND
    } else if all_refused(fs) {
        EXIT_BLOCKED
    } else if some_unreached(fs) {
        EXIT_NETWORK
    } else {
        EXIT_GENERIC
    }
}

/// The failure of every provider as it ends the process.
pub open spec fn unresolved(e: ResolveError) -> exit::AppErrorView {
    exit::AppErrorView {
        code: resolve_code(e.tries()),
        source: contract::resolve_text(e.pkg@, e.tries()),
    }
}

/// The failure of every provider as it ends the process.
pub fn resolve_err(e: &ResolveError) -> (r: AppError)
    ensures
        r@ == unresolved(*e),
{
    let code: u8 = if e.all_not_found() {
        EXIT_NOT_FOUND
    } else if e.all_blocked() {
        EXIT_BLOCKED
    } else if e.any_network() {
        EXIT_NETWORK
    } else {
        EXIT_GENERIC
    };
    AppError { code, source: e.to_string() }
}

/// With one attempt the exit code is that attempt's.
pub proof fn lemma_single_attempt(f: contract::FailureView)
    ensures
        resolve_code(seq![f]) == error_code(f.source),
{
    let fs = seq![f];
    assert(fs[0] == f);
    if f.source is Network {
        assert(some_unreached(fs));
    }
    if contract::is_block(f.source) {
        assert(all_refused(fs));
    }
    if f.source is NotFound {
        assert(all_missing(fs));
    }
}

/// A line of a search report: title, version where a column has any, package.
#[derive(Debug)]
pub struct Line {
    pub title: String,
    pub version: Option<String>,
    pub package: String,
}

/// What a [`Line`] says.
pub struct LineView {
    pub title: Seq<char>,
    pub version: Option<Seq<char>>,
    pub package: Seq<char>,
}

impl View for Line {
    type V = LineView;

    open spec fn view(&self) -> LineView {
        LineView {
            title: self.title@,
            version: model::opt(self.version),
            package: self.package@,
        }
    }
}

/// The titles of results.
pub open spec fn titles(rs: Seq<contract::AppView>) -> Seq<Option<Seq<char>>> {
    Seq::new(rs.len(), |i: int| Some(rs[i].title))
}

/// The versions of results.
pub open spec fn versions_of(rs: Seq<contract::AppView>) -> Seq<Option<Seq<char>>> {
    Seq::new(rs.len(), |i: int| rs[i].version)
}

/// The lines of a report, in columns. The column of versions is left out where it
/// would be empty.
pub open spec fn rendered(rs: Seq<contract::AppView>) -> Seq<LineView> {
    let tw = layout::widest(titles(rs));
    let vw = layout::widest(versions_of(rs));
    Seq::new(
        rs.len(),
        |i: int|
            LineView {
                title: layout::padded(rs[i].title, tw),
                version: if vw > 0 {
                    Some(
                        layout::padded(
                            match rs[i].version {
                                Some(v) => v,
                                None => ""@,
                            },
                            vw,
                        ),
                    )
                } else {
                    None
                },
                package: rs[i].package,
            },
    )
}

/// The lines of a report, in columns.
pub fn render_results(results: &[AppResult]) -> (r: Vec<Line>)
    ensures
        model::views(r@) == rendered(model::views(results@)),
{
    let ghost rv = model::views(results@);
    let mut names: Vec<Option<String>> = Vec::new();
    let mut versions: Vec<Option<String>> = Vec::new();
    let mut i: usize = 0;
    assert(model::opts(names@) == titles(rv).take(0));
    assert(model::opts(versions@) == versions_of(rv).take(0));
    while i < results.len()
        invariant
            i <= results@.len(),
            rv == model::views(results@),
            model::opts(names@) == titles(rv).take(i as int),
            model::opts(versions@) == versions_of(rv).take(i as int),
        decreases results@.len() - i,
    {
        let ghost n0 = names@;
        let ghost v0 = versions@;
        names.push(Some(results[i].title.clone()));
        assert(model::opts(names@) == model::opts(n0).push(Some(rv[i as int].title)));
        let v = match &results[i].version {
            Some(v) => Some(v.clone()),
            None => None,
        };
        assert(model::opt(v) == rv[i as int].version);
        versions.push(v);
        assert(model::opts(versions@) == model::opts(v0).push(rv[i as int].version));
        assert(model::opts(names@) == titles(rv).take(i + 1));
        assert(model::opts(versions@) == versions_of(rv).take(i + 1));
        i += 1;
    }
    assert(titles(rv).take(titles(rv).len() as int) == titles(rv));
    assert(versions_of(rv).take(versions_of(rv).len() as int) == versions_of(rv));
    let tw: usize = col_width(&names);
    let vw: usize = col_width(&versions);
    let ghost all = rendered(rv);
    let mut out: Vec<Line> = Vec::new();
    let mut k: usize = 0;
    assert(model::views(out@) == all.take(0));
    while k < results.len()
        invariant
            k <= results@.len(),
            rv == model::views(results@),
            tw == layout::widest(titles(rv)),
            vw == layout::widest(versions_of(rv)),
            all == rendered(rv),
            model::views(out@) == all.take(k as int),
        decreases results@.len() - k,
    {
        let res = &results[k];
        let version = if vw > 0 {
            let shown = match &res.version {
                Some(v) => v.as_str(),
                None => "",
            };
            Some(pad(shown, vw))
        } else {
            None
        };
        let line = Line {
            title: pad(res.title.as_str(), tw),
            version,
            package: res.package.clone(),
        };
        assert(line@ == all[k as int]);
        proof {
            model::lemma_views_push(out@, line);
        }
        out.push(line);
        assert(model::views(out@) == all.take(k + 1));
        k += 1;
    }
    assert(all.take(all.len() as int) == all);
    out
}

/// The providers to search: all that are registered, those that are named, or the
/// usual one.
pub open spec fn targets(all: bool, named: Seq<ProviderId>, registered: Seq<ProviderId>) -> Seq<
    ProviderId,
> {
    if all {
        registered
    } else if named.len() == 0 {
        seq![default_provider()]
    } else {
        named
    }
}

/// A list of one provider.
fn only(p: ProviderId) -> (r: Vec<ProviderId>)
    ensures
        r@ == seq![p],
{
    let mut out: Vec<ProviderId> = Vec::new();
    out.push(p);
    assert(out@ == seq![p]);
    out
}

/// The providers to search.
pub fn search_targets(all: bool, providers: &[ProviderId], registered: &[ProviderId]) -> (r: Vec<
    ProviderId,
>)
    ensures
        r@ == targets(all, providers@, registered@),
{
    if all {
        copy(registered)
    } else if providers.len() == 0 {
        only(usual_provider())
    } else {
        copy(providers)
    }
}

/// What to tell the user of one provider's answer.
pub enum Note {
    /// Nothing.
    Quiet,
    /// A warning.
    Warn(String),
    /// Results to show.
    Show(Vec<AppResult>),
}

/// A search with providers: each is asked once, one after the other. This is to
/// discover, not to download, so the first answer ends nothing.
pub struct Search {
    /// Whether the answers are collected rather than shown.
    pub json: bool,
    /// The providers to ask, in order.
    pub ids: Vec<ProviderId>,
    /// How many of them have been asked.
    pub asked: usize,
    /// Whether anything was found.
    pub hit: bool,
    /// The last error.
    pub last: Option<AppError>,
    /// What was collected.
    pub merged: Vec<AppResult>,
}

/// What a [`Search`] says.
pub struct SearchView {
    pub json: bool,
    pub ids: Seq<ProviderId>,
    pub asked: nat,
    pub hit: bool,
    pub last: Option<exit::AppErrorView>,
    pub merged: Seq<AppResult>,
}

impl View for Search {
    type V = SearchView;

    open spec fn view(&self) -> SearchView {
        SearchView {
            json: self.json,
            ids: self.ids@,
            asked: self.asked as nat,
            hit: self.hit,
            last: match self.last {
                Some(e) => Some(e@),
                None => None,
            },
            merged: self.merged@,
        }
    }
}

/// A search before anyone was asked.
pub open spec fn fresh(json: bool, ids: Seq<ProviderId>) -> SearchView {
    SearchView { json, ids, asked: 0, hit: false, last: None, merged: Seq::<AppResult>::empty() }
}

/// The provider that is asked next.
pub open spec fn upcoming(s: SearchView) -> Option<ProviderId> {
    if s.asked < s.ids.len() {
        Some(s.ids[s.asked as int])
    } else {
        None
    }
}

/// A search after the answer of the provider that was next.
pub open spec fn absorbed(s: SearchView, answer: Result<Vec<AppResult>, ProviderFailure>) -> SearchView {
    let s1 = SearchView { asked: s.asked + 1, ..s };
    match answer {
        Ok(rows) => if rows@.len() == 0 {
            s1
        } else {
            SearchView {
                hit: true,
                merged: if s.json {
                    s.merged + rows@
                } else {
                    s.merged
                },
                ..s1
            }
        },
        Err(f) => SearchView { last: Some(failed(f@)), ..s1 },
    }
}

/// A search after answers, one after the other.
pub open spec fn searched(
    json: bool,
    ids: Seq<ProviderId>,
    answers: Seq<Result<Vec<AppResult>, ProviderFailure>>,
) -> SearchView
    decreases answers.len(),
{
    if answers.len() == 0 {
        fresh(json, ids)
    } else {
        absorbed(searched(json, ids, answers.drop_last()), answers.last())
    }
}

/// Nothing was found.
pub open spec fn nothing_found(query: Seq<char>) -> exit::AppErrorView {
    exit::AppErrorView { code: EXIT_NOT_FOUND, source: "no results for '"@ + query + "'"@ }
}

/// How a search ends: with what was collected, and, where nothing was found, with the
/// last error.
pub open spec fn ended(s: SearchView, query: Seq<char>) -> (
    Seq<AppResult>,
    Option<exit::AppErrorView>,
) {
    (
        s.merged,
        if s.hit {
            None
        } else {
            match s.last {
                Some(e) => Some(e),
                None => Some(nothing_found(query)),
            }
        },
    )
}

/// What an error, where there is one, says.
pub open spec fn error_view(e: Option<AppError>) -> Option<exit::AppErrorView> {
    match e {
        Some(e) => Some(e@),
        None => None,
    }
}

impl Search {
    /// Nobody has been asked.
    pub fn start(json: bool, ids: Vec<ProviderId>) -> (r: Search)
        ensures
            r@ == fresh(json, ids@),
    {
        Search { json, ids, asked: 0, hit: false, last: None, merged: Vec::new() }
    }

    /// The provider to ask next; none where everyone has been asked.
    pub fn next(&self) -> (r: Option<ProviderId>)
        ensures
            r == upcoming(self@),
    {
        if self.asked < self.ids.len() {
            Some(self.ids[self.asked])
        } else {
            None
        }
    }

    /// Takes in what the next provider answered, and says what to tell of it.
    pub fn absorb(&mut self, answer: Result<Vec<AppResult>, ProviderFailure>) -> (r: Note)
        requires
            upcoming(old(self)@) is Some,
        ensures
            final(self)@ == absorbed(old(self)@, answer),
            if old(self).json {
                r is Quiet
            } else {
                match answer {
                    Ok(rows) => if rows@.len() == 0 {
                        r matches Note::Warn(t) && t@ == common::id_name(
                            upcoming(old(self)@)->0,
                        ) + ": no results"@
                    } else {
                        r == Note::Show(rows)
                    },
                    Err(f) => r matches Note::Warn(t) && t@ == contract::failure_text(f@),
                }
            },
    {
        assert(self.asked < self.ids.len());
        let id = self.ids[self.asked];
        self.asked += 1;
        match answer {
            Ok(rows) => {
                if rows.len() == 0 {
                    if self.json {
                        Note::Quiet
                    } else {
                        Note::Warn(plus(id.as_str(), ": no results"))
                    }
                } else {
                    self.hit = true;
                    if self.json {
                        let mut rows = rows;
                        self.merged.append(&mut rows);
                        Note::Quiet
                    } else {
                        Note::Show(rows)
                    }
                }
            },
            Err(f) => {
                self.last = Some(provider_fail(&f));
                if self.json {
                    Note::Quiet
                } else {
                    Note::Warn(f.to_string())
                }
            },
        }
    }

    /// How the search ends. What was collected is reported either way.
    pub fn finish(self, query: &str) -> (r: (Vec<AppResult>, Option<AppError>))
        ensures
            (r.0@, error_view(r.1)) == ended(self@, query@),
    {
        if self.hit {
            (self.merged, None)
        } else {
            let e = match self.last {
                Some(e) => e,
                None => AppError {
                    code: EXIT_NOT_FOUND,
                    source: plus3("no results for '", query, "'"),
                },
            };
            (self.merged, Some(e))
        }
    }
}

/// The last failure among answers.
pub open spec fn last_failure<T>(answers: Seq<Result<T, ProviderFailure>>) -> Option<ProviderFailure>
    decreases answers.len(),
{
    if answers.len() == 0 {
        None
    } else {
        match answers.last() {
            Err(f) => Some(f),
            Ok(_) => last_failure(answers.drop_last()),
        }
    }
}

/// Whether an answer has results.
pub open spec fn fruitful(a: Result<Vec<AppResult>, ProviderFailure>) -> bool {
    a matches Ok(rows) && rows@.len() > 0
}

/// The results of all answers, in order.
pub open spec fn gathered(answers: Seq<Result<Vec<AppResult>, ProviderFailure>>) -> Seq<AppResult>
    decreases answers.len(),
{
    if answers.len() == 0 {
        Seq::<AppResult>::empty()
    } else {
        gathered(answers.drop_last()) + match answers.last() {
            Ok(rows) => rows@,
            Err(_) => Seq::<AppResult>::empty(),
        }
    }
}

/// Neither an answer nor a failure ends a search: everyone is asked once, in order,
/// and the results of all are collected. It ends well just where someone has
/// results, else with the last failure, else as not found.
pub proof fn lemma_search(
    json: bool,
    ids: Seq<ProviderId>,
    answers: Seq<Result<Vec<AppResult>, ProviderFailure>>,
    query: Seq<char>,
)
    ensures
        upcoming(searched(json, ids, answers)) == if answers.len() < ids.len() {
            Some(ids[answers.len() as int])
        } else {
            None
        },
        ended(searched(json, ids, answers), query) == (
            if json {
                gathered(answers)
            } else {
                Seq::<AppResult>::empty()
            },
            if exists|i: int| 0 <= i < answers.len() && fruitful(#[trigger] answers[i]) {
                None
            } else {
                match last_failure(answers) {
                    Some(f) => Some(failed(f@)),
                    None => Some(nothing_found(query)),
                }
            },
        ),
{
    lemma_searched(json, ids, answers);
}

/// What a search holds after answers.
proof fn lemma_searched(
    json: bool,
    ids: Seq<ProviderId>,
    answers: Seq<Result<Vec<AppResult>, ProviderFailure>>,
)
    ensures
        ({
            let s = searched(json, ids, answers);
            &&& s.json == json
            &&& s.ids == ids
            &&& s.asked == answers.len()
            &&& s.hit <==> exists|i: int| 0 <= i < answers.len() && fruitful(#[trigger] answers[i])
            &&& s.last == match last_failure(answers) {
                Some(f) => Some(failed(f@)),
                None => None,
            }
            &&& s.merged == if json {
                gathered(answers)
            } else {
                Seq::<AppResult>::empty()
            }
        }),
    decreases answers.len(),
{
    if answers.len() > 0 {
        let front = answers.drop_last();
        lemma_searched(json, ids, front);
        let s = searched(json, ids, front);
        if s.hit {
            let i = choose|i: int| 0 <= i < front.len() && fruitful(#[trigger] front[i]);
            assert(answers[i] == front[i]);
        }
        if fruitful(answers.last()) {
            assert(fruitful(answers[answers.len() - 1]));
        }
        assert forall|i: int| 0 <= i < answers.len() && fruitful(#[trigger] answers[i]) implies s.hit
            || fruitful(answers.last()) by {
            if i < front.len() {
                assert(fruitful(front[i]));
            }
        }
        assert(searched(json, ids, answers).merged == if json {
            gathered(answers)
        } else {
            Seq::<AppResult>::empty()
        });
    }
}

/// `answer` is one that the provider `id` can give to a search.
pub open spec fn searches<P: Provider>(
    registry: ProviderRegistry<P>,
    id: ProviderId,
    query: &str,
    answer: Result<Vec<AppResult>, ProviderFailure>,
) -> bool {
    exists|a: Result<Vec<AppResult>, ProviderError>|
        #[trigger] call_ensures(P::search, (&registry.chosen(id), query), a) && answer
            == contract::tagged(a, id)
}

/// Whether `answers` are those of the providers to a search, one for each in order.
pub open spec fn answered<P: Provider>(
    registry: ProviderRegistry<P>,
    ids: Seq<ProviderId>,
    query: &str,
    answers: Seq<Result<Vec<AppResult>, ProviderFailure>>,
) -> bool {
    &&& answers.len() == ids.len()
    &&& forall|i: int|
        0 <= i < ids.len() ==> searches(registry, ids[i], query, #[trigger] answers[i])
}

/// Whether `tell` was told of a provider that it is searched, and of what it answered.
pub open spec fn told<N: Fn(Notice<AppResult>)>(
    tell: N,
    id: ProviderId,
    answer: Result<Vec<AppResult>, ProviderFailure>,
) -> bool {
    &&& exists|t: String|
        t@ == layout::announcement("searching"@, id) && #[trigger] call_ensures(
            tell,
            (Notice::Asking(t),),
            (),
        )
    &&& match answer {
        Ok(rows) => if rows@.len() == 0 {
            exists|t: String|
                t@ == common::id_name(id) + ": no results"@ && #[trigger] call_ensures(
                    tell,
                    (Notice::Warn(t),),
                    (),
                )
        } else {
            call_ensures(tell, (Notice::Show(id, rows),), ())
        },
        Err(f) => exists|t: String|
            t@ == contract::failure_text(f@) && #[trigger] call_ensures(
                tell,
                (Notice::Warn(t),),
                (),
            ),
    }
}

/// Searches with every provider that is registered, with those that are named, or
/// with the usual one, and tells the user of each answer as it comes, unless they are
/// collected. The contract says what `tell` is told, not that it is told nothing else;
/// that is with [`Search::absorb`], which gives one note an answer.
pub fn search_telling<P: Provider, N: Fn(Notice<AppResult>)>(
    registry: &ProviderRegistry<P>,
    query: &str,
    providers: &[ProviderId],
    all: bool,
    json: bool,
    tell: N,
) -> (r: (Vec<AppResult>, Option<AppError>))
    requires
        registry.wf(),
        all || forall|i: int|
            0 <= i < targets(all, providers@, registry.ids()).len() ==> registry.has(
                #[trigger] targets(all, providers@, registry.ids())[i],
            ),
        forall|n: Notice<AppResult>| #[trigger] call_requires(tell, (n,)),
    ensures
        exists|answers: Seq<Result<Vec<AppResult>, ProviderFailure>>|
            {
                &&& #[trigger] answered(
                    *registry,
                    targets(all, providers@, registry.ids()),
                    query,
                    answers,
                )
                &&& json || forall|i: int|
                    0 <= i < answers.len() ==> told(
                        tell,
                        targets(all, providers@, registry.ids())[i],
                        #[trigger] answers[i],
                    )
                &&& (r.0@, error_view(r.1)) == ended(
                    searched(json, targets(all, providers@, registry.ids()), answers),
                    query@,
                )
            },
{
    let names = registry.names();
    let ids = search_targets(all, providers, &names);
    let ghost all_ids = ids@;
    assert forall|i: int| 0 <= i < all_ids.len() implies registry.has(#[trigger] all_ids[i]) by {
        if all {
            contract::lemma_registered(registry.ids(), i);
        }
    }
    let mut search = Search::start(json, ids);
    let ghost mut answers = Seq::<Result<Vec<AppResult>, ProviderFailure>>::empty();
    loop
        invariant_except_break
            search@ == searched(json, all_ids, answers),
            answers.len() <= all_ids.len(),
        invariant
            registry.wf(),
            forall|i: int| 0 <= i < all_ids.len() ==> registry.has(#[trigger] all_ids[i]),
            forall|n: Notice<AppResult>| #[trigger] call_requires(tell, (n,)),
            forall|i: int|
                0 <= i < answers.len() ==> searches(
                    *registry,
                    all_ids[i],
                    query,
                    #[trigger] answers[i],
                ) && (json || told(tell, all_ids[i], answers[i])),
        ensures
            search@ == searched(json, all_ids, answers),
            answers.len() == all_ids.len(),
        decreases all_ids.len() - answers.len(),
    {
        proof {
            lemma_searched(json, all_ids, answers);
        }
        let id = match search.next() {
            Some(id) => id,
            None => {
                break ;
            },
        };
        assert(id == all_ids[answers.len() as int]);
        if !json {
            let t = announce("searching", id);
            tell(Notice::Asking(t));
            assert(call_ensures(tell, (Notice::<AppResult>::Asking(t),), ()));
        }
        let answer = registry.search(id, query);
        let ghost a = answer;
        let ghost before = answers;
        match search.absorb(answer) {
            Note::Quiet => {},
            Note::Warn(t) => {
                tell(Notice::Warn(t));
                assert(call_ensures(tell, (Notice::<AppResult>::Warn(t),), ()));
            },
            Note::Show(rows) => {
                tell(Notice::Show(id, rows));
            },
        }
        proof {
            answers = before.push(a);
            assert(answers.drop_last() == before);
            assert(json || told(tell, id, a));
        }
    }
    assert(answered(*registry, all_ids, query, answers));
    search.finish(query)
}

/// Searches as [`search_telling`] does, and tells nobody of the answers.
pub fn search<P: Provider>(
    registry: &ProviderRegistry<P>,
    query: &str,
    providers: &[ProviderId],
    all: bool,
    json: bool,
) -> (r: (Vec<AppResult>, Option<AppError>))
    requires
        registry.wf(),
        all || forall|i: int|
            0 <= i < targets(all, providers@, registry.ids()).len() ==> registry.has(
                #[trigger] targets(all, providers@, registry.ids())[i],
            ),
    ensures
        exists|answers: Seq<Result<Vec<AppResult>, ProviderFailure>>|
            {
                &&& #[trigger] answered(
                    *registry,
                    targets(all, providers@, registry.ids()),
                    query,
                    answers,
                )
                &&& (r.0@, error_view(r.1)) == ended(
                    searched(json, targets(all, providers@, registry.ids()), answers),
                    query@,
                )
            },
{
    search_telling(registry, query, providers, all, json, |n: Notice<AppResult>| {})
}

/// The named provider, or the usual one.
pub open spec fn chosen_provider(provider: Option<ProviderId>) -> ProviderId {
    match provider {
        Some(p) => p,
        None => default_provider(),
    }
}

/// The provider whose versions are listed.
pub fn versions_target(provider: Option<ProviderId>) -> (r: ProviderId)
    ensures
        r == chosen_provider(provider),
{
    match provider {
        Some(p) => p,
        None => usual_provider(),
    }
}

/// Lists the versions that the named provider has, or the usual one.
pub fn versions<P: Provider>(
    registry: &ProviderRegistry<P>,
    pkg: &str,
    provider: Option<ProviderId>,
) -> (r: Result<Vec<VersionInfo>, AppError>)
    requires
        registry.wf(),
        registry.has(chosen_provider(provider)),
    ensures
        exists|a: Result<Vec<VersionInfo>, ProviderError>|
            {
                &&& #[trigger] call_ensures(
                    P::versions,
                    (&registry.chosen(chosen_provider(provider)), pkg),
                    a,
                )
                &&& match a {
                    Ok(list) => r == Ok::<Vec<VersionInfo>, AppError>(list),
                    Err(e) => r matches Err(f) && f@ == failed(
                        (contract::FailureView {
                            provider: chosen_provider(provider),
                            source: e@,
                        }),
                    ),
                }
            },
{
    let id = versions_target(provider);
    match registry.versions(id, pkg) {
        Ok(list) => Ok(list),
        Err(f) => Err(provider_fail(&f)),
    }
}

/// A version as it is listed.
pub fn version_line(v: &VersionInfo) -> (r: String)
    ensures
        r@ == v@.version + "  ("@ + common::id_name(v@.provider) + ")"@,
{
    plus4(v.version.as_str(), "  (", v.provider.as_str(), ")")
}

/// Whom to ask for a download.
#[derive(Debug)]
pub enum Route {
    /// These, one after the other, until one resolves it.
    Fallback(Vec<ProviderId>),
    /// Only this one.
    Single(ProviderId),
}

/// The one provider to ask for a download: the one that is named, or the first of the
/// list of priorities, or the usual one.
pub open spec fn single(provider: Option<ProviderId>, priority: Seq<ProviderId>) -> ProviderId {
    match provider {
        Some(p) => p,
        None => if priority.len() > 0 {
            priority[0]
        } else {
            default_provider()
        },
    }
}

/// Whom to ask for a download: the list of priorities where falling back is
/// wanted and no provider is named; else the one that is named, or the first of
/// that list, or the usual one.
pub fn route(provider: Option<ProviderId>, priority: &[ProviderId], fallback: bool) -> (r: Route)
    ensures
        match r {
            Route::Fallback(order) => fallback && provider is None && order@ == priority@,
            Route::Single(id) => !(fallback && provider is None) && id == single(
                provider,
                priority@,
            ),
        },
{
    match provider {
        Some(p) => Route::Single(p),
        None => if fallback {
            Route::Fallback(copy(priority))
        } else if priority.len() > 0 {
            Route::Single(priority[0])
        } else {
            Route::Single(usual_provider())
        },
    }
}

/// What is told before a package is resolved by the first of a list that can.
pub open spec fn resolving_first(pkg: Seq<char>, order: Seq<ProviderId>) -> Seq<char> {
    "resolving "@ + pkg + " (fallback: "@ + model::joined(layout::names_of(order), " -> "@)
        + ")..."@
}

/// What is told before a package is resolved by one provider.
pub open spec fn resolving_by(pkg: Seq<char>, id: ProviderId) -> Seq<char> {
    "resolving "@ + pkg + " via "@ + common::id_name(id) + "..."@
}

/// What is told before a package is resolved.
pub open spec fn resolving(pkg: Seq<char>, route: Route) -> Seq<char> {
    match route {
        Route::Fallback(order) => resolving_first(pkg, order@),
        Route::Single(id) => resolving_by(pkg, id),
    }
}

/// What is told before a package is resolved.
pub fn resolving_text(pkg: &str, route: &Route) -> (r: String)
    ensures
        r@ == resolving(pkg@, *route),
{
    match route {
        Route::Fallback(order) => {
            let mut names: Vec<String> = Vec::new();
            let mut i: usize = 0;
            while i < order.len()
                invariant
                    i <= order@.len(),
                    model::texts(names@) == layout::names_of(order@).take(i as int),
                decreases order@.len() - i,
            {
                let ghost before = names@;
                names.push(order[i].to_string());
                assert(model::texts(names@) == model::texts(before).push(
                    common::id_name(order@[i as int]),
                ));
                assert(model::texts(names@) == layout::names_of(order@).take(i + 1));
                i += 1;
            }
            assert(layout::names_of(order@).take(order@.len() as int) == layout::names_of(order@));
            let chain = join(&names, " -> ");
            let mut out = plus3("resolving ", pkg, " (fallback: ");
            out.append(chain.as_str());
            out.append(")...");
            out
        },
        Route::Single(id) => {
            let mut out = plus3("resolving ", pkg, " via ");
            out.append(id.as_str());
            out.append("...");
            out
        },
    }
}

/// Resolves a download: with the providers of the list of priorities one after the
/// other where falling back is wanted and no provider is named, else with one alone.
/// The user is told whom is asked.
pub fn get<P: Provider, N: Fn(String)>(
    registry: &ProviderRegistry<P>,
    pkg: &str,
    version: Option<&str>,
    provider: Option<ProviderId>,
    priority: &[ProviderId],
    arch: &str,
    fallback: bool,
    tell: N,
) -> (r: Result<DownloadTarget, AppError>)
    requires
        registry.wf(),
        if fallback && provider is None {
            forall|i: int| 0 <= i < priority@.len() ==> registry.has(#[trigger] priority@[i])
        } else {
            registry.has(single(provider, priority@))
        },
        forall|t: String| #[trigger] call_requires(tell, (t,)),
    ensures
        exists|t: String| #[trigger]
            call_ensures(tell, (t,), ()) && t@ == if fallback && provider is None {
                resolving_first(pkg@, priority@)
            } else {
                resolving_by(pkg@, single(provider, priority@))
            },
        if fallback && provider is None {
            exists|outcome: Result<DownloadTarget, ResolveError>|
                {
                    &&& #[trigger] registry.resolves(pkg, version, arch, priority@, outcome)
                    &&& match outcome {
                        Ok(target) => r == Ok::<DownloadTarget, AppError>(target),
                        Err(e) => r matches Err(f) && f@ == unresolved(e),
                    }
                }
        } else {
            exists|outcome: Result<DownloadTarget, ProviderError>|
                {
                    &&& #[trigger] registry.answers(
                        single(provider, priority@),
                        pkg,
                        version,
                        arch,
                        outcome,
                    )
                    &&& match outcome {
                        Ok(target) => r == Ok::<DownloadTarget, AppError>(target),
                        Err(e) => r matches Err(f) && f@ == failed(
                            (contract::FailureView {
                                provider: single(provider, priority@),
                                source: e@,
                            }),
                        ),
                    }
                }
        },
{
    let way = route(provider, priority, fallback);
    let t = resolving_text(pkg, &way);
    tell(t);
    assert(call_ensures(tell, (t,), ()));
    match way {
        Route::Fallback(_) => {
            let outcome = registry.resolve_with_fallback(pkg, version, arch, priority);
            assert(registry.resolves(pkg, version, arch, priority@, outcome));
            match outcome {
                Ok(target) => Ok(target),
                Err(e) => Err(resolve_err(&e)),
            }
        },
        Route::Single(id) => match registry.download_url(id, pkg, version, arch) {
            Ok(target) => Ok(target),
            Err(f) => Err(provider_fail(&f)),
        },
    }
}

/// How a download that failed ends.
pub open spec fn download_failure(e: contract::ErrorView) -> exit::AppErrorView {
    exit::AppErrorView {
        code: error_code(e),
        source: "download failed: "@ + contract::error_text(e),
    }
}

/// How a download that failed ends.
pub fn download_failed(e: &ProviderError) -> (r: AppError)
    ensures
        r@ == download_failure(e@),
{
    let why = e.to_string();
    AppError { code: provider_error_code(e), source: plus("download failed: ", why.as_str()) }
}

/// What is told of a package that was saved.
#[derive(Debug)]
pub struct Saved {
    pub path: String,
    pub provider: ProviderId,
    pub version: Option<String>,
    pub arch: Option<String>,
}

/// Ends after the download of a target.
pub fn saved(target: DownloadTarget, download: Result<String, ProviderError>) -> (r: Result<
    Saved,
    AppError,
>)
    ensures
        match download {
            Ok(path) => r matches Ok(s) && s.path == path && s.provider == target.provider
                && s.version == target.version && s.arch == target.arch,
            Err(e) => r matches Err(f) && f@ == download_failure(e@),
        },
{
    match download {
        Ok(path) => Ok(
            Saved {
                path,
                provider: target.provider,
                version: target.version,
                arch: target.arch,
            },
        ),
        Err(e) => Err(download_failed(&e)),
    }
}

/// The place of a provider in the usual order, from 1 on.
pub open spec fn priority_rank(id: ProviderId) -> Option<usize> {
    match id {
        ProviderId::Apkcombo => Some(1),
        ProviderId::Apkpure => Some(2),
        ProviderId::Apkmirror => Some(3),
    }
}

/// The place of a provider in the usual order, from 1 on.
pub fn rank(id: ProviderId) -> (r: Option<usize>)
    ensures
        r == priority_rank(id),
{
    let usual = ProviderId::default_priority();
    let mut i: usize = 0;
    while i < usual.len()
        invariant
            i <= usual@.len(),
            usual@ == common::priority(),
            forall|j: int| 0 <= j < i ==> usual@[j] != id,
        decreases usual@.len() - i,
    {
        if usual[i] == id {
            return Some(i + 1);
        }
        i += 1;
    }
    None
}

/// The places are those of the usual order.
pub proof fn lemma_rank(id: ProviderId)
    ensures
        priority_rank(id) matches Some(n) && 1 <= n <= common::priority().len() && common::priority()[
            n - 1] == id,
{
}

/// How a provider is listed.
pub fn provider_line(id: ProviderId) -> (r: String)
    ensures
        r@ == common::id_name(id) + "  (priority "@ + model::decimal(priority_rank(id)->0 as nat)
            + ")"@,
{
    let digits = match rank(id) {
        Some(n) => crate::numbers::decimal_text(n as u64),
        None => "".to_owned(),
    };
    plus4(id.as_str(), "  (priority ", digits.as_str(), ")")
}

/// The providers of the registry, each with its place in the usual order.
pub fn providers_list<P: Provider>(registry: &ProviderRegistry<P>) -> (r: Vec<
    (ProviderId, Option<usize>),
>)
    ensures
        r@ == Seq::new(
            registry.ids().len(),
            |i: int| (registry.ids()[i], priority_rank(registry.ids()[i])),
        ),
{
    let names = registry.names();
    let mut out: Vec<(ProviderId, Option<usize>)> = Vec::new();
    let mut i: usize = 0;
    while i < names.len()
        invariant
            i <= names@.len(),
            out@ == Seq::new(i as nat, |j: int| (names@[j], priority_rank(names@[j]))),
        decreases names@.len() - i,
    {
        out.push((names[i], rank(names[i])));
        assert(out@ == Seq::new((i + 1) as nat, |j: int| (names@[j], priority_rank(names@[j]))));
        i += 1;
    }
    assert(out@ == Seq::new(
        registry.ids().len(),
        |i: int| (registry.ids()[i], priority_rank(registry.ids()[i])),
    ));
    out
}

/// The providers to check: the one that is named, else all that are registered.
pub open spec fn to_check(name: Option<ProviderId>, registered: Seq<ProviderId>) -> Seq<ProviderId> {
    match name {
        Some(n) => seq![n],
        None => registered,
    }
}

/// The providers to check.
pub fn check_targets(name: Option<ProviderId>, registered: &[ProviderId]) -> (r: Vec<ProviderId>)
    ensures
        r@ == to_check(name, registered@),
{
    match name {
        Some(n) => only(n),
        None => copy(registered),
    }
}

/// A check of providers: each once, one after the other.
pub struct Checks {
    /// The providers to check, in order.
    pub ids: Vec<ProviderId>,
    /// Every provider that was checked, with `ok` or its error.
    pub results: Vec<(ProviderId, String)>,
    /// The last failure.
    pub worst: Option<AppError>,
}

/// What a [`Checks`] says.
pub struct ChecksView {
    pub ids: Seq<ProviderId>,
    pub results: Seq<(ProviderId, Seq<char>)>,
    pub worst: Option<exit::AppErrorView>,
}

/// What is found of providers.
pub open spec fn results_view(results: Seq<(ProviderId, String)>) -> Seq<(ProviderId, Seq<char>)> {
    Seq::new(results.len(), |i: int| (results[i].0, results[i].1@))
}

impl View for Checks {
    type V = ChecksView;

    open spec fn view(&self) -> ChecksView {
        ChecksView {
            ids: self.ids@,
            results: results_view(self.results@),
            worst: error_view(self.worst),
        }
    }
}

/// `ok`, or the error of a provider that was checked.
pub open spec fn status(answer: Result<(), ProviderFailure>) -> Seq<char> {
    match answer {
        Ok(_) => "ok"@,
        Err(f) => contract::error_text(f@.source),
    }
}

/// What is told of a provider that was checked.
pub open spec fn check_line(id: ProviderId, answer: Result<(), ProviderFailure>) -> Seq<char> {
    match answer {
        Ok(_) => common::id_name(id) + ": ok"@,
        Err(f) => contract::failure_text(f@),
    }
}

impl Checks {
    /// Nobody has been checked.
    pub fn start(ids: Vec<ProviderId>) -> (r: Checks)
        ensures
            r@ == (ChecksView {
                ids: ids@,
                results: Seq::<(ProviderId, Seq<char>)>::empty(),
                worst: None,
            }),
    {
        let r = Checks { ids, results: Vec::new(), worst: None };
        assert(r@.results == Seq::<(ProviderId, Seq<char>)>::empty());
        r
    }

    /// The provider to check next; none where everyone has been checked.
    pub fn next(&self) -> (r: Option<ProviderId>)
        ensures
            r == if self@.results.len() < self@.ids.len() {
                Some(self@.ids[self@.results.len() as int])
            } else {
                None
            },
    {
        if self.results.len() < self.ids.len() {
            Some(self.ids[self.results.len()])
        } else {
            None
        }
    }

    /// Takes in the check of the next provider, and says what to tell of it.
    pub fn absorb(&mut self, answer: Result<(), ProviderFailure>) -> (r: String)
        requires
            old(self)@.results.len() < old(self)@.ids.len(),
        ensures
            ({
                let id = old(self)@.ids[old(self)@.results.len() as int];
                &&& r@ == check_line(id, answer)
                &&& final(self)@ == (ChecksView {
                    ids: old(self)@.ids,
                    results: old(self)@.results.push((id, status(answer))),
                    worst: match answer {
                        Ok(_) => old(self)@.worst,
                        Err(f) => Some(failed(f@)),
                    },
                })
            }),
    {
        let ghost before = self@;
        let id = self.ids[self.results.len()];
        match answer {
            Ok(_) => {
                self.results.push((id, "ok".to_owned()));
                assert(self@.results == before.results.push((id, "ok"@)));
                plus(id.as_str(), ": ok")
            },
            Err(f) => {
                let text = f.source.to_string();
                let ghost said = text@;
                self.results.push((id, text));
                self.worst = Some(provider_fail(&f));
                assert(self@.results == before.results.push((id, said)));
                f.to_string()
            },
        }
    }

    /// How the checks end: with a failure only where one provider was named and it
    /// failed.
    pub fn finish(self, name: Option<ProviderId>) -> (r: (
        Vec<(ProviderId, String)>,
        Option<AppError>,
    ))
        ensures
            results_view(r.0@) == self@.results,
            error_view(r.1) == if name is Some {
                self@.worst
            } else {
                None
            },
    {
        match name {
            Some(_) => (self.results, self.worst),
            None => (self.results, None),
        }
    }
}

/// `answer` is one that the provider `id` can give to a check.
pub open spec fn checks<P: Provider>(
    registry: ProviderRegistry<P>,
    id: ProviderId,
    answer: Result<(), ProviderFailure>,
) -> bool {
    exists|a: Result<(), ProviderError>|
        #[trigger] call_ensures(P::check, (&registry.chosen(id),), a) && answer
            == contract::tagged(a, id)
}

/// Whether `answers` are those of providers to a check, one for each in order.
pub open spec fn checked_all<P: Provider>(
    registry: ProviderRegistry<P>,
    ids: Seq<ProviderId>,
    answers: Seq<Result<(), ProviderFailure>>,
) -> bool {
    &&& answers.len() == ids.len()
    &&& forall|i: int| 0 <= i < ids.len() ==> checks(registry, ids[i], #[trigger] answers[i])
}

/// Whether `tell` was told whether a provider is well, and what was found.
pub open spec fn told_check<N: Fn(bool, String)>(
    tell: N,
    id: ProviderId,
    answer: Result<(), ProviderFailure>,
) -> bool {
    exists|t: String|
        t@ == check_line(id, answer) && #[trigger] call_ensures(tell, (answer is Ok, t), ())
}

/// Checks the named provider, or every one that is registered, once and in order. The
/// user is told of each as it comes, unless the outcome is collected. It ends with a
/// failure only where one provider was named and it failed.
pub fn providers_check<P: Provider, N: Fn(bool, String)>(
    registry: &ProviderRegistry<P>,
    name: Option<ProviderId>,
    json: bool,
    tell: N,
) -> (r: (Vec<(ProviderId, String)>, Option<AppError>))
    requires
        registry.wf(),
        name matches Some(n) ==> registry.has(n),
        forall|ok: bool, t: String| #[trigger] call_requires(tell, (ok, t)),
    ensures
        exists|answers: Seq<Result<(), ProviderFailure>>|
            {
                &&& #[trigger] checked_all(*registry, to_check(name, registry.ids()), answers)
                &&& r.0@.len() == answers.len()
                &&& forall|i: int|
                    0 <= i < answers.len() ==> {
                        let id = to_check(name, registry.ids())[i];
                        &&& r.0@[i].0 == id
                        &&& r.0@[i].1@ == status(#[trigger] answers[i])
                        &&& json || told_check(tell, id, answers[i])
                    }
                &&& match r.1 {
                    Some(e) => name is Some && (answers[0] matches Err(f) && e@ == failed(f@)),
                    None => name is Some ==> answers[0] is Ok,
                }
            },
{
    let names = registry.names();
    let ids = check_targets(name, &names);
    let ghost all = ids@;
    assert forall|i: int| 0 <= i < all.len() implies registry.has(#[trigger] all[i]) by {
        if name is None {
            contract::lemma_registered(registry.ids(), i);
        }
    }
    let mut checking = Checks::start(ids);
    let ghost mut answers = Seq::<Result<(), ProviderFailure>>::empty();
    loop
        invariant_except_break
            answers.len() <= all.len(),
        invariant
            registry.wf(),
            forall|i: int| 0 <= i < all.len() ==> registry.has(#[trigger] all[i]),
            forall|ok: bool, t: String| #[trigger] call_requires(tell, (ok, t)),
            checking@.ids == all,
            checking@.results.len() == answers.len(),
            checking@.worst == match last_failure(answers) {
                Some(f) => Some(failed(f@)),
                None => None,
            },
            forall|i: int|
                0 <= i < answers.len() ==> {
                    &&& checks(*registry, all[i], #[trigger] answers[i])
                    &&& checking@.results[i] == (all[i], status(answers[i]))
                    &&& json || told_check(tell, all[i], answers[i])
                },
        ensures
            answers.len() == all.len(),
        decreases all.len() - answers.len(),
    {
        let id = match checking.next() {
            Some(id) => id,
            None => {
                break ;
            },
        };
        let answer = registry.check(id);
        let ok = answer.is_ok();
        let ghost a = answer;
        let ghost before = answers;
        let t = checking.absorb(answer);
        if !json {
            tell(ok, t);
            assert(call_ensures(tell, (ok, t), ()));
            assert(told_check(tell, id, a));
        }
        proof {
            answers = before.push(a);
            assert(answers.drop_last() == before);
        }
    }
    let ghost found = checking@.results;
    let ghost worst = checking@.worst;
    let r = checking.finish(name);
    proof {
        if name is Some {
            assert(answers.len() == 1);
            assert(answers.drop_last() == Seq::<Result<(), ProviderFailure>>::empty());
            assert(answers.last() == answers[0]);
            assert(worst == match answers[0] {
                Err(f) => Some(failed(f@)),
                Ok(_) => None,
            });
        }
        assert(results_view(r.0@).len() == found.len());
        assert forall|i: int| 0 <= i < all.len() implies r.0@[i].0 == all[i] && r.0@[i].1@ == status(
            #[trigger] answers[i],
        ) by {
            assert(results_view(r.0@)[i] == found[i]);
            assert(found[i] == (all[i], status(answers[i])));
        }
        assert(checked_all(*registry, all, answers));
    }
    r
}

} // verus!
