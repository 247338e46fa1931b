//! Laws of the commands: exit codes, tables, searches, routes and checks.

use crate::cli::commands as layout;
use crate::cli::commands::Notice;
use crate::cli::exit;
use crate::common::contract as common;
use crate::common::contract::ProviderId;
use crate::common::fallback;
use crate::model;
use crate::textual::commands;
use crate::textual::commands::SearchView;
use crate::textual::contract;
use crate::textual::contract::{
    AppResult, DownloadTarget, Provider, ProviderError, ProviderFailure, ProviderRegistry,
};
use crate::textual::named;
use vstd::prelude::*;

verus! {

/// The exit code of a failure tells a missing package, a site that blocks and a network that
/// does not answer from everything else.
pub proof fn lemma_codes(e: contract::ErrorView, f: contract::FailureView)
    ensures
        commands::error_code(e) == 3 <==> e is NotFound,
        commands::error_code(e) == 4 <==> e is Blocked || e is RateLimited,
        commands::error_code(e) == 5 <==> e is Network,
        commands::error_code(e) == 1 <==> e is ParseError,
        commands::failed(f).code == commands::error_code(f.source),
        commands::failed(f).source == contract::failure_text(f),
        commands::download_failure(e).code == commands::error_code(e),
        commands::download_failure(e).source == "download failed: "@ + contract::error_text(e),
{
}

/// The exit code of a package that nobody has: missing where all say so, blocked where all
/// block, the network where one failed by it and neither of these holds, and else the general
/// one.
pub proof fn lemma_resolve_code(fs: Seq<contract::FailureView>)
    ensures
        ({
            let missing = fs.len() > 0 && forall|i: int|
                0 <= i < fs.len() ==> (#[trigger] fs[i]).source is NotFound;
            let refused = fs.len() > 0 && forall|i: int|
                0 <= i < fs.len() ==> (#[trigger] fs[i]).source is Blocked
                    || fs[i].source is RateLimited;
            let unreached = exists|i: int| 0 <= i < fs.len() && (#[trigger] fs[i]).source is Network;
            &&& commands::resolve_code(fs) == 3 <==> missing
            &&& commands::resolve_code(fs) == 4 <==> refused
            &&& commands::resolve_code(fs) == 5 <==> unreached
            &&& commands::resolve_code(fs) == 1 <==> !missing && !refused && !unreached
        }),
{
    if fs.len() > 0 {
        assert(fs[0] == fs[0]);
    }
    assert forall|i: int| 0 <= i < fs.len() implies contract::is_block((#[trigger] fs[i]).source)
        == (fs[i].source is Blocked || fs[i].source is RateLimited) by {}
    if commands::all_refused(fs) {
        assert(contract::is_block(fs[0].source));
        assert forall|i: int| 0 <= i < fs.len() implies !((#[trigger] fs[i]).source is Network) by {
            assert(contract::is_block(fs[i].source));
        }
    }
}

/// The error of a package that nobody has.
pub proof fn lemma_unresolved(e: contract::ResolveError)
    ensures
        commands::unresolved(e).code == commands::resolve_code(model::views(e.attempts@)),
        commands::unresolved(e).source == contract::resolve_text(
            e.pkg@,
            model::views(e.attempts@),
        ),
{
}

/// A table of apps: titles in one column and, where any app has a version, versions in the
/// next, each as wide as its widest cell.
pub proof fn lemma_rendered(rs: Seq<contract::AppView>)
    ensures
        ({
            let titles = Seq::new(rs.len(), |i: int| Some(rs[i].title));
            let versions = Seq::new(rs.len(), |i: int| rs[i].version);
            let tw = layout::widest(titles);
            let vw = layout::widest(versions);
            &&& commands::rendered(rs).len() == rs.len()
            &&& forall|i: int|
                0 <= i < rs.len() ==> {
                    let line = #[trigger] commands::rendered(rs)[i];
                    &&& line.title == layout::padded(rs[i].title, tw)
                    &&& line.package == rs[i].package
                    &&& vw == 0 ==> line.version is None
                    &&& vw > 0 && rs[i].version is Some ==> line.version == Some(
                        layout::padded(rs[i].version->0, vw),
                    )
                    &&& vw > 0 && rs[i].version is None ==> line.version == Some(
                        layout::padded(Seq::<char>::empty(), vw),
                    )
                }
        }),
{
    reveal_strlit("");
    assert(""@ == Seq::<char>::empty());
    assert(commands::titles(rs) == Seq::new(rs.len(), |i: int| Some(rs[i].title)));
    assert(commands::versions_of(rs) == Seq::new(rs.len(), |i: int| rs[i].version));
}

/// Whom a search asks: everyone that is registered where all are wanted, else those that are
/// named, else APKCombo.
pub proof fn lemma_targets(named: Seq<ProviderId>, registered: Seq<ProviderId>)
    ensures
        commands::targets(true, named, registered) == registered,
        named.len() > 0 ==> commands::targets(false, named, registered) == named,
        named.len() == 0 ==> commands::targets(false, named, registered) == seq![
            ProviderId::Apkcombo,
        ],
{
}

/// Whom a listing and a download ask: the one that is named; else APKCombo, or for a download
/// the first of the order where there is one.
pub proof fn lemma_single(p: ProviderId, order: Seq<ProviderId>)
    ensures
        commands::chosen_provider(Some(p)) == p,
        commands::chosen_provider(None) == ProviderId::Apkcombo,
        commands::single(Some(p), order) == p,
        order.len() > 0 ==> commands::single(None, order) == order[0],
        order.len() == 0 ==> commands::single(None, order) == ProviderId::Apkcombo,
{
}

/// A search before anyone was asked, and who is asked next: those of the list in order, until
/// all have been.
pub proof fn lemma_search_order(s: SearchView, json: bool, ids: Seq<ProviderId>)
    ensures
        ({
            let f = commands::fresh(json, ids);
            f.json == json && f.ids == ids && f.asked == 0 && !f.hit && f.last is None
                && f.merged.len() == 0
        }),
        s.asked < s.ids.len() ==> commands::upcoming(s) == Some(s.ids[s.asked as int]),
        s.asked >= s.ids.len() ==> commands::upcoming(s) is None,
{
}

/// One more answer: the next provider has been asked. Rows are a hit, and are kept where
/// answers are collected; no rows change nothing; a failure becomes the last one and ends
/// nothing.
pub proof fn lemma_search_step(s: SearchView, rows: Vec<AppResult>, f: ProviderFailure)
    ensures
        ({
            let t = commands::absorbed(s, Ok(rows));
            let u = commands::absorbed(s, Err(f));
            &&& t.asked == s.asked + 1 && u.asked == s.asked + 1
            &&& t.ids == s.ids && u.ids == s.ids && t.json == s.json && u.json == s.json
            &&& t.last == s.last && u.last == Some(commands::failed(f@))
            &&& u.hit == s.hit && u.merged == s.merged
            &&& t.hit == (s.hit || rows@.len() > 0)
            &&& s.json ==> t.merged == s.merged + rows@
            &&& !s.json ==> t.merged == s.merged
        }),
{
    if rows@.len() == 0 {
        assert(s.merged + rows@ == s.merged);
    }
}

/// How a search ends: with what was collected; with an error only without a hit, and then with
/// the last failure, or as not found.
pub proof fn lemma_search_end(s: SearchView, query: Seq<char>)
    ensures
        commands::ended(s, query).0 == s.merged,
        s.hit ==> commands::ended(s, query).1 is None,
        !s.hit && s.last is Some ==> commands::ended(s, query).1 == s.last,
        !s.hit && s.last is None ==> commands::ended(s, query).1 == Some(
            exit::AppErrorView { code: 3, source: "no results for '"@ + query + "'"@ },
        ),
{
}

/// Answers are taken in one after the other.
pub proof fn lemma_searched(
    json: bool,
    ids: Seq<ProviderId>,
    answers: Seq<Result<Vec<AppResult>, ProviderFailure>>,
    a: Result<Vec<AppResult>, ProviderFailure>,
)
    ensures
        commands::searched(json, ids, Seq::<Result<Vec<AppResult>, ProviderFailure>>::empty())
            == commands::fresh(json, ids),
        commands::searched(json, ids, answers.push(a)) == commands::absorbed(
            commands::searched(json, ids, answers),
            a,
        ),
{
    assert(answers.push(a).drop_last() == answers);
}

/// What the answers hold together, who answered with something, and the last failure.
pub proof fn lemma_gathered(
    answers: Seq<Result<Vec<AppResult>, ProviderFailure>>,
    rows: Vec<AppResult>,
    f: ProviderFailure,
)
    ensures
        commands::gathered(Seq::<Result<Vec<AppResult>, ProviderFailure>>::empty()).len() == 0,
        commands::gathered(answers.push(Ok(rows))) == commands::gathered(answers) + rows@,
        commands::gathered(answers.push(Err(f))) == commands::gathered(answers),
        commands::fruitful(Ok(rows)) <==> rows@.len() > 0,
        !commands::fruitful(Err(f)),
        commands::last_failure(Seq::<Result<Vec<AppResult>, ProviderFailure>>::empty()) is None,
        commands::last_failure(answers.push(Ok(rows))) == commands::last_failure(answers),
        commands::last_failure(answers.push(Err(f))) == Some(f),
{
    assert(answers.push(Ok(rows)).drop_last() == answers);
    assert(answers.push(Err(f)).drop_last() == answers);
}

/// Every provider of a search is asked for the query, once and in order, and its answer is
/// its own.
pub proof fn lemma_answered<P: Provider>(
    registry: ProviderRegistry<P>,
    ids: Seq<ProviderId>,
    query: &str,
    answers: Seq<Result<Vec<AppResult>, ProviderFailure>>,
    i: int,
)
    requires
        commands::answered(registry, ids, query, answers),
        0 <= i < ids.len(),
    ensures
        answers.len() == ids.len(),
        answers[i] matches Ok(rows) ==> call_ensures(
            P::search,
            (&registry.chosen(ids[i]), query),
            Ok::<Vec<AppResult>, ProviderError>(rows),
        ),
        answers[i] matches Err(f) ==> f.provider == ids[i] && call_ensures(
            P::search,
            (&registry.chosen(ids[i]), query),
            Err::<Vec<AppResult>, ProviderError>(f.source),
        ),
{
    assert(commands::searches(registry, ids[i], query, answers[i]));
}

/// Of every provider it is told that it is searched, and what it answered: its rows, that there
/// are none, or why it failed.
pub proof fn lemma_told<N: Fn(Notice<AppResult>)>(
    tell: N,
    id: ProviderId,
    rows: Vec<AppResult>,
    f: ProviderFailure,
)
    ensures
        commands::told(tell, id, Ok(rows)) || commands::told(tell, id, Err(f)) ==> exists|t: String|
            t@ == "searching"@ + " "@ + common::id_name(id) + "..."@ && #[trigger] call_ensures(
                tell,
                (Notice::Asking(t),),
                (),
            ),
        commands::told(tell, id, Ok(rows)) && rows@.len() > 0 ==> call_ensures(
            tell,
            (Notice::Show(id, rows),),
            (),
        ),
        commands::told(tell, id, Ok(rows)) && rows@.len() == 0 ==> exists|t: String|
            t@ == common::id_name(id) + ": no results"@ && #[trigger] call_ensures(
                tell,
                (Notice::Warn(t),),
                (),
            ),
        commands::told(tell, id, Err(f)) ==> exists|t: String|
            t@ == common::id_name(f.provider) + ": "@ + contract::error_text(f.source@)
                && #[trigger] call_ensures(tell, (Notice::Warn(t),), ()),
{
}

/// What is told before a package is resolved.
pub proof fn lemma_resolving(pkg: Seq<char>, id: ProviderId, order: Vec<ProviderId>)
    ensures
        commands::resolving(pkg, commands::Route::Single(id)) == "resolving "@ + pkg + " via "@
            + common::id_name(id) + "..."@,
        commands::resolving(pkg, commands::Route::Fallback(order)) == "resolving "@ + pkg
            + " (fallback: "@ + model::joined(
            Seq::new(order@.len(), |i: int| common::id_name(order@[i])),
            " -> "@,
        ) + ")..."@,
{
    assert(layout::names_of(order@) == Seq::new(
        order@.len(),
        |i: int| common::id_name(order@[i]),
    ));
}

/// Every provider of an order that was asked for a package was asked for that package, that
/// version and that ABI, and is the first that has the identity.
pub proof fn lemma_asked<P: Provider>(
    registry: ProviderRegistry<P>,
    pkg: &str,
    version: Option<&str>,
    arch: &str,
    order: Seq<ProviderId>,
    answers: Seq<Result<DownloadTarget, ProviderError>>,
    i: int,
)
    requires
        registry.asked(pkg, version, arch, order, answers),
        0 <= i < answers.len(),
    ensures
        i < order.len(),
        call_ensures(
            P::download_url,
            (
                &registry.providers()[contract::position(registry.ids(), order[i])->0],
                pkg,
                version,
                arch,
            ),
            answers[i],
        ),
{
    assert(registry.answers(order[i], pkg, version, arch, answers[i]));
}

/// The same of providers that are known by name.
pub proof fn lemma_named_asked<P: named::Provider>(
    registry: named::ProviderRegistry<P>,
    pkg: &str,
    version: Option<&str>,
    at: Seq<int>,
    answers: Seq<Result<named::DownloadTarget, named::ProviderError>>,
    i: int,
)
    requires
        registry.asked(pkg, version, at, answers),
        0 <= i < answers.len(),
    ensures
        i < at.len(),
        call_ensures(P::download_url, (&registry.providers()[at[i]], pkg, version), answers[i]),
{
    assert(registry.answers(at[i], pkg, version, answers[i]));
}

/// The usual order of providers, counted from 1.
pub proof fn lemma_ranks()
    ensures
        commands::priority_rank(ProviderId::Apkcombo) == Some(1usize),
        commands::priority_rank(ProviderId::Apkpure) == Some(2usize),
        commands::priority_rank(ProviderId::Apkmirror) == Some(3usize),
{
}

/// Who is checked: the one that is named, else everyone; and what is told of each.
pub proof fn lemma_checks(
    id: ProviderId,
    registered: Seq<ProviderId>,
    f: ProviderFailure,
)
    ensures
        commands::to_check(Some(id), registered) == seq![id],
        commands::to_check(None, registered) == registered,
        commands::status(Ok(())) == "ok"@,
        commands::status(Err(f)) == contract::error_text(f.source@),
        commands::check_line(id, Ok(())) == common::id_name(id) + ": ok"@,
        commands::check_line(id, Err(f)) == common::id_name(f.provider) + ": "@
            + contract::error_text(f.source@),
{
}

/// Every provider that is checked is reached once, in order, and its answer is its own.
pub proof fn lemma_checked<P: Provider, N: Fn(bool, String)>(
    registry: ProviderRegistry<P>,
    ids: Seq<ProviderId>,
    answers: Seq<Result<(), ProviderFailure>>,
    tell: N,
    i: int,
)
    requires
        commands::checked_all(registry, ids, answers),
        0 <= i < ids.len(),
        commands::told_check(tell, ids[i], answers[i]),
    ensures
        answers.len() == ids.len(),
        answers[i] is Ok ==> call_ensures(
            P::check,
            (&registry.chosen(ids[i]),),
            Ok::<(), ProviderError>(()),
        ),
        answers[i] matches Err(f) ==> f.provider == ids[i] && call_ensures(
            P::check,
            (&registry.chosen(ids[i]),),
            Err::<(), ProviderError>(f.source),
        ),
        exists|t: String|
            t@ == commands::check_line(ids[i], answers[i]) && #[trigger] call_ensures(
                tell,
                (answers[i] is Ok, t),
                (),
            ),
{
    assert(commands::checks(registry, ids[i], answers[i]));
}

/// What a package resolves to comes from one run of answers: those of providers that were asked
/// for it in order, and nothing else.
pub proof fn lemma_resolves<P: Provider>(
    registry: ProviderRegistry<P>,
    pkg: &str,
    version: Option<&str>,
    arch: &str,
    order: Seq<ProviderId>,
    outcome: Result<DownloadTarget, contract::ResolveError>,
)
    requires
        registry.resolves(pkg, version, arch, order, outcome),
    ensures
        exists|answers: Seq<Result<DownloadTarget, ProviderError>>|
            {
                &&& #[trigger] registry.asked(pkg, version, arch, order, answers)
                &&& fallback::exhausted(order.len(), answers)
                &&& contract::comes_to(pkg@, order, answers, outcome)
            },
{
}

/// The same of providers that are known by name.
pub proof fn lemma_named_resolves<P: named::Provider>(
    registry: named::ProviderRegistry<P>,
    pkg: &str,
    version: Option<&str>,
    at: Seq<int>,
    outcome: Result<named::DownloadTarget, named::ResolveError>,
)
    requires
        registry.resolves(pkg, version, at, outcome),
    ensures
        exists|answers: Seq<Result<named::DownloadTarget, named::ProviderError>>|
            {
                &&& #[trigger] registry.asked(pkg, version, at, answers)
                &&& fallback::exhausted(at.len(), answers)
                &&& registry.comes_to(pkg@, at, answers, outcome)
            },
{
}

} // verus!
