//! Laws of the commands: tables, sweeps over providers, falling back and reports.

use crate::cli::commands;
use crate::cli::commands::{Check, Notice, Plan, RowView, SweepView};
use crate::cli::exit;
use crate::common::contract;
use crate::common::contract::{
    AppResult, Arch, DownloadTarget, ProviderError, ProviderFailure, ProviderId, ResolveError,
    VersionInfo,
};
use crate::common::fallback;
use crate::common::registry;
use crate::common::registry::{Provider, ProviderRegistry};
use crate::model;
use crate::outside;
use vstd::prelude::*;

verus! {

/// A cell is filled up with spaces to a width, and never cut.
pub proof fn lemma_padded(s: Seq<char>, w: nat)
    ensures
        ({
            let r = commands::padded(s, w);
            &&& r.len() >= s.len()
            &&& r.take(s.len() as int) == s
            &&& forall|i: int| s.len() <= i < r.len() ==> #[trigger] r[i] == ' '
            &&& outside::columns(s) >= w ==> r.len() == s.len()
            &&& outside::columns(s) < w ==> r.len() == s.len() + (w - outside::columns(s))
        }),
{
}

/// The widest cell: no cell is wider, and one is as wide, or there is none and it is 0.
pub proof fn lemma_widest(cells: Seq<Option<Seq<char>>>)
    ensures
        forall|i: int|
            0 <= i < cells.len() && (#[trigger] cells[i]) is Some ==> outside::columns(cells[i]->0)
                <= commands::widest(cells),
        commands::widest(cells) == 0 || exists|i: int|
            0 <= i < cells.len() && (#[trigger] cells[i]) is Some && outside::columns(cells[i]->0)
                == commands::widest(cells),
    decreases cells.len(),
{
    if cells.len() > 0 {
        let front = cells.drop_last();
        let n = cells.len() - 1;
        lemma_widest(front);
        assert forall|i: int| 0 <= i < cells.len() && (#[trigger] cells[i]) is Some implies outside::columns(
            cells[i]->0,
        ) <= commands::widest(cells) by {
            if i < n {
                assert(front[i] == cells[i]);
            }
        }
        if commands::widest(cells) != 0 {
            if commands::widest(cells) == commands::widest(front) {
                let i = choose|i: int|
                    0 <= i < front.len() && (#[trigger] front[i]) is Some && outside::columns(
                        front[i]->0,
                    ) == commands::widest(front);
                assert(cells[i] == front[i]);
            } else {
                assert(cells[n] == cells.last());
            }
        }
    }
}

/// The labels of rows stand in one column, as wide as the widest; what is said stays.
pub proof fn lemma_aligned(rows: Seq<RowView>)
    ensures
        commands::aligned(rows).len() == rows.len(),
        forall|i: int|
            0 <= i < rows.len() ==> (#[trigger] commands::aligned(rows)[i]).sub == rows[i].sub
                && commands::aligned(rows)[i].label == commands::padded(
                rows[i].label,
                commands::widest(Seq::new(rows.len(), |k: int| Some(rows[k].label))),
            ),
{
    assert(commands::labels(rows) == Seq::new(rows.len(), |k: int| Some(rows[k].label)));
}

/// A sweep before anyone was asked, and who is asked next: those of the list in order, until
/// all have been.
pub proof fn lemma_sweep_order<T>(s: SweepView<T>, json: bool, ids: Seq<ProviderId>)
    ensures
        ({
            let f = commands::fresh::<T>(json, ids);
            f.json == json && f.ids == ids && f.asked == 0 && !f.hit && f.last is None
                && f.merged.len() == 0
        }),
        s.asked < s.ids.len() ==> commands::upcoming(s) == Some(s.ids[s.asked as int]),
        s.asked >= s.ids.len() ==> commands::upcoming(s) is None,
{
}

/// One more answer: the next provider has been asked. Rows are a hit, and are kept with their
/// provider where answers are collected; no rows change nothing; a failure becomes the last
/// one and ends nothing.
pub proof fn lemma_sweep_step<T>(s: SweepView<T>, rows: Vec<T>, f: contract::FailureView)
    ensures
        ({
            let t = commands::absorbed(s, Ok(rows));
            let u = commands::absorbed(s, Err(f));
            &&& t.asked == s.asked + 1 && u.asked == s.asked + 1
            &&& t.ids == s.ids && u.ids == s.ids && t.json == s.json && u.json == s.json
            &&& t.last == s.last && u.last == Some(exit::failed(f))
            &&& u.hit == s.hit && u.merged == s.merged
            &&& t.hit == (s.hit || rows@.len() > 0)
            &&& rows@.len() > 0 && s.json ==> t.merged == s.merged.push(
                (s.ids[s.asked as int], rows),
            )
            &&& rows@.len() == 0 || !s.json ==> t.merged == s.merged
        }),
{
}

/// How a sweep ends: with what was collected where it was; with an error only without a hit,
/// and then with the last failure, or as not found where nothing was collected either.
pub proof fn lemma_sweep_end<T>(s: SweepView<T>, notfound: Seq<char>)
    ensures
        ({
            let (kept, e) = commands::ended(s, notfound);
            &&& s.json ==> kept == Some(s.merged)
            &&& !s.json ==> kept is None
            &&& s.hit ==> e is None
            &&& !s.hit && s.last is Some ==> e == s.last
            &&& !s.hit && s.last is None && s.json ==> e is None
            &&& !s.hit && s.last is None && !s.json ==> e == Some(
                exit::AppErrorView { code: 3, source: notfound },
            )
        }),
{
}

/// Answers are taken in one after the other.
pub proof fn lemma_swept<T>(
    json: bool,
    ids: Seq<ProviderId>,
    answers: Seq<Result<Vec<T>, contract::FailureView>>,
    a: Result<Vec<T>, contract::FailureView>,
)
    ensures
        commands::swept(json, ids, Seq::<Result<Vec<T>, contract::FailureView>>::empty())
            == commands::fresh::<T>(json, ids),
        commands::swept(json, ids, answers.push(a)) == commands::absorbed(
            commands::swept(json, ids, answers),
            a,
        ),
{
    assert(answers.push(a).drop_last() == answers);
}

/// The last failure is one behind which nobody failed.
pub proof fn lemma_last_failure<T>(answers: Seq<Result<Vec<T>, contract::FailureView>>)
    ensures
        match commands::last_failure(answers) {
            Some(f) => exists|i: int|
                0 <= i < answers.len() && #[trigger] answers[i] == Err::<
                    Vec<T>,
                    contract::FailureView,
                >(f) && forall|j: int| i < j < answers.len() ==> (#[trigger] answers[j]) is Ok,
            None => forall|j: int| 0 <= j < answers.len() ==> (#[trigger] answers[j]) is Ok,
        },
    decreases answers.len(),
{
    if answers.len() > 0 {
        let front = answers.drop_last();
        let n = answers.len() - 1;
        if answers.last() is Err {
            assert(answers[n] is Err);
        } else {
            lemma_last_failure(front);
            match commands::last_failure(front) {
                Some(f) => {
                    let i = choose|i: int|
                        0 <= i < front.len() && #[trigger] front[i] == Err::<
                            Vec<T>,
                            contract::FailureView,
                        >(f) && forall|j: int| i < j < front.len() ==> (#[trigger] front[j]) is Ok;
                    assert(answers[i] == front[i]);
                    assert forall|j: int| i < j < answers.len() implies (#[trigger] answers[j]) is Ok by {
                        if j < n {
                            assert(answers[j] == front[j]);
                        }
                    }
                },
                None => {
                    assert forall|j: int| 0 <= j < answers.len() implies (
                    #[trigger] answers[j]) is Ok by {
                        if j < n {
                            assert(answers[j] == front[j]);
                        }
                    }
                },
            }
        }
    }
}

/// The harvest: answers with rows, each with its provider, in order.
pub proof fn lemma_harvest<T>(
    ids: Seq<ProviderId>,
    answers: Seq<Result<Vec<T>, contract::FailureView>>,
    rows: Vec<T>,
    f: contract::FailureView,
)
    ensures
        commands::harvest(ids, Seq::<Result<Vec<T>, contract::FailureView>>::empty()).len() == 0,
        commands::harvest(ids, answers.push(Err(f))) == commands::harvest(ids, answers),
        rows@.len() == 0 ==> commands::harvest(ids, answers.push(Ok(rows))) == commands::harvest(
            ids,
            answers,
        ),
        rows@.len() > 0 ==> commands::harvest(ids, answers.push(Ok(rows))) == commands::harvest(
            ids,
            answers,
        ).push((ids[answers.len() as int], rows)),
        commands::fruitful(Ok::<Vec<T>, contract::FailureView>(rows)) <==> rows@.len() > 0,
        !commands::fruitful(Err::<Vec<T>, contract::FailureView>(f)),
{
    assert(answers.push(Err(f)).drop_last() == answers);
    assert(answers.push(Ok(rows)).drop_last() == answers);
}

/// What is told: whom is asked and by which order a package is resolved.
pub proof fn lemma_told(verb: Seq<char>, id: ProviderId, pkg: Seq<char>, ids: Seq<ProviderId>)
    ensures
        commands::announcement(verb, id) == verb + " "@ + contract::id_name(id) + "..."@,
        commands::resolving(pkg, ids) == "resolving "@ + pkg + " ("@ + model::joined(
            Seq::new(ids.len(), |i: int| contract::id_name(ids[i])),
            " -> "@,
        ) + ")..."@,
{
    assert(commands::names_of(ids) == Seq::new(ids.len(), |i: int| contract::id_name(ids[i])));
}

/// A download goes on just where the package was resolved: with that target, under a name of
/// the package, its version and its ABIs. Else it ends with every failure.
pub proof fn lemma_plans(
    pkg: Seq<char>,
    t: DownloadTarget,
    e: ResolveError,
    plan: Result<Plan, crate::cli::exit::AppError>,
)
    ensures
        commands::plans(pkg, Ok(t), plan) <==> plan is Ok && (plan->Ok_0).target == t && (
        plan->Ok_0).filename@ == contract::filename(pkg, t.version@, t.arch),
        commands::plans(pkg, Err(e), plan) <==> plan is Err && (plan->Err_0)@ == exit::unresolved(
            e.pkg@,
            model::views(e.attempts@),
        ),
{
}

/// A download that failed keeps the code of its reason; one that the user stopped is not told
/// as a failure.
pub proof fn lemma_download_failure(e: contract::ErrorView)
    ensures
        commands::download_failure(e).code == exit::error_code(e),
        e is Cancelled ==> commands::download_failure(e).source == "cancelled"@,
        !(e is Cancelled) ==> commands::download_failure(e).source == "download failed: "@
            + contract::error_text(e),
{
}

/// Providers are listed in order, from 1 on.
pub proof fn lemma_priorities(ids: Seq<ProviderId>)
    ensures
        commands::priorities(ids).len() == ids.len(),
        forall|i: int|
            0 <= i < ids.len() ==> #[trigger] commands::priorities(ids)[i] == (ids[i], i + 1),
{
}

/// What is told of a provider that was checked: its name, and that it is well or why not.
pub proof fn lemma_reports(c: Check, id: ProviderId, f: ProviderFailure)
    ensures
        commands::reports(c, id, Ok(())) <==> c.name == id && c.ok && c.status@ == "ok"@ && c.line@
            == contract::id_name(id) + ": ok"@,
        commands::reports(c, id, Err(f)) <==> c.name == id && !c.ok && c.status@
            == contract::error_text(f.source@) && c.line@ == contract::failure_text(f@),
{
}

/// An answer of a provider is its own, and its failure is attributed to it.
pub proof fn lemma_tagged<T>(v: T, e: ProviderError, id: ProviderId)
    ensures
        registry::tagged(Ok::<T, ProviderError>(v), id) == Ok::<T, ProviderFailure>(v),
        registry::tagged(Err::<T, ProviderError>(e), id) == Err::<T, ProviderFailure>(
            ProviderFailure { provider: id, source: e },
        ),
        registry::reached(Err(e)) == Err::<(), ProviderError>(e),
{
}

/// An identity is answered for by the first provider that has it, and by none behind the last
/// where none has it.
pub proof fn lemma_position(ids: Seq<ProviderId>, id: ProviderId)
    ensures
        0 <= registry::position(ids, id) <= ids.len(),
        registry::position(ids, id) < ids.len() <==> ids.contains(id),
        ids.contains(id) ==> ids[registry::position(ids, id)] == id,
        forall|j: int| 0 <= j < registry::position(ids, id) ==> #[trigger] ids[j] != id,
    decreases ids.len(),
{
    if ids.len() > 0 && ids[0] != id {
        let rest = ids.skip(1);
        lemma_position(rest, id);
        if ids.contains(id) {
            let k = ids.index_of(id);
            assert(rest[k - 1] == id);
        }
        if rest.contains(id) {
            let k = rest.index_of(id);
            assert(ids[k + 1] == id);
        }
        assert forall|j: int| 0 <= j < registry::position(ids, id) implies #[trigger] ids[j] != id by {
            if j > 0 {
                assert(rest[j - 1] == ids[j]);
            }
        }
    } else if ids.len() > 0 {
        assert(ids.contains(ids[0]));
    }
}

/// What resolving comes to: the target of the last answer where that is one, and then no
/// answer before it is; else the failures of all, each attributed to its provider.
pub proof fn lemma_comes_to(
    pkg: Seq<char>,
    ids: Seq<ProviderId>,
    answers: Seq<Result<DownloadTarget, ProviderError>>,
    outcome: Result<DownloadTarget, ResolveError>,
)
    requires
        fallback::exhausted(ids.len(), answers),
        registry::comes_to(pkg, ids, answers, outcome),
    ensures
        match outcome {
            Ok(t) => {
                &&& 0 < answers.len() <= ids.len()
                &&& answers[answers.len() - 1] == Ok::<DownloadTarget, ProviderError>(t)
                &&& forall|i: int| 0 <= i < answers.len() - 1 ==> (#[trigger] answers[i]) is Err
            },
            Err(e) => {
                &&& e.pkg@ == pkg
                &&& answers.len() == ids.len()
                &&& e.attempts@.len() == ids.len()
                &&& forall|i: int|
                    0 <= i < ids.len() ==> #[trigger] answers[i] == Err::<
                        DownloadTarget,
                        ProviderError,
                    >(e.attempts@[i].source) && e.attempts@[i].provider == ids[i]
            },
        },
{
    if let Err(e) = outcome {
        assert forall|i: int| 0 <= i < ids.len() implies #[trigger] answers[i] == Err::<
            DownloadTarget,
            ProviderError,
        >(e.attempts@[i].source) && e.attempts@[i].provider == ids[i] by {
            if i == answers.len() - 1 {
                assert(answers[i] == answers.last());
            }
            assert(answers[i] is Err);
            assert(registry::all_tagged(answers, ids)[i] == registry::tagged(answers[i], ids[i]));
        }
    }
}

/// Falling back: a success is kept and ends it; a failure is kept behind the others.
pub proof fn lemma_fallback_step<I, T, F>(s: fallback::FallbackView<I, T, F>, t: T, f: F)
    ensures
        fallback::absorbed(s, Ok(t)).found == Some(t),
        fallback::absorbed(s, Ok(t)).failures == s.failures,
        fallback::absorbed(s, Ok(t)).order == s.order,
        fallback::absorbed(s, Err(f)).found == s.found,
        fallback::absorbed(s, Err(f)).failures == s.failures.push(f),
        fallback::absorbed(s, Err(f)).order == s.order,
        fallback::upcoming(fallback::absorbed(s, Ok(t))) is None,
        s.found is None && s.failures.len() < s.order.len() ==> fallback::upcoming(s) == Some(
            s.order[s.failures.len() as int],
        ),
        s.found is Some || s.failures.len() >= s.order.len() ==> fallback::upcoming(s) is None,
        s.found matches Some(x) ==> fallback::ended(s) == Ok::<T, Seq<F>>(x),
        s.found is None ==> fallback::ended(s) == Err::<T, Seq<F>>(s.failures),
{
}

/// Who was asked while falling back: nobody after a success, and everyone where there is none.
pub proof fn lemma_exhausted<T, F>(n: nat, answers: Seq<Result<T, F>>)
    ensures
        fallback::exhausted(n, answers) <==> {
            &&& answers.len() <= n
            &&& forall|i: int| 0 <= i < answers.len() - 1 ==> (#[trigger] answers[i]) is Err
            &&& answers.len() == n || (answers.len() > 0 && answers[answers.len() - 1] is Ok)
        },
{
}

/// What a sweep tells of a provider: that it is asked, and what it answered: its rows, that
/// there are none, or why it failed.
pub proof fn lemma_notices<T, N: Fn(Notice<T>)>(
    tell: N,
    verb: Seq<char>,
    id: ProviderId,
    rows: Vec<T>,
    f: ProviderFailure,
)
    ensures
        commands::told(tell, verb, id, Ok(rows)) || commands::told(tell, verb, id, Err(f))
            ==> exists|t: String|
            t@ == verb + " "@ + contract::id_name(id) + "..."@ && #[trigger] call_ensures(
                tell,
                (Notice::Asking(t),),
                (),
            ),
        commands::told(tell, verb, id, Ok(rows)) && rows@.len() > 0 ==> call_ensures(
            tell,
            (Notice::Show(id, rows),),
            (),
        ),
        commands::told(tell, verb, id, Ok(rows)) && rows@.len() == 0 ==> exists|t: String|
            t@ == contract::id_name(id) + ": no results"@ && #[trigger] call_ensures(
                tell,
                (Notice::Warn(t),),
                (),
            ),
        commands::told(tell, verb, id, Err(f)) ==> exists|t: String|
            t@ == contract::id_name(f.provider) + ": "@ + contract::error_text(f.source@)
                && #[trigger] call_ensures(tell, (Notice::Warn(t),), ()),
{
}

/// Every provider of a sweep is asked once, in order, and told of unless answers are collected.
pub proof fn lemma_fetched<
    T,
    F: Fn(ProviderId) -> Result<Vec<T>, ProviderFailure>,
    N: Fn(Notice<T>),
>(
    fetch: F,
    tell: N,
    ids: Seq<ProviderId>,
    json: bool,
    verb: Seq<char>,
    answers: Seq<Result<Vec<T>, ProviderFailure>>,
    i: int,
)
    requires
        commands::fetched(fetch, tell, ids, json, verb, answers),
        0 <= i < ids.len(),
    ensures
        answers.len() == ids.len(),
        call_ensures(fetch, (ids[i],), answers[i]),
        !json ==> commands::told(tell, verb, ids[i], answers[i]),
{
    assert(answers[i] == answers[i]);
}

/// A provider is searched for the query, and asked for the versions of the package; its answer
/// is its own, and its failure is attributed to it.
pub proof fn lemma_own_answers<P: Provider>(
    registry: ProviderRegistry<P>,
    id: ProviderId,
    text: &str,
    found: Result<Vec<AppResult>, ProviderFailure>,
    listed: Result<Vec<VersionInfo>, ProviderFailure>,
    checked: Result<(), ProviderFailure>,
)
    ensures
        commands::searches(registry, id, text, found) ==> match found {
            Ok(rows) => call_ensures(
                P::search,
                (&registry.chosen(id), text),
                Ok::<Vec<AppResult>, ProviderError>(rows),
            ),
            Err(f) => f.provider == id && call_ensures(
                P::search,
                (&registry.chosen(id), text),
                Err::<Vec<AppResult>, ProviderError>(f.source),
            ),
        },
        commands::lists(registry, id, text, listed) ==> match listed {
            Ok(rows) => call_ensures(
                P::versions,
                (&registry.chosen(id), text),
                Ok::<Vec<VersionInfo>, ProviderError>(rows),
            ),
            Err(f) => f.provider == id && call_ensures(
                P::versions,
                (&registry.chosen(id), text),
                Err::<Vec<VersionInfo>, ProviderError>(f.source),
            ),
        },
        commands::checks(registry, id, checked) ==> match checked {
            Ok(_) => call_ensures(
                P::check,
                (&registry.chosen(id),),
                Ok::<(), ProviderError>(()),
            ),
            Err(f) => f.provider == id && call_ensures(
                P::check,
                (&registry.chosen(id),),
                Err::<(), ProviderError>(f.source),
            ),
        },
{
}

/// Every provider that was asked for a package was asked for that package, that version and
/// those ABIs, in the order of the registry.
pub proof fn lemma_asked<P: Provider>(
    registry: ProviderRegistry<P>,
    pkg: &str,
    version: Option<&str>,
    arch: Arch,
    answers: Seq<Result<DownloadTarget, ProviderError>>,
    i: int,
)
    requires
        registry.asked(pkg, version, arch, answers),
        0 <= i < answers.len(),
    ensures
        i < registry.ids().len(),
        call_ensures(
            P::download_url,
            (
                &registry.providers()[registry::position(registry.ids(), registry.ids()[i])],
                pkg,
                version,
                arch,
            ),
            answers[i],
        ),
{
    assert(registry.answers(i, pkg, version, arch, answers[i]));
}

/// Of every provider that is checked its report is told.
pub proof fn lemma_told_check<N: Fn(Check)>(
    tell: N,
    id: ProviderId,
    answer: Result<(), ProviderFailure>,
)
    requires
        commands::told_check(tell, id, answer),
    ensures
        exists|c: Check|
            c.name == id && c.ok == answer is Ok && #[trigger] call_ensures(tell, (c,), ()),
{
}

/// What a package resolves to comes from one run of answers: those of providers that were asked
/// for it in order, and nothing else.
pub proof fn lemma_resolves<P: Provider>(
    registry: ProviderRegistry<P>,
    pkg: &str,
    version: Option<&str>,
    arch: Arch,
    outcome: Result<DownloadTarget, ResolveError>,
)
    requires
        registry.resolves(pkg, version, arch, outcome),
    ensures
        exists|answers: Seq<Result<DownloadTarget, ProviderError>>|
            {
                &&& #[trigger] registry.asked(pkg, version, arch, answers)
                &&& fallback::exhausted(registry.ids().len(), answers)
                &&& registry::comes_to(pkg@, registry.ids(), answers, outcome)
            },
{
}

} // verus!
