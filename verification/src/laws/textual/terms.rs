//! Laws of the vocabulary: names of files, texts of errors, and who is asked.

use crate::common::contract as common;
use crate::common::contract::ProviderId;
use crate::common::fallback;
use crate::laws::terms;
use crate::model;
use crate::textual::contract;
use crate::textual::named;
use crate::textual::urls;
use vstd::prelude::*;

verus! {

/// A term in an address: without white space around it, and with `+` for every space.
pub proof fn lemma_plussed(q: Seq<char>)
    ensures
        urls::plussed(q).len() == model::stripped(q).len(),
        forall|i: int|
            0 <= i < urls::plussed(q).len() ==> #[trigger] urls::plussed(q)[i]
                == if model::stripped(q)[i] == ' ' {
                '+'
            } else {
                model::stripped(q)[i]
            },
{
}

/// In the name of a file every character stays that file names are made of, but for the plus
/// sign; any other becomes `_`.
pub proof fn lemma_file_safe(s: Seq<char>)
    ensures
        contract::file_safe(s).len() == s.len(),
        forall|i: int|
            0 <= i < s.len() ==> #[trigger] contract::file_safe(s)[i] == if terms::harmless(s[i])
                && s[i] != '+' {
                s[i]
            } else {
                '_'
            },
{
}

/// A file is named by the package, the version, the ABI where there is one, and its extension.
pub proof fn lemma_filename(pkg: Seq<char>, version: Seq<char>, arch: Seq<char>, ext: Seq<char>)
    ensures
        arch.len() > 0 ==> contract::filename(pkg, version, Some(arch), ext) == contract::file_safe(
            pkg + "-"@ + version + "-"@ + arch,
        ) + "."@ + ext,
        arch.len() == 0 ==> contract::filename(pkg, version, Some(arch), ext)
            == contract::filename(pkg, version, None, ext),
        contract::filename(pkg, version, None, ext) == contract::file_safe(pkg + "-"@ + version)
            + "."@ + ext,
{
}

/// What errors say, with and without the reason of a missing page.
pub proof fn lemma_error_texts(s: Seq<char>, wait: Option<u64>)
    ensures
        contract::error_text(contract::ErrorView::NotFound(s)) == s,
        contract::error_text(contract::ErrorView::ParseError(s)) == "parse error: "@ + s,
        contract::error_text(contract::ErrorView::Network(s)) == "network error: "@ + s,
        contract::error_text(contract::ErrorView::RateLimited) == "rate limited"@,
        named::error_text(named::ErrorView::NotFound) == "not found"@,
        named::error_text(named::ErrorView::ParseError(s)) == "parse error: "@ + s,
        named::error_text(named::ErrorView::Network(s)) == "network error: "@ + s,
        named::error_text(named::ErrorView::RateLimited) == "rate limited"@,
{
}

/// What is said of a site that refuses does not depend on how long one is to wait, and such a
/// site, or one that limits its rate, is one that blocks; no other error is.
pub proof fn lemma_blocks(e: contract::ErrorView, f: named::ErrorView)
    ensures
        e is Blocked ==> contract::error_text(e)
            == "blocked by anti-bot / rate limit (challenge page, 403, or 429)"@,
        f is Blocked ==> named::error_text(f)
            == "blocked by anti-bot / rate limit (challenge page, 403, or 429)"@,
        contract::is_block(e) <==> !(e is NotFound || e is ParseError || e is Network),
        named::is_block(f) <==> !(f is NotFound || f is ParseError || f is Network),
{
}

/// The report of a package that nobody has: one line for every provider that was asked, in
/// order, with its name and why it failed.
pub proof fn lemma_resolve_text(
    pkg: Seq<char>,
    fs: Seq<contract::FailureView>,
    f: contract::FailureView,
    gs: Seq<(Seq<char>, named::ErrorView)>,
    g: (Seq<char>, named::ErrorView),
)
    ensures
        contract::resolve_text(pkg, Seq::<contract::FailureView>::empty())
            == "all providers failed for '"@ + pkg + "':"@,
        contract::resolve_text(pkg, fs.push(f)) == contract::resolve_text(pkg, fs) + "\n  - "@
            + common::id_name(f.provider) + ": "@ + contract::error_text(f.source),
        contract::failure_text(f) == common::id_name(f.provider) + ": "@ + contract::error_text(
            f.source,
        ),
        named::resolve_text(pkg, Seq::<(Seq<char>, named::ErrorView)>::empty())
            == "all providers failed for '"@ + pkg + "':"@,
        named::resolve_text(pkg, gs.push(g)) == named::resolve_text(pkg, gs) + "\n  - "@ + g.0
            + ": "@ + named::error_text(g.1),
{
    assert(fs.push(f).drop_last() == fs);
    assert(gs.push(g).drop_last() == gs);
    let head = "all providers failed for '"@ + pkg + "':"@;
    assert(contract::resolve_text(pkg, Seq::<contract::FailureView>::empty()) == head);
    assert(named::resolve_text(pkg, Seq::<(Seq<char>, named::ErrorView)>::empty()) == head);
    assert(contract::resolve_text(pkg, fs.push(f)) == contract::resolve_text(pkg, fs) + "\n  - "@
        + common::id_name(f.provider) + ": "@ + contract::error_text(f.source));
    assert(named::resolve_text(pkg, gs.push(g)) == named::resolve_text(pkg, gs) + "\n  - "@ + g.0
        + ": "@ + named::error_text(g.1));
}

/// An answer of a provider is its own, and its failure is attributed to it; one can be reached
/// where its search does not fail.
pub proof fn lemma_tagged<T>(v: T, e: contract::ProviderError, id: ProviderId)
    ensures
        contract::tagged(Ok::<T, contract::ProviderError>(v), id) == Ok::<
            T,
            contract::ProviderFailure,
        >(v),
        contract::tagged(Err::<T, contract::ProviderError>(e), id) == Err::<
            T,
            contract::ProviderFailure,
        >(contract::ProviderFailure { provider: id, source: e }),
        contract::reached(Err(e)) == Err::<(), contract::ProviderError>(e),
        forall|found: Vec<contract::AppResult>| #[trigger]
            contract::reached(Ok(found)) == Ok::<(), contract::ProviderError>(()),
        forall|x: named::ProviderError| #[trigger]
            named::reached(Err(x)) == Err::<(), named::ProviderError>(x),
        forall|found: Vec<named::AppResult>| #[trigger]
            named::reached(Ok(found)) == Ok::<(), named::ProviderError>(()),
{
}

/// An identity is answered for by the first provider that has it.
pub proof fn lemma_position(ids: Seq<ProviderId>, id: ProviderId)
    ensures
        match contract::position(ids, id) {
            Some(i) => 0 <= i < ids.len() && ids[i] == id && forall|j: int|
                0 <= j < i ==> #[trigger] ids[j] != id,
            None => !ids.contains(id),
        },
    decreases ids.len(),
{
    if ids.len() > 0 {
        let front = ids.drop_last();
        lemma_position(front, id);
        assert forall|j: int| 0 <= j < front.len() implies #[trigger] ids[j] == front[j] by {}
        if contract::position(ids, id) is None && ids.contains(id) {
            let k = ids.index_of(id);
            assert(front[k] == id);
        }
    }
}

/// A name is answered for by the first provider that has it.
pub proof fn lemma_named_position(names: Seq<Seq<char>>, name: Seq<char>)
    ensures
        match named::position(names, name) {
            Some(i) => 0 <= i < names.len() && names[i] == name && forall|j: int|
                0 <= j < i ==> #[trigger] names[j] != name,
            None => !names.contains(name),
        },
    decreases names.len(),
{
    if names.len() > 0 {
        let front = names.drop_last();
        lemma_named_position(front, name);
        assert forall|j: int| 0 <= j < front.len() implies #[trigger] names[j] == front[j] by {}
        if named::position(names, name) is None && names.contains(name) {
            let k = names.index_of(name);
            assert(front[k] == name);
        }
    }
}

/// Those of an order are asked that are known, in that order; the others are passed over.
pub proof fn lemma_positions(names: Seq<Seq<char>>, order: Seq<Seq<char>>, name: Seq<char>)
    ensures
        named::positions(names, Seq::<Seq<char>>::empty()).len() == 0,
        !names.contains(name) ==> named::positions(names, order.push(name)) == named::positions(
            names,
            order,
        ),
        names.contains(name) ==> named::positions(names, order.push(name)) == named::positions(
            names,
            order,
        ).push(named::position(names, name)->0),
{
    assert(order.push(name).drop_last() == order);
    lemma_named_position(names, name);
    if let Some(i) = named::position(names, name) {
        assert(names.contains(names[i]));
    }
}

/// What resolving comes to: the target of the last answer where that is one, and then no
/// answer before it is; else the failures of all, each attributed to its provider.
pub proof fn lemma_comes_to(
    pkg: Seq<char>,
    ids: Seq<ProviderId>,
    answers: Seq<Result<contract::DownloadTarget, contract::ProviderError>>,
    outcome: Result<contract::DownloadTarget, contract::ResolveError>,
)
    requires
        fallback::exhausted(ids.len(), answers),
        contract::comes_to(pkg, ids, answers, outcome),
    ensures
        match outcome {
            Ok(t) => {
                &&& 0 < answers.len() <= ids.len()
                &&& answers[answers.len() - 1] == Ok::<
                    contract::DownloadTarget,
                    contract::ProviderError,
                >(t)
                &&& forall|i: int| 0 <= i < answers.len() - 1 ==> (#[trigger] answers[i]) is Err
            },
            Err(e) => {
                &&& e.pkg@ == pkg
                &&& answers.len() == ids.len()
                &&& e.attempts@.len() == ids.len()
                &&& forall|i: int|
                    0 <= i < ids.len() ==> #[trigger] answers[i] == Err::<
                        contract::DownloadTarget,
                        contract::ProviderError,
                    >(e.attempts@[i].source) && e.attempts@[i].provider == ids[i]
            },
        },
{
    if let Err(e) = outcome {
        let tagged = contract::all_tagged(answers, ids);
        assert forall|i: int| 0 <= i < ids.len() implies #[trigger] answers[i] == Err::<
            contract::DownloadTarget,
            contract::ProviderError,
        >(e.attempts@[i].source) && e.attempts@[i].provider == ids[i] by {
            assert(tagged[i] == contract::tagged(answers[i], ids[i]));
        }
    }
}

/// The same of providers that are known by name.
pub proof fn lemma_named_comes_to<P: named::Provider>(
    registry: named::ProviderRegistry<P>,
    pkg: Seq<char>,
    at: Seq<int>,
    answers: Seq<Result<named::DownloadTarget, named::ProviderError>>,
    outcome: Result<named::DownloadTarget, named::ResolveError>,
)
    requires
        fallback::exhausted(at.len(), answers),
        registry.comes_to(pkg, at, answers, outcome),
    ensures
        match outcome {
            Ok(t) => {
                &&& 0 < answers.len() <= at.len()
                &&& answers[answers.len() - 1] == Ok::<
                    named::DownloadTarget,
                    named::ProviderError,
                >(t)
                &&& forall|i: int| 0 <= i < answers.len() - 1 ==> (#[trigger] answers[i]) is Err
            },
            Err(e) => {
                &&& e.pkg@ == pkg
                &&& answers.len() == at.len()
                &&& e.attempts@.len() == at.len()
                &&& forall|i: int|
                    0 <= i < at.len() ==> (#[trigger] e.attempts@[i]).0@ == registry.known()[at[i]]
                        && answers[i] == Err::<named::DownloadTarget, named::ProviderError>(
                        e.attempts@[i].1,
                    )
            },
        },
{
}

} // verus!
