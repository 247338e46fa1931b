//! The configured providers in priority order, and the fallback between them.

use crate::common::contract::{
    AppResult, Arch, DownloadTarget, ProviderError, ProviderFailure, ProviderId, ResolveError,
    VersionInfo,
};
use crate::common::fallback;
use crate::common::fallback::Fallback;
use vstd::prelude::*;

verus! {

/// A site that can be searched and downloaded from.
pub trait Provider {
    /// Which provider this is.
    fn id(&self) -> (r: ProviderId);

    /// The search that the user sees. `download_url` does not use it.
    fn search(&self, query: &str) -> (r: Result<Vec<AppResult>, ProviderError>);

    /// The versions that can be had.
    fn versions(&self, pkg: &str) -> (r: Result<Vec<VersionInfo>, ProviderError>);

    /// Resolves a download.
    fn download_url(&self, pkg: &str, version: Option<&str>, arch: Arch) -> (r: Result<
        DownloadTarget,
        ProviderError,
    >);

    /// Whether the provider can be reached: a search that always finds something,
    /// unless there is a cheaper way.
    fn check(&self) -> (r: Result<(), ProviderError>)
        default_ensures
            exists|found: Result<Vec<AppResult>, ProviderError>| #[trigger]
                call_ensures(Self::search, (self, "firefox"), found) && r == reached(found),
    {
        let found = self.search("firefox");
        assert(call_ensures(Self::search, (self, "firefox"), found));
        match found {
            Ok(_) => Ok(()),
            Err(e) => Err(e),
        }
    }
}

/// What a search says of whether the provider can be reached.
pub open spec fn reached(found: Result<Vec<AppResult>, ProviderError>) -> Result<(), ProviderError> {
    match found {
        Ok(_) => Ok(()),
        Err(e) => Err(e),
    }
}

/// The configured providers **in priority order**, each with its identity.
pub struct ProviderRegistry<P> {
    ids: Vec<ProviderId>,
    providers: Vec<P>,
}

/// The first position of `id`.
pub open spec fn position(ids: Seq<ProviderId>, id: ProviderId) -> int
    decreases ids.len(),
{
    if ids.len() == 0 || ids[0] == id {
        0
    } else {
        1 + position(ids.skip(1), id)
    }
}

/// Whether `outcome` is what answers of providers come to: the target of the last, else
/// every failure in order.
pub open spec fn comes_to(
    pkg: Seq<char>,
    ids: Seq<ProviderId>,
    answers: Seq<Result<DownloadTarget, ProviderError>>,
    outcome: Result<DownloadTarget, ResolveError>,
) -> bool {
    match outcome {
        Ok(t) => fallback::succeeded(answers) && answers.last() == Ok::<
            DownloadTarget,
            ProviderError,
        >(t),
        Err(e) => {
            &&& !fallback::succeeded(answers)
            &&& e.pkg@ == pkg
            &&& e.attempts@ == fallback::failures_of(all_tagged(answers, ids))
        },
    }
}

/// An outcome with its error attributed to a provider.
pub open spec fn tagged<T>(r: Result<T, ProviderError>, id: ProviderId) -> Result<
    T,
    ProviderFailure,
> {
    match r {
        Ok(v) => Ok(v),
        Err(e) => Err(ProviderFailure { provider: id, source: e }),
    }
}

/// Outcomes with their errors attributed, each to its provider.
pub open spec fn all_tagged<T>(rs: Seq<Result<T, ProviderError>>, ids: Seq<ProviderId>) -> Seq<
    Result<T, ProviderFailure>,
> {
    Seq::new(rs.len(), |i: int| tagged(rs[i], ids[i]))
}

impl<P: Provider> ProviderRegistry<P> {
    /// The providers in the registry, by identity.
    pub closed spec fn ids(&self) -> Seq<ProviderId> {
        self.ids@
    }

    /// The providers in the registry.
    pub closed spec fn providers(&self) -> Seq<P> {
        self.providers@
    }

    /// Every provider has its identity.
    pub open spec fn wf(&self) -> bool {
        self.ids().len() == self.providers().len()
    }

    /// The provider that answers for `id`.
    pub open spec fn chosen(&self, id: ProviderId) -> P {
        self.providers()[position(self.ids(), id)]
    }

    /// `answer` is one that the provider behind the `n`th identity can give.
    pub open spec fn answers(
        &self,
        n: int,
        pkg: &str,
        version: Option<&str>,
        arch: Arch,
        answer: Result<DownloadTarget, ProviderError>,
    ) -> bool {
        call_ensures(P::download_url, (&self.chosen(self.ids()[n]), pkg, version, arch), answer)
    }

    /// The provider behind the `n`th identity can fail.
    pub open spec fn refuses(
        &self,
        n: int,
        pkg: &str,
        version: Option<&str>,
        arch: Arch,
    ) -> bool {
        exists|e: ProviderError| #[trigger] self.answers(n, pkg, version, arch, Err(e))
    }

    /// `answers` are those that providers give when they are asked in priority order, once
    /// each, until one succeeds, and nobody after that.
    pub open spec fn asked(
        &self,
        pkg: &str,
        version: Option<&str>,
        arch: Arch,
        answers: Seq<Result<DownloadTarget, ProviderError>>,
    ) -> bool {
        &&& fallback::exhausted(self.ids().len(), answers)
        &&& forall|i: int|
            0 <= i < answers.len() ==> self.answers(i, pkg, version, arch, #[trigger] answers[i])
    }

    /// `outcome` is one that asking every provider in priority order can have: the
    /// target of the first that does not fail, else every failure.
    pub open spec fn resolves(
        &self,
        pkg: &str,
        version: Option<&str>,
        arch: Arch,
        outcome: Result<DownloadTarget, ResolveError>,
    ) -> bool {
        exists|answers: Seq<Result<DownloadTarget, ProviderError>>|
            #[trigger] self.asked(pkg, version, arch, answers) && comes_to(
                pkg@,
                self.ids(),
                answers,
                outcome,
            )
    }

    /// A target is the answer of a provider before which every one failed; an error
    /// holds a failure of every provider, in priority order.
    pub proof fn lemma_first_success(
        &self,
        pkg: &str,
        version: Option<&str>,
        arch: Arch,
        outcome: Result<DownloadTarget, ResolveError>,
    )
        requires
            self.resolves(pkg, version, arch, outcome),
        ensures
            match outcome {
                Ok(t) => exists|n: int|
                    0 <= n < self.ids().len() && #[trigger] self.answers(
                        n,
                        pkg,
                        version,
                        arch,
                        Ok(t),
                    ) && forall|j: int|
                        0 <= j < n ==> #[trigger] self.refuses(j, pkg, version, arch),
                Err(e) => {
                    &&& e.pkg@ == pkg@
                    &&& e.attempts@.len() == self.ids().len()
                    &&& forall|j: int|
                        0 <= j < self.ids().len() ==> (#[trigger] e.attempts@[j]).provider
                            == self.ids()[j] && self.answers(
                            j,
                            pkg,
                            version,
                            arch,
                            Err(e.attempts@[j].source),
                        )
                },
            },
    {
        let answers = choose|answers: Seq<Result<DownloadTarget, ProviderError>>|
            #[trigger] self.asked(pkg, version, arch, answers) && comes_to(
                pkg@,
                self.ids(),
                answers,
                outcome,
            );
        match outcome {
            Ok(t) => {
                let n = answers.len() - 1;
                assert(self.answers(n, pkg, version, arch, answers[n]));
                assert forall|j: int| 0 <= j < n implies #[trigger] self.refuses(
                    j,
                    pkg,
                    version,
                    arch,
                ) by {
                    assert(answers[j] is Err);
                    assert(self.answers(j, pkg, version, arch, Err(answers[j]->Err_0)));
                }
            },
            Err(e) => {
                assert forall|j: int| 0 <= j < self.ids().len() implies (
                #[trigger] e.attempts@[j]).provider == self.ids()[j] && self.answers(
                    j,
                    pkg,
                    version,
                    arch,
                    Err(e.attempts@[j].source),
                ) by {
                    assert(answers[j] is Err);
                    assert(answers.last() == answers[answers.len() - 1]);
                }
            },
        }
    }

    /// A registry of providers, the first one with the highest priority.
    pub fn new(providers: Vec<P>) -> (r: Self)
        ensures
            r.wf(),
            r.providers() == providers@,
            forall|i: int|
                0 <= i < providers@.len() ==> call_ensures(
                    P::id,
                    (&providers@[i],),
                    #[trigger] r.ids()[i],
                ),
    {
        let mut ids: Vec<ProviderId> = Vec::new();
        let mut i: usize = 0;
        while i < providers.len()
            invariant
                i <= providers@.len(),
                ids@.len() == i,
                forall|j: int|
                    0 <= j < i ==> call_ensures(P::id, (&providers@[j],), #[trigger] ids@[j]),
            decreases providers@.len() - i,
        {
            let id = providers[i].id();
            ids.push(id);
            i += 1;
        }
        ProviderRegistry { ids, providers }
    }

    /// The providers in priority order.
    pub fn names(&self) -> (r: Vec<ProviderId>)
        ensures
            r@ == self.ids(),
    {
        let mut out: Vec<ProviderId> = Vec::new();
        let mut i: usize = 0;
        while i < self.ids.len()
            invariant
                i <= self.ids@.len(),
                out@ == self.ids@.take(i as int),
            decreases self.ids@.len() - i,
        {
            out.push(self.ids[i]);
            i += 1;
        }
        assert(self.ids@.take(self.ids@.len() as int) == self.ids@);
        out
    }

    /// The provider that answers for `id`.
    fn require(&self, id: ProviderId) -> (r: &P)
        requires
            self.wf(),
            self.ids().contains(id),
        ensures
            *r == self.chosen(id),
    {
        let n: usize = self.ids.len();
        let mut i: usize = 0;
        assert(self.ids@.skip(0) == self.ids@);
        while self.ids[i] != id
            invariant
                i < n,
                n == self.ids@.len(),
                self.wf(),
                self.ids@.skip(i as int).contains(id),
                position(self.ids@, id) == i + position(self.ids@.skip(i as int), id),
            decreases n - i,
        {
            proof {
                let rest = self.ids@.skip(i as int);
                assert(rest[0] == self.ids@[i as int]);
                assert(rest.skip(1) == self.ids@.skip(i + 1));
                let k = choose|k: int| 0 <= k < rest.len() && rest[k] == id;
                assert(rest.skip(1)[k - 1] == id);
            }
            i += 1;
        }
        &self.providers[i]
    }

    /// Searches with one provider.
    pub fn search(&self, id: ProviderId, query: &str) -> (r: Result<
        Vec<AppResult>,
        ProviderFailure,
    >)
        requires
            self.wf(),
            self.ids().contains(id),
        ensures
            exists|a: Result<Vec<AppResult>, ProviderError>|
                #[trigger] call_ensures(P::search, (&self.chosen(id), query), a) && r == tagged(a, id),
    {
        match self.require(id).search(query) {
            Ok(v) => Ok(v),
            Err(e) => Err(e.raised_by(id)),
        }
    }

    /// Lists the versions that one provider has.
    pub fn versions(&self, id: ProviderId, pkg: &str) -> (r: Result<
        Vec<VersionInfo>,
        ProviderFailure,
    >)
        requires
            self.wf(),
            self.ids().contains(id),
        ensures
            exists|a: Result<Vec<VersionInfo>, ProviderError>|
                #[trigger] call_ensures(P::versions, (&self.chosen(id), pkg), a) && r == tagged(a, id),
    {
        match self.require(id).versions(pkg) {
            Ok(v) => Ok(v),
            Err(e) => Err(e.raised_by(id)),
        }
    }

    /// Resolves a download with one provider.
    pub fn download_url(&self, id: ProviderId, pkg: &str, version: Option<&str>, arch: Arch) -> (r:
        Result<DownloadTarget, ProviderFailure>)
        requires
            self.wf(),
            self.ids().contains(id),
        ensures
            exists|a: Result<DownloadTarget, ProviderError>|
                #[trigger] call_ensures(
                    P::download_url,
                    (&self.chosen(id), pkg, version, arch),
                    a,
                ) && r == tagged(a, id),
    {
        match self.require(id).download_url(pkg, version, arch) {
            Ok(v) => Ok(v),
            Err(e) => Err(e.raised_by(id)),
        }
    }

    /// Whether one provider can be reached.
    pub fn check(&self, id: ProviderId) -> (r: Result<(), ProviderFailure>)
        requires
            self.wf(),
            self.ids().contains(id),
        ensures
            exists|a: Result<(), ProviderError>|
                #[trigger] call_ensures(P::check, (&self.chosen(id),), a) && r == tagged(a, id),
    {
        match self.require(id).check() {
            Ok(v) => Ok(v),
            Err(e) => Err(e.raised_by(id)),
        }
    }

    /// Asks every provider in priority order and returns the first success. Where
    /// there is none, the error holds every failure in the order of the asking.
    pub fn resolve_with_fallback(&self, pkg: &str, version: Option<&str>, arch: Arch) -> (r: Result<
        DownloadTarget,
        ResolveError,
    >)
        requires
            self.wf(),
        ensures
            self.resolves(pkg, version, arch, r),
    {
        let ids = self.names();
        let ghost all = ids@;
        let mut asking: Fallback<ProviderId, DownloadTarget, ProviderFailure> = Fallback::start(ids);
        let ghost mut answers = Seq::<Result<DownloadTarget, ProviderError>>::empty();
        assert(all_tagged(answers, all) == Seq::<Result<DownloadTarget, ProviderFailure>>::empty());
        loop
            invariant
                self.wf(),
                all == self.ids(),
                asking@ == fallback::fallen(all, all_tagged(answers, all)),
                fallback::in_turn(all.len(), all_tagged(answers, all)),
                forall|i: int|
                    0 <= i < answers.len() ==> self.answers(
                        i,
                        pkg,
                        version,
                        arch,
                        #[trigger] answers[i],
                    ),
            ensures
                fallback::upcoming(asking@) is None,
            decreases all.len() - answers.len(),
        {
            proof {
                fallback::lemma_asks_until_success(all, all_tagged(answers, all));
            }
            let id = match asking.next() {
                Some(id) => id,
                None => {
                    break ;
                },
            };
            assert(id == all[answers.len() as int]);
            let answer = self.require(id).download_url(pkg, version, arch);
            assert(self.answers(answers.len() as int, pkg, version, arch, answer));
            proof {
                let next = tagged(answer, id);
                fallback::lemma_in_turn(all, all_tagged(answers, all), next);
                assert(all_tagged(answers.push(answer), all) == all_tagged(answers, all).push(
                    next,
                ));
                answers = answers.push(answer);
            }
            match answer {
                Ok(t) => {
                    asking.absorb(Ok(t));
                },
                Err(e) => {
                    asking.absorb(Err(e.raised_by(id)));
                },
            }
        }
        proof {
            let seen = all_tagged(answers, all);
            fallback::lemma_asks_until_success(all, seen);
            assert forall|i: int| 0 <= i < answers.len() - 1 implies (#[trigger] answers[i]) is Err by {
                assert(seen[i] is Err);
            }
            assert(fallback::succeeded(seen) == fallback::succeeded(answers));
            assert(self.asked(pkg, version, arch, answers));
        }
        match asking.finish() {
            Ok(t) => {
                assert(comes_to(pkg@, all, answers, Ok(t)));
                Ok(t)
            },
            Err(attempts) => {
                let e = ResolveError { pkg: pkg.to_owned(), attempts };
                assert(comes_to(pkg@, all, answers, Err(e)));
                Err(e)
            },
        }
    }
}

} // verus!
