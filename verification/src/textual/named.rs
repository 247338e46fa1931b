//! Providers known by name: what they answer, how they fail, and the fallback
//! between them.

use crate::common::contract;
use crate::common::fallback;
use crate::common::fallback::Fallback;
use crate::model;
use crate::strings::{plus, plus3, same};
use vstd::prelude::*;
use vstd::string::StringExecFns;

verus! {

/// A search hit for an app.
#[derive(Debug)]
pub struct AppResult {
    pub package: String,
    pub title: String,
    pub developer: Option<String>,
    /// Whose hit it is.
    pub provider: String,
}

/// What an [`AppResult`] says.
pub struct AppView {
    pub package: Seq<char>,
    pub title: Seq<char>,
    pub developer: Option<Seq<char>>,
    pub provider: Seq<char>,
}

impl View for AppResult {
    type V = AppView;

    open spec fn view(&self) -> AppView {
        AppView {
            package: self.package@,
            title: self.title@,
            developer: model::opt(self.developer),
            provider: self.provider@,
        }
    }
}

/// One published version of an app.
#[derive(Debug)]
pub struct VersionInfo {
    pub version: String,
    pub version_code: Option<String>,
    pub uploaded: Option<String>,
    pub provider: String,
}

/// What a [`VersionInfo`] says.
pub struct VersionView {
    pub version: Seq<char>,
    pub version_code: Option<Seq<char>>,
    pub uploaded: Option<Seq<char>>,
    pub provider: Seq<char>,
}

impl View for VersionInfo {
    type V = VersionView;

    open spec fn view(&self) -> VersionView {
        VersionView {
            version: self.version@,
            version_code: model::opt(self.version_code),
            uploaded: model::opt(self.uploaded),
            provider: self.provider@,
        }
    }
}

/// An APK that can be fetched: its URL, the name to save it under, and the headers
/// that the host wants.
#[derive(Debug)]
pub struct DownloadTarget {
    pub url: String,
    pub filename: String,
    pub version: Option<String>,
    pub provider: String,
    pub headers: Vec<(String, String)>,
}

/// What a [`DownloadTarget`] says.
pub struct TargetView {
    pub url: Seq<char>,
    pub filename: Seq<char>,
    pub version: Option<Seq<char>>,
    pub provider: Seq<char>,
    pub headers: Seq<(Seq<char>, Seq<char>)>,
}

impl View for DownloadTarget {
    type V = TargetView;

    open spec fn view(&self) -> TargetView {
        TargetView {
            url: self.url@,
            filename: self.filename@,
            version: model::opt(self.version),
            provider: self.provider@,
            headers: contract::header_texts(self.headers@),
        }
    }
}

/// How a provider can fail. `Blocked` is not `ParseError`: a challenge page does
/// not mean that a page has changed, it means that someone else should be asked.
#[derive(Debug)]
pub enum ProviderError {
    /// The site does not serve this client, perhaps for so many seconds.
    Blocked { retry_after: Option<u64> },
    /// There is no such thing.
    NotFound,
    /// A page was not what it should be.
    ParseError(String),
    /// The site could not be reached.
    Network(String),
    /// Too many requests.
    RateLimited,
}

/// What a [`ProviderError`] says.
pub enum ErrorView {
    Blocked { retry_after: Option<u64> },
    NotFound,
    ParseError(Seq<char>),
    Network(Seq<char>),
    RateLimited,
}

impl View for ProviderError {
    type V = ErrorView;

    open spec fn view(&self) -> ErrorView {
        match *self {
            ProviderError::Blocked { retry_after } => ErrorView::Blocked { retry_after },
            ProviderError::NotFound => ErrorView::NotFound,
            ProviderError::ParseError(s) => ErrorView::ParseError(s@),
            ProviderError::Network(s) => ErrorView::Network(s@),
            ProviderError::RateLimited => ErrorView::RateLimited,
        }
    }
}

/// The message of an error.
pub open spec fn error_text(e: ErrorView) -> Seq<char> {
    match e {
        ErrorView::Blocked { .. } => {
            "blocked by anti-bot / rate limit (challenge page, 403, or 429)"@
        },
        ErrorView::NotFound => "not found"@,
        ErrorView::ParseError(s) => "parse error: "@ + s,
        ErrorView::Network(s) => "network error: "@ + s,
        ErrorView::RateLimited => "rate limited"@,
    }
}

impl ProviderError {
    /// The message of the error.
    pub fn to_string(&self) -> (r: String)
        ensures
            r@ == error_text(self@),
    {
        match self {
            ProviderError::Blocked { .. } => {
                "blocked by anti-bot / rate limit (challenge page, 403, or 429)".to_owned()
            },
            ProviderError::NotFound => "not found".to_owned(),
            ProviderError::ParseError(s) => plus("parse error: ", s.as_str()),
            ProviderError::Network(s) => plus("network error: ", s.as_str()),
            ProviderError::RateLimited => "rate limited".to_owned(),
        }
    }
}

/// Every provider that was asked failed.
#[derive(Debug)]
pub struct ResolveError {
    pub pkg: String,
    pub attempts: Vec<(String, ProviderError)>,
}

/// What attempts say: who was asked, and the error.
pub open spec fn attempt_views(v: Seq<(String, ProviderError)>) -> Seq<(Seq<char>, ErrorView)> {
    Seq::new(v.len(), |i: int| (v[i].0@, v[i].1@))
}

/// The failures of a list, each on a line of its own.
pub open spec fn failure_lines(fs: Seq<(Seq<char>, ErrorView)>) -> Seq<char>
    decreases fs.len(),
{
    if fs.len() == 0 {
        Seq::<char>::empty()
    } else {
        failure_lines(fs.drop_last()) + "\n  - "@ + fs.last().0 + ": "@ + error_text(fs.last().1)
    }
}

/// The message of a resolution that failed.
pub open spec fn resolve_text(pkg: Seq<char>, fs: Seq<(Seq<char>, ErrorView)>) -> Seq<char> {
    "all providers failed for '"@ + pkg + "':"@ + failure_lines(fs)
}

/// Whether an error says that the site does not want to serve this client now.
pub open spec fn is_block(e: ErrorView) -> bool {
    e is Blocked || e is RateLimited
}

impl ResolveError {
    /// What the attempts say.
    pub open spec fn tries(&self) -> Seq<(Seq<char>, ErrorView)> {
        attempt_views(self.attempts@)
    }

    /// Whether there were attempts and each met a block or a rate limit.
    pub fn all_blocked(&self) -> (r: bool)
        ensures
            r == (self.tries().len() > 0 && forall|i: int|
                0 <= i < self.tries().len() ==> is_block((#[trigger] self.tries()[i]).1)),
    {
        let mut i: usize = 0;
        assert(self.tries().len() == self.attempts@.len());
        while i < self.attempts.len()
            invariant
                i <= self.attempts@.len(),
                self.tries().len() == self.attempts@.len(),
                forall|j: int| 0 <= j < i ==> is_block((#[trigger] self.tries()[j]).1),
            decreases self.attempts@.len() - i,
        {
            assert(self.tries()[i as int].1 == self.attempts@[i as int].1@);
            let blocked = match &self.attempts[i].1 {
                ProviderError::Blocked { .. } => true,
                ProviderError::RateLimited => true,
                _ => false,
            };
            if !blocked {
                assert(!is_block(self.tries()[i as int].1));
                return false;
            }
            i += 1;
        }
        i > 0
    }

    /// Whether there were attempts and each found nothing.
    pub fn all_not_found(&self) -> (r: bool)
        ensures
            r == (self.tries().len() > 0 && forall|i: int|
                0 <= i < self.tries().len() ==> (#[trigger] self.tries()[i]).1 is NotFound),
    {
        let mut i: usize = 0;
        assert(self.tries().len() == self.attempts@.len());
        while i < self.attempts.len()
            invariant
                i <= self.attempts@.len(),
                self.tries().len() == self.attempts@.len(),
                forall|j: int| 0 <= j < i ==> (#[trigger] self.tries()[j]).1 is NotFound,
            decreases self.attempts@.len() - i,
        {
            assert(self.tries()[i as int].1 == self.attempts@[i as int].1@);
            let missing = match &self.attempts[i].1 {
                ProviderError::NotFound => true,
                _ => false,
            };
            if !missing {
                assert(!(self.tries()[i as int].1 is NotFound));
                return false;
            }
            i += 1;
        }
        i > 0
    }

    /// Whether an attempt failed on the network.
    pub fn any_network(&self) -> (r: bool)
        ensures
            r == exists|i: int|
                0 <= i < self.tries().len() && (#[trigger] self.tries()[i]).1 is Network,
    {
        let mut i: usize = 0;
        assert(self.tries().len() == self.attempts@.len());
        while i < self.attempts.len()
            invariant
                i <= self.attempts@.len(),
                self.tries().len() == self.attempts@.len(),
                forall|j: int| 0 <= j < i ==> !((#[trigger] self.tries()[j]).1 is Network),
            decreases self.attempts@.len() - i,
        {
            assert(self.tries()[i as int].1 == self.attempts@[i as int].1@);
            if let ProviderError::Network(_) = &self.attempts[i].1 {
                assert(self.tries()[i as int].1 is Network);
                return true;
            }
            i += 1;
        }
        false
    }

    /// The message of the error.
    pub fn to_string(&self) -> (r: String)
        ensures
            r@ == resolve_text(self.pkg@, self.tries()),
    {
        let ghost fs = self.tries();
        let mut out = plus3("all providers failed for '", self.pkg.as_str(), "':");
        let ghost head = out@;
        let mut i: usize = 0;
        assert(out@ == head + failure_lines(fs.take(0)));
        while i < self.attempts.len()
            invariant
                i <= self.attempts@.len(),
                fs == attempt_views(self.attempts@),
                out@ == head + failure_lines(fs.take(i as int)),
            decreases self.attempts@.len() - i,
        {
            assert(fs.take(i + 1).drop_last() == fs.take(i as int));
            out.append("\n  - ");
            out.append(self.attempts[i].0.as_str());
            out.append(": ");
            let why = self.attempts[i].1.to_string();
            out.append(why.as_str());
            assert(out@ == head + failure_lines(fs.take(i + 1)));
            i += 1;
        }
        assert(fs.take(fs.len() as int) == fs);
        out
    }
}

/// A site that can be searched and downloaded from.
pub trait Provider {
    /// The name of the provider.
    fn name(&self) -> (r: &'static str);

    /// Searches for an app.
    fn search(&self, query: &str) -> (r: Result<Vec<AppResult>, ProviderError>);

    /// Lists the versions of an app.
    fn versions(&self, pkg: &str) -> (r: Result<Vec<VersionInfo>, ProviderError>);

    /// Resolves a download.
    fn download_url(&self, pkg: &str, version: Option<&str>) -> (r: Result<
        DownloadTarget,
        ProviderError,
    >);

    /// Whether the provider can be reached: a search that always finds something,
    /// unless there is a cheaper way.
    fn check(&self) -> (r: Result<(), ProviderError>)
        default_ensures
            exists|found: Result<Vec<AppResult>, ProviderError>| #[trigger]
                call_ensures(Self::search, (self, "firefox"), found) && r == reached(found),
    {
        let found = self.search("firefox");
        assert(call_ensures(Self::search, (self, "firefox"), found));
        match found {
            Ok(_) => Ok(()),
            Err(e) => Err(e),
        }
    }
}

/// What a search says of whether the provider can be reached.
pub open spec fn reached(found: Result<Vec<AppResult>, ProviderError>) -> Result<(), ProviderError> {
    match found {
        Ok(_) => Ok(()),
        Err(e) => Err(e),
    }
}

/// The configured providers in the order of their registration.
pub struct ProviderRegistry<P> {
    names: Vec<&'static str>,
    providers: Vec<P>,
}

/// The first position of a name.
pub open spec fn position(names: Seq<Seq<char>>, name: Seq<char>) -> Option<int>
    decreases names.len(),
{
    if names.len() == 0 {
        None
    } else {
        match position(names.drop_last(), name) {
            Some(i) => Some(i),
            None => if names.last() == name {
                Some(names.len() - 1)
            } else {
                None
            },
        }
    }
}

/// A position that is found early stays the first one.
proof fn lemma_position(names: Seq<Seq<char>>, name: Seq<char>, n: int)
    requires
        0 <= n <= names.len(),
        position(names.take(n), name) is Some,
    ensures
        position(names, name) == position(names.take(n), name),
    decreases names.len() - n,
{
    if n == names.len() {
        assert(names.take(n) == names);
    } else {
        assert(names.take(n + 1).drop_last() == names.take(n));
        lemma_position(names, name, n + 1);
    }
}

/// The positions of the names of an order; those that are unknown are skipped.
pub open spec fn positions(names: Seq<Seq<char>>, order: Seq<Seq<char>>) -> Seq<int>
    decreases order.len(),
{
    if order.len() == 0 {
        Seq::<int>::empty()
    } else {
        let front = positions(names, order.drop_last());
        match position(names, order.last()) {
            Some(i) => front.push(i),
            None => front,
        }
    }
}

impl<P: Provider> ProviderRegistry<P> {
    /// The names of the providers in the registry.
    pub closed spec fn known(&self) -> Seq<Seq<char>> {
        model::slices(self.names@)
    }

    /// The providers in the registry.
    pub closed spec fn providers(&self) -> Seq<P> {
        self.providers@
    }

    /// Every provider has its name.
    pub open spec fn wf(&self) -> bool {
        self.known().len() == self.providers().len()
    }

    /// `answer` is one that the provider at position `i` can give.
    pub open spec fn answers(
        &self,
        i: int,
        pkg: &str,
        version: Option<&str>,
        answer: Result<DownloadTarget, ProviderError>,
    ) -> bool {
        call_ensures(P::download_url, (&self.providers()[i], pkg, version), answer)
    }

    /// The provider at position `i` can fail.
    pub open spec fn refuses(&self, i: int, pkg: &str, version: Option<&str>) -> bool {
        exists|e: ProviderError| #[trigger] self.answers(i, pkg, version, Err(e))
    }

    /// `answers` are those that the providers at the positions `at` give when they are
    /// asked once each, until one succeeds, and nobody after that.
    pub open spec fn asked(
        &self,
        pkg: &str,
        version: Option<&str>,
        at: Seq<int>,
        answers: Seq<Result<DownloadTarget, ProviderError>>,
    ) -> bool {
        &&& fallback::exhausted(at.len(), answers)
        &&& forall|i: int|
            0 <= i < answers.len() ==> self.answers(at[i], pkg, version, #[trigger] answers[i])
    }

    /// Whether `outcome` is what answers of the providers at the positions `at` come to:
    /// the target of the last, else every failure in order, with the provider's name.
    pub open spec fn comes_to(
        &self,
        pkg: Seq<char>,
        at: Seq<int>,
        answers: Seq<Result<DownloadTarget, ProviderError>>,
        outcome: Result<DownloadTarget, ResolveError>,
    ) -> bool {
        match outcome {
            Ok(t) => fallback::succeeded(answers) && answers.last() == Ok::<
                DownloadTarget,
                ProviderError,
            >(t),
            Err(e) => {
                &&& !fallback::succeeded(answers)
                &&& e.pkg@ == pkg
                &&& e.attempts@.len() == answers.len()
                &&& forall|j: int|
                    0 <= j < answers.len() ==> (#[trigger] e.attempts@[j]).0@ == self.known()[at[j]]
                        && answers[j] == Err::<DownloadTarget, ProviderError>(e.attempts@[j].1)
            },
        }
    }

    /// `outcome` is one that asking the providers at the positions `at` one after the
    /// other can have: the target of the first that does not fail, else every failure.
    pub open spec fn resolves(
        &self,
        pkg: &str,
        version: Option<&str>,
        at: Seq<int>,
        outcome: Result<DownloadTarget, ResolveError>,
    ) -> bool {
        exists|answers: Seq<Result<DownloadTarget, ProviderError>>|
            #[trigger] self.asked(pkg, version, at, answers) && self.comes_to(
                pkg@,
                at,
                answers,
                outcome,
            )
    }

    /// A target is the answer of a provider before which every one failed; an error
    /// holds a failure of every provider, in the order of the asking.
    pub proof fn lemma_first_success(
        &self,
        pkg: &str,
        version: Option<&str>,
        at: Seq<int>,
        outcome: Result<DownloadTarget, ResolveError>,
    )
        requires
            self.resolves(pkg, version, at, outcome),
        ensures
            match outcome {
                Ok(t) => exists|n: int|
                    0 <= n < at.len() && self.answers(#[trigger] at[n], pkg, version, Ok(t))
                        && forall|j: int|
                        0 <= j < n ==> self.refuses(#[trigger] at[j], pkg, version),
                Err(e) => {
                    &&& e.pkg@ == pkg@
                    &&& e.attempts@.len() == at.len()
                    &&& forall|j: int|
                        0 <= j < at.len() ==> (#[trigger] e.attempts@[j]).0@ == self.known()[at[j]]
                            && self.answers(at[j], pkg, version, Err(e.attempts@[j].1))
                },
            },
    {
        let answers = choose|answers: Seq<Result<DownloadTarget, ProviderError>>|
            #[trigger] self.asked(pkg, version, at, answers) && self.comes_to(
                pkg@,
                at,
                answers,
                outcome,
            );
        match outcome {
            Ok(t) => {
                let n = answers.len() - 1;
                assert(self.answers(at[n], pkg, version, answers[n]));
                assert forall|j: int| 0 <= j < n implies self.refuses(
                    #[trigger] at[j],
                    pkg,
                    version,
                ) by {
                    assert(answers[j] is Err);
                    assert(self.answers(at[j], pkg, version, Err(answers[j]->Err_0)));
                }
            },
            Err(e) => {
                assert forall|j: int| 0 <= j < at.len() implies (#[trigger] e.attempts@[j]).0@
                    == self.known()[at[j]] && self.answers(
                    at[j],
                    pkg,
                    version,
                    Err(e.attempts@[j].1),
                ) by {
                    assert(self.answers(at[j], pkg, version, answers[j]));
                }
            },
        }
    }

    /// A registry without providers.
    pub fn new() -> (r: Self)
        ensures
            r.wf(),
            r.known() == Seq::<Seq<char>>::empty(),
            r.providers() == Seq::<P>::empty(),
    {
        let r = ProviderRegistry { names: Vec::new(), providers: Vec::new() };
        assert(r.known() == Seq::<Seq<char>>::empty());
        r
    }

    /// Adds a provider behind the others.
    pub fn register(&mut self, provider: P)
        requires
            old(self).wf(),
        ensures
            final(self).wf(),
            final(self).providers() == old(self).providers().push(provider),
            exists|name: &'static str|
                #[trigger] call_ensures(P::name, (&provider,), name) && final(self).known() == old(
                    self,
                ).known().push(name@),
    {
        let name = provider.name();
        let ghost before = self.names@;
        self.names.push(name);
        self.providers.push(provider);
        assert(model::slices(self.names@) == model::slices(before).push(name@));
    }

    /// The names of the providers in the order of their registration.
    pub fn names(&self) -> (r: Vec<&'static str>)
        ensures
            model::slices(r@) == self.known(),
    {
        let mut out: Vec<&'static str> = Vec::new();
        let mut i: usize = 0;
        while i < self.names.len()
            invariant
                i <= self.names@.len(),
                out@ == self.names@.take(i as int),
            decreases self.names@.len() - i,
        {
            out.push(self.names[i]);
            i += 1;
        }
        assert(self.names@.take(self.names@.len() as int) == self.names@);
        out
    }

    /// The position of the provider of a name.
    fn find(&self, name: &str) -> (r: Option<usize>)
        requires
            self.wf(),
        ensures
            (match r {
                Some(i) => Some(i as int),
                None => None,
            }) == position(self.known(), name@),
            r matches Some(i) ==> i < self.providers().len(),
    {
        let ghost ns = model::slices(self.names@);
        let mut i: usize = 0;
        while i < self.names.len()
            invariant
                i <= self.names@.len(),
                self.wf(),
                ns == model::slices(self.names@),
                position(ns.take(i as int), name@) is None,
            decreases self.names@.len() - i,
        {
            assert(ns.take(i + 1).drop_last() == ns.take(i as int));
            assert(ns.take(i + 1).last() == self.names@[i as int]@);
            if same(self.names[i], name) {
                proof {
                    lemma_position(ns, name@, i + 1);
                }
                return Some(i);
            }
            i += 1;
        }
        assert(ns.take(ns.len() as int) == ns);
        None
    }

    /// The provider of a name.
    pub fn get(&self, name: &str) -> (r: Option<&P>)
        requires
            self.wf(),
        ensures
            match position(self.known(), name@) {
                Some(i) => r == Some(&self.providers()[i]),
                None => r is None,
            },
    {
        match self.find(name) {
            Some(i) => Some(&self.providers[i]),
            None => None,
        }
    }

    /// The positions of the providers named in `order`, in that order; unknown
    /// names are skipped.
    fn ordered(&self, order: &[&str]) -> (r: Vec<usize>)
        requires
            self.wf(),
        ensures
            r@.len() == positions(self.known(), model::slices(order@)).len(),
            forall|i: int|
                0 <= i < r@.len() ==> (#[trigger] r@[i]) as int == positions(
                    self.known(),
                    model::slices(order@),
                )[i] && r@[i] < self.providers().len(),
    {
        let ghost os = model::slices(order@);
        let mut out: Vec<usize> = Vec::new();
        let mut i: usize = 0;
        assert(os.take(0) == Seq::<Seq<char>>::empty());
        while i < order.len()
            invariant
                i <= order@.len(),
                self.wf(),
                os == model::slices(order@),
                out@.len() == positions(self.known(), os.take(i as int)).len(),
                forall|j: int|
                    0 <= j < out@.len() ==> (#[trigger] out@[j]) as int == positions(
                        self.known(),
                        os.take(i as int),
                    )[j] && out@[j] < self.providers().len(),
            decreases order@.len() - i,
        {
            assert(os.take(i + 1).drop_last() == os.take(i as int));
            assert(os.take(i + 1).last() == order@[i as int]@);
            if let Some(k) = self.find(order[i]) {
                out.push(k);
            }
            i += 1;
        }
        assert(os.take(os.len() as int) == os);
        out
    }

    /// Asks the providers named in `order` one after the other, skipping unknown
    /// names, and returns the first success. Any failure moves on to the next;
    /// where all fail, the error holds them in that order.
    pub fn resolve_with_fallback(&self, pkg: &str, version: Option<&str>, order: &[&str]) -> (r: Result<
        DownloadTarget,
        ResolveError,
    >)
        requires
            self.wf(),
        ensures
            self.resolves(pkg, version, positions(self.known(), model::slices(order@)), r),
    {
        let ghost at = positions(self.known(), model::slices(order@));
        let chain = self.ordered(order);
        let ghost all = chain@;
        let mut asking: Fallback<usize, DownloadTarget, (String, ProviderError)> = Fallback::start(
            chain,
        );
        let ghost mut answers = Seq::<Result<DownloadTarget, ProviderError>>::empty();
        let ghost mut seen = Seq::<Result<DownloadTarget, (String, ProviderError)>>::empty();
        loop
            invariant
                self.wf(),
                all.len() == at.len(),
                forall|j: int|
                    0 <= j < all.len() ==> (#[trigger] all[j]) as int == at[j] && all[j]
                        < self.providers().len(),
                asking@ == fallback::fallen(all, seen),
                fallback::in_turn(all.len(), seen),
                seen.len() == answers.len(),
                forall|i: int|
                    0 <= i < answers.len() ==> self.answers(
                        at[i],
                        pkg,
                        version,
                        #[trigger] answers[i],
                    ),
                forall|i: int|
                    0 <= i < answers.len() ==> match #[trigger] answers[i] {
                        Ok(t) => seen[i] == Ok::<DownloadTarget, (String, ProviderError)>(t),
                        Err(e) => seen[i] matches Err(f) && f.0@ == self.known()[at[i]] && f.1 == e,
                    },
            ensures
                fallback::upcoming(asking@) is None,
            decreases all.len() - answers.len(),
        {
            proof {
                fallback::lemma_asks_until_success(all, seen);
            }
            let k: usize = match asking.next() {
                Some(k) => k,
                None => {
                    break ;
                },
            };
            assert(k == all[answers.len() as int]);
            let answer = self.providers[k].download_url(pkg, version);
            assert(self.answers(at[answers.len() as int], pkg, version, answer));
            assert(self.known()[k as int] == self.names@[k as int]@);
            proof {
                answers = answers.push(answer);
            }
            let named = match answer {
                Ok(t) => Ok(t),
                Err(e) => Err((self.names[k].to_owned(), e)),
            };
            proof {
                fallback::lemma_in_turn(all, seen, named);
                seen = seen.push(named);
            }
            asking.absorb(named);
        }
        proof {
            fallback::lemma_asks_until_success(all, seen);
            assert forall|i: int| 0 <= i < answers.len() - 1 implies (#[trigger] answers[i]) is Err by {
                assert(seen[i] is Err);
            }
            if answers.len() > 0 {
                assert(answers.last() == answers[answers.len() - 1]);
            }
            assert(fallback::succeeded(seen) == fallback::succeeded(answers));
            assert(self.asked(pkg, version, at, answers));
        }
        match asking.finish() {
            Ok(t) => {
                assert(self.comes_to(pkg@, at, answers, Ok(t)));
                Ok(t)
            },
            Err(attempts) => {
                let e = ResolveError { pkg: pkg.to_owned(), attempts };
                proof {
                    assert forall|j: int| 0 <= j < answers.len() implies (
                    #[trigger] e.attempts@[j]).0@ == self.known()[at[j]] && answers[j] == Err::<
                        DownloadTarget,
                        ProviderError,
                    >(e.attempts@[j].1) by {
                        assert(answers[j] is Err);
                        assert(fallback::failures_of(seen)[j] == seen[j]->Err_0);
                    }
                    assert(self.comes_to(pkg@, at, answers, Err(e)));
                }
                Err(e)
            },
        }
    }
}

} // verus!
