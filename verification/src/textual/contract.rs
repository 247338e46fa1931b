//! Providers known by identity: what they answer, how they fail, and the fallback
//! between them.

use crate::common::contract;
use crate::common::contract::ProviderId;
use crate::common::fallback;
use crate::common::fallback::{copy, Fallback};
use crate::model;
use crate::strings::{alnum, chars, plus, plus3};
use vstd::prelude::*;
use vstd::string::StringExecFns;

verus! {

/// A search hit for an app.
#[derive(Debug)]
pub struct AppResult {
    pub package: String,
    pub title: String,
    /// The version that the hit shows, if it shows one.
    pub version: Option<String>,
    pub developer: Option<String>,
    /// Whose hit it is.
    pub provider: ProviderId,
}

/// What an [`AppResult`] says.
pub struct AppView {
    pub package: Seq<char>,
    pub title: Seq<char>,
    pub version: Option<Seq<char>>,
    pub developer: Option<Seq<char>>,
    pub provider: ProviderId,
}

impl View for AppResult {
    type V = AppView;

    open spec fn view(&self) -> AppView {
        AppView {
            package: self.package@,
            title: self.title@,
            version: model::opt(self.version),
            developer: model::opt(self.developer),
            provider: self.provider,
        }
    }
}

/// One published version of an app.
#[derive(Debug)]
pub struct VersionInfo {
    pub version: String,
    pub version_code: Option<String>,
    pub uploaded: Option<String>,
    pub provider: ProviderId,
}

/// What a [`VersionInfo`] says.
pub struct VersionView {
    pub version: Seq<char>,
    pub version_code: Option<Seq<char>>,
    pub uploaded: Option<Seq<char>>,
    pub provider: ProviderId,
}

impl View for VersionInfo {
    type V = VersionView;

    open spec fn view(&self) -> VersionView {
        VersionView {
            version: self.version@,
            version_code: model::opt(self.version_code),
            uploaded: model::opt(self.uploaded),
            provider: self.provider,
        }
    }
}

/// An APK that can be fetched: its URL, the name to save it under, and the headers
/// that the host wants.
#[derive(Debug)]
pub struct DownloadTarget {
    pub url: String,
    pub filename: String,
    pub version: Option<String>,
    /// The ABI of the build, such as `arm64-v8a` or `universal`.
    pub arch: Option<String>,
    pub provider: ProviderId,
    pub headers: Vec<(String, String)>,
}

/// What a [`DownloadTarget`] says.
pub struct TargetView {
    pub url: Seq<char>,
    pub filename: Seq<char>,
    pub version: Option<Seq<char>>,
    pub arch: Option<Seq<char>>,
    pub provider: ProviderId,
    pub headers: Seq<(Seq<char>, Seq<char>)>,
}

impl View for DownloadTarget {
    type V = TargetView;

    open spec fn view(&self) -> TargetView {
        TargetView {
            url: self.url@,
            filename: self.filename@,
            version: model::opt(self.version),
            arch: model::opt(self.arch),
            provider: self.provider,
            headers: contract::header_texts(self.headers@),
        }
    }
}

/// How a provider can fail. `Blocked` is not `ParseError`: a challenge page does
/// not mean that a page has changed, it means that someone else should be asked.
#[derive(Debug)]
pub enum ProviderError {
    /// The site does not serve this client, perhaps for so many seconds.
    Blocked { retry_after: Option<u64> },
    /// The text says what was missing. [`ProviderFailure`] adds the name of the
    /// provider, so the text does not repeat it.
    NotFound(String),
    /// A page was not what it should be.
    ParseError(String),
    /// The site could not be reached.
    Network(String),
    /// Too many requests.
    RateLimited,
}

/// What a [`ProviderError`] says.
pub enum ErrorView {
    Blocked { retry_after: Option<u64> },
    NotFound(Seq<char>),
    ParseError(Seq<char>),
    Network(Seq<char>),
    RateLimited,
}

impl View for ProviderError {
    type V = ErrorView;

    open spec fn view(&self) -> ErrorView {
        match *self {
            ProviderError::Blocked { retry_after } => ErrorView::Blocked { retry_after },
            ProviderError::NotFound(s) => ErrorView::NotFound(s@),
            ProviderError::ParseError(s) => ErrorView::ParseError(s@),
            ProviderError::Network(s) => ErrorView::Network(s@),
            ProviderError::RateLimited => ErrorView::RateLimited,
        }
    }
}

/// The message of an error.
pub open spec fn error_text(e: ErrorView) -> Seq<char> {
    match e {
        ErrorView::Blocked { .. } => {
            "blocked by anti-bot / rate limit (challenge page, 403, or 429)"@
        },
        ErrorView::NotFound(s) => s,
        ErrorView::ParseError(s) => "parse error: "@ + s,
        ErrorView::Network(s) => "network error: "@ + s,
        ErrorView::RateLimited => "rate limited"@,
    }
}

impl ProviderError {
    /// The message of the error.
    pub fn to_string(&self) -> (r: String)
        ensures
            r@ == error_text(self@),
    {
        match self {
            ProviderError::Blocked { .. } => {
                "blocked by anti-bot / rate limit (challenge page, 403, or 429)".to_owned()
            },
            ProviderError::NotFound(s) => s.clone(),
            ProviderError::ParseError(s) => plus("parse error: ", s.as_str()),
            ProviderError::Network(s) => plus("network error: ", s.as_str()),
            ProviderError::RateLimited => "rate limited".to_owned(),
        }
    }
}

/// A failure and the provider that raised it.
#[derive(Debug)]
pub struct ProviderFailure {
    pub provider: ProviderId,
    pub source: ProviderError,
}

/// What a [`ProviderFailure`] says.
pub struct FailureView {
    pub provider: ProviderId,
    pub source: ErrorView,
}

impl View for ProviderFailure {
    type V = FailureView;

    open spec fn view(&self) -> FailureView {
        FailureView { provider: self.provider, source: self.source@ }
    }
}

/// The message of a failure, with the name of the provider.
pub open spec fn failure_text(f: FailureView) -> Seq<char> {
    contract::id_name(f.provider) + ": "@ + error_text(f.source)
}

impl ProviderFailure {
    /// The message of the failure, with the name of the provider.
    pub fn to_string(&self) -> (r: String)
        ensures
            r@ == failure_text(self@),
    {
        let e = self.source.to_string();
        plus3(self.provider.as_str(), ": ", e.as_str())
    }
}

/// Whether a character may stand in a file name.
pub open spec fn name_char(c: char) -> bool {
    model::is_alnum(c) || c == '.' || c == '-' || c == '_'
}

/// `s` with `_` for every character that may not stand in a file name.
pub open spec fn file_safe(s: Seq<char>) -> Seq<char> {
    Seq::new(s.len(), |i: int| if name_char(s[i]) { s[i] } else { '_' })
}

/// `s` with `_` for every character that may not stand in a file name.
pub fn sanitize_filename(s: &str) -> (r: String)
    ensures
        r@ == file_safe(s@),
{
    let cs = chars(s);
    let mut out = String::new();
    let mut i: usize = 0;
    while i < cs.len()
        invariant
            i <= cs@.len(),
            cs@ == s@,
            out@ == file_safe(s@).take(i as int),
        decreases cs@.len() - i,
    {
        let c = cs[i];
        let safe = if alnum(c) || c == '.' || c == '-' || c == '_' { c } else { '_' };
        out.push(safe);
        assert(out@ == file_safe(s@).take(i + 1));
        i += 1;
    }
    assert(file_safe(s@).take(s@.len() as int) == file_safe(s@));
    out
}

/// The name of the file that a download is saved under.
pub open spec fn filename(
    pkg: Seq<char>,
    version: Seq<char>,
    arch: Option<Seq<char>>,
    ext: Seq<char>,
) -> Seq<char> {
    let stem = match arch {
        Some(a) if a.len() > 0 => pkg + "-"@ + version + "-"@ + a,
        _ => pkg + "-"@ + version,
    };
    file_safe(stem) + "."@ + ext
}

/// `{pkg}-{version}-{arch}.{ext}`, made safe for a file system. An ABI that is
/// not known is left out.
pub fn download_filename(pkg: &str, version: &str, arch: Option<&str>, ext: &str) -> (r: String)
    ensures
        r@ == filename(pkg@, version@, model::opt_str(arch), ext@),
{
    let mut stem = plus3(pkg, "-", version);
    if let Some(a) = arch {
        if !a.is_empty() {
            stem.append("-");
            stem.append(a);
        }
    }
    let stem = sanitize_filename(stem.as_str());
    plus3(stem.as_str(), ".", ext)
}

/// With a safe extension, a file name holds no separator and nothing else that a
/// file system or a shell takes for its own.
pub proof fn lemma_filename_safe(
    pkg: Seq<char>,
    version: Seq<char>,
    arch: Option<Seq<char>>,
    ext: Seq<char>,
)
    requires
        forall|i: int| 0 <= i < ext.len() ==> name_char(#[trigger] ext[i]),
    ensures
        forall|i: int|
            0 <= i < filename(pkg, version, arch, ext).len() ==> name_char(
                #[trigger] filename(pkg, version, arch, ext)[i],
            ),
{
    reveal_strlit(".");
}

/// Every provider that was asked failed.
#[derive(Debug)]
pub struct ResolveError {
    pub pkg: String,
    pub attempts: Vec<ProviderFailure>,
}

/// The failures of a list, each on a line of its own.
pub open spec fn failure_lines(fs: Seq<FailureView>) -> Seq<char>
    decreases fs.len(),
{
    if fs.len() == 0 {
        Seq::<char>::empty()
    } else {
        failure_lines(fs.drop_last()) + "\n  - "@ + failure_text(fs.last())
    }
}

/// The message of a resolution that failed.
pub open spec fn resolve_text(pkg: Seq<char>, fs: Seq<FailureView>) -> Seq<char> {
    "all providers failed for '"@ + pkg + "':"@ + failure_lines(fs)
}

/// Whether an error says that the site does not want to serve this client now.
pub open spec fn is_block(e: ErrorView) -> bool {
    e is Blocked || e is RateLimited
}

impl ResolveError {
    /// What the attempts say.
    pub open spec fn tries(&self) -> Seq<FailureView> {
        model::views(self.attempts@)
    }

    /// Whether there were attempts and each met a block or a rate limit.
    pub fn all_blocked(&self) -> (r: bool)
        ensures
            r == (self.tries().len() > 0 && forall|i: int|
                0 <= i < self.tries().len() ==> is_block((#[trigger] self.tries()[i]).source)),
    {
        let mut i: usize = 0;
        assert(self.tries().len() == self.attempts@.len());
        while i < self.attempts.len()
            invariant
                i <= self.attempts@.len(),
                self.tries().len() == self.attempts@.len(),
                forall|j: int| 0 <= j < i ==> is_block((#[trigger] self.tries()[j]).source),
            decreases self.attempts@.len() - i,
        {
            assert(self.tries()[i as int] == self.attempts@[i as int]@);
            let blocked = match &self.attempts[i].source {
                ProviderError::Blocked { .. } => true,
                ProviderError::RateLimited => true,
                _ => false,
            };
            if !blocked {
                assert(!is_block(self.tries()[i as int].source));
                return false;
            }
            i += 1;
        }
        i > 0
    }

    /// Whether there were attempts and each found nothing.
    pub fn all_not_found(&self) -> (r: bool)
        ensures
            r == (self.tries().len() > 0 && forall|i: int|
                0 <= i < self.tries().len() ==> (#[trigger] self.tries()[i]).source is NotFound),
    {
        let mut i: usize = 0;
        assert(self.tries().len() == self.attempts@.len());
        while i < self.attempts.len()
            invariant
                i <= self.attempts@.len(),
                self.tries().len() == self.attempts@.len(),
                forall|j: int| 0 <= j < i ==> (#[trigger] self.tries()[j]).source is NotFound,
            decreases self.attempts@.len() - i,
        {
            assert(self.tries()[i as int] == self.attempts@[i as int]@);
            let missing = match &self.attempts[i].source {
                ProviderError::NotFound(_) => true,
                _ => false,
            };
            if !missing {
                assert(!(self.tries()[i as int].source is NotFound));
                return false;
            }
            i += 1;
        }
        i > 0
    }

    /// Whether an attempt failed on the network.
    pub fn any_network(&self) -> (r: bool)
        ensures
            r == exists|i: int|
                0 <= i < self.tries().len() && (#[trigger] self.tries()[i]).source is Network,
    {
        let mut i: usize = 0;
        assert(self.tries().len() == self.attempts@.len());
        while i < self.attempts.len()
            invariant
                i <= self.attempts@.len(),
                self.tries().len() == self.attempts@.len(),
                forall|j: int| 0 <= j < i ==> !((#[trigger] self.tries()[j]).source is Network),
            decreases self.attempts@.len() - i,
        {
            assert(self.tries()[i as int] == self.attempts@[i as int]@);
            if let ProviderError::Network(_) = &self.attempts[i].source {
                assert(self.tries()[i as int].source is Network);
                return true;
            }
            i += 1;
        }
        false
    }

    /// The message of the error.
    pub fn to_string(&self) -> (r: String)
        ensures
            r@ == resolve_text(self.pkg@, self.tries()),
    {
        let ghost fs = self.tries();
        let mut out = plus3("all providers failed for '", self.pkg.as_str(), "':");
        let ghost head = out@;
        let mut i: usize = 0;
        assert(out@ == head + failure_lines(fs.take(0)));
        while i < self.attempts.len()
            invariant
                i <= self.attempts@.len(),
                fs == model::views(self.attempts@),
                out@ == head + failure_lines(fs.take(i as int)),
            decreases self.attempts@.len() - i,
        {
            assert(fs.take(i + 1).drop_last() == fs.take(i as int));
            out.append("\n  - ");
            let line = self.attempts[i].to_string();
            out.append(line.as_str());
            assert(out@ == head + failure_lines(fs.take(i + 1)));
            i += 1;
        }
        assert(fs.take(fs.len() as int) == fs);
        out
    }
}

/// A site that can be searched and downloaded from.
pub trait Provider {
    /// Which provider this is.
    fn name(&self) -> (r: ProviderId);

    /// Searches for an app.
    fn search(&self, query: &str) -> (r: Result<Vec<AppResult>, ProviderError>);

    /// Lists the versions of an app.
    fn versions(&self, pkg: &str) -> (r: Result<Vec<VersionInfo>, ProviderError>);

    /// Resolves a download. `arch` is the preferred ABI; without an exact match a
    /// provider falls back to a universal build.
    fn download_url(&self, pkg: &str, version: Option<&str>, arch: &str) -> (r: Result<
        DownloadTarget,
        ProviderError,
    >);

    /// Whether the provider can be reached: a search that always finds something,
    /// unless there is a cheaper way.
    fn check(&self) -> (r: Result<(), ProviderError>)
        default_ensures
            exists|found: Result<Vec<AppResult>, ProviderError>| #[trigger]
                call_ensures(Self::search, (self, "firefox"), found) && r == reached(found),
    {
        let found = self.search("firefox");
        assert(call_ensures(Self::search, (self, "firefox"), found));
        match found {
            Ok(_) => Ok(()),
            Err(e) => Err(e),
        }
    }
}

/// An outcome with its error attributed to a provider.
pub open spec fn tagged<T>(r: Result<T, ProviderError>, id: ProviderId) -> Result<
    T,
    ProviderFailure,
> {
    match r {
        Ok(v) => Ok(v),
        Err(e) => Err(ProviderFailure { provider: id, source: e }),
    }
}

/// Attributes the error of an outcome to a provider.
fn tag<T>(id: ProviderId, r: Result<T, ProviderError>) -> (out: Result<T, ProviderFailure>)
    ensures
        out == tagged(r, id),
{
    match r {
        Ok(v) => Ok(v),
        Err(e) => Err(ProviderFailure { provider: id, source: e }),
    }
}

/// What a search says of whether the provider can be reached.
pub open spec fn reached(found: Result<Vec<AppResult>, ProviderError>) -> Result<(), ProviderError> {
    match found {
        Ok(_) => Ok(()),
        Err(e) => Err(e),
    }
}

/// Outcomes with their errors attributed, each to its provider.
pub open spec fn all_tagged<T>(rs: Seq<Result<T, ProviderError>>, ids: Seq<ProviderId>) -> Seq<
    Result<T, ProviderFailure>,
> {
    Seq::new(rs.len(), |i: int| tagged(rs[i], ids[i]))
}

/// Whether `outcome` is what answers of providers come to: the target of the last, else
/// every failure in order.
pub open spec fn comes_to(
    pkg: Seq<char>,
    ids: Seq<ProviderId>,
    answers: Seq<Result<DownloadTarget, ProviderError>>,
    outcome: Result<DownloadTarget, ResolveError>,
) -> bool {
    match outcome {
        Ok(t) => fallback::succeeded(answers) && answers.last() == Ok::<
            DownloadTarget,
            ProviderError,
        >(t),
        Err(e) => {
            &&& !fallback::succeeded(answers)
            &&& e.pkg@ == pkg
            &&& e.attempts@ == fallback::failures_of(all_tagged(answers, ids))
        },
    }
}

/// The configured providers in the order of their registration.
pub struct ProviderRegistry<P> {
    ids: Vec<ProviderId>,
    providers: Vec<P>,
}

/// The first position of `id`.
pub open spec fn position(ids: Seq<ProviderId>, id: ProviderId) -> Option<int>
    decreases ids.len(),
{
    if ids.len() == 0 {
        None
    } else {
        match position(ids.drop_last(), id) {
            Some(i) => Some(i),
            None => if ids.last() == id {
                Some(ids.len() - 1)
            } else {
                None
            },
        }
    }
}

/// A position that is found early stays the first one.
proof fn lemma_position(ids: Seq<ProviderId>, id: ProviderId, n: int)
    requires
        0 <= n <= ids.len(),
        position(ids.take(n), id) is Some,
    ensures
        position(ids, id) == position(ids.take(n), id),
    decreases ids.len() - n,
{
    if n == ids.len() {
        assert(ids.take(n) == ids);
    } else {
        assert(ids.take(n + 1).drop_last() == ids.take(n));
        lemma_position(ids, id, n + 1);
    }
}

/// A provider answers for every identity that is registered.
pub proof fn lemma_registered(ids: Seq<ProviderId>, i: int)
    requires
        0 <= i < ids.len(),
    ensures
        position(ids, ids[i]) is Some,
{
    assert(ids.take(i + 1).last() == ids[i]);
    lemma_position(ids, ids[i], i + 1);
}

impl<P: Provider> ProviderRegistry<P> {
    /// The providers in the registry, by identity.
    pub closed spec fn ids(&self) -> Seq<ProviderId> {
        self.ids@
    }

    /// The providers in the registry.
    pub closed spec fn providers(&self) -> Seq<P> {
        self.providers@
    }

    /// Every provider has its identity.
    pub open spec fn wf(&self) -> bool {
        self.ids().len() == self.providers().len()
    }

    /// Whether a provider answers for `id`.
    pub open spec fn has(&self, id: ProviderId) -> bool {
        position(self.ids(), id) is Some
    }

    /// The provider that answers for `id`.
    pub open spec fn chosen(&self, id: ProviderId) -> P {
        self.providers()[position(self.ids(), id)->0]
    }

    /// `answer` is one that the provider `id` can give.
    pub open spec fn answers(
        &self,
        id: ProviderId,
        pkg: &str,
        version: Option<&str>,
        arch: &str,
        answer: Result<DownloadTarget, ProviderError>,
    ) -> bool {
        call_ensures(P::download_url, (&self.chosen(id), pkg, version, arch), answer)
    }

    /// The provider `id` can fail.
    pub open spec fn refuses(
        &self,
        id: ProviderId,
        pkg: &str,
        version: Option<&str>,
        arch: &str,
    ) -> bool {
        exists|e: ProviderError| #[trigger] self.answers(id, pkg, version, arch, Err(e))
    }

    /// `answers` are those that the providers of `order` give when they are asked once
    /// each, until one succeeds, and nobody after that.
    pub open spec fn asked(
        &self,
        pkg: &str,
        version: Option<&str>,
        arch: &str,
        order: Seq<ProviderId>,
        answers: Seq<Result<DownloadTarget, ProviderError>>,
    ) -> bool {
        &&& fallback::exhausted(order.len(), answers)
        &&& forall|i: int|
            0 <= i < answers.len() ==> self.answers(
                order[i],
                pkg,
                version,
                arch,
                #[trigger] answers[i],
            )
    }

    /// `outcome` is one that asking the providers of `order` one after the other can
    /// have: the target of the first that does not fail, else every failure.
    pub open spec fn resolves(
        &self,
        pkg: &str,
        version: Option<&str>,
        arch: &str,
        order: Seq<ProviderId>,
        outcome: Result<DownloadTarget, ResolveError>,
    ) -> bool {
        exists|answers: Seq<Result<DownloadTarget, ProviderError>>|
            #[trigger] self.asked(pkg, version, arch, order, answers) && comes_to(
                pkg@,
                order,
                answers,
                outcome,
            )
    }

    /// A target is the answer of a provider before which every one failed; an error
    /// holds a failure of every provider, in the order of the asking.
    pub proof fn lemma_first_success(
        &self,
        pkg: &str,
        version: Option<&str>,
        arch: &str,
        order: Seq<ProviderId>,
        outcome: Result<DownloadTarget, ResolveError>,
    )
        requires
            self.resolves(pkg, version, arch, order, outcome),
        ensures
            match outcome {
                Ok(t) => exists|n: int|
                    0 <= n < order.len() && self.answers(
                        #[trigger] order[n],
                        pkg,
                        version,
                        arch,
                        Ok(t),
                    ) && forall|j: int|
                        0 <= j < n ==> self.refuses(#[trigger] order[j], pkg, version, arch),
                Err(e) => {
                    &&& e.pkg@ == pkg@
                    &&& e.attempts@.len() == order.len()
                    &&& forall|j: int|
                        0 <= j < order.len() ==> (#[trigger] e.attempts@[j]).provider == order[j]
                            && self.answers(order[j], pkg, version, arch, Err(e.attempts@[j].source))
                },
            },
    {
        let answers = choose|answers: Seq<Result<DownloadTarget, ProviderError>>|
            #[trigger] self.asked(pkg, version, arch, order, answers) && comes_to(
                pkg@,
                order,
                answers,
                outcome,
            );
        match outcome {
            Ok(t) => {
                let n = answers.len() - 1;
                assert(self.answers(order[n], pkg, version, arch, answers[n]));
                assert forall|j: int| 0 <= j < n implies self.refuses(
                    #[trigger] order[j],
                    pkg,
                    version,
                    arch,
                ) by {
                    assert(answers[j] is Err);
                    assert(self.answers(order[j], pkg, version, arch, Err(answers[j]->Err_0)));
                }
            },
            Err(e) => {
                assert forall|j: int| 0 <= j < order.len() implies (
                #[trigger] e.attempts@[j]).provider == order[j] && self.answers(
                    order[j],
                    pkg,
                    version,
                    arch,
                    Err(e.attempts@[j].source),
                ) by {
                    assert(answers[j] is Err);
                    assert(answers.last() == answers[answers.len() - 1]);
                }
            },
        }
    }

    /// A registry without providers.
    pub fn new() -> (r: Self)
        ensures
            r.wf(),
            r.ids() == Seq::<ProviderId>::empty(),
            r.providers() == Seq::<P>::empty(),
    {
        ProviderRegistry { ids: Vec::new(), providers: Vec::new() }
    }

    /// Adds a provider behind the others.
    pub fn register(&mut self, provider: P)
        requires
            old(self).wf(),
        ensures
            final(self).wf(),
            final(self).providers() == old(self).providers().push(provider),
            exists|id: ProviderId|
                #[trigger] call_ensures(P::name, (&provider,), id) && final(self).ids() == old(
                    self,
                ).ids().push(id),
    {
        let id = provider.name();
        self.ids.push(id);
        self.providers.push(provider);
    }

    /// The providers in the order of their registration.
    pub fn names(&self) -> (r: Vec<ProviderId>)
        ensures
            r@ == self.ids(),
    {
        let mut out: Vec<ProviderId> = Vec::new();
        let mut i: usize = 0;
        while i < self.ids.len()
            invariant
                i <= self.ids@.len(),
                out@ == self.ids@.take(i as int),
            decreases self.ids@.len() - i,
        {
            out.push(self.ids[i]);
            i += 1;
        }
        assert(self.ids@.take(self.ids@.len() as int) == self.ids@);
        out
    }

    /// The provider that answers for `id`.
    pub fn get(&self, id: ProviderId) -> (r: Option<&P>)
        requires
            self.wf(),
        ensures
            match r {
                Some(p) => self.has(id) && *p == self.chosen(id),
                None => !self.has(id),
            },
    {
        let mut i: usize = 0;
        while i < self.ids.len()
            invariant
                i <= self.ids@.len(),
                self.wf(),
                position(self.ids@.take(i as int), id) is None,
            decreases self.ids@.len() - i,
        {
            assert(self.ids@.take(i + 1).drop_last() == self.ids@.take(i as int));
            if self.ids[i] == id {
                proof {
                    lemma_position(self.ids@, id, i + 1);
                }
                return Some(&self.providers[i]);
            }
            i += 1;
        }
        assert(self.ids@.take(self.ids@.len() as int) == self.ids@);
        None
    }

    /// The provider that answers for `id`, which is registered.
    fn require(&self, id: ProviderId) -> (r: &P)
        requires
            self.wf(),
            self.has(id),
        ensures
            *r == self.chosen(id),
    {
        self.get(id).unwrap()
    }

    /// Searches with one provider.
    pub fn search(&self, id: ProviderId, query: &str) -> (r: Result<
        Vec<AppResult>,
        ProviderFailure,
    >)
        requires
            self.wf(),
            self.has(id),
        ensures
            exists|a: Result<Vec<AppResult>, ProviderError>|
                #[trigger] call_ensures(P::search, (&self.chosen(id), query), a) && r == tagged(a, id),
    {
        tag(id, self.require(id).search(query))
    }

    /// Lists the versions that one provider has.
    pub fn versions(&self, id: ProviderId, pkg: &str) -> (r: Result<
        Vec<VersionInfo>,
        ProviderFailure,
    >)
        requires
            self.wf(),
            self.has(id),
        ensures
            exists|a: Result<Vec<VersionInfo>, ProviderError>|
                #[trigger] call_ensures(P::versions, (&self.chosen(id), pkg), a) && r == tagged(a, id),
    {
        tag(id, self.require(id).versions(pkg))
    }

    /// Resolves a download with one provider.
    pub fn download_url(&self, id: ProviderId, pkg: &str, version: Option<&str>, arch: &str) -> (r:
        Result<DownloadTarget, ProviderFailure>)
        requires
            self.wf(),
            self.has(id),
        ensures
            exists|a: Result<DownloadTarget, ProviderError>|
                #[trigger] self.answers(id, pkg, version, arch, a) && r == tagged(a, id),
    {
        let a = self.require(id).download_url(pkg, version, arch);
        assert(self.answers(id, pkg, version, arch, a));
        tag(id, a)
    }

    /// Whether one provider can be reached.
    pub fn check(&self, id: ProviderId) -> (r: Result<(), ProviderFailure>)
        requires
            self.wf(),
            self.has(id),
        ensures
            exists|a: Result<(), ProviderError>|
                #[trigger] call_ensures(P::check, (&self.chosen(id),), a) && r == tagged(a, id),
    {
        tag(id, self.require(id).check())
    }

    /// Asks the providers of `order` one after the other and returns the first
    /// success. Any failure moves on to the next; where all fail, the error holds
    /// them in that order.
    pub fn resolve_with_fallback(
        &self,
        pkg: &str,
        version: Option<&str>,
        arch: &str,
        order: &[ProviderId],
    ) -> (r: Result<DownloadTarget, ResolveError>)
        requires
            self.wf(),
            forall|i: int| 0 <= i < order@.len() ==> self.has(#[trigger] order@[i]),
        ensures
            self.resolves(pkg, version, arch, order@, r),
    {
        let ghost all = order@;
        let mut asking: Fallback<ProviderId, DownloadTarget, ProviderFailure> = Fallback::start(
            copy(order),
        );
        let ghost mut answers = Seq::<Result<DownloadTarget, ProviderError>>::empty();
        assert(all_tagged(answers, all) == Seq::<Result<DownloadTarget, ProviderFailure>>::empty());
        loop
            invariant
                self.wf(),
                forall|i: int| 0 <= i < all.len() ==> self.has(#[trigger] all[i]),
                asking@ == fallback::fallen(all, all_tagged(answers, all)),
                fallback::in_turn(all.len(), all_tagged(answers, all)),
                forall|i: int|
                    0 <= i < answers.len() ==> self.answers(
                        all[i],
                        pkg,
                        version,
                        arch,
                        #[trigger] answers[i],
                    ),
            ensures
                fallback::upcoming(asking@) is None,
            decreases all.len() - answers.len(),
        {
            proof {
                fallback::lemma_asks_until_success(all, all_tagged(answers, all));
            }
            let id = match asking.next() {
                Some(id) => id,
                None => {
                    break ;
                },
            };
            assert(id == all[answers.len() as int]);
            let answer = self.require(id).download_url(pkg, version, arch);
            assert(self.answers(all[answers.len() as int], pkg, version, arch, answer));
            proof {
                let next = tagged(answer, id);
                fallback::lemma_in_turn(all, all_tagged(answers, all), next);
                assert(all_tagged(answers.push(answer), all) == all_tagged(answers, all).push(
                    next,
                ));
                answers = answers.push(answer);
            }
            asking.absorb(tag(id, answer));
        }
        proof {
            let seen = all_tagged(answers, all);
            fallback::lemma_asks_until_success(all, seen);
            assert forall|i: int| 0 <= i < answers.len() - 1 implies (#[trigger] answers[i]) is Err by {
                assert(seen[i] is Err);
            }
            assert(fallback::succeeded(seen) == fallback::succeeded(answers));
            assert(self.asked(pkg, version, arch, all, answers));
        }
        match asking.finish() {
            Ok(t) => {
                assert(comes_to(pkg@, all, answers, Ok(t)));
                Ok(t)
            },
            Err(attempts) => {
                let e = ResolveError { pkg: pkg.to_owned(), attempts };
                assert(comes_to(pkg@, all, answers, Err(e)));
                Err(e)
            },
        }
    }
}

} // verus!
