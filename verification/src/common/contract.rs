//! Providers, what they answer, how they fail, and the fallback between them.

use crate::model;
use crate::model::Class;
use crate::numbers::padded_text;
use crate::outside;
use crate::strings::{
    alnum, chars, join, plus, same, split_runs, starts_with, strip_prefix, to_ascii_lowercase,
    trim_by, trim_start_by,
};
use std::marker::PhantomData;
use vstd::prelude::*;
use vstd::string::StringExecFns;

verus! {

/// The known providers.
#[derive(Debug, Clone, Copy, PartialEq, Eq, Structural)]
pub enum ProviderId {
    Apkmirror,
    Apkpure,
    Apkcombo,
}

/// The name of a provider.
pub open spec fn id_name(id: ProviderId) -> Seq<char> {
    match id {
        ProviderId::Apkmirror => "apkmirror"@,
        ProviderId::Apkpure => "apkpure"@,
        ProviderId::Apkcombo => "apkcombo"@,
    }
}

/// The providers in the order in which they are tried.
pub open spec fn priority() -> Seq<ProviderId> {
    seq![ProviderId::Apkcombo, ProviderId::Apkpure, ProviderId::Apkmirror]
}

impl ProviderId {
    /// The providers in the order in which they are tried.
    pub fn default_priority() -> (r: Vec<ProviderId>)
        ensures
            r@ == priority(),
    {
        let out = vec![ProviderId::Apkcombo, ProviderId::Apkpure, ProviderId::Apkmirror];
        assert(out@ == priority());
        out
    }

    /// The name of the provider.
    pub fn as_str(&self) -> (r: &'static str)
        ensures
            r@ == id_name(*self),
    {
        match self {
            ProviderId::Apkmirror => "apkmirror",
            ProviderId::Apkpure => "apkpure",
            ProviderId::Apkcombo => "apkcombo",
        }
    }

    /// The name of the provider, owned.
    pub fn to_string(&self) -> (r: String)
        ensures
            r@ == id_name(*self),
    {
        self.as_str().to_owned()
    }
}

/// Provider constants that generic code can use.
pub trait ProviderConst {
    /// The provider.
    spec fn ident() -> ProviderId;

    /// The site, without a trailing `/`.
    spec fn base() -> Seq<char>;

    /// The provider.
    fn id() -> (r: ProviderId)
        ensures
            r == Self::ident(),
    ;

    /// The site, without a trailing `/`.
    fn base_url() -> (r: &'static str)
        ensures
            r@ == Self::base(),
    ;
}

/// `href` as an absolute URL: as it is with a scheme, else below `base`.
pub open spec fn absolute(base: Seq<char>, href: Seq<char>) -> Seq<char> {
    if model::begins(href, "http://"@) || model::begins(href, "https://"@) {
        href
    } else {
        base + "/"@ + model::trimmed_start(href, Class::One('/'))
    }
}

/// What follows `base` in `url`, without `/` at either end.
pub open spec fn path_below(base: Seq<char>, url: Seq<char>) -> Option<Seq<char>> {
    match model::after_prefix(url, base) {
        Some(rest) => Some(model::trimmed(rest, Class::One('/'))),
        None => None,
    }
}

/// An absolute URL on the site of a provider.
pub struct Url<C> {
    url: String,
    marker: PhantomData<C>,
}

impl<C> View for Url<C> {
    type V = Seq<char>;

    closed spec fn view(&self) -> Seq<char> {
        self.url@
    }
}

impl<C> Clone for Url<C> {
    fn clone(&self) -> (r: Self)
        ensures
            r@ == self@,
    {
        Url { url: self.url.clone(), marker: PhantomData }
    }
}

impl<C> Url<C> {
    /// The URL as text.
    pub fn as_str(&self) -> (r: &str)
        ensures
            r@ == self@,
    {
        self.url.as_str()
    }

    /// The URL as text, owned.
    pub fn to_string(&self) -> (r: String)
        ensures
            r@ == self@,
    {
        self.url.clone()
    }

    /// The URL as text, without a copy.
    pub fn into_string(self) -> (r: String)
        ensures
            r@ == self@,
    {
        self.url
    }
}

impl<C: ProviderConst> Url<C> {
    /// The URL of `href`, which may be relative to the site.
    pub fn of(href: &str) -> (r: Self)
        ensures
            r@ == absolute(C::base(), href@),
    {
        let url = if starts_with(href, "http://") || starts_with(href, "https://") {
            href.to_owned()
        } else {
            let mut out = C::base_url().to_owned();
            out.append("/");
            let rest = trim_start_by(href, Class::One('/'));
            out.append(rest.as_str());
            out
        };
        Url { url, marker: PhantomData }
    }

    /// The path below the site, without `/` at either end; `None` for a URL of
    /// another site.
    pub fn path(&self) -> (r: Option<String>)
        ensures
            model::opt(r) == path_below(C::base(), self@),
    {
        match strip_prefix(self.url.as_str(), C::base_url()) {
            Some(rest) => Some(trim_by(rest.as_str(), Class::One('/'))),
            None => None,
        }
    }
}

/// A set of ABIs. A split bundle carries several.
#[derive(Debug, Clone, Copy, PartialEq, Eq, Structural)]
pub struct Arch {
    pub arm64_v8a: bool,
    pub armeabi_v7a: bool,
    pub x86: bool,
    pub x86_64: bool,
}

/// The set of no ABI.
pub open spec fn no_abi() -> Arch {
    Arch { arm64_v8a: false, armeabi_v7a: false, x86: false, x86_64: false }
}

/// The set of every ABI.
pub open spec fn every_abi() -> Arch {
    Arch { arm64_v8a: true, armeabi_v7a: true, x86: true, x86_64: true }
}

/// The set that one ABI label stands for, in any case.
pub open spec fn labelled(tok: Seq<char>) -> Option<Arch> {
    let t = model::lowered(tok);
    if t == "arm64-v8a"@ {
        Some(Arch { arm64_v8a: true, ..no_abi() })
    } else if t == "armeabi-v7a"@ {
        Some(Arch { armeabi_v7a: true, ..no_abi() })
    } else if t == "x86"@ {
        Some(Arch { x86: true, ..no_abi() })
    } else if t == "x86_64"@ {
        Some(Arch { x86_64: true, ..no_abi() })
    } else if t == "universal"@ || t == "noarch"@ {
        Some(every_abi())
    } else {
        None
    }
}

/// The union of the sets that labels stand for, or a complaint about the first
/// that stands for none.
pub open spec fn labels_union(ts: Seq<Seq<char>>) -> Result<Arch, Seq<char>>
    decreases ts.len(),
{
    if ts.len() == 0 {
        Ok(no_abi())
    } else {
        match labels_union(ts.drop_last()) {
            Err(e) => Err(e),
            Ok(a) => match labelled(ts.last()) {
                Some(b) => Ok(a.joined_with(b)),
                None => Err("unknown arch "@ + outside::debug_form(ts.last())),
            },
        }
    }
}

/// The set of ABIs that a list of labels spells.
pub open spec fn arch_of(s: Seq<char>) -> Result<Arch, Seq<char>> {
    match labels_union(model::runs(s, Class::Between)) {
        Err(e) => Err(e),
        Ok(a) => if a == no_abi() {
            Err("empty arch"@)
        } else {
            Ok(a)
        },
    }
}

/// The labels of a set, in order.
pub open spec fn arch_labels(a: Arch) -> Seq<Seq<char>> {
    let one = if a.arm64_v8a { seq!["arm64-v8a"@] } else { Seq::<Seq<char>>::empty() };
    let two = if a.armeabi_v7a { one.push("armeabi-v7a"@) } else { one };
    let three = if a.x86 { two.push("x86"@) } else { two };
    if a.x86_64 { three.push("x86_64"@) } else { three }
}

/// The text of a set: `universal`, one ABI, or `a+b` for several.
pub open spec fn arch_text(a: Arch) -> Seq<char> {
    if a == every_abi() {
        "universal"@
    } else {
        model::joined(arch_labels(a), "+"@)
    }
}

impl Arch {
    /// Whether every ABI of `other` is in the set.
    pub open spec fn covers(self, other: Arch) -> bool {
        &&& other.arm64_v8a ==> self.arm64_v8a
        &&& other.armeabi_v7a ==> self.armeabi_v7a
        &&& other.x86 ==> self.x86
        &&& other.x86_64 ==> self.x86_64
    }

    /// The ABIs of either set.
    pub open spec fn joined_with(self, other: Arch) -> Arch {
        Arch {
            arm64_v8a: self.arm64_v8a || other.arm64_v8a,
            armeabi_v7a: self.armeabi_v7a || other.armeabi_v7a,
            x86: self.x86 || other.x86,
            x86_64: self.x86_64 || other.x86_64,
        }
    }

    /// The number of ABIs in the set.
    pub open spec fn size(self) -> nat {
        (if self.arm64_v8a { 1nat } else { 0 }) + (if self.armeabi_v7a { 1nat } else { 0 }) + (
        if self.x86 { 1nat } else { 0 }) + (if self.x86_64 { 1nat } else { 0 })
    }

    /// The set of every ABI.
    pub fn all() -> (r: Arch)
        ensures
            r == every_abi(),
    {
        Arch { arm64_v8a: true, armeabi_v7a: true, x86: true, x86_64: true }
    }

    /// The set of no ABI.
    pub fn empty() -> (r: Arch)
        ensures
            r == no_abi(),
    {
        Arch { arm64_v8a: false, armeabi_v7a: false, x86: false, x86_64: false }
    }

    /// The 64-bit ARM ABI.
    pub fn arm64_v8a() -> (r: Arch)
        ensures
            r == (Arch { arm64_v8a: true, ..no_abi() }),
    {
        Arch { arm64_v8a: true, armeabi_v7a: false, x86: false, x86_64: false }
    }

    /// The 32-bit ARM ABI.
    pub fn armeabi_v7a() -> (r: Arch)
        ensures
            r == (Arch { armeabi_v7a: true, ..no_abi() }),
    {
        Arch { arm64_v8a: false, armeabi_v7a: true, x86: false, x86_64: false }
    }

    /// The 32-bit x86 ABI.
    pub fn x86() -> (r: Arch)
        ensures
            r == (Arch { x86: true, ..no_abi() }),
    {
        Arch { arm64_v8a: false, armeabi_v7a: false, x86: true, x86_64: false }
    }

    /// The 64-bit x86 ABI.
    pub fn x86_64() -> (r: Arch)
        ensures
            r == (Arch { x86_64: true, ..no_abi() }),
    {
        Arch { arm64_v8a: false, armeabi_v7a: false, x86: false, x86_64: true }
    }

    /// Whether every ABI of `other` is in the set.
    pub fn contains(&self, other: Arch) -> (r: bool)
        ensures
            r == self.covers(other),
    {
        (!other.arm64_v8a || self.arm64_v8a) && (!other.armeabi_v7a || self.armeabi_v7a) && (
        !other.x86 || self.x86) && (!other.x86_64 || self.x86_64)
    }

    /// The ABIs of either set.
    pub fn union(&self, other: Arch) -> (r: Arch)
        ensures
            r == self.joined_with(other),
    {
        Arch {
            arm64_v8a: self.arm64_v8a || other.arm64_v8a,
            armeabi_v7a: self.armeabi_v7a || other.armeabi_v7a,
            x86: self.x86 || other.x86,
            x86_64: self.x86_64 || other.x86_64,
        }
    }

    /// Whether the set holds no ABI.
    pub fn is_empty(&self) -> (r: bool)
        ensures
            r == (*self == no_abi()),
    {
        !self.arm64_v8a && !self.armeabi_v7a && !self.x86 && !self.x86_64
    }

    /// The number of ABIs in the set.
    pub fn count(&self) -> (r: u32)
        ensures
            r == self.size(),
    {
        let a: u32 = if self.arm64_v8a { 1 } else { 0 };
        let b: u32 = if self.armeabi_v7a { 1 } else { 0 };
        let c: u32 = if self.x86 { 1 } else { 0 };
        let d: u32 = if self.x86_64 { 1 } else { 0 };
        a + b + c + d
    }

    /// The set that one ABI label stands for. A site says `universal` or `noarch`
    /// for a build that runs anywhere.
    pub fn single(tok: &str) -> (r: Option<Arch>)
        ensures
            r == labelled(tok@),
    {
        let t = to_ascii_lowercase(tok);
        let t = t.as_str();
        if same(t, "arm64-v8a") {
            Some(Arch::arm64_v8a())
        } else if same(t, "armeabi-v7a") {
            Some(Arch::armeabi_v7a())
        } else if same(t, "x86") {
            Some(Arch::x86())
        } else if same(t, "x86_64") {
            Some(Arch::x86_64())
        } else if same(t, "universal") || same(t, "noarch") {
            Some(Arch::all())
        } else {
            None
        }
    }

    /// The set that a list of labels spells, with `,`, `+` or white space
    /// between them.
    pub fn parse(s: &str) -> (r: Result<Arch, String>)
        ensures
            (match r {
                Ok(a) => Ok(a),
                Err(e) => Err(e@),
            }) == arch_of(s@),
    {
        let toks = split_runs(s, Class::Between);
        let ghost ts = model::texts(toks@);
        let mut set = Arch::empty();
        let mut i: usize = 0;
        assert(ts.take(0) == Seq::<Seq<char>>::empty());
        while i < toks.len()
            invariant
                i <= toks@.len(),
                ts == model::texts(toks@),
                ts == model::runs(s@, Class::Between),
                labels_union(ts.take(i as int)) == Ok::<Arch, Seq<char>>(set),
            decreases toks@.len() - i,
        {
            assert(ts.take(i + 1).drop_last() == ts.take(i as int));
            assert(ts.take(i + 1).last() == toks@[i as int]@);
            match Arch::single(toks[i].as_str()) {
                Some(a) => {
                    set = set.union(a);
                },
                None => {
                    let form = outside::debug_text(toks[i].as_str());
                    let e = plus("unknown arch ", form.as_str());
                    proof {
                        lemma_first_complaint(ts, i + 1);
                    }
                    return Err(e);
                },
            }
            i += 1;
        }
        assert(ts.take(ts.len() as int) == ts);
        if set.is_empty() {
            Err("empty arch".to_owned())
        } else {
            Ok(set)
        }
    }

    /// The text of the set: `universal`, one ABI, or `a+b` for several.
    pub fn to_string(&self) -> (r: String)
        ensures
            r@ == arch_text(*self),
    {
        if self.arm64_v8a && self.armeabi_v7a && self.x86 && self.x86_64 {
            return "universal".to_owned();
        }
        let mut names: Vec<String> = Vec::new();
        if self.arm64_v8a {
            names.push("arm64-v8a".to_owned());
        }
        if self.armeabi_v7a {
            names.push("armeabi-v7a".to_owned());
        }
        if self.x86 {
            names.push("x86".to_owned());
        }
        if self.x86_64 {
            names.push("x86_64".to_owned());
        }
        assert(model::texts(names@) == arch_labels(*self));
        join(&names, "+")
    }
}

/// Once a label stands for nothing, later labels do not change the complaint.
proof fn lemma_first_complaint(ts: Seq<Seq<char>>, n: int)
    requires
        0 <= n <= ts.len(),
        labels_union(ts.take(n)) is Err,
    ensures
        labels_union(ts) == labels_union(ts.take(n)),
    decreases ts.len() - n,
{
    if n == ts.len() {
        assert(ts.take(n) == ts);
    } else {
        assert(ts.take(n + 1).drop_last() == ts.take(n));
        lemma_first_complaint(ts, n + 1);
    }
}

impl std::str::FromStr for Arch {
    type Err = String;

    /// The set that a list of labels spells, as [`Arch::parse`] reads it.
    fn from_str(s: &str) -> (r: Result<Arch, String>)
        ensures
            (match r {
                Ok(a) => Ok(a),
                Err(e) => Err(e@),
            }) == arch_of(s@),
    {
        Arch::parse(s)
    }
}

/// A calendar date.
#[derive(Debug, Clone, Copy, PartialEq, Eq, Structural)]
pub struct Date {
    pub year: i32,
    pub month: u32,
    pub day: u32,
}

/// The year of a date as ISO 8601 writes it: four digits, or a sign and at least
/// four digits outside the years 0 to 9999.
pub open spec fn year_text(year: int) -> Seq<char> {
    if 0 <= year <= 9999 {
        model::zero_filled(model::decimal(year as nat), 4)
    } else if year < 0 {
        "-"@ + model::zero_filled(model::decimal((-year) as nat), 4)
    } else {
        "+"@ + model::zero_filled(model::decimal(year as nat), 4)
    }
}

/// A date as ISO 8601 writes it: `2026-09-04`.
pub open spec fn date_text(d: Date) -> Seq<char> {
    year_text(d.year as int) + "-"@ + model::zero_filled(model::decimal(d.month as nat), 2) + "-"@
        + model::zero_filled(model::decimal(d.day as nat), 2)
}

impl Date {
    /// The date as ISO 8601 writes it.
    pub fn to_string(&self) -> (r: String)
        ensures
            r@ == date_text(*self),
    {
        let mut out = if self.year >= 0 && self.year <= 9999 {
            padded_text(self.year as u64, 4)
        } else if self.year < 0 {
            let y = padded_text((-(self.year as i64)) as u64, 4);
            plus("-", y.as_str())
        } else {
            let y = padded_text(self.year as u64, 4);
            plus("+", y.as_str())
        };
        let month = padded_text(self.month as u64, 2);
        let day = padded_text(self.day as u64, 2);
        out.append("-");
        out.append(month.as_str());
        out.append("-");
        out.append(day.as_str());
        out
    }
}

/// A search hit for an app. Versions are not part of it, as most search results
/// do not carry them.
#[derive(Debug)]
pub struct AppResult {
    pub package: String,
    pub title: String,
}

/// What an [`AppResult`] says.
pub struct AppView {
    pub package: Seq<char>,
    pub title: Seq<char>,
}

impl View for AppResult {
    type V = AppView;

    open spec fn view(&self) -> AppView {
        AppView { package: self.package@, title: self.title@ }
    }
}

/// One published version of an app.
#[derive(Debug)]
pub struct VersionInfo {
    pub version: String,
    pub uploaded: Date,
}

/// What a [`VersionInfo`] says.
pub struct VersionView {
    pub version: Seq<char>,
    pub uploaded: Date,
}

impl View for VersionInfo {
    type V = VersionView;

    open spec fn view(&self) -> VersionView {
        VersionView { version: self.version@, uploaded: self.uploaded }
    }
}

/// Texts of header fields, name and value.
pub open spec fn header_texts(v: Seq<(String, String)>) -> Seq<(Seq<char>, Seq<char>)> {
    Seq::new(v.len(), |i: int| (v[i].0@, v[i].1@))
}

/// A concrete, downloadable APK: its URL and the headers that the host requires.
#[derive(Debug)]
pub struct DownloadTarget {
    pub url: String,
    pub version: String,
    pub arch: Arch,
    pub provider: ProviderId,
    pub headers: Vec<(String, String)>,
}

/// What a [`DownloadTarget`] says.
pub struct TargetView {
    pub url: Seq<char>,
    pub version: Seq<char>,
    pub arch: Arch,
    pub provider: ProviderId,
    pub headers: Seq<(Seq<char>, Seq<char>)>,
}

impl View for DownloadTarget {
    type V = TargetView;

    open spec fn view(&self) -> TargetView {
        TargetView {
            url: self.url@,
            version: self.version@,
            arch: self.arch,
            provider: self.provider,
            headers: header_texts(self.headers@),
        }
    }
}

/// How a provider can fail.
#[derive(Debug)]
pub enum ProviderError {
    /// The site does not serve this client right now.
    Blocked,
    /// The text says what was missing. [`ProviderFailure`] adds the name of the
    /// provider, so the text does not repeat it.
    NotFound(String),
    /// A page was not what it should be.
    ParseError(String),
    /// The site could not be reached.
    Network(String),
    /// The user stopped it.
    Cancelled,
}

/// What a [`ProviderError`] says.
pub enum ErrorView {
    Blocked,
    NotFound(Seq<char>),
    ParseError(Seq<char>),
    Network(Seq<char>),
    Cancelled,
}

impl View for ProviderError {
    type V = ErrorView;

    open spec fn view(&self) -> ErrorView {
        match *self {
            ProviderError::Blocked => ErrorView::Blocked,
            ProviderError::NotFound(s) => ErrorView::NotFound(s@),
            ProviderError::ParseError(s) => ErrorView::ParseError(s@),
            ProviderError::Network(s) => ErrorView::Network(s@),
            ProviderError::Cancelled => ErrorView::Cancelled,
        }
    }
}

/// What an outcome says.
pub open spec fn outcome<T: View, E: View>(r: Result<T, E>) -> Result<T::V, E::V> {
    match r {
        Ok(v) => Ok(v@),
        Err(e) => Err(e@),
    }
}

/// What an outcome with a list says.
pub open spec fn outcomes<T: View, E: View>(r: Result<Vec<T>, E>) -> Result<Seq<T::V>, E::V> {
    match r {
        Ok(v) => Ok(model::views(v@)),
        Err(e) => Err(e@),
    }
}

/// The message of an error.
pub open spec fn error_text(e: ErrorView) -> Seq<char> {
    match e {
        ErrorView::Blocked => "blocked by anti-bot / rate limit (challenge page, 403, or 429)"@,
        ErrorView::NotFound(s) => s,
        ErrorView::ParseError(s) => "parse error: "@ + s,
        ErrorView::Network(s) => "network error: "@ + s,
        ErrorView::Cancelled => "cancelled"@,
    }
}

impl ProviderError {
    /// Attributes this failure to the provider that raised it.
    pub fn raised_by(self, provider: ProviderId) -> (r: ProviderFailure)
        ensures
            r.provider == provider,
            r.source == self,
    {
        ProviderFailure { provider, source: self }
    }

    /// The message of the error.
    pub fn to_string(&self) -> (r: String)
        ensures
            r@ == error_text(self@),
    {
        match self {
            ProviderError::Blocked => {
                "blocked by anti-bot / rate limit (challenge page, 403, or 429)".to_owned()
            },
            ProviderError::NotFound(s) => s.clone(),
            ProviderError::ParseError(s) => plus("parse error: ", s.as_str()),
            ProviderError::Network(s) => plus("network error: ", s.as_str()),
            ProviderError::Cancelled => "cancelled".to_owned(),
        }
    }
}

/// A failure and the provider that raised it.
#[derive(Debug)]
pub struct ProviderFailure {
    pub provider: ProviderId,
    pub source: ProviderError,
}

/// What a [`ProviderFailure`] says.
pub struct FailureView {
    pub provider: ProviderId,
    pub source: ErrorView,
}

impl View for ProviderFailure {
    type V = FailureView;

    open spec fn view(&self) -> FailureView {
        FailureView { provider: self.provider, source: self.source@ }
    }
}

/// The message of a failure, with the name of the provider.
pub open spec fn failure_text(f: FailureView) -> Seq<char> {
    id_name(f.provider) + ": "@ + error_text(f.source)
}

impl ProviderFailure {
    /// The message of the failure, with the name of the provider.
    pub fn to_string(&self) -> (r: String)
        ensures
            r@ == failure_text(self@),
    {
        let mut out = self.provider.to_string();
        out.append(": ");
        let e = self.source.to_string();
        out.append(e.as_str());
        out
    }
}

/// Every provider that was asked failed.
#[derive(Debug)]
pub struct ResolveError {
    pub pkg: String,
    pub attempts: Vec<ProviderFailure>,
}

/// The failures of a list, each on a line of its own.
pub open spec fn failure_lines(fs: Seq<FailureView>) -> Seq<char>
    decreases fs.len(),
{
    if fs.len() == 0 {
        Seq::<char>::empty()
    } else {
        failure_lines(fs.drop_last()) + "\n  - "@ + failure_text(fs.last())
    }
}

/// The message of a resolution that failed. With one attempt it is that
/// attempt's message.
pub open spec fn resolve_text(pkg: Seq<char>, fs: Seq<FailureView>) -> Seq<char> {
    if fs.len() == 1 {
        failure_text(fs[0])
    } else {
        "all providers failed for '"@ + pkg + "':"@ + failure_lines(fs)
    }
}

impl ResolveError {
    /// The message of the error.
    pub fn to_string(&self) -> (r: String)
        ensures
            r@ == resolve_text(self.pkg@, model::views(self.attempts@)),
    {
        let ghost fs = model::views(self.attempts@);
        if self.attempts.len() == 1 {
            return self.attempts[0].to_string();
        }
        let mut out = "all providers failed for '".to_owned();
        out.append(self.pkg.as_str());
        out.append("':");
        let ghost head = out@;
        let mut i: usize = 0;
        assert(out@ == head + failure_lines(fs.take(0)));
        while i < self.attempts.len()
            invariant
                i <= self.attempts@.len(),
                fs == model::views(self.attempts@),
                out@ == head + failure_lines(fs.take(i as int)),
            decreases self.attempts@.len() - i,
        {
            assert(fs.take(i + 1).drop_last() == fs.take(i as int));
            out.append("\n  - ");
            let line = self.attempts[i].to_string();
            out.append(line.as_str());
            assert(out@ == head + failure_lines(fs.take(i + 1)));
            i += 1;
        }
        assert(fs.take(fs.len() as int) == fs);
        out
    }
}

/// Whether a character may stand in a file name.
pub open spec fn name_char(c: char) -> bool {
    model::is_alnum(c) || c == '.' || c == '-' || c == '_' || c == '+'
}

/// `s` with `_` for every character that may not stand in a file name.
pub open spec fn file_safe(s: Seq<char>) -> Seq<char> {
    Seq::new(s.len(), |i: int| if name_char(s[i]) { s[i] } else { '_' })
}

/// `s` with `_` for every character that may not stand in a file name.
pub(crate) fn sanitize(s: &str) -> (r: String)
    ensures
        r@ == file_safe(s@),
{
    let cs = chars(s);
    let mut out = String::new();
    let mut i: usize = 0;
    while i < cs.len()
        invariant
            i <= cs@.len(),
            cs@ == s@,
            out@ == file_safe(s@).take(i as int),
        decreases cs@.len() - i,
    {
        let c = cs[i];
        let safe = if alnum(c) || c == '.' || c == '-' || c == '_' || c == '+' { c } else { '_' };
        out.push(safe);
        assert(out@ == file_safe(s@).take(i + 1));
        i += 1;
    }
    assert(file_safe(s@).take(s@.len() as int) == file_safe(s@));
    out
}

/// The name of the file that a download is saved under.
pub open spec fn filename(pkg: Seq<char>, version: Seq<char>, arch: Arch) -> Seq<char> {
    file_safe(pkg + "-"@ + version + "-"@ + arch_text(arch))
}

/// `{pkg}-{version}-{arch}`, made safe for a file system.
pub fn download_filename(pkg: &str, version: &str, arch: Arch) -> (r: String)
    ensures
        r@ == filename(pkg@, version@, arch),
{
    let mut name = pkg.to_owned();
    name.append("-");
    name.append(version);
    name.append("-");
    let a = arch.to_string();
    name.append(a.as_str());
    sanitize(name.as_str())
}

/// What is safe already is kept.
pub proof fn lemma_safe_kept(s: Seq<char>)
    requires
        forall|i: int| 0 <= i < s.len() ==> name_char(#[trigger] s[i]),
    ensures
        file_safe(s) == s,
{
}

/// A file name holds no separator and nothing else that a file system or a shell
/// takes for its own.
pub proof fn lemma_filename_safe(pkg: Seq<char>, version: Seq<char>, arch: Arch)
    ensures
        forall|i: int|
            0 <= i < filename(pkg, version, arch).len() ==> name_char(
                #[trigger] filename(pkg, version, arch)[i],
            ),
{
}

/// What the labels of single ABIs are.
proof fn lemma_label_chars()
    ensures
        forall|i: int| 0 <= i < "arm64-v8a"@.len() ==> plain_char(#[trigger] "arm64-v8a"@[i]),
        forall|i: int| 0 <= i < "armeabi-v7a"@.len() ==> plain_char(#[trigger] "armeabi-v7a"@[i]),
        forall|i: int| 0 <= i < "x86"@.len() ==> plain_char(#[trigger] "x86"@[i]),
        forall|i: int| 0 <= i < "x86_64"@.len() ==> plain_char(#[trigger] "x86_64"@[i]),
        forall|i: int| 0 <= i < "universal"@.len() ==> plain_char(#[trigger] "universal"@[i]),
        "arm64-v8a"@.len() == 9,
        "armeabi-v7a"@.len() == 11,
        "x86"@.len() == 3,
        "x86_64"@.len() == 6,
        "universal"@.len() == 9,
        "universal"@ != "arm64-v8a"@,
{
    reveal_strlit("arm64-v8a");
    reveal_strlit("armeabi-v7a");
    reveal_strlit("x86");
    reveal_strlit("x86_64");
    reveal_strlit("universal");
    assert("universal"@[0] != "arm64-v8a"@[0]);
}

/// A character that a label is made of.
spec fn plain_char(c: char) -> bool {
    'a' <= c && c <= 'z' || '0' <= c && c <= '9' || c == '-' || c == '_'
}

/// A text of such characters is its own lower-case form and holds no separator.
proof fn lemma_plain(s: Seq<char>)
    requires
        forall|i: int| 0 <= i < s.len() ==> plain_char(#[trigger] s[i]),
    ensures
        model::lowered(s) == s,
        forall|i: int| 0 <= i < s.len() ==> !Class::Between.has(#[trigger] s[i]),
{
    assert forall|i: int| 0 <= i < s.len() implies model::lowered(s)[i] == s[i] by {
        assert(plain_char(s[i]));
    }
    assert forall|i: int| 0 <= i < s.len() implies !Class::Between.has(#[trigger] s[i]) by {
        assert(plain_char(s[i]));
    }
}

/// What the labels stand for.
proof fn lemma_labelled()
    ensures
        labelled("arm64-v8a"@) == Some(Arch { arm64_v8a: true, ..no_abi() }),
        labelled("armeabi-v7a"@) == Some(Arch { armeabi_v7a: true, ..no_abi() }),
        labelled("x86"@) == Some(Arch { x86: true, ..no_abi() }),
        labelled("x86_64"@) == Some(Arch { x86_64: true, ..no_abi() }),
        labelled("universal"@) == Some(every_abi()),
{
    lemma_label_chars();
    lemma_plain("arm64-v8a"@);
    lemma_plain("armeabi-v7a"@);
    lemma_plain("x86"@);
    lemma_plain("x86_64"@);
    lemma_plain("universal"@);
}

/// The labels of a set stand for the set.
proof fn lemma_labels_union(a: Arch)
    ensures
        labels_union(arch_labels(a)) == Ok::<Arch, Seq<char>>(a),
{
    lemma_labelled();
    let none = Seq::<Seq<char>>::empty();
    let one = if a.arm64_v8a { seq!["arm64-v8a"@] } else { none };
    let two = if a.armeabi_v7a { one.push("armeabi-v7a"@) } else { one };
    let three = if a.x86 { two.push("x86"@) } else { two };
    let four = if a.x86_64 { three.push("x86_64"@) } else { three };
    assert(labels_union(none) == Ok::<Arch, Seq<char>>(no_abi()));
    if a.arm64_v8a {
        assert(one.drop_last() == none);
    }
    assert(labels_union(one) == Ok::<Arch, Seq<char>>(Arch { arm64_v8a: a.arm64_v8a, ..no_abi() }));
    if a.armeabi_v7a {
        assert(two.drop_last() == one);
    }
    assert(labels_union(two) == Ok::<Arch, Seq<char>>(
        Arch { arm64_v8a: a.arm64_v8a, armeabi_v7a: a.armeabi_v7a, ..no_abi() },
    ));
    if a.x86 {
        assert(three.drop_last() == two);
    }
    assert(labels_union(three) == Ok::<Arch, Seq<char>>(Arch { x86_64: false, ..a }));
    if a.x86_64 {
        assert(four.drop_last() == three);
    }
}

/// What the union of labels holds: every ABI that one of them stands for. It fails just
/// where one stands for none.
proof fn lemma_union_of(ts: Seq<Seq<char>>)
    ensures
        labels_union(ts) is Err <==> exists|i: int|
            0 <= i < ts.len() && labelled(#[trigger] ts[i]) is None,
        labels_union(ts) matches Ok(a) ==> {
            &&& forall|i: int|
                0 <= i < ts.len() ==> a.covers(labelled(#[trigger] ts[i])->0)
            &&& forall|b: Arch|
                (forall|i: int| 0 <= i < ts.len() ==> b.covers(labelled(#[trigger] ts[i])->0))
                    ==> #[trigger] b.covers(a)
            &&& a == no_abi() <==> ts.len() == 0
        },
    decreases ts.len(),
{
    if ts.len() > 0 {
        let front = ts.drop_last();
        lemma_union_of(front);
        if labels_union(front) is Err {
            let i = choose|i: int| 0 <= i < front.len() && labelled(#[trigger] front[i]) is None;
            assert(labelled(ts[i]) is None);
        } else if labelled(ts.last()) is None {
            assert(labelled(ts[ts.len() - 1]) is None);
        } else {
            let a = labels_union(front)->Ok_0;
            let all = labels_union(ts)->Ok_0;
            assert forall|i: int| 0 <= i < ts.len() implies labelled(#[trigger] ts[i]) is Some
                && all.covers(labelled(ts[i])->0) by {
                if i < front.len() {
                    assert(ts[i] == front[i]);
                }
            }
            assert forall|b: Arch|
                (forall|i: int| 0 <= i < ts.len() ==> b.covers(
                    labelled(#[trigger] ts[i])->0,
                )) implies #[trigger] b.covers(all) by {
                assert forall|i: int| 0 <= i < front.len() implies b.covers(
                    labelled(#[trigger] front[i])->0,
                ) by {
                    assert(ts[i] == front[i]);
                }
                assert(b.covers(a));
                assert(b.covers(labelled(ts[ts.len() - 1])->0));
            }
        }
    }
}

/// A text spells no set just where it has no label or a label that stands for none: one
/// bad label fails the whole list. Else the set is the smallest that holds what every
/// label stands for.
pub proof fn lemma_arch_read(s: Seq<char>)
    ensures
        ({
            let ts = model::runs(s, Class::Between);
            &&& arch_of(s) is Err <==> ts.len() == 0 || exists|i: int|
                0 <= i < ts.len() && labelled(#[trigger] ts[i]) is None
            &&& arch_of(s) matches Ok(a) ==> {
                &&& forall|i: int|
                    0 <= i < ts.len() ==> a.covers(labelled(#[trigger] ts[i])->0)
                &&& forall|b: Arch|
                    (forall|i: int|
                        0 <= i < ts.len() ==> b.covers(labelled(#[trigger] ts[i])->0))
                        ==> #[trigger] b.covers(a)
            }
        }),
{
    lemma_union_of(model::runs(s, Class::Between));
}

/// Neither the order of labels nor their repetition matters: texts of the same labels
/// spell the same set, or neither spells one.
pub proof fn lemma_arch_order(s: Seq<char>, t: Seq<char>)
    requires
        forall|label: Seq<char>| #[trigger]
            model::runs(s, Class::Between).contains(label) <==> model::runs(
                t,
                Class::Between,
            ).contains(label),
    ensures
        arch_of(s) is Ok <==> arch_of(t) is Ok,
        arch_of(s) is Ok ==> arch_of(s) == arch_of(t),
{
    lemma_arch_within(s, t);
    lemma_arch_within(t, s);
}

/// Where every label of one text is one of another that spells a set, and it has a label,
/// it spells a set within that one.
proof fn lemma_arch_within(s: Seq<char>, t: Seq<char>)
    requires
        forall|label: Seq<char>| #[trigger]
            model::runs(s, Class::Between).contains(label) <==> model::runs(
                t,
                Class::Between,
            ).contains(label),
    ensures
        arch_of(t) matches Ok(b) ==> arch_of(s) matches Ok(a) && b.covers(a),
{
    let ss = model::runs(s, Class::Between);
    let ts = model::runs(t, Class::Between);
    lemma_arch_read(s);
    lemma_arch_read(t);
    if arch_of(t) is Ok {
        let b = arch_of(t)->Ok_0;
        assert(ss.contains(ts[0])) by {
            assert(ts.contains(ts[0]));
        }
        assert forall|i: int| 0 <= i < ss.len() implies labelled(#[trigger] ss[i]) is Some
            && b.covers(labelled(ss[i])->0) by {
            assert(ss.contains(ss[i]));
            assert(ts.contains(ss[i]));
            let k = ts.index_of(ss[i]);
            assert(ts[k] == ss[i]);
        }
    }
}

/// Reading the text of a set of ABIs gives the set back.
pub proof fn lemma_arch_round_trip(a: Arch)
    requires
        a != no_abi(),
    ensures
        arch_of(arch_text(a)) == Ok::<Arch, Seq<char>>(a),
{
    lemma_label_chars();
    lemma_labelled();
    lemma_plain("arm64-v8a"@);
    lemma_plain("armeabi-v7a"@);
    lemma_plain("x86"@);
    lemma_plain("x86_64"@);
    lemma_plain("universal"@);
    reveal_strlit("+");
    assert("+"@ == seq!['+']);
    if a == every_abi() {
        let ws = seq!["universal"@];
        crate::strings::lemma_runs_joined(ws, '+', Class::Between);
        assert(model::joined(ws, seq!['+']) == "universal"@);
        assert(ws.drop_last() == Seq::<Seq<char>>::empty());
        assert(labels_union(Seq::<Seq<char>>::empty()) == Ok::<Arch, Seq<char>>(no_abi()));
        assert(labels_union(ws) == Ok::<Arch, Seq<char>>(every_abi()));
    } else {
        let ws = arch_labels(a);
        assert forall|i: int| 0 <= i < ws.len() implies known_label(#[trigger] ws[i]) by {}
        crate::strings::lemma_runs_joined(ws, '+', Class::Between);
        lemma_labels_union(a);
    }
}

/// The labels of single ABIs.
spec fn known_label(s: Seq<char>) -> bool {
    s == "arm64-v8a"@ || s == "armeabi-v7a"@ || s == "x86"@ || s == "x86_64"@
}

/// A path below the site leads back to the same place: with a slash before it, it
/// is the URL again.
pub proof fn lemma_path_leads_back(base: Seq<char>, url: Seq<char>)
    requires
        path_below(base, url) matches Some(path) && url == base + "/"@ + path,
    ensures
        ({
            let href = "/"@ + path_below(base, url)->0;
            absolute(base, href) == url
        }),
{
    reveal_strlit("/");
    reveal_strlit("http://");
    reveal_strlit("https://");
    let path = path_below(base, url)->0;
    let href = "/"@ + path;
    assert(href[0] == '/');
    assert("http://"@[0] == 'h');
    assert("https://"@[0] == 'h');
    if model::begins(href, "http://"@) {
        assert(href.take("http://"@.len() as int)[0] == href[0]);
    }
    if model::begins(href, "https://"@) {
        assert(href.take("https://"@.len() as int)[0] == href[0]);
    }
    assert(href.skip(1) == path);
    assert(model::trimmed_start(path, Class::One('/')) == path) by {
        assert(url.skip(base.len() as int) == href);
        lemma_trimmed_front(href, Class::One('/'));
    }
}

/// What is trimmed at both ends does not begin with what is trimmed.
proof fn lemma_trimmed_front(s: Seq<char>, k: Class)
    ensures
        model::trimmed_start(model::trimmed(s, k), k) == model::trimmed(s, k),
{
    lemma_start_trimmed(s, k);
    lemma_end_keeps_front(model::trimmed_start(s, k), k);
}

/// A text that is trimmed at the start does not begin with what is trimmed.
proof fn lemma_start_trimmed(s: Seq<char>, k: Class)
    ensures
        model::trimmed_start(s, k).len() > 0 ==> !k.has(model::trimmed_start(s, k)[0]),
    decreases s.len(),
{
    if s.len() > 0 && k.has(s[0]) {
        lemma_start_trimmed(s.skip(1), k);
    }
}

/// Trimming the end keeps the front.
proof fn lemma_end_keeps_front(s: Seq<char>, k: Class)
    ensures
        model::trimmed_end(s, k).len() <= s.len(),
        model::trimmed_end(s, k).len() > 0 ==> model::trimmed_end(s, k)[0] == s[0],
    decreases s.len(),
{
    if s.len() > 0 && k.has(s.last()) {
        lemma_end_keeps_front(s.drop_last(), k);
    }
}

} // verus!
