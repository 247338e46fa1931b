//! What the page parsers share.

use crate::common::contract;
use crate::common::contract::{Arch, Date, ProviderError};
use crate::model;
use crate::model::Class;
use crate::outside;
use crate::strings::{
    chars, plus, plus4, same, split_whitespace, starts_with, starts_with_digit, trim,
    trim_start_by,
};
use vstd::prelude::*;
use vstd::string::StringExecFns;

verus! {

/// A page that is not what it should be.
pub fn parse_err(msg: &str) -> (r: ProviderError)
    ensures
        r@ == contract::ErrorView::ParseError(msg@),
{
    ProviderError::ParseError(msg.to_owned())
}

/// Something that a page does not have.
pub(crate) fn not_found(msg: &str) -> (r: ProviderError)
    ensures
        r@ == contract::ErrorView::NotFound(msg@),
{
    ProviderError::NotFound(msg.to_owned())
}

/// `href` seen from `base`: as it is where it starts with `http://` or `https://`.
pub open spec fn resolved(base: Seq<char>, href: Seq<char>) -> Seq<char> {
    if model::begins(href, "http://"@) || model::begins(href, "https://"@) {
        href
    } else {
        base + "/"@ + model::trimmed_start(href, Class::One('/'))
    }
}

/// `href` seen from `base`.
pub fn abs(base: &str, href: &str) -> (r: String)
    ensures
        r@ == resolved(base@, href@),
{
    if starts_with(href, "http://") || starts_with(href, "https://") {
        href.to_owned()
    } else {
        let mut out = base.to_owned();
        out.append("/");
        let rest = trim_start_by(href, Class::One('/'));
        out.append(rest.as_str());
        out
    }
}

/// A search term as it stands in a query string.
pub open spec fn encoded(q: Seq<char>) -> Seq<char> {
    outside::form_bytes(vstd::utf8::encode_utf8(model::stripped(q)))
}

/// A search term as it stands in a query string.
pub fn query(q: &str) -> (r: String)
    ensures
        r@ == encoded(q@),
{
    let t = trim(q);
    outside::byte_serialize(t.as_str().as_bytes())
}

/// The date that `s` spells in the format `fmt`.
pub open spec fn dated(s: Seq<char>, fmt: Seq<char>) -> Option<Date> {
    match outside::calendar_date(model::stripped(s), fmt) {
        Some(d) => Some(Date { year: d.0 as i32, month: d.1 as u32, day: d.2 as u32 }),
        None => None,
    }
}

/// What is reported of a date that cannot be read.
pub open spec fn undated(provider: Seq<char>, label: Seq<char>, s: Seq<char>) -> Seq<char> {
    provider + ": "@ + label + ": unparseable upload date "@ + outside::debug_form(s)
}

/// The upload date of a listing row. A caller drops a row whose date cannot be
/// read; the error is what to report of it, so that a new format of the site shows
/// up instead of silently emptying the list.
pub fn parse_date(provider: &str, label: &str, s: &str, fmt: &str) -> (r: Result<Date, String>)
    ensures
        match dated(s@, fmt@) {
            Some(d) => r == Ok::<Date, String>(d),
            None => r matches Err(e) && e@ == undated(provider@, label@, s@),
        },
{
    let t = trim(s);
    match outside::parse_from_str(t.as_str(), fmt) {
        Some((year, month, day)) => Ok(Date { year, month, day }),
        None => {
            let shown = outside::debug_text(s);
            let head = plus4(provider, ": ", label, ": unparseable upload date ");
            Err(plus(head.as_str(), shown.as_str()))
        },
    }
}

/// The texts that are there, in order.
pub open spec fn present(ts: Seq<Option<Seq<char>>>) -> Seq<Seq<char>>
    decreases ts.len(),
{
    if ts.len() == 0 {
        Seq::<Seq<char>>::empty()
    } else {
        let front = present(ts.drop_last());
        match ts.last() {
            Some(t) => front.push(t),
            None => front,
        }
    }
}

/// The texts that are there, in order.
pub(crate) fn keep_present(ts: &[Option<String>]) -> (r: Vec<String>)
    ensures
        model::texts(r@) == present(model::opts(ts@)),
{
    let ghost all = model::opts(ts@);
    let mut out: Vec<String> = Vec::new();
    let mut i: usize = 0;
    assert(model::texts(out@) == present(all.take(0)));
    while i < ts.len()
        invariant
            i <= ts@.len(),
            all == model::opts(ts@),
            model::texts(out@) == present(all.take(i as int)),
        decreases ts@.len() - i,
    {
        assert(all.take(i + 1).drop_last() == all.take(i as int));
        assert(all.take(i + 1).last() == model::opt(ts@[i as int]));
        if let Some(t) = &ts[i] {
            let ghost before = out@;
            out.push(t.clone());
            assert(model::texts(out@) == model::texts(before).push(t@));
        }
        i += 1;
    }
    assert(all.take(all.len() as int) == all);
    out
}

/// Nothing that is there is left out.
pub proof fn lemma_present(ts: Seq<Option<Seq<char>>>, i: int)
    requires
        0 <= i < ts.len(),
        ts[i] is Some,
    ensures
        present(ts).contains(ts[i]->0),
    decreases ts.len(),
{
    let front = ts.drop_last();
    if i < front.len() {
        lemma_present(front, i);
        let k = choose|k: int| 0 <= k < present(front).len() && present(front)[k] == ts[i]->0;
        assert(present(ts)[k] == ts[i]->0);
    } else {
        assert(present(ts).last() == ts[i]->0);
    }
}

/// The ABIs that a label lists, else all.
pub open spec fn listed_arch(label: Option<Seq<char>>) -> Arch {
    match label {
        Some(t) => match contract::arch_of(t) {
            Ok(a) => a,
            Err(_) => contract::every_abi(),
        },
        None => contract::every_abi(),
    }
}

/// The ABIs that a label lists. A build without a label, or with one that lists
/// nothing, runs anywhere.
pub(crate) fn arch_listed(label: &Option<String>) -> (r: Arch)
    ensures
        r == listed_arch(model::opt(*label)),
{
    match label {
        Some(t) => match Arch::parse(t.as_str()) {
            Ok(a) => a,
            Err(_) => Arch::all(),
        },
        None => Arch::all(),
    }
}

/// One build that can be downloaded.
#[derive(Debug)]
pub struct Variant {
    pub version: String,
    pub arch: Arch,
    /// A split bundle (XAPK, APKM) rather than a plain APK.
    pub bundle: bool,
    /// The next hop of the download (absolute).
    pub url: String,
}

/// What a [`Variant`] says.
pub struct VariantView {
    pub version: Seq<char>,
    pub arch: Arch,
    pub bundle: bool,
    pub url: Seq<char>,
}

impl View for Variant {
    type V = VariantView;

    open spec fn view(&self) -> VariantView {
        VariantView {
            version: self.version@,
            arch: self.arch,
            bundle: self.bundle,
            url: self.url@,
        }
    }
}

/// The first plain APK.
pub open spec fn first_plain(vs: Seq<VariantView>) -> Option<int>
    decreases vs.len(),
{
    if vs.len() == 0 {
        None
    } else {
        match first_plain(vs.drop_last()) {
            Some(i) => Some(i),
            None => if vs.last().bundle {
                None
            } else {
                Some(vs.len() - 1)
            },
        }
    }
}

/// Whether a build has every ABI that is asked for, and is a plain APK where
/// only those count.
pub open spec fn suits(v: VariantView, arch: Arch, plain: bool) -> bool {
    v.arch.covers(arch) && !(plain && v.bundle)
}

/// The first of the builds that suit with the fewest ABIs.
pub open spec fn tightest(vs: Seq<VariantView>, arch: Arch, plain: bool) -> Option<int>
    decreases vs.len(),
{
    if vs.len() == 0 {
        None
    } else {
        let front = tightest(vs.drop_last(), arch, plain);
        if !suits(vs.last(), arch, plain) {
            front
        } else {
            match front {
                Some(i) if vs[i].arch.size() <= vs.last().arch.size() => front,
                _ => Some(vs.len() - 1),
            }
        }
    }
}

/// The build to download for `arch`: plain APKs before bundles; within each the
/// tightest that has the ABIs, then any.
pub open spec fn choice(vs: Seq<VariantView>, arch: Arch) -> Option<int> {
    match tightest(vs, arch, true) {
        Some(i) => Some(i),
        None => match first_plain(vs) {
            Some(i) => Some(i),
            None => match tightest(vs, arch, false) {
                Some(i) => Some(i),
                None => if vs.len() > 0 {
                    Some(0)
                } else {
                    None
                },
            },
        },
    }
}

/// The first of the builds that suit with the fewest ABIs.
fn find_tightest(variants: &[Variant], arch: Arch, plain: bool) -> (r: Option<usize>)
    ensures
        (match r {
            Some(i) => Some(i as int),
            None => None,
        }) == tightest(model::views(variants@), arch, plain),
        r matches Some(i) ==> i < variants@.len(),
{
    let ghost vs = model::views(variants@);
    let mut best: Option<usize> = None;
    let mut i: usize = 0;
    while i < variants.len()
        invariant
            i <= variants@.len(),
            vs == model::views(variants@),
            (match best {
                Some(b) => Some(b as int),
                None => None,
            }) == tightest(vs.take(i as int), arch, plain),
            best matches Some(b) ==> b < i,
        decreases variants@.len() - i,
    {
        assert(vs.take(i + 1).drop_last() == vs.take(i as int));
        let v = &variants[i];
        assert(vs.take(i + 1).last() == v@);
        if v.arch.contains(arch) && !(plain && v.bundle) {
            let better = match best {
                Some(b) => variants[b].arch.count() > v.arch.count(),
                None => true,
            };
            if better {
                best = Some(i);
            }
        }
        i += 1;
    }
    assert(vs.take(vs.len() as int) == vs);
    best
}

/// The first plain APK.
fn find_plain(variants: &[Variant]) -> (r: Option<usize>)
    ensures
        (match r {
            Some(i) => Some(i as int),
            None => None,
        }) == first_plain(model::views(variants@)),
        r matches Some(i) ==> i < variants@.len(),
{
    let ghost vs = model::views(variants@);
    let mut i: usize = 0;
    while i < variants.len()
        invariant
            i <= variants@.len(),
            vs == model::views(variants@),
            first_plain(vs.take(i as int)) is None,
        decreases variants@.len() - i,
    {
        assert(vs.take(i + 1).drop_last() == vs.take(i as int));
        if !variants[i].bundle {
            proof {
                lemma_first_plain(vs, i + 1);
            }
            return Some(i);
        }
        i += 1;
    }
    assert(vs.take(vs.len() as int) == vs);
    None
}

/// A plain APK that is found among the first builds stays the first one.
proof fn lemma_first_plain(vs: Seq<VariantView>, n: int)
    requires
        0 <= n <= vs.len(),
        first_plain(vs.take(n)) is Some,
    ensures
        first_plain(vs) == first_plain(vs.take(n)),
    decreases vs.len() - n,
{
    if n == vs.len() {
        assert(vs.take(n) == vs);
    } else {
        assert(vs.take(n + 1).drop_last() == vs.take(n));
        lemma_first_plain(vs, n + 1);
    }
}

/// Picks a build for `arch`. Plain APKs come first, then bundles; within each,
/// the build that has `arch` with the fewest other ABIs, else any; then the first.
pub fn choose_variant(variants: &[Variant], arch: Arch) -> (r: Option<&Variant>)
    ensures
        match choice(model::views(variants@), arch) {
            Some(i) => 0 <= i < variants@.len() && r == Some(&variants@[i]),
            None => r is None,
        },
{
    if let Some(i) = find_tightest(variants, arch, true) {
        return Some(&variants[i]);
    }
    if let Some(i) = find_plain(variants) {
        return Some(&variants[i]);
    }
    if let Some(i) = find_tightest(variants, arch, false) {
        return Some(&variants[i]);
    }
    if variants.len() > 0 {
        Some(&variants[0])
    } else {
        None
    }
}

/// What [`tightest`] finds: nothing if no build suits; else the first of those
/// that suit with the fewest ABIs.
pub proof fn lemma_tightest(vs: Seq<VariantView>, arch: Arch, plain: bool)
    ensures
        match tightest(vs, arch, plain) {
            Some(i) => {
                &&& 0 <= i < vs.len()
                &&& suits(vs[i], arch, plain)
                &&& forall|j: int|
                    0 <= j < vs.len() && suits(#[trigger] vs[j], arch, plain) ==> vs[i].arch.size()
                        <= vs[j].arch.size() && (vs[j].arch.size() == vs[i].arch.size() ==> i <= j)
            },
            None => forall|j: int| 0 <= j < vs.len() ==> !suits(#[trigger] vs[j], arch, plain),
        },
    decreases vs.len(),
{
    if vs.len() > 0 {
        let front = vs.drop_last();
        lemma_tightest(front, arch, plain);
        assert forall|j: int| 0 <= j < front.len() implies front[j] == vs[j] by {}
        match tightest(vs, arch, plain) {
            Some(i) => {
                assert forall|j: int|
                    0 <= j < vs.len() && suits(#[trigger] vs[j], arch, plain) implies vs[i].arch.size()
                    <= vs[j].arch.size() && (vs[j].arch.size() == vs[i].arch.size() ==> i <= j) by {
                    if j < front.len() {
                        assert(suits(front[j], arch, plain));
                    }
                }
            },
            None => {
                assert forall|j: int| 0 <= j < vs.len() implies !suits(
                    #[trigger] vs[j],
                    arch,
                    plain,
                ) by {
                    if j < front.len() {
                        assert(!suits(front[j], arch, plain));
                    }
                }
            },
        }
    }
}

/// What [`first_plain`] finds.
pub proof fn lemma_plain(vs: Seq<VariantView>)
    ensures
        match first_plain(vs) {
            Some(i) => 0 <= i < vs.len() && !vs[i].bundle && forall|j: int|
                0 <= j < i ==> (#[trigger] vs[j]).bundle,
            None => forall|j: int| 0 <= j < vs.len() ==> (#[trigger] vs[j]).bundle,
        },
    decreases vs.len(),
{
    if vs.len() > 0 {
        let front = vs.drop_last();
        lemma_plain(front);
        assert forall|j: int| 0 <= j < front.len() implies front[j] == vs[j] by {}
    }
}

/// A build is picked whenever there is one. It is a bundle only where every
/// build is one. It has the ABIs asked for wherever a build of its kind has
/// them, and then no build of that kind with those ABIs has fewer.
pub proof fn lemma_choice(vs: Seq<VariantView>, arch: Arch)
    ensures
        choice(vs, arch) is None <==> vs.len() == 0,
        match choice(vs, arch) {
            Some(i) => {
                &&& 0 <= i < vs.len()
                &&& vs[i].bundle ==> forall|j: int| 0 <= j < vs.len() ==> (#[trigger] vs[j]).bundle
                &&& forall|j: int|
                    0 <= j < vs.len() && (#[trigger] vs[j]).bundle == vs[i].bundle
                        && vs[j].arch.covers(arch) ==> vs[i].arch.covers(arch)
                        && vs[i].arch.size() <= vs[j].arch.size()
            },
            None => true,
        },
{
    lemma_tightest(vs, arch, true);
    lemma_tightest(vs, arch, false);
    lemma_plain(vs);
    match choice(vs, arch) {
        Some(i) => {
            assert forall|j: int|
                0 <= j < vs.len() && (#[trigger] vs[j]).bundle == vs[i].bundle
                    && vs[j].arch.covers(arch) implies vs[i].arch.covers(arch)
                && vs[i].arch.size() <= vs[j].arch.size() by {
                assert(suits(vs[j], arch, true) || vs[j].bundle);
                assert(suits(vs[j], arch, false));
            }
        },
        None => {},
    }
}

/// The last of the words that starts with a digit.
pub open spec fn last_numeric(ws: Seq<Seq<char>>) -> Option<Seq<char>>
    decreases ws.len(),
{
    if ws.len() == 0 {
        None
    } else if ws.last().len() > 0 && model::is_digit(ws.last()[0]) {
        Some(ws.last())
    } else {
        last_numeric(ws.drop_last())
    }
}

/// The version in a name: its last word that starts with a digit, else all of it.
pub open spec fn version_of(name: Seq<char>) -> Seq<char> {
    match last_numeric(model::words(name)) {
        Some(t) => t,
        None => name,
    }
}

/// The last word that looks like a version number, else the name as it is.
pub fn version_token(name: &str) -> (r: String)
    ensures
        r@ == version_of(name@),
{
    let words = split_whitespace(name);
    let ghost ws = model::texts(words@);
    let mut i: usize = words.len();
    assert(ws.take(i as int) == ws);
    while i > 0
        invariant
            i <= words@.len(),
            ws == model::texts(words@),
            ws == model::words(name@),
            last_numeric(ws) == last_numeric(ws.take(i as int)),
        decreases i,
    {
        i -= 1;
        assert(ws.take(i + 1).drop_last() == ws.take(i as int));
        assert(ws.take(i + 1).last() == words@[i as int]@);
        if starts_with_digit(words[i].as_str()) {
            return words[i].clone();
        }
    }
    name.to_owned()
}

/// Whether `version` is `want`, or `want` and more dotted segments.
pub open spec fn matches_version(version: Seq<char>, want: Seq<char>) -> bool {
    version == want || model::begins(version, want.push('.'))
}

/// Whether a version is the one asked for, or one below it: `2.6.2` is `2.6`,
/// but `2.60` is not. The test is not for a substring, which would take
/// `21.36.45` for `1.3`.
pub fn version_matches(version: &str, want: &str) -> (r: bool)
    ensures
        r == matches_version(version@, want@),
{
    if same(version, want) {
        return true;
    }
    let v = chars(version);
    let w = chars(want);
    if v.len() <= w.len() {
        return false;
    }
    let dot = v[w.len()] == '.';
    if !(starts_with(version, want) && dot) {
        proof {
            let p = want@.push('.');
            if model::begins(version@, p) {
                assert(version@.take(p.len() as int).take(want@.len() as int) == version@.take(
                    want@.len() as int,
                ));
                assert(p.take(want@.len() as int) == want@);
                assert(version@.take(p.len() as int)[want@.len() as int] == '.');
            }
        }
        return false;
    }
    assert(version@.take((want@.len() + 1) as int) == want@.push('.')) by {
        assert(version@.take(want@.len() as int) == want@);
        assert forall|i: int| 0 <= i < want@.len() implies version@[i] == want@[i] by {
            assert(version@.take(want@.len() as int)[i] == want@[i]);
        }
    }
    true
}

/// A version is itself, and what is below a version is below whatever that one is
/// below.
pub proof fn lemma_version_matches(version: Seq<char>, middle: Seq<char>, want: Seq<char>)
    ensures
        matches_version(version, version),
        matches_version(version, middle) && matches_version(middle, want) ==> matches_version(
            version,
            want,
        ),
{
    if model::begins(version, middle.push('.')) && model::begins(middle, want.push('.')) {
        let n = want.len() as int + 1;
        assert(version.take(n) == middle.take(n)) by {
            assert forall|i: int| 0 <= i < n implies version[i] == middle[i] by {
                assert(version.take(middle.len() as int + 1)[i] == middle.push('.')[i]);
            }
        }
    }
}

/// Whether a version is the one asked for: itself where `exact`, else itself or one
/// below it.
pub open spec fn fits(version: Seq<char>, want: Seq<char>, exact: bool) -> bool {
    if exact {
        version == want
    } else {
        matches_version(version, want)
    }
}

/// The first of the versions that is the one asked for.
pub open spec fn first_fit(vs: Seq<Seq<char>>, want: Seq<char>, exact: bool) -> Option<int>
    decreases vs.len(),
{
    if vs.len() == 0 {
        None
    } else {
        match first_fit(vs.drop_last(), want, exact) {
            Some(i) => Some(i),
            None => if fits(vs.last(), want, exact) {
                Some(vs.len() - 1)
            } else {
                None
            },
        }
    }
}

/// The version to take where `want` is asked for: the first that is `want` itself,
/// and only where there is none the first below it.
pub open spec fn pinned(vs: Seq<Seq<char>>, want: Seq<char>) -> Option<int> {
    match first_fit(vs, want, true) {
        Some(i) => Some(i),
        None => first_fit(vs, want, false),
    }
}

/// What is found among the first versions stays the first.
proof fn lemma_first_fit_stays(vs: Seq<Seq<char>>, want: Seq<char>, exact: bool, n: int)
    requires
        0 <= n <= vs.len(),
        first_fit(vs.take(n), want, exact) is Some,
    ensures
        first_fit(vs, want, exact) == first_fit(vs.take(n), want, exact),
    decreases vs.len() - n,
{
    if n == vs.len() {
        assert(vs.take(n) == vs);
    } else {
        assert(vs.take(n + 1).drop_last() == vs.take(n));
        lemma_first_fit_stays(vs, want, exact, n + 1);
    }
}

/// The first of the versions that is the one asked for.
fn find_fit(versions: &[String], want: &str, exact: bool) -> (r: Option<usize>)
    ensures
        (match r {
            Some(i) => Some(i as int),
            None => None,
        }) == first_fit(model::texts(versions@), want@, exact),
        r matches Some(i) ==> i < versions@.len(),
{
    let ghost vs = model::texts(versions@);
    let mut i: usize = 0;
    while i < versions.len()
        invariant
            i <= versions@.len(),
            vs == model::texts(versions@),
            first_fit(vs.take(i as int), want@, exact) is None,
        decreases versions@.len() - i,
    {
        assert(vs.take(i + 1).drop_last() == vs.take(i as int));
        assert(vs.take(i + 1).last() == versions@[i as int]@);
        let v = versions[i].as_str();
        let fit = if exact { same(v, want) } else { version_matches(v, want) };
        if fit {
            proof {
                lemma_first_fit_stays(vs, want@, exact, i + 1);
            }
            return Some(i);
        }
        i += 1;
    }
    assert(vs.take(vs.len() as int) == vs);
    None
}

/// The version to take where `want` is asked for.
pub fn find_pinned(versions: &[String], want: &str) -> (r: Option<usize>)
    ensures
        (match r {
            Some(i) => Some(i as int),
            None => None,
        }) == pinned(model::texts(versions@), want@),
        r matches Some(i) ==> i < versions@.len(),
{
    match find_fit(versions, want, true) {
        Some(i) => Some(i),
        None => find_fit(versions, want, false),
    }
}

/// What [`first_fit`] finds.
proof fn lemma_first_fit(vs: Seq<Seq<char>>, want: Seq<char>, exact: bool)
    ensures
        match first_fit(vs, want, exact) {
            Some(i) => 0 <= i < vs.len() && fits(vs[i], want, exact) && forall|j: int|
                0 <= j < i ==> !fits(#[trigger] vs[j], want, exact),
            None => forall|j: int| 0 <= j < vs.len() ==> !fits(#[trigger] vs[j], want, exact),
        },
    decreases vs.len(),
{
    if vs.len() > 0 {
        let front = vs.drop_last();
        lemma_first_fit(front, want, exact);
        assert forall|j: int| 0 <= j < front.len() implies front[j] == vs[j] by {}
    }
}

/// The version asked for is taken wherever it stands, in the first row that has it.
/// Where it is not listed, the first version below it is taken, and nothing where
/// there is none.
pub proof fn lemma_pinned(vs: Seq<Seq<char>>, want: Seq<char>)
    ensures
        match pinned(vs, want) {
            Some(i) => {
                &&& 0 <= i < vs.len()
                &&& matches_version(vs[i], want)
                &&& vs.contains(want) ==> vs[i] == want
                &&& forall|j: int|
                    0 <= j < i ==> #[trigger] vs[j] != want && (vs.contains(want)
                        || !matches_version(vs[j], want))
            },
            None => forall|j: int| 0 <= j < vs.len() ==> !matches_version(#[trigger] vs[j], want),
        },
{
    lemma_first_fit(vs, want, true);
    lemma_first_fit(vs, want, false);
    if vs.contains(want) {
        let k = choose|k: int| 0 <= k < vs.len() && vs[k] == want;
        assert(fits(vs[k], want, true));
    }
    if let Some(i) = pinned(vs, want) {
        assert(vs.contains(vs[i]));
        assert forall|j: int| 0 <= j < i implies #[trigger] vs[j] != want && (vs.contains(want)
            || !matches_version(vs[j], want)) by {
            assert(fits(vs[j], want, true) == (vs[j] == want));
            assert(fits(vs[j], want, false) == matches_version(vs[j], want));
            if vs[j] == want {
                assert(vs.contains(vs[j]));
            }
        }
    } else {
        assert forall|j: int| 0 <= j < vs.len() implies !matches_version(
            #[trigger] vs[j],
            want,
        ) by {
            assert(!fits(vs[j], want, false));
        }
    }
}

} // verus!
