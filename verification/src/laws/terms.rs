//! Laws of the terms that everything is stated in: names, URLs, ABIs, dates, messages and
//! file names.

use crate::common::contract;
use crate::common::contract::{Arch, Date, ProviderConst, ProviderId};
use crate::laws::texts;
use crate::model;
use crate::model::Class;
use crate::providers::apkcombo::ApkCombo;
use crate::providers::apkmirror::ApkMirror;
use crate::providers::apkpure::ApkPure;
use crate::providers::scrape;
use crate::textual::urls;
use vstd::prelude::*;

verus! {

/// Every provider has its own name and its own site.
pub proof fn lemma_names()
    ensures
        contract::id_name(ProviderId::Apkcombo) == "apkcombo"@,
        contract::id_name(ProviderId::Apkpure) == "apkpure"@,
        contract::id_name(ProviderId::Apkmirror) == "apkmirror"@,
        ApkCombo::base() == "https://apkcombo.com"@,
        ApkPure::base() == "https://apkpure.com"@,
        ApkMirror::base() == "https://www.apkmirror.com"@,
        ApkCombo::ident() == ProviderId::Apkcombo,
        ApkPure::ident() == ProviderId::Apkpure,
        ApkMirror::ident() == ProviderId::Apkmirror,
{
}

/// Whether a text is an absolute address.
pub open spec fn has_scheme(href: Seq<char>) -> bool {
    (exists|rest: Seq<char>| href == #[trigger] ("http://"@ + rest)) || (exists|rest: Seq<char>|
        href == #[trigger] ("https://"@ + rest))
}

/// An address with a scheme stays as it is. Any other is put below the site, behind exactly
/// one slash: only slashes at its front are lost.
pub proof fn lemma_absolute(base: Seq<char>, href: Seq<char>)
    ensures
        has_scheme(href) ==> contract::absolute(base, href) == href,
        !has_scheme(href) ==> exists|n: int|
            {
                &&& 0 <= n <= href.len()
                &&& contract::absolute(base, href) == base + "/"@ + #[trigger] href.skip(n)
                &&& forall|i: int| 0 <= i < n ==> #[trigger] href[i] == '/'
                &&& n < href.len() ==> href[n] != '/'
            },
        scrape::resolved(base, href) == contract::absolute(base, href),
{
    texts::lemma_begins(href, "http://"@);
    texts::lemma_begins(href, "https://"@);
    if !has_scheme(href) {
        let r = model::trimmed_start(href, Class::One('/'));
        texts::lemma_trimmed_start(href, Class::One('/'));
        let n = href.len() - r.len();
        assert(href.skip(n) == r);
        assert forall|i: int| 0 <= i < n implies #[trigger] href[i] == '/' by {
            assert(Class::One('/').has(href[i]));
        }
    }
}

/// An address with a scheme is itself, also where links are not trimmed.
pub proof fn lemma_seen_from(base: Seq<char>, href: Seq<char>)
    ensures
        has_scheme(href) ==> urls::seen_from(base, href) == href,
        !has_scheme(href) && href.len() > 0 && href[0] == '/' ==> urls::seen_from(base, href)
            == base + href,
        !has_scheme(href) && !(href.len() > 0 && href[0] == '/') ==> urls::seen_from(base, href)
            == base + "/"@ + href,
{
    reveal_strlit("/");
    texts::lemma_begins(href, "http://"@);
    texts::lemma_begins(href, "https://"@);
    if href.len() > 0 && href[0] == '/' {
        assert(href.take(1) == "/"@);
        assert(model::begins(href, "/"@));
    } else if model::begins(href, "/"@) {
        assert(href.take(1)[0] == '/');
    }
}

/// The path of a URL below its site is what is behind the site, without slashes at either
/// end; a URL of another site has none.
pub proof fn lemma_path_below(base: Seq<char>, url: Seq<char>)
    ensures
        contract::path_below(base, url) is Some <==> exists|rest: Seq<char>|
            url == #[trigger] (base + rest),
        contract::path_below(base, url) matches Some(path) ==> exists|a: int, b: int|
            {
                &&& base.len() <= a <= b <= url.len()
                &&& path == #[trigger] url.subrange(a, b)
                &&& forall|i: int| base.len() <= i < a ==> #[trigger] url[i] == '/'
                &&& forall|i: int| b <= i < url.len() ==> #[trigger] url[i] == '/'
                &&& a < b ==> url[a] != '/' && url[b - 1] != '/'
            },
{
    texts::lemma_begins(url, base);
    if model::begins(url, base) {
        let rest = url.skip(base.len() as int);
        let k = Class::One('/');
        texts::lemma_trimmed(rest, k);
        let (a, b) = choose|a: int, b: int|
            {
                &&& 0 <= a <= b <= rest.len()
                &&& model::trimmed(rest, k) == #[trigger] rest.subrange(a, b)
                &&& forall|i: int| 0 <= i < a ==> k.has(#[trigger] rest[i])
                &&& forall|i: int| b <= i < rest.len() ==> k.has(#[trigger] rest[i])
                &&& a < b ==> !k.has(rest[a]) && !k.has(rest[b - 1])
            };
        let n = base.len() as int;
        assert(rest.subrange(a, b) == url.subrange(a + n, b + n));
        assert forall|i: int| n <= i < a + n implies #[trigger] url[i] == '/' by {
            assert(k.has(rest[i - n]));
        }
        assert forall|i: int| b + n <= i < url.len() implies #[trigger] url[i] == '/' by {
            assert(k.has(rest[i - n]));
        }
    }
}

/// A label stands for an ABI in any case; `universal` and `noarch` for all of them; anything
/// else for none.
pub proof fn lemma_labels(t: Seq<char>, u: Seq<char>)
    ensures
        contract::labelled("arm64-v8a"@) == Some(
            Arch { arm64_v8a: true, armeabi_v7a: false, x86: false, x86_64: false },
        ),
        contract::labelled("armeabi-v7a"@) == Some(
            Arch { arm64_v8a: false, armeabi_v7a: true, x86: false, x86_64: false },
        ),
        contract::labelled("x86"@) == Some(
            Arch { arm64_v8a: false, armeabi_v7a: false, x86: true, x86_64: false },
        ),
        contract::labelled("x86_64"@) == Some(
            Arch { arm64_v8a: false, armeabi_v7a: false, x86: false, x86_64: true },
        ),
        contract::labelled("universal"@) == Some(
            Arch { arm64_v8a: true, armeabi_v7a: true, x86: true, x86_64: true },
        ),
        contract::labelled("noarch"@) == Some(
            Arch { arm64_v8a: true, armeabi_v7a: true, x86: true, x86_64: true },
        ),
        model::same_letters(t, u) ==> contract::labelled(t) == contract::labelled(u),
        contract::labelled(t) is Some <==> model::same_letters(t, "arm64-v8a"@)
            || model::same_letters(t, "armeabi-v7a"@) || model::same_letters(t, "x86"@)
            || model::same_letters(t, "x86_64"@) || model::same_letters(t, "universal"@)
            || model::same_letters(t, "noarch"@),
{
    reveal_strlit("arm64-v8a");
    reveal_strlit("armeabi-v7a");
    reveal_strlit("x86");
    reveal_strlit("x86_64");
    reveal_strlit("universal");
    reveal_strlit("noarch");
    assert(model::lowered("arm64-v8a"@) == "arm64-v8a"@);
    assert(model::lowered("armeabi-v7a"@) == "armeabi-v7a"@);
    assert(model::lowered("x86"@) == "x86"@);
    assert(model::lowered("x86_64"@) == "x86_64"@);
    assert(model::lowered("universal"@) == "universal"@);
    assert(model::lowered("noarch"@) == "noarch"@);
    assert("universal"@[0] != "arm64-v8a"@[0]);
    assert("noarch"@[0] != "x86_64"@[0]);
}

/// Sets of ABIs: one covers another just where it gains nothing from it; the union covers
/// both and nothing that neither has; and the size counts the ABIs.
pub proof fn lemma_sets(a: Arch, b: Arch)
    ensures
        a.covers(b) <==> (b.arm64_v8a ==> a.arm64_v8a) && (b.armeabi_v7a ==> a.armeabi_v7a) && (
        b.x86 ==> a.x86) && (b.x86_64 ==> a.x86_64),
        a.covers(b) <==> a.joined_with(b) == a,
        a.joined_with(b) == b.joined_with(a),
        a.joined_with(b).arm64_v8a == (a.arm64_v8a || b.arm64_v8a),
        a.joined_with(b).armeabi_v7a == (a.armeabi_v7a || b.armeabi_v7a),
        a.joined_with(b).x86 == (a.x86 || b.x86),
        a.joined_with(b).x86_64 == (a.x86_64 || b.x86_64),
        a.covers(b) && b.covers(a) ==> a == b,
        a.covers(b) && a != b ==> a.size() > b.size(),
        contract::every_abi().covers(a),
        a.covers(contract::no_abi()),
        contract::every_abi().size() == 4,
        contract::no_abi().size() == 0,
{
}

/// The text of a set: the labels of its ABIs in a fixed order with a plus between them, and
/// one word for all.
pub proof fn lemma_arch_text(a: Arch)
    ensures
        a.size() == 4 ==> contract::arch_text(a) == "universal"@,
        a.size() == 1 && a.arm64_v8a ==> contract::arch_text(a) == "arm64-v8a"@,
        a.size() == 1 && a.armeabi_v7a ==> contract::arch_text(a) == "armeabi-v7a"@,
        a.size() == 1 && a.x86 ==> contract::arch_text(a) == "x86"@,
        a.size() == 1 && a.x86_64 ==> contract::arch_text(a) == "x86_64"@,
        a.size() == 2 && a.arm64_v8a && a.armeabi_v7a ==> contract::arch_text(a)
            == "arm64-v8a"@ + "+"@ + "armeabi-v7a"@,
        a.size() == 2 && a.arm64_v8a && a.x86 ==> contract::arch_text(a) == "arm64-v8a"@ + "+"@
            + "x86"@,
        a.size() == 2 && a.x86 && a.x86_64 ==> contract::arch_text(a) == "x86"@ + "+"@ + "x86_64"@,
        a.size() == 0 ==> contract::arch_text(a).len() == 0,
{
    let ls = contract::arch_labels(a);
    if a.size() == 2 {
        assert(ls.len() == 2);
        assert(ls.drop_last().len() == 1);
        assert(ls.drop_last()[0] == ls[0]);
        assert(model::joined(ls.drop_last(), "+"@) == ls[0]);
    }
}

/// A date of the years 0 to 9999 is written in ten characters: four digits, a dash, two, a
/// dash, two, which stand for year, month and day.
pub proof fn lemma_date_text(d: Date)
    requires
        0 <= d.year <= 9999,
        1 <= d.month <= 12,
        1 <= d.day <= 31,
    ensures
        ({
            let t = contract::date_text(d);
            &&& t.len() == 10
            &&& t[4] == '-' && t[7] == '-'
            &&& model::all_digits(t.subrange(0, 4)) && model::digits_value(t.subrange(0, 4)) == d.year
            &&& model::all_digits(t.subrange(5, 7)) && model::digits_value(t.subrange(5, 7)) == d.month
            &&& model::all_digits(t.subrange(8, 10)) && model::digits_value(t.subrange(8, 10)) == d.day
        }),
{
    reveal_strlit("-");
    let y = model::zero_filled(model::decimal(d.year as nat), 4);
    let m = model::zero_filled(model::decimal(d.month as nat), 2);
    let n = model::zero_filled(model::decimal(d.day as nat), 2);
    lemma_filled_number(d.year as nat, 4);
    lemma_filled_number(d.month as nat, 2);
    lemma_filled_number(d.day as nat, 2);
    lemma_digits_below(d.year as nat);
    lemma_digits_below(d.month as nat);
    lemma_digits_below(d.day as nat);
    texts::lemma_zero_filled(model::decimal(d.year as nat), 4);
    texts::lemma_zero_filled(model::decimal(d.month as nat), 2);
    texts::lemma_zero_filled(model::decimal(d.day as nat), 2);
    let t = contract::date_text(d);
    assert(t == y + "-"@ + m + "-"@ + n);
    assert(t.subrange(0, 4) == y);
    assert(t.subrange(5, 7) == m);
    assert(t.subrange(8, 10) == n);
}

/// Years outside four digits carry a sign.
pub proof fn lemma_year_sign(year: int)
    ensures
        year < 0 ==> contract::year_text(year) == "-"@ + model::zero_filled(
            model::decimal((-year) as nat),
            4,
        ),
        year > 9999 ==> contract::year_text(year) == "+"@ + model::decimal(year as nat),
{
    if year > 9999 {
        lemma_digits_above(year as nat);
    }
}

/// Zeros in front do not change what digits stand for.
proof fn lemma_filled_number(n: nat, w: nat)
    ensures
        model::all_digits(model::zero_filled(model::decimal(n), w)),
        model::digits_value(model::zero_filled(model::decimal(n), w)) == n,
{
    texts::lemma_decimal(n);
    lemma_zeros(model::decimal(n), w);
}

/// Zeros in front do not change what digits stand for.
proof fn lemma_zeros(s: Seq<char>, w: nat)
    requires
        model::all_digits(s),
    ensures
        model::all_digits(model::zero_filled(s, w)),
        model::digits_value(model::zero_filled(s, w)) == model::digits_value(s),
    decreases w - s.len(),
{
    if s.len() < w {
        let t = seq!['0'] + s;
        lemma_zero_front(s);
        assert forall|i: int| 0 <= i < t.len() implies model::is_digit(#[trigger] t[i]) by {
            if i > 0 {
                assert(t[i] == s[i - 1]);
            }
        }
        lemma_zeros(t, w);
    }
}

/// One zero in front does not change what digits stand for.
proof fn lemma_zero_front(s: Seq<char>)
    ensures
        model::digits_value(seq!['0'] + s) == model::digits_value(s),
    decreases s.len(),
{
    let t = seq!['0'] + s;
    if s.len() == 0 {
        assert(t.drop_last() == Seq::<char>::empty());
        assert(model::digits_value(Seq::<char>::empty()) == 0);
        assert(t.last() == '0');
    } else {
        lemma_zero_front(s.drop_last());
        assert(t.drop_last() == seq!['0'] + s.drop_last());
        assert(t.last() == s.last());
    }
}

/// Numbers below ten, a hundred and ten thousand have at most that many digits.
proof fn lemma_digits_below(n: nat)
    ensures
        n < 100 ==> model::decimal(n).len() <= 2,
        n < 10000 ==> model::decimal(n).len() <= 4,
{
    reveal_with_fuel(model::decimal, 5);
}

/// Numbers from ten thousand on have more than four digits.
proof fn lemma_digits_above(n: nat)
    requires
        n > 9999,
    ensures
        model::decimal(n).len() > 4,
        model::zero_filled(model::decimal(n), 4) == model::decimal(n),
    decreases n,
{
    if n / 10 > 9999 {
        lemma_digits_above(n / 10);
    } else {
        reveal_with_fuel(model::decimal, 6);
        assert(n / 10 >= 1000);
    }
}

/// The message of an error: what was missing as it is; what broke, behind a word for it.
pub proof fn lemma_error_texts(s: Seq<char>, f: contract::FailureView)
    ensures
        contract::error_text(contract::ErrorView::NotFound(s)) == s,
        contract::error_text(contract::ErrorView::ParseError(s)) == "parse error: "@ + s,
        contract::error_text(contract::ErrorView::Network(s)) == "network error: "@ + s,
        contract::error_text(contract::ErrorView::Cancelled) == "cancelled"@,
        contract::error_text(contract::ErrorView::Blocked)
            == "blocked by anti-bot / rate limit (challenge page, 403, or 429)"@,
        contract::failure_text(f) == contract::id_name(f.provider) + ": "@ + contract::error_text(
            f.source,
        ),
{
}

/// Whether a character is one that file names are made of here.
pub open spec fn harmless(c: char) -> bool {
    0x30 <= c as int <= 0x39 || 0x41 <= c as int <= 0x5a || 0x61 <= c as int <= 0x7a || c == '.'
        || c == '-' || c == '_' || c == '+'
}

/// A file name is the package, the version and the ABIs with dashes between them, in which
/// every character that is not harmless has become an underscore, and no other has changed.
pub proof fn lemma_filename(pkg: Seq<char>, version: Seq<char>, arch: Arch)
    ensures
        ({
            let plain = pkg + "-"@ + version + "-"@ + contract::arch_text(arch);
            let name = contract::filename(pkg, version, arch);
            &&& name.len() == plain.len()
            &&& forall|i: int|
                0 <= i < plain.len() ==> #[trigger] name[i] == if harmless(plain[i]) {
                    plain[i]
                } else {
                    '_'
                }
        }),
{
}

} // verus!
