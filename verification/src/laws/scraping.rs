//! Laws of what the sites share: versions in names, pinned versions, builds to choose from,
//! dates, sorting and elements of pages.

use crate::common::contract;
use crate::common::contract::{Arch, Date};
use crate::html;
use crate::laws::texts;
use crate::model;
use crate::order;
use crate::outside;
use crate::providers::scrape;
use vstd::prelude::*;

verus! {

/// Whether a word starts with an ASCII digit.
pub open spec fn numeric(w: Seq<char>) -> bool {
    w.len() > 0 && 0x30 <= w[0] as int <= 0x39
}

/// The version in a name is its last word that starts with a digit: no later word does. It is
/// the whole name only where no word does.
pub proof fn lemma_version_of(name: Seq<char>)
    ensures
        ({
            let ws = model::words(name);
            let v = scrape::version_of(name);
            ||| exists|i: int|
                0 <= i < ws.len() && v == #[trigger] ws[i] && numeric(ws[i]) && forall|j: int|
                    i < j < ws.len() ==> !numeric(#[trigger] ws[j])
            ||| v == name && forall|j: int| 0 <= j < ws.len() ==> !numeric(#[trigger] ws[j])
        }),
{
    lemma_last_numeric(model::words(name));
}

/// The last word that starts with a digit.
proof fn lemma_last_numeric(ws: Seq<Seq<char>>)
    ensures
        match scrape::last_numeric(ws) {
            Some(v) => exists|i: int|
                0 <= i < ws.len() && v == #[trigger] ws[i] && numeric(ws[i]) && forall|j: int|
                    i < j < ws.len() ==> !numeric(#[trigger] ws[j]),
            None => forall|j: int| 0 <= j < ws.len() ==> !numeric(#[trigger] ws[j]),
        },
    decreases ws.len(),
{
    if ws.len() > 0 {
        let n = ws.len() - 1;
        let front = ws.drop_last();
        if numeric(ws.last()) {
            assert(ws[n] == ws.last());
        } else {
            lemma_last_numeric(front);
            match scrape::last_numeric(front) {
                Some(v) => {
                    let i = choose|i: int|
                        0 <= i < front.len() && v == #[trigger] front[i] && numeric(front[i])
                            && forall|j: int|
                            i < j < front.len() ==> !numeric(#[trigger] front[j]);
                    assert(ws[i] == front[i]);
                    assert forall|j: int| i < j < ws.len() implies !numeric(#[trigger] ws[j]) by {
                        if j < n {
                            assert(ws[j] == front[j]);
                        }
                    }
                },
                None => {
                    assert forall|j: int| 0 <= j < ws.len() implies !numeric(#[trigger] ws[j]) by {
                        if j < n {
                            assert(ws[j] == front[j]);
                        }
                    }
                },
            }
        }
    }
}

/// A name with a version as its last word has that version, whatever numbers stand before.
pub proof fn lemma_version_last(name: Seq<char>, version: Seq<char>)
    requires
        numeric(version),
        forall|i: int| 0 <= i < version.len() ==> !model::is_space(#[trigger] version[i]),
    ensures
        scrape::version_of(name + seq![' '] + version) == version,
{
    texts::lemma_words(name, ' ', version);
    let all = name + seq![' '] + version;
    lemma_version_of(all);
    let ws = model::words(all);
    let n = ws.len() - 1;
    assert(ws[n] == version);
}

/// A version is the one asked for, or that one and further dotted segments, and no other: a
/// longer number in its last segment is another version.
pub proof fn lemma_matches_version(version: Seq<char>, want: Seq<char>)
    ensures
        scrape::matches_version(version, want) <==> version == want || exists|rest: Seq<char>|
            version == #[trigger] (want + seq!['.'] + rest),
{
    texts::lemma_begins(version, want.push('.'));
    if exists|rest: Seq<char>| version == #[trigger] (want.push('.') + rest) {
        let rest = choose|rest: Seq<char>| version == #[trigger] (want.push('.') + rest);
        assert(version == want + seq!['.'] + rest);
    }
    assert forall|rest: Seq<char>| version == #[trigger] (want + seq!['.'] + rest) implies version
        == want.push('.') + rest by {
        assert(want + seq!['.'] == want.push('.'));
    }
}

/// The row to take for a version: the first of exactly that version wherever it stands, else
/// the first with that version and further segments, else none.
pub proof fn lemma_pinned_row(vs: Seq<Seq<char>>, want: Seq<char>)
    ensures
        match scrape::pinned(vs, want) {
            Some(i) => {
                &&& 0 <= i < vs.len()
                &&& vs.contains(want) ==> vs[i] == want && forall|j: int|
                    0 <= j < i ==> #[trigger] vs[j] != want
                &&& !vs.contains(want) ==> (exists|rest: Seq<char>|
                    vs[i] == #[trigger] (want + seq!['.'] + rest)) && forall|j: int|
                    0 <= j < i ==> !scrape::matches_version(#[trigger] vs[j], want)
            },
            None => !vs.contains(want) && forall|j: int|
                0 <= j < vs.len() ==> !scrape::matches_version(#[trigger] vs[j], want),
        },
{
    scrape::lemma_pinned(vs, want);
    match scrape::pinned(vs, want) {
        Some(i) => {
            lemma_matches_version(vs[i], want);
            if vs[i] == want {
                assert(vs.contains(want));
            }
        },
        None => {
            if vs.contains(want) {
                let k = vs.index_of(want);
                assert(scrape::matches_version(vs[k], want));
            }
        },
    }
}

/// Whether a build is a plain APK for the ABIs.
pub open spec fn plain_for(v: scrape::VariantView, arch: Arch) -> bool {
    !v.bundle && v.arch.covers(arch)
}

/// The build to download, where a plain APK has the ABIs: one of those, with the fewest ABIs,
/// and the first such.
pub proof fn lemma_choice_plain(vs: Seq<scrape::VariantView>, arch: Arch, k: int)
    requires
        0 <= k < vs.len(),
        plain_for(vs[k], arch),
    ensures
        scrape::choice(vs, arch) matches Some(i) && {
            &&& 0 <= i < vs.len()
            &&& plain_for(vs[i], arch)
            &&& vs[i].arch.size() <= vs[k].arch.size()
            &&& vs[i].arch.size() == vs[k].arch.size() ==> i <= k
        },
{
    scrape::lemma_tightest(vs, arch, true);
    assert(scrape::suits(vs[k], arch, true));
}

/// Where plain APKs are there but none has the ABIs, the first plain APK.
pub proof fn lemma_choice_any_plain(vs: Seq<scrape::VariantView>, arch: Arch, k: int)
    requires
        0 <= k < vs.len(),
        !vs[k].bundle,
        forall|j: int| 0 <= j < vs.len() ==> !plain_for(#[trigger] vs[j], arch),
    ensures
        scrape::choice(vs, arch) matches Some(i) && 0 <= i <= k && !vs[i].bundle && forall|j: int|
            0 <= j < i ==> (#[trigger] vs[j]).bundle,
{
    scrape::lemma_tightest(vs, arch, true);
    scrape::lemma_plain(vs);
    if let Some(i) = scrape::tightest(vs, arch, true) {
        assert(!plain_for(vs[i], arch));
    }
    if let Some(i) = scrape::first_plain(vs) {
        if i > k {
            assert(vs[k].bundle);
        }
    }
}

/// Where every build is a bundle, one that has the ABIs, with the fewest, and the first such;
/// and where none has them, the first of all.
pub proof fn lemma_choice_bundle(vs: Seq<scrape::VariantView>, arch: Arch)
    requires
        vs.len() > 0,
        forall|j: int| 0 <= j < vs.len() ==> (#[trigger] vs[j]).bundle,
    ensures
        scrape::choice(vs, arch) matches Some(i) && {
            &&& 0 <= i < vs.len()
            &&& forall|j: int|
                0 <= j < vs.len() && (#[trigger] vs[j]).arch.covers(arch) ==> {
                    &&& vs[i].arch.covers(arch)
                    &&& vs[i].arch.size() <= vs[j].arch.size()
                    &&& vs[i].arch.size() == vs[j].arch.size() ==> i <= j
                }
            &&& (forall|j: int| 0 <= j < vs.len() ==> !(#[trigger] vs[j]).arch.covers(arch)) ==> i == 0
        },
{
    scrape::lemma_tightest(vs, arch, true);
    scrape::lemma_tightest(vs, arch, false);
    scrape::lemma_plain(vs);
    if let Some(i) = scrape::tightest(vs, arch, true) {
        assert(vs[i].bundle);
    }
    if let Some(i) = scrape::first_plain(vs) {
        assert(vs[i].bundle);
    }
    assert forall|j: int| 0 <= j < vs.len() && (#[trigger] vs[j]).arch.covers(arch) implies scrape::suits(
        vs[j],
        arch,
        false,
    ) by {}
}

/// There is a build to download just where there is a build.
pub proof fn lemma_choice_none(vs: Seq<scrape::VariantView>, arch: Arch)
    ensures
        scrape::choice(vs, arch) is None <==> vs.len() == 0,
{
    scrape::lemma_choice(vs, arch);
}

/// The ABIs of a build are those that its label spells; without a label, or with one that
/// spells none, it runs anywhere.
pub proof fn lemma_listed_arch(label: Seq<char>)
    ensures
        scrape::listed_arch(None) == (Arch {
            arm64_v8a: true,
            armeabi_v7a: true,
            x86: true,
            x86_64: true,
        }),
        contract::arch_of(label) matches Ok(a) ==> scrape::listed_arch(Some(label)) == a,
        contract::arch_of(label) is Err ==> scrape::listed_arch(Some(label)) == (Arch {
            arm64_v8a: true,
            armeabi_v7a: true,
            x86: true,
            x86_64: true,
        }),
{
}

/// What is there of a list, in order, and nothing else.
pub proof fn lemma_present_order(ts: Seq<Option<Seq<char>>>, t: Seq<char>)
    ensures
        scrape::present(Seq::<Option<Seq<char>>>::empty()) == Seq::<Seq<char>>::empty(),
        scrape::present(ts.push(Some(t))) == scrape::present(ts).push(t),
        scrape::present(ts.push(None)) == scrape::present(ts),
{
    assert(ts.push(Some(t)).drop_last() == ts);
    assert(ts.push(None).drop_last() == ts);
}

/// A date is what the calendar makes of the text without white space around it.
pub proof fn lemma_dated(s: Seq<char>, fmt: Seq<char>)
    ensures
        scrape::dated(s, fmt) is Some <==> outside::calendar_date(model::stripped(s), fmt) is Some,
        outside::calendar_date(model::stripped(s), fmt) matches Some((y, m, d)) ==> scrape::dated(
            s,
            fmt,
        ) == Some(Date { year: y as i32, month: m as u32, day: d as u32 }),
        scrape::dated(s, fmt) == scrape::dated(model::stripped(s), fmt),
{
    texts::lemma_stripped(s);
    let (a, b) = choose|a: int, b: int|
        {
            &&& 0 <= a <= b <= s.len()
            &&& model::stripped(s) == #[trigger] s.subrange(a, b)
            &&& forall|i: int| 0 <= i < a ==> model::is_space(#[trigger] s[i])
            &&& forall|i: int| b <= i < s.len() ==> model::is_space(#[trigger] s[i])
            &&& a < b ==> !model::is_space(s[a]) && !model::is_space(s[b - 1])
        };
    let t = model::stripped(s);
    if a < b {
        assert(t[0] == s[a]);
        assert(t.last() == s[b - 1]);
    }
    texts::lemma_stripped_stays(t);
}

/// What is reported of a date that cannot be read names the site, the version and the date.
pub proof fn lemma_undated(provider: Seq<char>, label: Seq<char>, s: Seq<char>)
    ensures
        scrape::undated(provider, label, s) == provider + ": "@ + label
            + ": unparseable upload date "@ + outside::debug_form(s),
{
}

/// White space around a search term does not count.
pub proof fn lemma_encoded(q: Seq<char>)
    ensures
        scrape::encoded(q) == outside::form_bytes(vstd::utf8::encode_utf8(model::stripped(q))),
{
}

/// In a form ASCII letters, digits and `*-._` stand for themselves, a space is a plus sign, and
/// any other byte a percent sign and two hexadecimal digits.
pub proof fn lemma_form_bytes(bytes: Seq<u8>, b: u8)
    ensures
        outside::form_bytes(Seq::<u8>::empty()).len() == 0,
        ({
            let front = outside::form_bytes(bytes);
            let all = outside::form_bytes(bytes.push(b));
            let same = 0x30 <= b <= 0x39 || 0x41 <= b <= 0x5a || 0x61 <= b <= 0x7a || b == 0x2a || b
                == 0x2d || b == 0x2e || b == 0x5f;
            &&& same ==> all == front.push(b as char)
            &&& b == 0x20 ==> all == front.push('+')
            &&& !same && b != 0x20 ==> all == front + seq!['%'] + model::hex2(b as nat)
        }),
{
    assert(bytes.push(b).drop_last() == bytes);
    let front = outside::form_bytes(bytes);
    texts::lemma_ascii(b as char);
    assert(front + seq![b as char] == front.push(b as char));
    assert(front + seq!['+'] == front.push('+'));
    assert(front + (seq!['%'] + model::hex2(b as nat)) == front + seq!['%'] + model::hex2(b as nat));
}

/// A ranking names every place once. Of two places the one with the smaller first number comes
/// first, with equal ones that with the smaller second number, and else the earlier place.
pub proof fn lemma_sorted(keys: Seq<(u128, u128)>)
    requires
        keys.len() <= usize::MAX,
    ensures
        ({
            let o = order::ranking(keys);
            &&& o.len() == keys.len()
            &&& forall|i: int| 0 <= i < o.len() ==> (#[trigger] o[i]) < keys.len()
            &&& forall|i: int, j: int|
                0 <= i < j < o.len() ==> {
                    let a = keys[#[trigger] o[i] as int];
                    let b = keys[#[trigger] o[j] as int];
                    a.0 < b.0 || (a.0 == b.0 && a.1 < b.1) || (a.0 == b.0 && a.1 == b.1 && o[i]
                        < o[j])
                }
        }),
{
    order::lemma_ranking(keys, keys);
}

/// Arranging takes each item from the place that the order names.
pub proof fn lemma_arranged<T>(s: Seq<T>, o: Seq<usize>)
    ensures
        order::arranged(s, o).len() == o.len(),
        forall|i: int| 0 <= i < o.len() ==> order::arranged(s, o)[i] == s[#[trigger] o[i] as int],
{
}

/// Elements of a page: the first that matches counts, its text is that of its text nodes with
/// white space collapsed, and of an attribute the first element that has it.
pub proof fn lemma_elements(n: html::Node, page: html::Page, css: Seq<char>, name: Seq<char>)
    ensures
        html::node_text(n) == model::collapsed(html::raw_text(n)),
        html::matched_in(n, css).len() == 0 ==> html::first_in(n, css) is None && html::first_text(
            n,
            css,
        ) is None && html::first_attribute(n, css, name) is None,
        html::matched_in(n, css).len() > 0 ==> {
            let e = html::matched_in(n, css)[0];
            &&& html::first_in(n, css) == Some(e)
            &&& html::first_text(n, css) == Some(html::node_text(e))
            &&& html::first_attribute(n, css, name) == html::attribute(e, name)
        },
        match html::first_attribute_of(page, css, name) {
            Some(v) => exists|i: int|
                {
                    &&& 0 <= i < html::matched(page, css).len()
                    &&& html::attribute(#[trigger] html::matched(page, css)[i], name) == Some(v)
                    &&& forall|j: int|
                        0 <= j < i ==> html::attribute(
                            #[trigger] html::matched(page, css)[j],
                            name,
                        ) is None
                },
            None => forall|j: int|
                0 <= j < html::matched(page, css).len() ==> html::attribute(
                    #[trigger] html::matched(page, css)[j],
                    name,
                ) is None,
        },
        html::document(name) == (html::Page { text: name, fragment: false }),
        html::snippet(name) == (html::Page { text: name, fragment: true }),
{
    let ns = html::matched(page, css);
    let vs = html::attributes(page, css, name);
    texts::lemma_first_present(vs);
    match html::first_attribute_of(page, css, name) {
        Some(v) => {
            let i = choose|i: int|
                0 <= i < vs.len() && #[trigger] vs[i] == Some(v) && forall|j: int|
                    0 <= j < i ==> (#[trigger] vs[j]) is None;
            assert(html::attribute(ns[i], name) == Some(v));
            assert forall|j: int| 0 <= j < i implies html::attribute(#[trigger] ns[j], name) is None by {
                assert(vs[j] is None);
            }
        },
        None => {
            assert forall|j: int| 0 <= j < ns.len() implies html::attribute(
                #[trigger] ns[j],
                name,
            ) is None by {
                assert(vs[j] is None);
            }
        },
    }
}

} // verus!
