//! String operations, each proved to compute its counterpart in [`crate::model`].

use crate::model::{self, Class};
use crate::outside::is_alphanumeric;
use vstd::prelude::*;
use vstd::string::StringExecFns;

verus! {

/// Whether `c` is white space.
pub fn space(c: char) -> (r: bool)
    ensures
        r == model::is_space(c),
{
    ('\u{9}' <= c && c <= '\u{d}') || c == ' ' || c == '\u{85}' || c == '\u{a0}' || c == '\u{1680}'
        || ('\u{2000}' <= c && c <= '\u{200a}') || c == '\u{2028}' || c == '\u{2029}' || c
        == '\u{202f}' || c == '\u{205f}' || c == '\u{3000}'
}

/// Whether `c` is an ASCII digit.
pub fn digit(c: char) -> (r: bool)
    ensures
        r == model::is_digit(c),
{
    '0' <= c && c <= '9'
}

/// Whether `c` is an ASCII letter or digit.
pub fn alnum(c: char) -> (r: bool)
    ensures
        r == model::is_alnum(c),
{
    ('0' <= c && c <= '9') || ('A' <= c && c <= 'Z') || ('a' <= c && c <= 'z')
}

/// The lower-case form of `c` among the ASCII letters.
pub fn lower(c: char) -> (r: char)
    ensures
        r == model::lower_char(c),
{
    if 'A' <= c && c <= 'Z' {
        ((c as u8) + 32) as char
    } else {
        c
    }
}

impl Class {
    /// Whether `c` belongs to the class.
    pub fn test(&self, c: char) -> (r: bool)
        ensures
            r == self.has(c),
    {
        match self {
            Class::Space => space(c),
            Class::One(a) => c == *a,
            Class::Either(a, b) => c == *a || c == *b,
            Class::Between => space(c) || c == ',' || c == '+',
            Class::NotLabel => !alnum(c) && c != '-' && c != '_',
            Class::NotWord => !is_alphanumeric(c),
        }
    }
}

/// The characters of `s`.
pub fn chars(s: &str) -> (r: Vec<char>)
    ensures
        r@ == s@,
{
    let mut out: Vec<char> = Vec::new();
    for c in it: s.chars()
        invariant
            out@ == s@.take(it.index()),
            it.seq() == s@,
    {
        out.push(c);
        assert(out@ == s@.take(it.index() + 1));
    }
    assert(s@.take(s@.len() as int) == s@);
    out
}

/// The string of the characters of `v` from `from` up to `to`.
pub fn part(v: &[char], from: usize, to: usize) -> (r: String)
    requires
        from <= to <= v@.len(),
    ensures
        r@ == v@.subrange(from as int, to as int),
{
    let mut out = String::new();
    let mut i: usize = from;
    while i < to
        invariant
            from <= i <= to <= v@.len(),
            out@ == v@.subrange(from as int, i as int),
        decreases to - i,
    {
        out.push(v[i]);
        i += 1;
        assert(out@ == v@.subrange(from as int, i as int));
    }
    out
}

/// The string of the characters `v`.
pub fn text(v: &[char]) -> (r: String)
    ensures
        r@ == v@,
{
    let out = part(v, 0, v.len());
    assert(v@.subrange(0, v@.len() as int) == v@);
    out
}

/// Whether `p` stands in `s` at `i`.
fn stands_at(s: &[char], p: &[char], i: usize) -> (r: bool)
    ensures
        r == model::occurs_at(s@, p@, i as int),
{
    let n: usize = s.len();
    let m: usize = p.len();
    if i > n || m > n - i {
        return false;
    }
    let mut j: usize = 0;
    while j < m
        invariant
            0 <= j <= m,
            n == s@.len(),
            m == p@.len(),
            i + m <= n,
            forall|k: int| 0 <= k < j ==> s@[i + k] == #[trigger] p@[k],
        decreases m - j,
    {
        if s[i + j] != p[j] {
            assert(s@.subrange(i as int, i + m)[j as int] != p@[j as int]);
            return false;
        }
        j += 1;
    }
    assert(s@.subrange(i as int, i + m) == p@);
    true
}

/// Whether two strings are equal.
pub fn same(a: &str, b: &str) -> (r: bool)
    ensures
        r == (a@ == b@),
{
    let x = chars(a);
    let y = chars(b);
    if x.len() != y.len() {
        return false;
    }
    let r = stands_at(&x, &y, 0);
    assert(x@.subrange(0, x@.len() as int) == x@);
    r
}

/// Whether `p` is a prefix of `s`.
pub fn starts_with(s: &str, p: &str) -> (r: bool)
    ensures
        r == model::begins(s@, p@),
{
    let x = chars(s);
    let y = chars(p);
    let r = stands_at(&x, &y, 0);
    proof {
        if y@.len() <= x@.len() {
            assert(x@.subrange(0, y@.len() as int) == x@.take(y@.len() as int));
        }
    }
    r
}

/// Whether `p` is a suffix of `s`.
pub fn ends_with(s: &str, p: &str) -> (r: bool)
    ensures
        r == model::finishes(s@, p@),
{
    let x = chars(s);
    let y = chars(p);
    if y.len() > x.len() {
        return false;
    }
    let at: usize = x.len() - y.len();
    let r = stands_at(&x, &y, at);
    assert(x@.subrange(at as int, at + y@.len()) == x@.skip(at as int));
    r
}

/// What follows the prefix `p` of `s`.
pub fn strip_prefix(s: &str, p: &str) -> (r: Option<String>)
    ensures
        model::opt(r) == model::after_prefix(s@, p@),
{
    if starts_with(s, p) {
        let x = chars(s);
        let n: usize = chars(p).len();
        let out = part(&x, n, x.len());
        assert(x@.subrange(n as int, x@.len() as int) == s@.skip(p@.len() as int));
        Some(out)
    } else {
        None
    }
}

/// The first position of `p` in `s` from `from` on.
fn seek(s: &[char], p: &[char], from: usize) -> (r: Option<usize>)
    requires
        from <= s@.len(),
    ensures
        (match r {
            Some(i) => Some(i as int),
            None => None::<int>,
        }) == model::first_from(s@, p@, from as int),
        r matches Some(i) ==> i + p@.len() <= s@.len(),
{
    let mut i: usize = from;
    loop
        invariant
            from <= i <= s@.len(),
            model::first_from(s@, p@, from as int) == model::first_from(s@, p@, i as int),
        decreases s@.len() - i,
    {
        if p.len() > s.len() - i {
            return None;
        }
        if stands_at(s, p, i) {
            return Some(i);
        }
        if i == s.len() {
            assert(p@.len() == 0);
            assert(s@.subrange(i as int, i as int) == p@);
            return None;
        }
        i += 1;
    }
}

/// The last position of `p` in `s`.
fn seek_last(s: &[char], p: &[char]) -> (r: Option<usize>)
    ensures
        (match r {
            Some(i) => Some(i as int),
            None => None::<int>,
        }) == model::last(s@, p@),
        r matches Some(i) ==> i + p@.len() <= s@.len(),
{
    if p.len() > s.len() {
        return None;
    }
    let mut i: usize = s.len() - p.len();
    loop
        invariant
            i + p@.len() <= s@.len(),
            model::last(s@, p@) == model::last_upto(s@, p@, i as int),
        decreases i,
    {
        if stands_at(s, p, i) {
            return Some(i);
        }
        if i == 0 {
            assert(model::last_upto(s@, p@, -1) is None);
            return None;
        }
        i -= 1;
    }
}

/// A text stands in another just where it has a first position there.
pub proof fn lemma_first_from(s: Seq<char>, p: Seq<char>, i: int)
    requires
        0 <= i,
    ensures
        model::first_from(s, p, i) is Some <==> exists|j: int| i <= j && #[trigger] model::occurs_at(s, p, j),
        model::first_from(s, p, i) matches Some(j) ==> {
            &&& i <= j
            &&& model::occurs_at(s, p, j)
            &&& forall|k: int| i <= k < j ==> !#[trigger] model::occurs_at(s, p, k)
        },
    decreases s.len() - i + 1,
{
    if i + p.len() > s.len() {
    } else if model::occurs_at(s, p, i) {
    } else {
        lemma_first_from(s, p, i + 1);
        assert forall|j: int| i <= j && #[trigger] model::occurs_at(s, p, j) implies i + 1 <= j by {}
        if model::first_from(s, p, i + 1) is Some {
            let j = model::first_from(s, p, i + 1)->0;
            assert(model::occurs_at(s, p, j));
        }
    }
}

/// Whether `p` stands anywhere in `s`.
pub fn contains(s: &str, p: &str) -> (r: bool)
    ensures
        r == model::holds(s@, p@),
{
    let x = chars(s);
    let y = chars(p);
    proof {
        lemma_first_from(s@, p@, 0);
        assert(model::holds(s@, p@) ==> exists|j: int| 0 <= j && #[trigger] model::occurs_at(s@, p@, j));
    }
    seek(&x, &y, 0).is_some()
}

/// Whether the character `c` stands in `s`.
pub fn contains_char(s: &str, c: char) -> (r: bool)
    ensures
        r == s@.contains(c),
{
    let x = chars(s);
    let mut i: usize = 0;
    while i < x.len()
        invariant
            i <= x@.len(),
            x@ == s@,
            forall|k: int| 0 <= k < i ==> x@[k] != c,
        decreases x@.len() - i,
    {
        if x[i] == c {
            assert(s@[i as int] == c);
            return true;
        }
        i += 1;
    }
    false
}

/// The first position of `p` in `s`, counted in characters.
pub fn find(s: &str, p: &str) -> (r: Option<usize>)
    ensures
        (match r {
            Some(i) => Some(i as int),
            None => None::<int>,
        }) == model::first(s@, p@),
{
    let x = chars(s);
    let y = chars(p);
    seek(&x, &y, 0)
}

/// `s` cut around the first `p`.
pub fn split_once(s: &str, p: &str) -> (r: Option<(String, String)>)
    ensures
        (match r {
            Some(c) => Some((c.0@, c.1@)),
            None => None,
        }) == model::cut(s@, p@),
{
    let x = chars(s);
    let y = chars(p);
    let n: usize = x.len();
    match seek(&x, &y, 0) {
        Some(i) => {
            let a = part(&x, 0, i);
            let b = part(&x, i + y.len(), n);
            assert(a@ == s@.take(i as int));
            assert(b@ == s@.skip(i + p@.len()));
            Some((a, b))
        },
        None => None,
    }
}

/// `s` cut around the last `p`.
pub fn rsplit_once(s: &str, p: &str) -> (r: Option<(String, String)>)
    ensures
        (match r {
            Some(c) => Some((c.0@, c.1@)),
            None => None,
        }) == model::cut_last(s@, p@),
{
    let x = chars(s);
    let y = chars(p);
    let n: usize = x.len();
    match seek_last(&x, &y) {
        Some(i) => {
            let a = part(&x, 0, i);
            let b = part(&x, i + y.len(), n);
            assert(a@ == s@.take(i as int));
            assert(b@ == s@.skip(i + p@.len()));
            Some((a, b))
        },
        None => None,
    }
}

/// `s` without its leading characters of class `k`.
pub fn trim_start_by(s: &str, k: Class) -> (r: String)
    ensures
        r@ == model::trimmed_start(s@, k),
{
    let x = chars(s);
    let n: usize = x.len();
    let mut i: usize = 0;
    assert(s@.skip(0) == s@);
    while i < n && k.test(x[i])
        invariant
            i <= n,
            n == x@.len(),
            x@ == s@,
            model::trimmed_start(s@, k) == model::trimmed_start(s@.skip(i as int), k),
        ensures
            i <= n,
            i < n ==> !k.has(x@[i as int]),
            model::trimmed_start(s@, k) == model::trimmed_start(s@.skip(i as int), k),
        decreases n - i,
    {
        assert(s@.skip(i as int).skip(1) == s@.skip(i + 1));
        i += 1;
    }
    let out = part(&x, i, n);
    assert(out@ == s@.skip(i as int));
    out
}

/// `s` without its trailing characters of class `k`.
pub fn trim_end_by(s: &str, k: Class) -> (r: String)
    ensures
        r@ == model::trimmed_end(s@, k),
{
    let x = chars(s);
    let mut n: usize = x.len();
    assert(s@.take(n as int) == s@);
    while n > 0 && k.test(x[n - 1])
        invariant
            n <= x@.len(),
            x@ == s@,
            model::trimmed_end(s@, k) == model::trimmed_end(s@.take(n as int), k),
        ensures
            n <= x@.len(),
            n > 0 ==> !k.has(x@[n - 1]),
            model::trimmed_end(s@, k) == model::trimmed_end(s@.take(n as int), k),
        decreases n,
    {
        assert(s@.take(n as int).drop_last() == s@.take(n - 1));
        n -= 1;
    }
    let out = part(&x, 0, n);
    assert(out@ == s@.take(n as int));
    out
}

/// `s` without characters of class `k` at either end.
pub fn trim_by(s: &str, k: Class) -> (r: String)
    ensures
        r@ == model::trimmed(s@, k),
{
    let front = trim_start_by(s, dup(&k));
    trim_end_by(&front, k)
}

/// A copy of a class.
fn dup(k: &Class) -> (r: Class)
    ensures
        r == *k,
{
    match k {
        Class::Space => Class::Space,
        Class::One(a) => Class::One(*a),
        Class::Either(a, b) => Class::Either(*a, *b),
        Class::Between => Class::Between,
        Class::NotLabel => Class::NotLabel,
        Class::NotWord => Class::NotWord,
    }
}

/// `s` without white space at either end.
pub fn trim(s: &str) -> (r: String)
    ensures
        r@ == model::stripped(s@),
{
    trim_by(s, Class::Space)
}

/// `s` without the suffix `p`, however often it is repeated.
pub fn trim_end_str(s: &str, p: &str) -> (r: String)
    ensures
        r@ == model::without_suffix(s@, p@),
{
    let x = chars(s);
    let y = chars(p);
    let m: usize = y.len();
    let mut n: usize = x.len();
    assert(s@.take(n as int) == s@);
    if m == 0 {
        return text(&x);
    }
    while n >= m && stands_at(&x, &y, n - m)
        invariant
            n <= x@.len(),
            x@ == s@,
            y@ == p@,
            m == y@.len(),
            m > 0,
            model::without_suffix(s@, p@) == model::without_suffix(s@.take(n as int), p@),
        ensures
            n <= x@.len(),
            n >= m ==> !model::occurs_at(x@, y@, n - m),
            model::without_suffix(s@, p@) == model::without_suffix(s@.take(n as int), p@),
        decreases n,
    {
        assert(s@.take(n as int).skip(n - m) == s@.subrange(n - m, n as int));
        assert(s@.take(n as int).take(n - m) == s@.take(n - m));
        n -= m;
    }
    proof {
        if n >= m {
            assert(s@.take(n as int).skip(n - m) == s@.subrange(n - m, n as int));
        }
    }
    let out = part(&x, 0, n);
    assert(out@ == s@.take(n as int));
    out
}

/// `s` without the prefix `p`, however often it is repeated.
pub fn trim_start_str(s: &str, p: &str) -> (r: String)
    ensures
        r@ == model::without_prefix(s@, p@),
{
    let x = chars(s);
    let y = chars(p);
    let m: usize = y.len();
    let n: usize = x.len();
    let mut i: usize = 0;
    assert(s@.skip(0) == s@);
    if m == 0 {
        return text(&x);
    }
    while stands_at(&x, &y, i)
        invariant
            i <= n,
            n == x@.len(),
            x@ == s@,
            y@ == p@,
            m == y@.len(),
            m > 0,
            model::without_prefix(s@, p@) == model::without_prefix(s@.skip(i as int), p@),
        decreases n - i,
    {
        assert(s@.skip(i as int).take(m as int) == s@.subrange(i as int, i + m));
        assert(s@.skip(i as int).skip(m as int) == s@.skip(i + m));
        i += m;
    }
    proof {
        if i + m <= n {
            assert(s@.skip(i as int).take(m as int) == s@.subrange(i as int, i + m));
        }
    }
    let out = part(&x, i, n);
    assert(out@ == s@.skip(i as int));
    out
}

/// `s` split at every character of class `k`.
pub fn split_by(s: &str, k: Class) -> (r: Vec<String>)
    ensures
        model::texts(r@) == model::pieces(s@, k),
{
    let x = chars(s);
    let mut out: Vec<String> = Vec::new();
    let mut cur = String::new();
    let mut i: usize = 0;
    assert(model::texts(out@).push(cur@) == model::pieces(s@.take(0), k));
    while i < x.len()
        invariant
            i <= x@.len(),
            x@ == s@,
            model::texts(out@).push(cur@) == model::pieces(s@.take(i as int), k),
        decreases x@.len() - i,
    {
        let ghost before = model::texts(out@);
        let ghost word = cur@;
        assert(s@.take(i + 1).drop_last() == s@.take(i as int));
        assert(before.push(word).drop_last() == before);
        if k.test(x[i]) {
            out.push(cur);
            cur = String::new();
            assert(model::texts(out@) == before.push(word));
        } else {
            cur.push(x[i]);
        }
        i += 1;
    }
    assert(s@.take(s@.len() as int) == s@);
    let ghost before = model::texts(out@);
    let ghost word = cur@;
    out.push(cur);
    assert(model::texts(out@) == before.push(word));
    out
}

/// Splitting leaves at least one piece.
pub proof fn lemma_pieces_len(s: Seq<char>, k: Class)
    ensures
        model::pieces(s, k).len() > 0,
    decreases s.len(),
{
    if s.len() > 0 {
        lemma_pieces_len(s.drop_last(), k);
    }
}

/// The maximal runs of `s` outside class `k`.
pub fn split_runs(s: &str, k: Class) -> (r: Vec<String>)
    ensures
        model::texts(r@) == model::runs(s@, k),
{
    let all = split_by(s, k);
    let mut out: Vec<String> = Vec::new();
    let mut i: usize = 0;
    assert(model::texts(out@) == model::filled(model::texts(all@).take(0)));
    while i < all.len()
        invariant
            i <= all@.len(),
            model::texts(out@) == model::filled(model::texts(all@).take(i as int)),
        decreases all@.len() - i,
    {
        let ghost before = model::texts(out@);
        assert(model::texts(all@).take(i + 1).drop_last() == model::texts(all@).take(i as int));
        assert(model::texts(all@).take(i + 1).last() == all@[i as int]@);
        if !all[i].as_str().is_empty() {
            out.push(all[i].clone());
            assert(model::texts(out@) == before.push(all@[i as int]@));
        }
        i += 1;
    }
    assert(model::texts(all@).take(all@.len() as int) == model::texts(all@));
    out
}

/// The words of `s`.
pub fn split_whitespace(s: &str) -> (r: Vec<String>)
    ensures
        model::texts(r@) == model::words(s@),
{
    split_runs(s, Class::Space)
}

/// The members of `ws` with `sep` between neighbours.
pub fn join(ws: &[String], sep: &str) -> (r: String)
    ensures
        r@ == model::joined(model::texts(ws@), sep@),
{
    let mut out = String::new();
    let mut i: usize = 0;
    assert(out@ == model::joined(model::texts(ws@).take(0), sep@));
    while i < ws.len()
        invariant
            i <= ws@.len(),
            out@ == model::joined(model::texts(ws@).take(i as int), sep@),
        decreases ws@.len() - i,
    {
        assert(model::texts(ws@).take(i + 1).drop_last() == model::texts(ws@).take(i as int));
        assert(model::texts(ws@).take(i + 1).last() == ws@[i as int]@);
        if i > 0 {
            out.append(sep);
        }
        out.append(ws[i].as_str());
        assert(out@ == model::joined(model::texts(ws@).take(i + 1), sep@));
        i += 1;
    }
    assert(model::texts(ws@).take(ws@.len() as int) == model::texts(ws@));
    out
}

/// `s` with its white space collapsed.
pub fn collapse(s: &str) -> (r: String)
    ensures
        r@ == model::collapsed(s@),
{
    let ws = split_whitespace(s);
    proof {
        reveal_strlit(" ");
        assert(" "@ == seq![' ']);
    }
    join(&ws, " ")
}

/// `s` with its ASCII letters in lower case.
pub fn to_ascii_lowercase(s: &str) -> (r: String)
    ensures
        r@ == model::lowered(s@),
{
    let x = chars(s);
    let mut out = String::new();
    let mut i: usize = 0;
    while i < x.len()
        invariant
            i <= x@.len(),
            x@ == s@,
            out@ == model::lowered(s@).take(i as int),
        decreases x@.len() - i,
    {
        out.push(lower(x[i]));
        i += 1;
        assert(out@ == model::lowered(s@).take(i as int));
    }
    assert(model::lowered(s@).take(s@.len() as int) == model::lowered(s@));
    out
}

/// Whether two strings differ at most in the case of ASCII letters.
pub fn eq_ignore_ascii_case(a: &str, b: &str) -> (r: bool)
    ensures
        r == model::same_letters(a@, b@),
{
    let x = to_ascii_lowercase(a);
    let y = to_ascii_lowercase(b);
    same(&x, &y)
}

/// `s` with every `c` replaced by `by`.
pub fn replace_char(s: &str, c: char, by: char) -> (r: String)
    ensures
        r@ == model::replaced(s@, c, by),
{
    let x = chars(s);
    let mut out = String::new();
    let mut i: usize = 0;
    while i < x.len()
        invariant
            i <= x@.len(),
            x@ == s@,
            out@ == model::replaced(s@, c, by).take(i as int),
        decreases x@.len() - i,
    {
        if x[i] == c {
            out.push(by);
        } else {
            out.push(x[i]);
        }
        i += 1;
        assert(out@ == model::replaced(s@, c, by).take(i as int));
    }
    assert(model::replaced(s@, c, by).take(s@.len() as int) == model::replaced(s@, c, by));
    out
}

/// Whether every character of `s` is an ASCII letter or digit.
pub fn is_all_alnum(s: &str) -> (r: bool)
    ensures
        r == model::all_alnum(s@),
{
    let x = chars(s);
    let mut i: usize = 0;
    while i < x.len()
        invariant
            i <= x@.len(),
            x@ == s@,
            forall|k: int| 0 <= k < i ==> model::is_alnum(#[trigger] s@[k]),
        decreases x@.len() - i,
    {
        if !alnum(x[i]) {
            assert(!model::is_alnum(s@[i as int]));
            return false;
        }
        i += 1;
    }
    true
}

/// Whether every character of `s` is an ASCII digit.
pub fn is_all_digits(s: &str) -> (r: bool)
    ensures
        r == model::all_digits(s@),
{
    let x = chars(s);
    let mut i: usize = 0;
    while i < x.len()
        invariant
            i <= x@.len(),
            x@ == s@,
            forall|k: int| 0 <= k < i ==> model::is_digit(#[trigger] s@[k]),
        decreases x@.len() - i,
    {
        if !digit(x[i]) {
            assert(!model::is_digit(s@[i as int]));
            return false;
        }
        i += 1;
    }
    true
}

/// The number of times `c` occurs in `s`.
pub fn count_char(s: &str, c: char) -> (r: usize)
    ensures
        r == model::count(s@, c),
{
    let x = chars(s);
    let mut n: usize = 0;
    let mut i: usize = 0;
    while i < x.len()
        invariant
            i <= x@.len(),
            x@ == s@,
            n <= i,
            n == model::count(s@.take(i as int), c),
        decreases x@.len() - i,
    {
        assert(s@.take(i + 1).drop_last() == s@.take(i as int));
        if x[i] == c {
            n += 1;
        }
        i += 1;
    }
    assert(s@.take(s@.len() as int) == s@);
    n
}

/// Whether `s` begins with an ASCII digit.
pub fn starts_with_digit(s: &str) -> (r: bool)
    ensures
        r == (s@.len() > 0 && model::is_digit(s@[0])),
{
    let x = chars(s);
    x.len() > 0 && digit(x[0])
}

/// `a` followed by `b`.
pub fn plus(a: &str, b: &str) -> (r: String)
    ensures
        r@ == a@ + b@,
{
    let mut out = a.to_owned();
    out.append(b);
    out
}

/// Whether `s` is one of `v`.
pub fn listed(v: &[String], s: &str) -> (r: bool)
    ensures
        r == model::texts(v@).contains(s@),
{
    let mut i: usize = 0;
    while i < v.len()
        invariant
            i <= v@.len(),
            forall|j: int| 0 <= j < i ==> v@[j]@ != s@,
        decreases v@.len() - i,
    {
        if same(v[i].as_str(), s) {
            assert(model::texts(v@)[i as int] == s@);
            return true;
        }
        i += 1;
    }
    false
}

/// Three texts, one after the other.
pub fn plus3(a: &str, b: &str, c: &str) -> (r: String)
    ensures
        r@ == a@ + b@ + c@,
{
    let mut out = a.to_owned();
    out.append(b);
    out.append(c);
    out
}

/// Four texts, one after the other.
pub fn plus4(a: &str, b: &str, c: &str, d: &str) -> (r: String)
    ensures
        r@ == a@ + b@ + c@ + d@,
{
    let mut out = plus3(a, b, c);
    out.append(d);
    out
}

/// A copy of a text that may be absent.
pub fn copied(o: Option<&str>) -> (r: Option<String>)
    ensures
        model::opt(r) == model::opt_str(o),
{
    match o {
        Some(s) => Some(s.to_owned()),
        None => None,
    }
}

/// The first text that is not absent.
pub fn first_present(v: &[Option<String>]) -> (r: Option<String>)
    ensures
        model::opt(r) == model::first_present(model::opts(v@)),
{
    let ghost vs = model::opts(v@);
    let mut i: usize = 0;
    assert(vs.skip(0) == vs);
    while i < v.len()
        invariant
            i <= v@.len(),
            vs == model::opts(v@),
            model::first_present(vs) == model::first_present(vs.skip(i as int)),
        decreases v@.len() - i,
    {
        assert(vs.skip(i as int)[0] == model::opt(v@[i as int]));
        assert(vs.skip(i as int).skip(1) == vs.skip(i + 1));
        if let Some(s) = &v[i] {
            return Some(s.clone());
        }
        i += 1;
    }
    None
}

/// A text without characters of a class is one piece.
pub proof fn lemma_one_piece(b: Seq<char>, k: Class)
    requires
        forall|i: int| 0 <= i < b.len() ==> !k.has(#[trigger] b[i]),
    ensures
        model::pieces(b, k) == seq![b],
    decreases b.len(),
{
    if b.len() == 0 {
        assert(b == Seq::<char>::empty());
    } else {
        let front = b.drop_last();
        assert forall|i: int| 0 <= i < front.len() implies !k.has(#[trigger] front[i]) by {
            assert(front[i] == b[i]);
        }
        lemma_one_piece(front, k);
        assert(!k.has(b[b.len() - 1]));
        assert(front.push(b.last()) == b);
        assert(seq![front].drop_last().push(b) == seq![b]);
    }
}

/// A separator and a text without one make one piece more.
pub proof fn lemma_piece_more(s: Seq<char>, c: char, b: Seq<char>, k: Class)
    requires
        k.has(c),
        forall|i: int| 0 <= i < b.len() ==> !k.has(#[trigger] b[i]),
    ensures
        model::pieces(s + seq![c] + b, k) == model::pieces(s, k).push(b),
    decreases b.len(),
{
    let all = s + seq![c] + b;
    if b.len() == 0 {
        assert(all.drop_last() == s);
        assert(all.last() == c);
        assert(b == Seq::<char>::empty());
    } else {
        let front = b.drop_last();
        assert forall|i: int| 0 <= i < front.len() implies !k.has(#[trigger] front[i]) by {
            assert(front[i] == b[i]);
        }
        lemma_piece_more(s, c, front, k);
        assert(all.drop_last() == s + seq![c] + front);
        assert(all.last() == b.last());
        assert(!k.has(b[b.len() - 1]));
        let ps = model::pieces(s, k);
        assert(ps.push(front).drop_last() == ps);
        assert(front.push(b.last()) == b);
    }
}

/// Joining undoes splitting: the runs of joined texts are those texts, if each
/// says something and none holds a separator.
pub proof fn lemma_runs_joined(ws: Seq<Seq<char>>, c: char, k: Class)
    requires
        k.has(c),
        forall|i: int| 0 <= i < ws.len() ==> (#[trigger] ws[i]).len() > 0,
        forall|i: int, j: int|
            0 <= i < ws.len() && 0 <= j < ws[i].len() ==> !k.has(#[trigger] ws[i][j]),
    ensures
        model::runs(model::joined(ws, seq![c]), k) == ws,
    decreases ws.len(),
{
    if ws.len() == 0 {
        assert(model::filled(seq![Seq::<char>::empty()].drop_last()) == Seq::<Seq<char>>::empty());
        assert(ws == Seq::<Seq<char>>::empty());
    } else {
        let last = ws.last();
        assert(last == ws[ws.len() - 1]);
        assert forall|j: int| 0 <= j < last.len() implies !k.has(#[trigger] last[j]) by {
            assert(!k.has(ws[ws.len() - 1][j]));
        }
        if ws.len() == 1 {
            lemma_one_piece(last, k);
            assert(seq![last].drop_last() == Seq::<Seq<char>>::empty());
            assert(model::filled(Seq::<Seq<char>>::empty()) == Seq::<Seq<char>>::empty());
            assert(ws == Seq::<Seq<char>>::empty().push(last));
        } else {
            let front = ws.drop_last();
            assert forall|i: int| 0 <= i < front.len() implies (#[trigger] front[i]).len() > 0 by {
                assert(front[i] == ws[i]);
            }
            assert forall|i: int, j: int|
                0 <= i < front.len() && 0 <= j < front[i].len() implies !k.has(
                #[trigger] front[i][j],
            ) by {
                assert(front[i] == ws[i]);
                assert(!k.has(ws[i][j]));
            }
            lemma_runs_joined(front, c, k);
            let head = model::joined(front, seq![c]);
            lemma_piece_more(head, c, last, k);
            let ps = model::pieces(head, k);
            assert(ps.push(last).drop_last() == ps);
            assert(front.push(last) == ws);
        }
    }
}

} // verus!
