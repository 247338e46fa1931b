//! Laws of texts: characters, trimming, finding, cutting, splitting and numbers.

use crate::model;
use crate::model::Class;
use vstd::prelude::*;

verus! {

/// The classes of ASCII characters, by their codes.
pub proof fn lemma_ascii(c: char)
    ensures
        model::is_digit(c) <==> 0x30 <= c as int <= 0x39,
        model::is_upper(c) <==> 0x41 <= c as int <= 0x5a,
        model::is_alnum(c) <==> 0x30 <= c as int <= 0x39 || 0x41 <= c as int <= 0x5a || 0x61
            <= c as int <= 0x7a,
{
}

/// White space, by its codes.
pub proof fn lemma_white_space(c: char)
    ensures
        model::is_space(c) <==> 9 <= c as int <= 13 || c as int == 0x20 || c as int == 0x85
            || c as int == 0xa0 || c as int == 0x1680 || 0x2000 <= c as int <= 0x200a || c as int
            == 0x2028 || c as int == 0x2029 || c as int == 0x202f || c as int == 0x205f
            || c as int == 0x3000,
{
}

/// What belongs to a class of characters.
pub proof fn lemma_classes(c: char, a: char, b: char)
    ensures
        Class::Space.has(c) <==> model::is_space(c),
        Class::One(a).has(c) <==> c == a,
        Class::Either(a, b).has(c) <==> c == a || c == b,
        Class::Between.has(c) <==> model::is_space(c) || c == ',' || c == '+',
        Class::NotLabel.has(c) <==> !(model::is_alnum(c) || c == '-' || c == '_'),
        Class::NotWord.has(c) <==> !crate::outside::unicode_alphanumeric(c),
{
}

/// Lowering a character changes upper-case ASCII letters alone, to the letter that is 32
/// codes behind, and twice is once.
pub proof fn lemma_lower(c: char)
    ensures
        0x41 <= c as int <= 0x5a ==> model::lower_char(c) as int == c as int + 32,
        !(0x41 <= c as int <= 0x5a) ==> model::lower_char(c) == c,
        model::lower_char(model::lower_char(c)) == model::lower_char(c),
{
}

/// Whether two characters are the same letter, or the same character.
pub open spec fn same_letter(a: char, b: char) -> bool {
    ||| a == b
    ||| 0x41 <= a as int <= 0x5a && b as int == a as int + 32
    ||| 0x41 <= b as int <= 0x5a && a as int == b as int + 32
}

/// Texts have the same letters just where they are equally long and differ at most in the
/// case of single ASCII letters.
pub proof fn lemma_same_letters(a: Seq<char>, b: Seq<char>)
    ensures
        model::same_letters(a, b) <==> a.len() == b.len() && forall|i: int|
            0 <= i < a.len() ==> same_letter(#[trigger] a[i], b[i]),
{
    if model::same_letters(a, b) {
        assert(model::lowered(a).len() == a.len());
        assert(model::lowered(b).len() == b.len());
        assert forall|i: int| 0 <= i < a.len() implies same_letter(#[trigger] a[i], b[i]) by {
            assert(model::lowered(a)[i] == model::lowered(b)[i]);
        }
    } else if a.len() == b.len() && forall|i: int|
        0 <= i < a.len() ==> same_letter(#[trigger] a[i], b[i]) {
        assert forall|i: int| 0 <= i < a.len() implies model::lowered(a)[i] == model::lowered(b)[i] by {
            assert(same_letter(a[i], b[i]));
        }
        assert(model::lowered(a) == model::lowered(b));
    }
}

/// Lowering a text lowers its characters one by one.
pub proof fn lemma_lowered(s: Seq<char>)
    ensures
        model::lowered(s).len() == s.len(),
        forall|i: int| 0 <= i < s.len() ==> #[trigger] model::lowered(s)[i] == model::lower_char(s[i]),
{
}

/// What is trimmed at the start is the longest front of a class.
pub proof fn lemma_trimmed_start(s: Seq<char>, k: Class)
    ensures
        ({
            let r = model::trimmed_start(s, k);
            &&& r.len() <= s.len()
            &&& r == s.skip(s.len() - r.len())
            &&& forall|i: int| 0 <= i < s.len() - r.len() ==> k.has(#[trigger] s[i])
            &&& r.len() > 0 ==> !k.has(r[0])
        }),
    decreases s.len(),
{
    if s.len() > 0 && k.has(s[0]) {
        lemma_trimmed_start(s.skip(1), k);
        let r = model::trimmed_start(s.skip(1), k);
        assert(r == s.skip(s.len() - r.len()));
        assert forall|i: int| 0 <= i < s.len() - r.len() implies k.has(#[trigger] s[i]) by {
            if i > 0 {
                assert(s.skip(1)[i - 1] == s[i]);
            }
        }
    } else {
        assert(s.skip(0) == s);
    }
}

/// What is trimmed at the end is the longest tail of a class.
pub proof fn lemma_trimmed_end(s: Seq<char>, k: Class)
    ensures
        ({
            let r = model::trimmed_end(s, k);
            &&& r.len() <= s.len()
            &&& r == s.take(r.len() as int)
            &&& forall|i: int| r.len() <= i < s.len() ==> k.has(#[trigger] s[i])
            &&& r.len() > 0 ==> !k.has(r.last())
        }),
    decreases s.len(),
{
    if s.len() > 0 && k.has(s.last()) {
        lemma_trimmed_end(s.drop_last(), k);
        let r = model::trimmed_end(s.drop_last(), k);
        assert(r == s.take(r.len() as int));
        assert forall|i: int| r.len() <= i < s.len() implies k.has(#[trigger] s[i]) by {
            if i < s.len() - 1 {
                assert(s.drop_last()[i] == s[i]);
            }
        }
    } else {
        assert(s.take(s.len() as int) == s);
    }
}

/// Trimming takes what is of a class off either end and nothing else: what is left is a
/// part of the text, whose ends are not of the class, and all around it is.
pub proof fn lemma_trimmed(s: Seq<char>, k: Class)
    ensures
        exists|a: int, b: int|
            {
                &&& 0 <= a <= b <= s.len()
                &&& model::trimmed(s, k) == #[trigger] s.subrange(a, b)
                &&& forall|i: int| 0 <= i < a ==> k.has(#[trigger] s[i])
                &&& forall|i: int| b <= i < s.len() ==> k.has(#[trigger] s[i])
                &&& a < b ==> !k.has(s[a]) && !k.has(s[b - 1])
            },
{
    let m = model::trimmed_start(s, k);
    let r = model::trimmed_end(m, k);
    lemma_trimmed_start(s, k);
    lemma_trimmed_end(m, k);
    let a = s.len() - m.len();
    let b = a + r.len();
    assert(s.subrange(a, b) == r);
    assert forall|i: int| b <= i < s.len() implies k.has(#[trigger] s[i]) by {
        assert(m[i - a] == s[i]);
    }
}

/// A text without white space at its ends: white space around it is no part of it, and what
/// is inside it stays.
pub proof fn lemma_stripped(s: Seq<char>)
    ensures
        exists|a: int, b: int|
            {
                &&& 0 <= a <= b <= s.len()
                &&& model::stripped(s) == #[trigger] s.subrange(a, b)
                &&& forall|i: int| 0 <= i < a ==> model::is_space(#[trigger] s[i])
                &&& forall|i: int| b <= i < s.len() ==> model::is_space(#[trigger] s[i])
                &&& a < b ==> !model::is_space(s[a]) && !model::is_space(s[b - 1])
            },
{
    lemma_trimmed(s, Class::Space);
    let (a, b) = choose|a: int, b: int|
        {
            &&& 0 <= a <= b <= s.len()
            &&& model::trimmed(s, Class::Space) == #[trigger] s.subrange(a, b)
            &&& forall|i: int| 0 <= i < a ==> Class::Space.has(#[trigger] s[i])
            &&& forall|i: int| b <= i < s.len() ==> Class::Space.has(#[trigger] s[i])
            &&& a < b ==> !Class::Space.has(s[a]) && !Class::Space.has(s[b - 1])
        };
    assert(model::stripped(s) == s.subrange(a, b));
    assert forall|i: int| 0 <= i < a implies model::is_space(#[trigger] s[i]) by {
        assert(Class::Space.has(s[i]));
    }
    assert forall|i: int| b <= i < s.len() implies model::is_space(#[trigger] s[i]) by {
        assert(Class::Space.has(s[i]));
    }
}

/// A text that neither begins nor ends with white space is stripped already.
pub proof fn lemma_stripped_stays(s: Seq<char>)
    requires
        s.len() > 0 ==> !model::is_space(s[0]) && !model::is_space(s.last()),
    ensures
        model::stripped(s) == s,
{
}

/// A text begins with another just where it is that one and more.
pub proof fn lemma_begins(s: Seq<char>, p: Seq<char>)
    ensures
        model::begins(s, p) <==> exists|rest: Seq<char>| s == #[trigger] (p + rest),
        model::after_prefix(s, p) matches Some(rest) ==> s == p + rest,
        model::after_prefix(s, p) is None <==> !model::begins(s, p),
{
    if model::begins(s, p) {
        assert(s == p + s.skip(p.len() as int));
    }
    assert forall|rest: Seq<char>| s == #[trigger] (p + rest) implies model::begins(s, p) by {
        assert((p + rest).take(p.len() as int) == p);
    }
}

/// A text ends with another just where it is something and that one.
pub proof fn lemma_finishes(s: Seq<char>, p: Seq<char>)
    ensures
        model::finishes(s, p) <==> exists|front: Seq<char>| s == #[trigger] (front + p),
{
    if model::finishes(s, p) {
        assert(s == s.take(s.len() - p.len()) + p);
    }
    assert forall|front: Seq<char>| s == #[trigger] (front + p) implies model::finishes(s, p) by {
        assert((front + p).skip((front + p).len() - p.len()) == p);
    }
}

/// A text holds another just where it is something, that one, and something.
pub proof fn lemma_holds(s: Seq<char>, p: Seq<char>)
    ensures
        model::holds(s, p) <==> exists|a: Seq<char>, b: Seq<char>| s == #[trigger] (a + p + b),
{
    if model::holds(s, p) {
        let i = choose|i: int| model::occurs_at(s, p, i);
        assert(s == s.take(i) + p + s.skip(i + p.len()));
    }
    assert forall|a: Seq<char>, b: Seq<char>| s == #[trigger] (a + p + b) implies model::holds(s, p) by {
        lemma_occurs(a, p, b);
    }
}

/// A text stands where it was put.
pub proof fn lemma_occurs(a: Seq<char>, p: Seq<char>, b: Seq<char>)
    ensures
        model::occurs_at(a + p + b, p, a.len() as int),
        model::holds(a + p + b, p),
{
    assert((a + p + b).subrange(a.len() as int, (a.len() + p.len()) as int) == p);
    assert(model::occurs_at(a + p + b, p, a.len() as int));
}

/// Cutting around the first occurrence: the two sides and what is between make the text, and
/// there is no earlier occurrence. There is nothing to cut just where it is not held.
pub proof fn lemma_cut(s: Seq<char>, p: Seq<char>)
    ensures
        match model::cut(s, p) {
            Some((a, b)) => s == a + p + b && forall|i: int|
                0 <= i < a.len() ==> !#[trigger] model::occurs_at(s, p, i),
            None => !model::holds(s, p),
        },
{
    crate::strings::lemma_first_from(s, p, 0);
    match model::first(s, p) {
        Some(i) => {
            assert(s == s.take(i) + p + s.skip(i + p.len()));
        },
        None => {
            if model::holds(s, p) {
                let i = choose|i: int| model::occurs_at(s, p, i);
                assert(0 <= i && model::occurs_at(s, p, i));
            }
        },
    }
}

/// The last occurrence up to a place.
proof fn lemma_last_upto(s: Seq<char>, p: Seq<char>, i: int)
    ensures
        match model::last_upto(s, p, i) {
            Some(j) => 0 <= j <= i && model::occurs_at(s, p, j) && forall|k: int|
                j < k <= i ==> !#[trigger] model::occurs_at(s, p, k),
            None => forall|k: int| 0 <= k <= i ==> !#[trigger] model::occurs_at(s, p, k),
        },
    decreases i + 1,
{
    if i >= 0 && !model::occurs_at(s, p, i) {
        lemma_last_upto(s, p, i - 1);
    }
}

/// Cutting around the last occurrence: the two sides and what is between make the text, and
/// there is no later occurrence. There is nothing to cut just where it is not held.
pub proof fn lemma_cut_last(s: Seq<char>, p: Seq<char>)
    ensures
        match model::cut_last(s, p) {
            Some((a, b)) => s == a + p + b && forall|i: int|
                a.len() < i ==> !#[trigger] model::occurs_at(s, p, i),
            None => !model::holds(s, p),
        },
{
    lemma_last_upto(s, p, s.len() - p.len());
    match model::last(s, p) {
        Some(i) => {
            assert(s == s.take(i) + p + s.skip(i + p.len()));
        },
        None => {
            if model::holds(s, p) {
                let i = choose|i: int| model::occurs_at(s, p, i);
                assert(0 <= i <= s.len() - p.len());
            }
        },
    }
}

/// `n` copies of a text, one after the other.
pub open spec fn repeated(p: Seq<char>, n: nat) -> Seq<char>
    decreases n,
{
    if n == 0 {
        Seq::<char>::empty()
    } else {
        repeated(p, (n - 1) as nat) + p
    }
}

/// A suffix is taken off as often as it is there: what is left does not end with it, and
/// with copies of it makes the text.
pub proof fn lemma_without_suffix(s: Seq<char>, p: Seq<char>)
    requires
        p.len() > 0,
    ensures
        !model::finishes(model::without_suffix(s, p), p),
        exists|n: nat| s == model::without_suffix(s, p) + #[trigger] repeated(p, n),
    decreases s.len(),
{
    let r = model::without_suffix(s, p);
    if model::finishes(s, p) {
        let t = s.take(s.len() - p.len());
        lemma_without_suffix(t, p);
        let n = choose|n: nat| t == r + #[trigger] repeated(p, n);
        assert(repeated(p, n + 1) == repeated(p, n) + p);
        assert(s == t + p);
        assert(s == r + repeated(p, n + 1));
    } else {
        assert(s == r + repeated(p, 0));
    }
}

/// A prefix is taken off as often as it is there: what is left does not begin with it.
pub proof fn lemma_without_prefix(s: Seq<char>, p: Seq<char>)
    requires
        p.len() > 0,
    ensures
        !model::begins(model::without_prefix(s, p), p),
        model::begins(s, p) ==> model::without_prefix(s, p) == model::without_prefix(
            s.skip(p.len() as int),
            p,
        ),
        !model::begins(s, p) ==> model::without_prefix(s, p) == s,
    decreases s.len(),
{
    if model::begins(s, p) {
        lemma_without_prefix(s.skip(p.len() as int), p);
    }
}

/// Splitting at one character and joining with it are inverse, and no piece holds it.
pub proof fn lemma_pieces(s: Seq<char>, c: char)
    ensures
        model::joined(model::pieces(s, Class::One(c)), seq![c]) == s,
        model::pieces(s, Class::One(c)).len() > 0,
        forall|i: int|
            0 <= i < model::pieces(s, Class::One(c)).len() ==> !(
            #[trigger] model::pieces(s, Class::One(c))[i]).contains(c),
    decreases s.len(),
{
    let k = Class::One(c);
    let ps = model::pieces(s, k);
    if s.len() == 0 {
        assert(ps[0] == Seq::<char>::empty());
    } else {
        let front = model::pieces(s.drop_last(), k);
        lemma_pieces(s.drop_last(), c);
        assert(s == s.drop_last().push(s.last()));
        if s.last() == c {
            assert(ps.drop_last() == front);
            assert(ps.last() == Seq::<char>::empty());
            assert(model::joined(ps, seq![c]) == s);
        } else {
            assert(ps.drop_last() == front.drop_last());
            assert(ps.last() == front.last().push(s.last()));
            if front.len() == 1 {
                assert(model::joined(ps, seq![c]) == s);
            } else {
                assert(model::joined(ps, seq![c]) == model::joined(front.drop_last(), seq![c])
                    + seq![c] + ps.last());
                assert(model::joined(ps, seq![c]) == s);
            }
            assert forall|i: int| 0 <= i < ps.len() implies !(#[trigger] ps[i]).contains(c) by {
                if i < ps.len() - 1 {
                    assert(ps[i] == front[i]);
                } else {
                    assert(!front[front.len() - 1].contains(c));
                    if ps[i].contains(c) {
                        let j = ps[i].index_of(c);
                        if j < front.last().len() {
                            assert(front.last()[j] == c);
                            assert(front.last().contains(c));
                        }
                    }
                }
            }
        }
    }
}

/// Joining: nothing for nothing, one text for itself, and each further one behind a
/// separator.
pub proof fn lemma_joined(ws: Seq<Seq<char>>, w: Seq<char>, sep: Seq<char>)
    ensures
        model::joined(Seq::<Seq<char>>::empty(), sep) == Seq::<char>::empty(),
        model::joined(seq![w], sep) == w,
        ws.len() > 0 ==> model::joined(ws.push(w), sep) == model::joined(ws, sep) + sep + w,
{
    assert(ws.push(w).drop_last() == ws);
}

/// What is filled are the texts that say something.
proof fn lemma_filled(ws: Seq<Seq<char>>, w: Seq<char>)
    ensures
        model::filled(ws.push(w)) == if w.len() > 0 {
            model::filled(ws).push(w)
        } else {
            model::filled(ws)
        },
{
    assert(ws.push(w).drop_last() == ws);
}

/// The runs outside a class, from the start on: nothing has none; a text that says
/// something and holds no separator is one; a separator ends a run and adds none; and such
/// a text behind a separator is one more.
pub proof fn lemma_runs(s: Seq<char>, c: char, b: Seq<char>, k: Class)
    requires
        k.has(c),
        b.len() > 0,
        forall|i: int| 0 <= i < b.len() ==> !k.has(#[trigger] b[i]),
    ensures
        model::runs(Seq::<char>::empty(), k) == Seq::<Seq<char>>::empty(),
        model::runs(b, k) == seq![b],
        model::runs(s.push(c), k) == model::runs(s, k),
        model::runs(s + seq![c] + b, k) == model::runs(s, k).push(b),
{
    let none = Seq::<Seq<char>>::empty();
    lemma_filled(none, Seq::<char>::empty());
    assert(none.push(Seq::<char>::empty()) == seq![Seq::<char>::empty()]);
    crate::strings::lemma_one_piece(b, k);
    lemma_filled(none, b);
    assert(none.push(b) == seq![b]);
    assert(model::filled(none) == none);
    let e = Seq::<char>::empty();
    crate::strings::lemma_piece_more(s, c, e, k);
    assert(s + seq![c] + e == s.push(c));
    lemma_filled(model::pieces(s, k), e);
    crate::strings::lemma_piece_more(s, c, b, k);
    lemma_filled(model::pieces(s, k), b);
}

/// The words of a text, from the start on, as its runs without white space.
pub proof fn lemma_words(s: Seq<char>, c: char, b: Seq<char>)
    requires
        model::is_space(c),
        b.len() > 0,
        forall|i: int| 0 <= i < b.len() ==> !model::is_space(#[trigger] b[i]),
    ensures
        model::words(Seq::<char>::empty()) == Seq::<Seq<char>>::empty(),
        model::words(b) == seq![b],
        model::words(s.push(c)) == model::words(s),
        model::words(s + seq![c] + b) == model::words(s).push(b),
{
    lemma_runs(s, c, b, Class::Space);
}

/// Every run says something and holds no separator.
pub proof fn lemma_runs_clean(s: Seq<char>, k: Class)
    ensures
        forall|i: int| 0 <= i < model::runs(s, k).len() ==> (#[trigger] model::runs(s, k)[i]).len() > 0,
        forall|i: int, j: int|
            0 <= i < model::runs(s, k).len() && 0 <= j < model::runs(s, k)[i].len() ==> !k.has(
                #[trigger] model::runs(s, k)[i][j],
            ),
{
    lemma_pieces_clean(s, k);
    lemma_filled_from(model::pieces(s, k));
    assert forall|i: int, j: int|
        0 <= i < model::runs(s, k).len() && 0 <= j < model::runs(s, k)[i].len() implies !k.has(
        #[trigger] model::runs(s, k)[i][j],
    ) by {
        let w = model::runs(s, k)[i];
        assert(model::pieces(s, k).contains(w));
        let n = model::pieces(s, k).index_of(w);
        assert(!k.has(model::pieces(s, k)[n][j]));
    }
}

/// No piece holds a separator.
proof fn lemma_pieces_clean(s: Seq<char>, k: Class)
    ensures
        model::pieces(s, k).len() > 0,
        forall|i: int, j: int|
            0 <= i < model::pieces(s, k).len() && 0 <= j < model::pieces(s, k)[i].len() ==> !k.has(
                #[trigger] model::pieces(s, k)[i][j],
            ),
    decreases s.len(),
{
    if s.len() > 0 {
        lemma_pieces_clean(s.drop_last(), k);
        let front = model::pieces(s.drop_last(), k);
        let ps = model::pieces(s, k);
        assert forall|i: int, j: int| 0 <= i < ps.len() && 0 <= j < ps[i].len() implies !k.has(
            #[trigger] ps[i][j],
        ) by {
            if i < ps.len() - 1 {
                assert(ps[i] == front[i]);
            } else if !k.has(s.last()) && j < front.last().len() {
                assert(ps[i][j] == front[front.len() - 1][j]);
            }
        }
    }
}

/// What is filled says something and was there.
proof fn lemma_filled_from(ws: Seq<Seq<char>>)
    ensures
        forall|i: int|
            0 <= i < model::filled(ws).len() ==> (#[trigger] model::filled(ws)[i]).len() > 0
                && ws.contains(model::filled(ws)[i]),
    decreases ws.len(),
{
    if ws.len() > 0 {
        let front = ws.drop_last();
        lemma_filled_from(front);
        assert forall|i: int| 0 <= i < model::filled(ws).len() implies (
        #[trigger] model::filled(ws)[i]).len() > 0 && ws.contains(model::filled(ws)[i]) by {
            if i < model::filled(front).len() {
                assert(model::filled(ws)[i] == model::filled(front)[i]);
                let n = front.index_of(model::filled(front)[i]);
                assert(ws[n] == front[n]);
            } else {
                assert(ws[ws.len() - 1] == ws.last());
            }
        }
    }
}

/// Collapsing white space keeps the words and leaves one space between them.
pub proof fn lemma_collapsed(s: Seq<char>)
    ensures
        model::words(model::collapsed(s)) == model::words(s),
        model::collapsed(s) == model::joined(model::words(s), seq![' ']),
{
    lemma_runs_clean(s, Class::Space);
    crate::strings::lemma_runs_joined(model::words(s), ' ', Class::Space);
}

/// Replacing a character changes that one alone.
pub proof fn lemma_replaced(s: Seq<char>, c: char, by: char)
    ensures
        model::replaced(s, c, by).len() == s.len(),
        forall|i: int|
            0 <= i < s.len() ==> #[trigger] model::replaced(s, c, by)[i] == if s[i] == c {
                by
            } else {
                s[i]
            },
        c != by ==> !model::replaced(s, c, by).contains(c),
{
}

/// How often a character occurs.
pub proof fn lemma_count(s: Seq<char>, c: char, d: char)
    ensures
        model::count(Seq::<char>::empty(), c) == 0,
        model::count(s.push(c), c) == model::count(s, c) + 1,
        c != d ==> model::count(s.push(d), c) == model::count(s, c),
{
    assert(s.push(c).drop_last() == s);
    assert(s.push(d).drop_last() == s);
}

/// The first that is there: nothing before it is.
pub proof fn lemma_first_present(v: Seq<Option<Seq<char>>>)
    ensures
        match model::first_present(v) {
            Some(t) => exists|i: int|
                0 <= i < v.len() && #[trigger] v[i] == Some(t) && forall|j: int|
                    0 <= j < i ==> (#[trigger] v[j]) is None,
            None => forall|j: int| 0 <= j < v.len() ==> (#[trigger] v[j]) is None,
        },
    decreases v.len(),
{
    if v.len() > 0 && v[0] is None {
        let rest = v.skip(1);
        lemma_first_present(rest);
        match model::first_present(rest) {
            Some(t) => {
                let i = choose|i: int|
                    0 <= i < rest.len() && #[trigger] rest[i] == Some(t) && forall|j: int|
                        0 <= j < i ==> (#[trigger] rest[j]) is None;
                assert(v[i + 1] == Some(t));
                assert forall|j: int| 0 <= j < i + 1 implies (#[trigger] v[j]) is None by {
                    if j > 0 {
                        assert(rest[j - 1] is None);
                    }
                }
            },
            None => {
                assert forall|j: int| 0 <= j < v.len() implies (#[trigger] v[j]) is None by {
                    if j > 0 {
                        assert(rest[j - 1] is None);
                    }
                }
            },
        }
    }
}

/// The decimal form of a number is made of digits that stand for it, without a zero in
/// front of others.
pub proof fn lemma_decimal(n: nat)
    ensures
        model::decimal(n).len() > 0,
        model::all_digits(model::decimal(n)),
        model::digits_value(model::decimal(n)) == n,
        n > 0 ==> model::decimal(n)[0] != '0',
    decreases n,
{
    if n >= 10 {
        lemma_decimal(n / 10);
        let front = model::decimal(n / 10);
        assert(model::decimal(n).drop_last() == front);
        assert(model::decimal(n)[0] == front[0]);
        assert(model::decimal(n).last() as int == 0x30 + n % 10);
    } else {
        assert(model::decimal(n).drop_last() == Seq::<char>::empty());
        assert(model::digits_value(Seq::<char>::empty()) == 0);
        assert(model::decimal(n).last() as int == 0x30 + n);
    }
}

/// What digits stand for: nothing is zero, and a further digit counts once beside ten times
/// what is before it.
pub proof fn lemma_digits_value(s: Seq<char>, c: char)
    requires
        model::is_digit(c),
    ensures
        model::digits_value(Seq::<char>::empty()) == 0,
        model::digits_value(s.push(c)) == 10 * model::digits_value(s) + (c as int - 0x30),
        model::all_digits(s.push(c)) <==> model::all_digits(s),
{
    assert(s.push(c).drop_last() == s);
    if model::all_digits(s.push(c)) {
        assert forall|i: int| 0 <= i < s.len() implies model::is_digit(#[trigger] s[i]) by {
            assert(s.push(c)[i] == s[i]);
        }
    }
}

/// A negative number has its sign in front of its digits.
pub proof fn lemma_decimal_signed(n: int)
    ensures
        n >= 0 ==> model::decimal_signed(n) == model::decimal(n as nat),
        n < 0 ==> model::decimal_signed(n) == seq!['-'] + model::decimal((-n) as nat),
{
}

/// Filling with zeros: none is taken, none changed, and only zeros come in front, up to the
/// width.
pub proof fn lemma_zero_filled(s: Seq<char>, w: nat)
    ensures
        ({
            let r = model::zero_filled(s, w);
            &&& r.len() == if s.len() < w {
                w
            } else {
                s.len()
            }
            &&& r.skip(r.len() - s.len()) == s
            &&& forall|i: int| 0 <= i < r.len() - s.len() ==> #[trigger] r[i] == '0'
        }),
    decreases w - s.len(),
{
    if s.len() < w {
        let t = seq!['0'] + s;
        lemma_zero_filled(t, w);
        let r = model::zero_filled(t, w);
        assert(r.skip(r.len() - s.len()) == r.skip(r.len() - t.len()).skip(1));
        assert(t.skip(1) == s);
        assert forall|i: int| 0 <= i < r.len() - s.len() implies #[trigger] r[i] == '0' by {
            if i == r.len() - t.len() {
                assert(r.skip(r.len() - t.len())[0] == t[0]);
            }
        }
    } else {
        assert(s.skip(0) == s);
    }
}

/// The digits of sixteen: `0` to `9`, then `A` to `F`.
pub proof fn lemma_hex(n: nat)
    ensures
        n < 10 ==> model::hex_char(n) as int == 0x30 + n,
        10 <= n < 16 ==> model::hex_char(n) as int == 0x41 + n - 10,
        n < 16 ==> model::hex2(n) == seq!['0', model::hex_char(n)],
        16 <= n < 256 ==> model::hex2(n) == seq![model::hex_char(n / 16), model::hex_char(n % 16)],
        n >= 16 ==> model::hex(n) == model::hex(n / 16).push(model::hex_char(n % 16)),
{
    if n < 16 {
        assert(model::hex2(n) == seq!['0', model::hex_char(n)]);
    } else if n < 256 {
        assert(n / 16 < 16);
        assert(model::hex(n / 16) == seq![model::hex_char(n / 16)]);
        assert(model::hex(n) == model::hex(n / 16).push(model::hex_char(n % 16)));
        assert(model::hex2(n) == seq![model::hex_char(n / 16), model::hex_char(n % 16)]);
    }
}

/// A text spells a number of 16 bits just where it is digits, perhaps behind a plus, whose
/// value is below 65536, and then it spells that value.
pub proof fn lemma_small_number(s: Seq<char>)
    ensures
        ({
            let d = if s.len() > 0 && s[0] == '+' {
                s.skip(1)
            } else {
                s
            };
            model::small_number(s) == if d.len() > 0 && model::all_digits(d)
                && model::digits_value(d) < 65536 {
                Some(model::digits_value(d))
            } else {
                None
            }
        }),
{
}

/// What is of a class around a text whose ends are not is what trimming takes off.
pub proof fn lemma_trim_exact(a: Seq<char>, m: Seq<char>, b: Seq<char>, k: Class)
    requires
        forall|i: int| 0 <= i < a.len() ==> k.has(#[trigger] a[i]),
        forall|i: int| 0 <= i < b.len() ==> k.has(#[trigger] b[i]),
        m.len() > 0,
        !k.has(m[0]),
        !k.has(m.last()),
    ensures
        model::trimmed(a + m + b, k) == m,
        model::trimmed_start(a + m, k) == m,
        model::trimmed_end(m + b, k) == m,
{
    lemma_start_exact(a, m + b, k);
    assert(a + (m + b) == a + m + b);
    lemma_start_exact(a, m, k);
    lemma_end_exact(m, b, k);
}

/// What is of a class before a text that does not begin with it is trimmed.
pub proof fn lemma_start_exact(a: Seq<char>, m: Seq<char>, k: Class)
    requires
        forall|i: int| 0 <= i < a.len() ==> k.has(#[trigger] a[i]),
        m.len() > 0 ==> !k.has(m[0]),
    ensures
        model::trimmed_start(a + m, k) == m,
    decreases a.len(),
{
    if a.len() == 0 {
        assert(a + m == m);
    } else {
        assert(k.has(a[0]));
        assert((a + m)[0] == a[0]);
        assert((a + m).skip(1) == a.skip(1) + m);
        assert forall|i: int| 0 <= i < a.skip(1).len() implies k.has(#[trigger] a.skip(1)[i]) by {
            assert(k.has(a[i + 1]));
        }
        lemma_start_exact(a.skip(1), m, k);
    }
}

/// What is of a class behind a text that does not end with it is trimmed.
pub proof fn lemma_end_exact(m: Seq<char>, b: Seq<char>, k: Class)
    requires
        forall|i: int| 0 <= i < b.len() ==> k.has(#[trigger] b[i]),
        m.len() > 0 ==> !k.has(m.last()),
    ensures
        model::trimmed_end(m + b, k) == m,
    decreases b.len(),
{
    if b.len() == 0 {
        assert(m + b == m);
    } else {
        assert(k.has(b[b.len() - 1]));
        assert((m + b).last() == b.last());
        assert((m + b).drop_last() == m + b.drop_last());
        assert forall|i: int| 0 <= i < b.drop_last().len() implies k.has(
            #[trigger] b.drop_last()[i],
        ) by {
            assert(k.has(b[i]));
        }
        lemma_end_exact(m, b.drop_last(), k);
    }
}

/// A text is cut around the first of a character: before it there is none.
pub proof fn lemma_cut_at(a: Seq<char>, c: char, b: Seq<char>)
    requires
        !a.contains(c),
    ensures
        model::cut(a + seq![c] + b, seq![c]) == Some((a, b)),
{
    let s = a + seq![c] + b;
    let p = seq![c];
    lemma_occurs(a, p, b);
    lemma_cut(s, p);
    let (x, y) = model::cut(s, p)->0;
    if x.len() < a.len() {
        assert(s[x.len() as int] == c) by {
            assert((x + p + y)[x.len() as int] == c);
        }
        assert(a[x.len() as int] == c);
        assert(a.contains(c));
    }
    if x.len() > a.len() {
        assert(!model::occurs_at(s, p, a.len() as int));
    }
    assert(x == a) by {
        assert(x == (x + p + y).take(x.len() as int));
        assert(a == s.take(a.len() as int));
    }
    assert(y == b) by {
        assert(y == (x + p + y).skip((x.len() + 1) as int));
        assert(b == s.skip((a.len() + 1) as int));
    }
}

/// A text is cut around the last of a character: behind it there is none.
pub proof fn lemma_cut_last_at(a: Seq<char>, c: char, b: Seq<char>)
    requires
        !b.contains(c),
    ensures
        model::cut_last(a + seq![c] + b, seq![c]) == Some((a, b)),
{
    let s = a + seq![c] + b;
    let p = seq![c];
    lemma_occurs(a, p, b);
    lemma_cut_last(s, p);
    let (x, y) = model::cut_last(s, p)->0;
    if x.len() < a.len() {
        assert(!model::occurs_at(s, p, a.len() as int));
    }
    if x.len() > a.len() {
        assert(s[x.len() as int] == c) by {
            assert((x + p + y)[x.len() as int] == c);
        }
        assert(b[x.len() - a.len() - 1] == c);
        assert(b.contains(c));
    }
    assert(x == a) by {
        assert(x == (x + p + y).take(x.len() as int));
        assert(a == s.take(a.len() as int));
    }
    assert(y == b) by {
        assert(y == (x + p + y).skip((x.len() + 1) as int));
        assert(b == s.skip((a.len() + 1) as int));
    }
}

/// A text is cut around the last of a doubled character: behind it there is none.
pub proof fn lemma_cut_last_pair(a: Seq<char>, c: char, b: Seq<char>)
    requires
        !b.contains(c),
    ensures
        model::cut_last(a + seq![c, c] + b, seq![c, c]) == Some((a, b)),
{
    let p = seq![c, c];
    let s = a + p + b;
    lemma_occurs(a, p, b);
    lemma_cut_last(s, p);
    let (x, y) = model::cut_last(s, p)->0;
    if x.len() < a.len() {
        assert(!model::occurs_at(s, p, a.len() as int));
    }
    if x.len() > a.len() {
        let i = (x.len() + 1) as int;
        assert((x + p + y)[i] == c);
        assert(b[i - a.len() - 2] == c);
        assert(b.contains(c));
    }
    assert(x == a) by {
        assert(x == (x + p + y).take(x.len() as int));
        assert(a == s.take(a.len() as int));
    }
    assert(y == b) by {
        assert(y == (x + p + y).skip((x.len() + 2) as int));
        assert(b == s.skip((a.len() + 2) as int));
    }
}

/// What is not held is nowhere to cut.
pub proof fn lemma_occurs_none(s: Seq<char>, p: Seq<char>)
    requires
        !model::holds(s, p),
    ensures
        model::cut(s, p) is None,
        model::cut_last(s, p) is None,
{
    lemma_cut(s, p);
    lemma_cut_last(s, p);
    if let Some((a, b)) = model::cut(s, p) {
        lemma_occurs(a, p, b);
    }
    if let Some((a, b)) = model::cut_last(s, p) {
        lemma_occurs(a, p, b);
    }
}

/// A text that holds no character of another does not hold the other.
pub proof fn lemma_not_held(s: Seq<char>, p: Seq<char>, c: char)
    requires
        p.contains(c),
        !s.contains(c),
    ensures
        !model::holds(s, p),
{
    lemma_holds(s, p);
    if model::holds(s, p) {
        let (a, b) = choose|a: Seq<char>, b: Seq<char>| s == #[trigger] (a + p + b);
        let i = p.index_of(c);
        assert((a + p + b)[a.len() + i] == c);
        assert(s.contains(c));
    }
}

/// A text splits into two pieces just where it is the two with the character between them,
/// which neither holds.
pub proof fn lemma_two_pieces(s: Seq<char>, c: char, a: Seq<char>, b: Seq<char>)
    ensures
        model::pieces(s, Class::One(c)) == seq![a, b] <==> s == a + seq![c] + b && !a.contains(c)
            && !b.contains(c),
{
    let k = Class::One(c);
    let ps = model::pieces(s, k);
    lemma_pieces(s, c);
    if ps == seq![a, b] {
        assert(ps[0] == a && ps[1] == b);
        assert(ps.drop_last() == seq![a]);
        assert(ps.drop_last()[0] == a);
        assert(model::joined(ps.drop_last(), seq![c]) == a);
        assert(model::joined(ps, seq![c]) == a + seq![c] + b);
    }
    if s == a + seq![c] + b && !a.contains(c) && !b.contains(c) {
        assert forall|i: int| 0 <= i < a.len() implies !k.has(#[trigger] a[i]) by {
            assert(a.contains(a[i]));
        }
        assert forall|i: int| 0 <= i < b.len() implies !k.has(#[trigger] b[i]) by {
            assert(b.contains(b[i]));
        }
        crate::strings::lemma_one_piece(a, k);
        crate::strings::lemma_piece_more(a, c, b, k);
        assert(seq![a].push(b) == seq![a, b]);
    }
}

/// The first piece of a text is what stands before the first separator, and the last what
/// stands behind the last.
pub proof fn lemma_end_pieces(s: Seq<char>, c: char)
    ensures
        !s.contains(c) ==> model::pieces(s, Class::One(c)) == seq![s],
        s.contains(c) ==> {
            let ps = model::pieces(s, Class::One(c));
            &&& ps.len() > 1
            &&& exists|b: Seq<char>| s == #[trigger] (ps[0] + seq![c] + b) && !ps[0].contains(c)
            &&& exists|a: Seq<char>|
                s == #[trigger] (a + seq![c] + ps.last()) && !ps.last().contains(c)
        },
    decreases s.len(),
{
    let k = Class::One(c);
    let ps = model::pieces(s, k);
    if !s.contains(c) {
        assert forall|i: int| 0 <= i < s.len() implies !k.has(#[trigger] s[i]) by {
            assert(s.contains(s[i]));
        }
        crate::strings::lemma_one_piece(s, k);
    } else {
        lemma_pieces(s, c);
        let front = s.drop_last();
        let fs = model::pieces(front, k);
        lemma_pieces(front, c);
        lemma_end_pieces(front, c);
        assert(s == front.push(s.last()));
        if front.contains(c) {
            let b = choose|b: Seq<char>| front == #[trigger] (fs[0] + seq![c] + b);
            let a = choose|a: Seq<char>| front == #[trigger] (a + seq![c] + fs.last());
            assert(ps[0] == fs[0]);
            assert(s == ps[0] + seq![c] + b.push(s.last()));
            if s.last() == c {
                assert(s == front + seq![c] + ps.last());
            } else {
                assert(ps.last() == fs.last().push(s.last()));
                assert(s == a + seq![c] + ps.last());
            }
        } else {
            let i = s.index_of(c);
            if i < front.len() {
                assert(front[i] == c);
            }
            assert(s.last() == c);
            assert(ps == seq![front, Seq::<char>::empty()]);
            assert(s == ps[0] + seq![c] + Seq::<char>::empty());
            assert(s == front + seq![c] + ps.last());
        }
        assert(!ps[0].contains(c));
        assert(!ps[ps.len() - 1].contains(c));
    }
}

/// What stands before the first separator is the first piece.
pub proof fn lemma_first_piece(a: Seq<char>, c: char, rest: Seq<char>)
    requires
        !a.contains(c),
    ensures
        model::pieces(a + seq![c] + rest, Class::One(c))[0] == a,
        model::pieces(a, Class::One(c))[0] == a,
{
    let s = a + seq![c] + rest;
    assert(s[a.len() as int] == c);
    assert(s.contains(c));
    lemma_end_pieces(s, c);
    lemma_end_pieces(a, c);
    let p = model::pieces(s, Class::One(c))[0];
    let b = choose|b: Seq<char>| s == #[trigger] (p + seq![c] + b) && !p.contains(c);
    if p.len() < a.len() {
        assert((p + seq![c] + b)[p.len() as int] == c);
        assert(a[p.len() as int] == c);
        assert(a.contains(c));
    }
    if p.len() > a.len() {
        assert(p[a.len() as int] == c);
        assert(p.contains(c));
    }
    assert(p == (p + seq![c] + b).take(p.len() as int));
    assert(a == s.take(a.len() as int));
}

/// Whether a text is a word, up to the case of its ASCII letters.
pub open spec fn spells(t: Seq<char>, word: Seq<char>) -> bool {
    t.len() == word.len() && forall|i: int|
        0 <= i < t.len() ==> same_letter(#[trigger] t[i], word[i])
}

/// A text spells a word without upper-case letters just where lowering it gives that word.
pub proof fn lemma_spells(t: Seq<char>, word: Seq<char>)
    requires
        forall|i: int| 0 <= i < word.len() ==> !(0x41 <= (#[trigger] word[i]) as int <= 0x5a),
    ensures
        model::lowered(t) == word <==> spells(t, word),
{
    lemma_same_letters(t, word);
    assert(model::lowered(word) == word);
}

} // verus!
