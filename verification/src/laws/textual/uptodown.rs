//! Laws of Uptodown: how a package is found among its apps, and what its pages say.

use crate::common::flow;
use crate::html;
use crate::laws::scraping;
use crate::laws::textual::mirror;
use crate::laws::texts;
use crate::model;
use crate::model::Class;
use crate::order;
use crate::outside;
use crate::textual::named;
use crate::textual::uptodown;
use crate::textual::uptodown::parse;
use crate::textual::uptodown::{AppView, ResolvingView, WaitView};
use vstd::prelude::*;

verus! {

/// The addresses of the site: a search with `+` for spaces, and the page of an app.
pub proof fn lemma_addresses(q: Seq<char>, base: Seq<char>)
    ensures
        uptodown::search_page(q) == "https://en.uptodown.com/android/search"@ + "?query="@
            + model::replaced(model::stripped(q), ' ', '+'),
        uptodown::app_request(base) == flow::RequestView::Get(base + "/android"@),
        uptodown::NAME@ == "uptodown"@,
{
}

/// The base of an app is the address that a click leads to, without `/android` and slashes at
/// its end, where it is on the site.
pub proof fn lemma_base(onclick: Seq<char>, a: Seq<char>, url: Seq<char>, c: Seq<char>)
    requires
        onclick == a + "location.href='"@ + (url + seq!['\''] + c),
        model::first(onclick, "location.href='"@) == Some(a.len() as int),
        !url.contains('\''),
    ensures
        ({
            let base = model::trimmed_end(
                model::without_suffix(url, "/android"@),
                Class::One('/'),
            );
            &&& mirror::around(base, "uptodown.com"@) ==> parse::base_in(onclick) == Some(base)
            &&& !mirror::around(base, "uptodown.com"@) ==> parse::base_in(onclick) is None
        }),
{
    reveal_strlit("'");
    assert("'"@ == seq!['\'']);
    let p = "location.href='"@;
    let rest = url + seq!['\''] + c;
    assert(onclick.skip((a.len() + p.len()) as int) == rest);
    texts::lemma_cut_at(url, '\'', c);
    texts::lemma_holds(
        model::trimmed_end(model::without_suffix(url, "/android"@), Class::One('/')),
        "uptodown.com"@,
    );
}

/// A click that leads nowhere has no base.
pub proof fn lemma_no_base(onclick: Seq<char>)
    ensures
        !model::holds(onclick, "location.href='"@) ==> parse::base_in(onclick) is None,
        parse::base_in(onclick) matches Some(base) ==> mirror::around(base, "uptodown.com"@)
            && exists|a: Seq<char>, url: Seq<char>, c: Seq<char>|
            onclick == #[trigger] (a + "location.href='"@ + (url + "'"@ + c)) && base
                == model::trimmed_end(model::without_suffix(url, "/android"@), Class::One('/')),
{
    let p = "location.href='"@;
    texts::lemma_cut(onclick, p);
    if let Some((a, rest)) = model::cut(onclick, p) {
        texts::lemma_cut(rest, "'"@);
        texts::lemma_occurs(a, p, rest);
        if let Some((url, c)) = model::cut(rest, "'"@) {
            assert(onclick == a + p + (url + "'"@ + c));
            texts::lemma_holds(
                model::trimmed_end(model::without_suffix(url, "/android"@), Class::One('/')),
                "uptodown.com"@,
            );
        }
    }
}

/// The name of a row is what its icon is called, without ` icon`; where that says nothing it is
/// the text of the row.
pub proof fn lemma_row_name(row: parse::SearchRowView)
    ensures
        row.alt is None ==> parse::row_name(row) == row.text,
        row.alt matches Some(a) ==> {
            let short = model::stripped(model::without_suffix(a, " icon"@));
            &&& short.len() > 0 ==> parse::row_name(row) == short
            &&& short.len() == 0 ==> parse::row_name(row) == row.text
        },
{
}

/// The hits of a search: every row with a code and a base, in order. None is reported.
pub proof fn lemma_found(rows: Seq<parse::SearchRowView>, row: parse::SearchRowView)
    ensures
        parse::found(Seq::<parse::SearchRowView>::empty()).len() == 0,
        row.code is None || row.onclick is None || parse::base_in(row.onclick->0) is None
            ==> parse::found(rows.push(row)) == parse::found(rows),
        row.code is Some && row.onclick is Some && parse::base_in(row.onclick->0) is Some
            ==> parse::found(rows.push(row)) == parse::found(rows).push(
            parse::HitView {
                base: parse::base_in(row.onclick->0)->0,
                code: row.code->0,
                name: parse::row_name(row),
            },
        ),
        parse::found(rows).len() > 0 ==> parse::searched(rows) == Ok::<
            Seq<parse::HitView>,
            named::ErrorView,
        >(parse::found(rows)),
        parse::found(rows).len() == 0 ==> parse::searched(rows) == Err::<
            Seq<parse::HitView>,
            named::ErrorView,
        >(named::ErrorView::NotFound),
{
    assert(rows.push(row).drop_last() == rows);
}

/// What the elements of the pages stand for.
pub proof fn lemma_elements(n: html::Node, page: html::Page, css: Seq<char>)
    ensures
        parse::search_row(n).code == html::attribute(n, "data-code"@),
        parse::search_row(n).onclick == html::attribute(n, "onclick"@),
        parse::search_row(n).alt == html::first_attribute(n, "img[alt]"@, "alt"@),
        parse::search_row(n).text == html::node_text(n),
        parse::search_rows(page).len() == html::matched(
            page,
            "#content-list div.item[data-code]"@,
        ).len(),
        forall|i: int|
            0 <= i < parse::search_rows(page).len() ==> #[trigger] parse::search_rows(page)[i]
                == parse::search_row(html::matched(page, "#content-list div.item[data-code]"@)[i]),
        parse::texts_in(n, css).len() == html::matched_in(n, css).len(),
        forall|i: int|
            0 <= i < parse::texts_in(n, css).len() ==> #[trigger] parse::texts_in(n, css)[i]
                == html::node_text(html::matched_in(n, css)[i]),
        parse::table_row(n).heads == parse::texts_in(n, "th"@),
        parse::table_row(n).cells == parse::texts_in(n, "td"@),
        parse::table_rows(page).len() == html::matched(page, "tr"@).len(),
        forall|i: int|
            0 <= i < parse::table_rows(page).len() ==> #[trigger] parse::table_rows(page)[i]
                == parse::table_row(html::matched(page, "tr"@)[i]),
{
}

/// Whether a cell can be a package: it has a dot and no space.
pub open spec fn package_like(cell: Seq<char>) -> bool {
    cell.contains('.') && !cell.contains(' ')
}

/// The package of a row is its first cell that can be one.
pub proof fn lemma_package_cell(cells: Seq<Seq<char>>)
    ensures
        match parse::package_cell(cells) {
            Some(p) => exists|i: int|
                0 <= i < cells.len() && #[trigger] cells[i] == p && package_like(p) && forall|j: int|
                    0 <= j < i ==> !package_like(#[trigger] cells[j]),
            None => forall|j: int| 0 <= j < cells.len() ==> !package_like(#[trigger] cells[j]),
        },
    decreases cells.len(),
{
    if cells.len() > 0 {
        if package_like(cells[0]) {
            assert(cells[0] == cells[0]);
        } else {
            let rest = cells.skip(1);
            lemma_package_cell(rest);
            match parse::package_cell(rest) {
                Some(p) => {
                    let i = choose|i: int|
                        0 <= i < rest.len() && #[trigger] rest[i] == p && package_like(p) && forall|
                            j: int,
                        |
                            0 <= j < i ==> !package_like(#[trigger] rest[j]);
                    assert(cells[i + 1] == p);
                    assert forall|j: int| 0 <= j < i + 1 implies !package_like(
                        #[trigger] cells[j],
                    ) by {
                        if j > 0 {
                            assert(rest[j - 1] == cells[j]);
                        }
                    }
                },
                None => {
                    assert forall|j: int| 0 <= j < cells.len() implies !package_like(
                        #[trigger] cells[j],
                    ) by {
                        if j > 0 {
                            assert(rest[j - 1] == cells[j]);
                        }
                    }
                },
            }
        }
    }
}

/// Whether a row gives a package: one of its heads is `Package Name`, in any case, and one of
/// its cells can be a package.
pub open spec fn gives_package(row: parse::TableRowView) -> bool {
    &&& exists|i: int|
        0 <= i < row.heads.len() && texts::spells(#[trigger] row.heads[i], "Package Name"@)
    &&& exists|i: int| 0 <= i < row.cells.len() && package_like(#[trigger] row.cells[i])
}

/// Whether one row gives a package.
proof fn lemma_gives(row: parse::TableRowView)
    ensures
        gives_package(row) <==> parse::names_package(row.heads) && parse::package_cell(
            row.cells,
        ) is Some,
{
    lemma_package_cell(row.cells);
    assert forall|i: int| 0 <= i < row.heads.len() implies model::same_letters(
        #[trigger] row.heads[i],
        "Package Name"@,
    ) == texts::spells(row.heads[i], "Package Name"@) by {
        texts::lemma_same_letters(row.heads[i], "Package Name"@);
    }
}

/// The package of a page is that of the first row of its tables that gives one.
pub proof fn lemma_package_row(rows: Seq<parse::TableRowView>)
    ensures
        match parse::package_row(rows) {
            Some(p) => exists|i: int|
                {
                    &&& 0 <= i < rows.len()
                    &&& gives_package(#[trigger] rows[i])
                    &&& parse::package_cell(rows[i].cells) == Some(p)
                    &&& forall|j: int| 0 <= j < i ==> !gives_package(#[trigger] rows[j])
                },
            None => forall|j: int| 0 <= j < rows.len() ==> !gives_package(#[trigger] rows[j]),
        },
    decreases rows.len(),
{
    if rows.len() > 0 {
        lemma_gives(rows[0]);
        if !gives_package(rows[0]) {
            let rest = rows.skip(1);
            lemma_package_row(rest);
            match parse::package_row(rest) {
                Some(p) => {
                    let i = choose|i: int|
                        {
                            &&& 0 <= i < rest.len()
                            &&& gives_package(#[trigger] rest[i])
                            &&& parse::package_cell(rest[i].cells) == Some(p)
                            &&& forall|j: int| 0 <= j < i ==> !gives_package(#[trigger] rest[j])
                        };
                    assert(rows[i + 1] == rest[i]);
                    assert forall|j: int| 0 <= j < i + 1 implies !gives_package(
                        #[trigger] rows[j],
                    ) by {
                        if j > 0 {
                            assert(rest[j - 1] == rows[j]);
                        }
                    }
                },
                None => {
                    assert forall|j: int| 0 <= j < rows.len() implies !gives_package(
                        #[trigger] rows[j],
                    ) by {
                        if j > 0 {
                            assert(rest[j - 1] == rows[j]);
                        }
                    }
                },
            }
        } else {
            assert(gives_package(rows[0]));
        }
    }
}

/// The code of a page is the first that it carries, where that is digits.
pub proof fn lemma_page_code(page: html::Page)
    ensures
        match html::first_attribute_of(page, "[data-code]"@, "data-code"@) {
            None => parse::page_code(page) is None,
            Some(c) => {
                let digits = c.len() > 0 && forall|i: int|
                    0 <= i < c.len() ==> 0x30 <= (#[trigger] c[i]) as int <= 0x39;
                &&& digits ==> parse::page_code(page) == Some(c)
                &&& !digits ==> parse::page_code(page) is None
            },
        },
{
    if let Some(c) = html::first_attribute_of(page, "[data-code]"@, "data-code"@) {
        if model::all_digits(c) {
            assert forall|i: int| 0 <= i < c.len() implies 0x30 <= (#[trigger] c[i]) as int <= 0x39 by {
                assert(model::is_digit(c[i]));
            }
        }
    }
}

/// An item of the list is a version just where it has one as a text.
pub proof fn lemma_listed(v: outside::Json)
    ensures
        ({
            let version = match outside::json_member(v, "version"@) {
                Some(m) => outside::json_text(m),
                None => None,
            };
            let updated = match outside::json_member(v, "lastUpdate"@) {
                Some(m) => outside::json_text(m),
                None => None,
            };
            &&& parse::listed_version(v) is Some <==> version is Some
            &&& parse::listed_version(v) matches Some(row) ==> Some(row.version) == version
                && row.uploaded == updated
        }),
{
}

/// The versions of a list: those of its items that are one, in order. What is no JSON, has no
/// list or lists nothing is reported.
pub proof fn lemma_versions(items: Seq<outside::Json>, item: outside::Json, v: outside::Json)
    ensures
        parse::listed_versions(Seq::<outside::Json>::empty()).len() == 0,
        parse::listed_version(item) is None ==> parse::listed_versions(items.push(item))
            == parse::listed_versions(items),
        parse::listed_version(item) matches Some(row) ==> parse::listed_versions(items.push(item))
            == parse::listed_versions(items).push(row),
        ({
            let data = match outside::json_member(v, "data"@) {
                Some(d) => outside::json_list(d),
                None => None,
            };
            &&& data is None ==> parse::versions_found(Ok(v)) == Err::<
                Seq<parse::VersionRowView>,
                named::ErrorView,
            >(named::ErrorView::ParseError("versions json: no data array"@))
            &&& data matches Some(all) ==> {
                &&& parse::listed_versions(all).len() > 0 ==> parse::versions_found(Ok(v)) == Ok::<
                    Seq<parse::VersionRowView>,
                    named::ErrorView,
                >(parse::listed_versions(all))
                &&& parse::listed_versions(all).len() == 0 ==> parse::versions_found(Ok(v))
                    == Err::<Seq<parse::VersionRowView>, named::ErrorView>(
                    named::ErrorView::NotFound,
                )
            }
        }),
        forall|e: Seq<char>| #[trigger]
            parse::versions_found(Err(e)) == Err::<Seq<parse::VersionRowView>, named::ErrorView>(
                named::ErrorView::ParseError("versions json: "@ + e),
            ),
{
    assert(items.push(item).drop_last() == items);
}

/// A segment of a package says nothing of the app where it is one of these, in any case.
pub proof fn lemma_generic(seg: Seq<char>)
    ensures
        parse::is_generic(seg) <==> {
            ||| texts::spells(seg, "com"@)
            ||| texts::spells(seg, "org"@)
            ||| texts::spells(seg, "net"@)
            ||| texts::spells(seg, "io"@)
            ||| texts::spells(seg, "app"@)
            ||| texts::spells(seg, "me"@)
            ||| texts::spells(seg, "co"@)
            ||| texts::spells(seg, "de"@)
            ||| texts::spells(seg, "tv"@)
            ||| texts::spells(seg, "fm"@)
            ||| texts::spells(seg, "android"@)
            ||| texts::spells(seg, "mobile"@)
            ||| texts::spells(seg, "apps"@)
            ||| texts::spells(seg, "free"@)
            ||| texts::spells(seg, "the"@)
        },
{
    reveal_strlit("com");
    reveal_strlit("org");
    reveal_strlit("net");
    reveal_strlit("io");
    reveal_strlit("app");
    reveal_strlit("me");
    reveal_strlit("co");
    reveal_strlit("de");
    reveal_strlit("tv");
    reveal_strlit("fm");
    reveal_strlit("android");
    reveal_strlit("mobile");
    reveal_strlit("apps");
    reveal_strlit("free");
    reveal_strlit("the");
    texts::lemma_spells(seg, "com"@);
    texts::lemma_spells(seg, "org"@);
    texts::lemma_spells(seg, "net"@);
    texts::lemma_spells(seg, "io"@);
    texts::lemma_spells(seg, "app"@);
    texts::lemma_spells(seg, "me"@);
    texts::lemma_spells(seg, "co"@);
    texts::lemma_spells(seg, "de"@);
    texts::lemma_spells(seg, "tv"@);
    texts::lemma_spells(seg, "fm"@);
    texts::lemma_spells(seg, "android"@);
    texts::lemma_spells(seg, "mobile"@);
    texts::lemma_spells(seg, "apps"@);
    texts::lemma_spells(seg, "free"@);
    texts::lemma_spells(seg, "the"@);
}

/// The segments of a package that tell of the app: those between its dots that are longer than
/// one byte and not generic, in order.
pub proof fn lemma_telling(segs: Seq<Seq<char>>, seg: Seq<char>, pkg: Seq<char>)
    ensures
        parse::telling(Seq::<Seq<char>>::empty()).len() == 0,
        !parse::is_generic(seg) && vstd::utf8::encode_utf8(seg).len() > 1 ==> parse::telling(
            segs.push(seg),
        ) == parse::telling(segs).push(seg),
        parse::is_generic(seg) || vstd::utf8::encode_utf8(seg).len() <= 1 ==> parse::telling(
            segs.push(seg),
        ) == parse::telling(segs),
        parse::telling_in(pkg) == parse::telling(model::pieces(pkg, Class::One('.'))),
{
    assert(segs.push(seg).drop_last() == segs);
}

/// Longest first: the same segments, the longer before the shorter, and of equally long ones
/// the earlier before the later.
pub proof fn lemma_longest_first(segs: Seq<Seq<char>>)
    requires
        segs.len() <= usize::MAX,
        forall|i: int|
            0 <= i < segs.len() ==> vstd::utf8::encode_utf8(#[trigger] segs[i]).len() <= usize::MAX,
    ensures
        exists|o: Seq<usize>|
            {
                let r = parse::longest_first(segs);
                &&& #[trigger] order::arranged(segs, o) == r
                &&& r.len() == segs.len()
                &&& o.len() == segs.len()
                &&& forall|i: int| 0 <= i < o.len() ==> #[trigger] o[i] < segs.len()
                &&& forall|i: int, j: int|
                    0 <= i < j < o.len() ==> {
                        let a = vstd::utf8::encode_utf8(segs[#[trigger] o[i] as int]).len();
                        let b = vstd::utf8::encode_utf8(segs[#[trigger] o[j] as int]).len();
                        a > b || a == b && o[i] < o[j]
                    }
            },
{
    let keys = parse::length_keys(segs);
    scraping::lemma_sorted(keys);
    let o = order::ranking(keys);
    assert(order::arranged(segs, o) == parse::longest_first(segs));
    assert forall|i: int, j: int| 0 <= i < j < o.len() implies {
        let a = vstd::utf8::encode_utf8(segs[#[trigger] o[i] as int]).len();
        let b = vstd::utf8::encode_utf8(segs[#[trigger] o[j] as int]).len();
        a > b || a == b && o[i] < o[j]
    } by {
        let a = keys[o[i] as int];
        let b = keys[o[j] as int];
        assert(vstd::utf8::encode_utf8(segs[o[i] as int]).len() <= usize::MAX);
        assert(vstd::utf8::encode_utf8(segs[o[j] as int]).len() <= usize::MAX);
        assert(a.0 == usize::MAX - vstd::utf8::encode_utf8(segs[o[i] as int]).len());
        assert(b.0 == usize::MAX - vstd::utf8::encode_utf8(segs[o[j] as int]).len());
    }
}

/// What is new is added behind the others, and nothing twice.
pub proof fn lemma_with_new(out: Seq<Seq<char>>, more: Seq<Seq<char>>, w: Seq<char>)
    ensures
        parse::with_new(out, Seq::<Seq<char>>::empty()) == out,
        parse::with_new(out, more).contains(w) ==> parse::with_new(out, more.push(w))
            == parse::with_new(out, more),
        !parse::with_new(out, more).contains(w) ==> parse::with_new(out, more.push(w))
            == parse::with_new(out, more).push(w),
{
    assert(more.push(w).drop_last() == more);
}

/// What a package is searched by: where several of its segments tell of the app, all of them
/// together; then each of them, the longest first; and where none does, the package itself.
pub proof fn lemma_terms(pkg: Seq<char>)
    ensures
        ({
            let segs = parse::telling_in(pkg);
            let singles = parse::longest_first(segs);
            &&& segs.len() > 1 ==> parse::terms(pkg) == parse::with_new(
                seq![model::joined(segs, seq![' '])],
                singles,
            )
            &&& segs.len() == 1 && singles.len() == 1 ==> parse::terms(pkg) == singles
            &&& singles.len() == 0 && segs.len() <= 1 ==> parse::terms(pkg) == seq![pkg]
            &&& parse::terms(pkg).len() > 0
        }),
{
    reveal_strlit(" ");
    assert(" "@ == seq![' ']);
    let segs = parse::telling_in(pkg);
    let singles = parse::longest_first(segs);
    let none = Seq::<Seq<char>>::empty();
    if segs.len() > 1 {
        lemma_grows(seq![model::joined(segs, " "@)], singles);
    } else if singles.len() == 1 {
        assert(singles.drop_last() == none);
        assert(parse::with_new(none, none) == none);
        assert(none.push(singles[0]) == singles);
    }
}

/// Adding takes nothing away.
proof fn lemma_grows(out: Seq<Seq<char>>, more: Seq<Seq<char>>)
    ensures
        parse::with_new(out, more).len() >= out.len(),
    decreases more.len(),
{
    if more.len() > 0 {
        lemma_grows(out, more.drop_last());
    }
}

/// What is asked next for a package: the next app that was not looked at yet; without one the
/// next search; and without one the package is not found. An app that was looked at is passed
/// over.
pub proof fn lemma_move_on(s: ResolvingView)
    ensures
        s.apps.len() > 0 && s.checked.contains(s.apps[0].base) ==> uptodown::move_on(s)
            == uptodown::move_on(ResolvingView { apps: s.apps.skip(1), ..s }),
        s.apps.len() > 0 && !s.checked.contains(s.apps[0].base) ==> (uptodown::move_on(
            s,
        ) matches flow::StepView::Ask(flow::RequestView::Get(url), next) && {
            &&& url == s.apps[0].base + "/android"@
            &&& next.pkg == s.pkg
            &&& next.terms == s.terms
            &&& next.apps == s.apps.skip(1)
            &&& next.checked == s.checked.push(s.apps[0].base)
            &&& next.wait == WaitView::Page(s.apps[0])
        }),
        s.apps.len() == 0 && s.terms.len() > 0 ==> (uptodown::move_on(
            s,
        ) matches flow::StepView::Ask(flow::RequestView::Get(url), next) && {
            &&& url == uptodown::search_page(s.terms[0])
            &&& next.pkg == s.pkg
            &&& next.terms == s.terms.skip(1)
            &&& next.apps == s.apps
            &&& next.checked == s.checked
            &&& next.wait is Hits
        }),
        s.apps.len() == 0 && s.terms.len() == 0 ==> (uptodown::move_on(
            s,
        ) matches flow::StepView::Done(Err(e)) && e is NotFound),
{
}

/// Of the hits of a search the first six are looked at.
pub proof fn lemma_candidates(hits: Seq<parse::HitView>)
    ensures
        hits.len() <= 6 ==> uptodown::candidates(hits).len() == hits.len(),
        hits.len() > 6 ==> uptodown::candidates(hits).len() == 6,
        forall|i: int|
            0 <= i < uptodown::candidates(hits).len() ==> {
                let app = #[trigger] uptodown::candidates(hits)[i];
                app.base == hits[i].base && app.code == hits[i].code
            },
{
}

/// How a package is found: with the terms of its name, one after the other. Hits are looked at
/// one after the other; an empty search is passed over and any other failure ends it. The app
/// is the one whose page gives the package, with the code of that page where it has one.
pub proof fn lemma_resolve(s: ResolvingView, page: Seq<char>, e: named::ErrorView)
    ensures
        uptodown::resolve_start(s.pkg) == uptodown::move_on(
            ResolvingView {
                pkg: s.pkg,
                terms: parse::terms(s.pkg),
                apps: Seq::<AppView>::empty(),
                checked: Seq::<Seq<char>>::empty(),
                wait: WaitView::Hits,
            },
        ),
        s.wait is Hits ==> {
            &&& e is NotFound ==> uptodown::resolve_next(s, Err(e)) == uptodown::move_on(s)
            &&& !(e is NotFound) ==> (uptodown::resolve_next(
                s,
                Err(e),
            ) matches flow::StepView::Done(Err(y)) && y == e)
            &&& match parse::searched(parse::search_rows(html::document(page))) {
                Ok(hits) => uptodown::resolve_next(s, Ok(page)) == uptodown::move_on(
                    ResolvingView { apps: uptodown::candidates(hits), ..s },
                ),
                Err(_) => uptodown::resolve_next(s, Ok(page)) == uptodown::move_on(s),
            }
        },
        s.wait matches WaitView::Page(app) ==> {
            let given = parse::package_row(parse::table_rows(html::document(page)));
            &&& uptodown::resolve_next(s, Err(e)) matches flow::StepView::Done(Err(y)) && y == e
            &&& given != Some(s.pkg) ==> uptodown::resolve_next(s, Ok(page)) == uptodown::move_on(s)
            &&& given == Some(s.pkg) ==> (uptodown::resolve_next(
                s,
                Ok(page),
            ) matches flow::StepView::Done(Ok(r)) && {
                &&& r.base == app.base
                &&& parse::page_code(html::document(page)) matches Some(c) ==> r.code == c
                &&& parse::page_code(html::document(page)) is None ==> r.code == app.code
            })
        },
{
}

/// An app is known by the first label of its host.
pub proof fn lemma_subdomain(name: Seq<char>, rest: Seq<char>)
    requires
        !name.contains('.'),
        !model::begins(name + seq!['.'] + rest, "https://"@),
    ensures
        uptodown::subdomain("https://"@ + (name + seq!['.'] + rest)) == name,
{
    let p = "https://"@;
    let host = name + seq!['.'] + rest;
    reveal_strlit("https://");
    texts::lemma_begins(p + host, p);
    assert(model::begins(p + host, p));
    texts::lemma_without_prefix(p + host, p);
    texts::lemma_without_prefix(host, p);
    assert((p + host).skip(p.len() as int) == host);
    texts::lemma_first_piece(name, '.', rest);
}

/// What a search answers of each hit, and a listing of each row, in order.
pub proof fn lemma_answers(hits: Seq<parse::HitView>, rows: Seq<parse::VersionRowView>)
    ensures
        uptodown::results(hits).len() == hits.len(),
        forall|i: int|
            0 <= i < hits.len() ==> {
                let r = #[trigger] uptodown::results(hits)[i];
                &&& r.package == uptodown::subdomain(hits[i].base)
                &&& r.title == hits[i].name
                &&& r.developer is None
                &&& r.provider == "uptodown"@
            },
        uptodown::infos(rows).len() == rows.len(),
        forall|i: int|
            0 <= i < rows.len() ==> {
                let r = #[trigger] uptodown::infos(rows)[i];
                &&& r.version == rows[i].version
                &&& r.version_code is None
                &&& r.uploaded == rows[i].uploaded
                &&& r.provider == "uptodown"@
            },
{
}

/// A search asks for the term and answers with what the page holds, or as the site failed.
pub proof fn lemma_search(q: Seq<char>, page: Seq<char>, e: named::ErrorView)
    ensures
        uptodown::search_start(q) matches flow::StepView::Ask(flow::RequestView::Get(url), _) && url
            == uptodown::search_page(q),
        uptodown::search_next(uptodown::Searching, Err(e)) matches flow::StepView::Done(Err(x)) && x
            == e,
        match parse::searched(parse::search_rows(html::document(page))) {
            Ok(hits) => uptodown::search_next(
                uptodown::Searching,
                Ok(page),
            ) matches flow::StepView::Done(Ok(rs)) && rs == uptodown::results(hits),
            Err(x) => uptodown::search_next(
                uptodown::Searching,
                Ok(page),
            ) matches flow::StepView::Done(Err(y)) && y == x,
        },
{
}

/// A listing finds the package and then asks for the versions of its app; a download finds it
/// and is then refused.
pub proof fn lemma_then(
    q: flow::RequestView,
    s: ResolvingView,
    app: AppView,
    e: named::ErrorView,
)
    ensures
        uptodown::then_list(flow::StepView::Ask(q, s)) == flow::StepView::<
            uptodown::ListingView,
            Seq<named::VersionView>,
            named::ErrorView,
        >::Ask(q, uptodown::ListingView::Resolve(s)),
        uptodown::then_list(flow::StepView::Done(Ok(app))) == flow::StepView::<
            uptodown::ListingView,
            Seq<named::VersionView>,
            named::ErrorView,
        >::Ask(
            flow::RequestView::Get(app.base + "/android/apps/"@ + app.code + "/versions/1"@),
            uptodown::ListingView::Rows,
        ),
        uptodown::then_list(flow::StepView::Done(Err(e))) == flow::StepView::<
            uptodown::ListingView,
            Seq<named::VersionView>,
            named::ErrorView,
        >::Done(Err(e)),
        uptodown::then_block(flow::StepView::Ask(q, s)) == flow::StepView::<
            ResolvingView,
            named::TargetView,
            named::ErrorView,
        >::Ask(q, s),
        uptodown::then_block(flow::StepView::Done(Ok(app))) == flow::StepView::<
            ResolvingView,
            named::TargetView,
            named::ErrorView,
        >::Done(Err(named::ErrorView::Blocked { retry_after: None })),
        uptodown::then_block(flow::StepView::Done(Err(e))) == flow::StepView::<
            ResolvingView,
            named::TargetView,
            named::ErrorView,
        >::Done(Err(e)),
{
}

/// How a listing goes on: as the search for the package does, and from the list to its
/// versions.
pub proof fn lemma_listing(
    s: ResolvingView,
    reply: flow::ReplyView<named::ErrorView>,
    json: Seq<char>,
    e: named::ErrorView,
)
    ensures
        uptodown::versions_next(uptodown::ListingView::Resolve(s), reply) == uptodown::then_list(
            uptodown::resolve_next(s, reply),
        ),
        uptodown::versions_next(uptodown::ListingView::Rows, Err(e)) matches flow::StepView::Done(
            Err(y),
        ) && y == e,
        match parse::versions_found(outside::json_parsed(json)) {
            Ok(rows) => uptodown::versions_next(
                uptodown::ListingView::Rows,
                Ok(json),
            ) matches flow::StepView::Done(Ok(vs)) && vs == uptodown::infos(rows),
            Err(x) => uptodown::versions_next(
                uptodown::ListingView::Rows,
                Ok(json),
            ) matches flow::StepView::Done(Err(y)) && y == x,
        },
{
}

} // verus!
