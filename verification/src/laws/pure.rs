//! Laws of APKPure: what its pages say, and how a download is resolved from them.

use crate::common::contract;
use crate::common::contract::{Arch, ProviderId};
use crate::common::flow;
use crate::html;
use crate::laws::scraping;
use crate::laws::texts;
use crate::model;
use crate::model::Class;
use crate::providers::apkpure;
use crate::providers::apkpure::parse;
use crate::providers::apkpure::DownloadView;
use crate::providers::scrape;
use vstd::prelude::*;

verus! {

/// An address below the site.
pub open spec fn below(href: Seq<char>) -> Seq<char> {
    contract::absolute("https://apkpure.com"@, href)
}

/// A version loses the code in brackets behind it: what stands before the first bracket is
/// left, without white space around it. Without a bracket it is the version itself.
pub proof fn lemma_cleaned(name: Seq<char>, rest: Seq<char>)
    requires
        name.len() > 0,
        !name.contains('('),
        !model::is_space(name[0]) && !model::is_space(name.last()),
        rest.len() > 0 ==> !model::is_space(rest.last()),
    ensures
        parse::cleaned(name) == name,
        parse::cleaned(name + seq!['('] + rest) == name,
{
    reveal_strlit("(");
    assert("("@ == seq!['(']);
    let v = name + seq!['('] + rest;
    assert(v[0] == name[0]);
    if rest.len() > 0 {
        assert(v.last() == rest.last());
    } else {
        assert(v.last() == '(');
    }
    texts::lemma_stripped_stays(v);
    texts::lemma_stripped_stays(name);
    texts::lemma_cut_at(name, '(', rest);
    assert("("@.contains('(')) by {
        assert("("@[0] == '(');
    }
    texts::lemma_not_held(name, "("@, '(');
    texts::lemma_occurs_none(name, "("@);
}

/// White space around a version does not count, and a version that is all code keeps it.
pub proof fn lemma_cleaned_edges(v: Seq<char>, rest: Seq<char>)
    ensures
        parse::cleaned(v) == parse::cleaned(model::stripped(v)),
        model::stripped(v) == seq!['('] + rest ==> parse::cleaned(v) == model::stripped(v),
        parse::cleaned(v).len() == 0 <==> model::stripped(v).len() == 0,
{
    reveal_strlit("(");
    assert("("@ == seq!['(']);
    let t = model::stripped(v);
    texts::lemma_stripped(v);
    let (a, b) = choose|a: int, b: int|
        {
            &&& 0 <= a <= b <= v.len()
            &&& model::stripped(v) == #[trigger] v.subrange(a, b)
            &&& forall|i: int| 0 <= i < a ==> model::is_space(#[trigger] v[i])
            &&& forall|i: int| b <= i < v.len() ==> model::is_space(#[trigger] v[i])
            &&& a < b ==> !model::is_space(v[a]) && !model::is_space(v[b - 1])
        };
    if a < b {
        assert(t[0] == v[a]);
        assert(t.last() == v[b - 1]);
    }
    texts::lemma_stripped_stays(t);
    let e = Seq::<char>::empty();
    if t == seq!['('] + rest {
        texts::lemma_cut_at(e, '(', rest);
        assert(e + seq!['('] + rest == t);
        texts::lemma_stripped_stays(e);
    }
}

/// A part of an address is a package where it has at least two dots and otherwise ASCII
/// letters, digits and underscores alone.
pub proof fn lemma_package_shaped(seg: Seq<char>)
    ensures
        parse::package_shaped(seg) <==> model::count(seg, '.') >= 2 && forall|i: int|
            0 <= i < seg.len() ==> {
                let c = #[trigger] seg[i] as int;
                0x30 <= c <= 0x39 || 0x41 <= c <= 0x5a || 0x61 <= c <= 0x7a || seg[i] == '.'
                    || seg[i] == '_'
            },
{
    if parse::package_shaped(seg) {
        assert forall|i: int| 0 <= i < seg.len() implies {
            let c = #[trigger] seg[i] as int;
            0x30 <= c <= 0x39 || 0x41 <= c <= 0x5a || 0x61 <= c <= 0x7a || seg[i] == '.' || seg[i]
                == '_'
        } by {
            assert(model::is_alnum(seg[i]) || seg[i] == '.' || seg[i] == '_');
        }
    }
}

/// The package of an address is its last part, slashes at its end aside, where that is one.
pub proof fn lemma_package(front: Seq<char>, package: Seq<char>, slashes: Seq<char>)
    requires
        parse::package_shaped(package),
        forall|i: int| 0 <= i < slashes.len() ==> #[trigger] slashes[i] == '/',
    ensures
        parse::package_in(front + seq!['/'] + package + slashes) == Some(package),
        parse::package_in(package + slashes) == Some(package),
{
    let k = Class::One('/');
    lemma_package_shaped(package);
    assert(package.len() > 0) by {
        if package.len() == 0 {
            assert(package == Seq::<char>::empty());
            assert(model::count(package, '.') == 0);
        }
    }
    assert forall|i: int| 0 <= i < package.len() implies !k.has(#[trigger] package[i]) by {
        let c = package[i] as int;
        assert(0x30 <= c <= 0x39 || 0x41 <= c <= 0x5a || 0x61 <= c <= 0x7a || package[i] == '.'
            || package[i] == '_');
    }
    let path = front + seq!['/'] + package;
    assert(!k.has(package[package.len() - 1]));
    assert(path.last() == package.last());
    texts::lemma_end_exact(path, slashes, k);
    texts::lemma_end_exact(package, slashes, k);
    crate::strings::lemma_piece_more(front, '/', package, k);
    crate::strings::lemma_one_piece(package, k);
}

/// What is no package is not taken for one.
pub proof fn lemma_no_package(href: Seq<char>)
    ensures
        parse::package_in(href) matches Some(p) ==> parse::package_shaped(p) && p == model::pieces(
            model::trimmed_end(href, Class::One('/')),
            Class::One('/'),
        ).last(),
        !parse::package_shaped(
            model::pieces(model::trimmed_end(href, Class::One('/')), Class::One('/')).last(),
        ) ==> parse::package_in(href) is None,
{
}

/// A link leads to an app just where its address ends in a package and it has a heading that
/// says something.
pub proof fn lemma_candidate(row: parse::SearchRowView)
    ensures
        parse::candidate(row) is Some <==> row.href is Some && parse::package_in(row.href->0) is Some
            && row.heading is Some && (row.heading->0).len() > 0,
        parse::candidate(row) matches Some(app) ==> Some(app.package) == parse::package_in(
            row.href->0,
        ) && Some(app.title) == row.heading,
{
}

/// The apps of a search: a link to no app adds none, nor does one to an app that is there; any
/// other adds its app behind the others. Nothing found is reported.
pub proof fn lemma_found(rows: Seq<parse::SearchRowView>, row: parse::SearchRowView)
    ensures
        parse::found(Seq::<parse::SearchRowView>::empty()).len() == 0,
        parse::candidate(row) is None ==> parse::found(rows.push(row)) == parse::found(rows),
        parse::candidate(row) matches Some(app) ==> {
            let seen = exists|i: int|
                0 <= i < parse::found(rows).len() && (#[trigger] parse::found(rows)[i]).package
                    == app.package;
            &&& seen ==> parse::found(rows.push(row)) == parse::found(rows)
            &&& !seen ==> parse::found(rows.push(row)) == parse::found(rows).push(app)
        },
        parse::searched(rows) == if parse::found(rows).len() > 0 {
            Ok::<Seq<contract::AppView>, contract::ErrorView>(parse::found(rows))
        } else {
            Err(contract::ErrorView::NotFound("search returned nothing"@))
        },
{
    assert(rows.push(row).drop_last() == rows);
}

/// An entry of the list has a version and a code where both say something: the version without
/// its code, and the code without white space around it.
pub proof fn lemma_keyed(item: parse::VersionItemView)
    ensures
        parse::keyed(item) is Some <==> item.version is Some && item.code is Some
            && model::stripped(item.version->0).len() > 0 && model::stripped(item.code->0).len() > 0,
        parse::keyed(item) matches Some((v, c)) ==> v == parse::cleaned(item.version->0) && c
            == model::stripped(item.code->0),
        item.date matches Some(t) ==> parse::item_date(item) == scrape::dated(t, "%b %d, %Y"@)
            && parse::date_part(item) == t,
        item.date is None ==> parse::item_date(item) == scrape::dated(
            Seq::<char>::empty(),
            "%b %d, %Y"@,
        ) && parse::date_part(item).len() == 0,
{
    if let Some(v) = item.version {
        lemma_cleaned_edges(v, Seq::<char>::empty());
    }
}

/// The versions of a list: an entry without version, code or date adds none, nor does one of a
/// version that is there; any other adds its own behind the others. None is reported.
pub proof fn lemma_versions(items: Seq<parse::VersionItemView>, item: parse::VersionItemView)
    ensures
        parse::listed_versions(Seq::<parse::VersionItemView>::empty()).len() == 0,
        parse::keyed(item) is None || parse::item_date(item) is None ==> parse::listed_versions(
            items.push(item),
        ) == parse::listed_versions(items),
        parse::keyed(item) is Some && parse::item_date(item) is Some ==> {
            let (version, code) = parse::keyed(item)->0;
            let seen = exists|i: int|
                0 <= i < parse::listed_versions(items).len() && (
                #[trigger] parse::listed_versions(items)[i]).version == version;
            &&& seen ==> parse::listed_versions(items.push(item)) == parse::listed_versions(items)
            &&& !seen ==> parse::listed_versions(items.push(item)) == parse::listed_versions(
                items,
            ).push(
                parse::VersionRowView { version, code, uploaded: parse::item_date(item)->0 },
            )
        },
        parse::versions_found(items) == if parse::listed_versions(items).len() > 0 {
            Ok::<Seq<parse::VersionRowView>, contract::ErrorView>(parse::listed_versions(items))
        } else {
            Err(contract::ErrorView::NotFound("no versions listed"@))
        },
{
    assert(items.push(item).drop_last() == items);
}

/// An entry is reported just where it has a version that is not listed before it, a code, and a
/// date that cannot be read.
pub proof fn lemma_complaint(items: Seq<parse::VersionItemView>, i: int)
    requires
        0 <= i < items.len(),
    ensures
        parse::complaint(items, i) is Some <==> parse::keyed(items[i]) is Some && parse::item_date(
            items[i],
        ) is None && !exists|j: int|
            0 <= j < parse::listed_versions(items.take(i)).len() && (
            #[trigger] parse::listed_versions(items.take(i))[j]).version == (parse::keyed(
                items[i],
            )->0).0,
        parse::complaint(items, i) matches Some(t) ==> t == scrape::undated(
            "apkpure"@,
            (parse::keyed(items[i])->0).0,
            parse::date_part(items[i]),
        ),
        parse::complaint(items, i) matches Some(t) ==> parse::complaints(items).contains(t),
{
    if let Some(t) = parse::complaint(items, i) {
        let cs = Seq::new(items.len(), |k: int| parse::complaint(items, k));
        assert(cs[i] == Some(t));
        scrape::lemma_present(cs, i);
    }
}

/// Nothing else is reported: as many texts as entries that are reported, in order.
pub proof fn lemma_complaints(items: Seq<parse::VersionItemView>, item: parse::VersionItemView)
    ensures
        ({
            let all = items.push(item);
            let n = items.len() as int;
            &&& parse::complaints(Seq::<parse::VersionItemView>::empty()).len() == 0
            &&& parse::complaint(all, n) is None ==> parse::complaints(all) == parse::complaints(items)
            &&& parse::complaint(all, n) matches Some(t) ==> parse::complaints(all)
                == parse::complaints(items).push(t)
        }),
{
    let all = items.push(item);
    let n = items.len() as int;
    let cs = Seq::new(items.len(), |i: int| parse::complaint(items, i));
    let ds = Seq::new(all.len(), |i: int| parse::complaint(all, i));
    assert forall|i: int| 0 <= i < n implies #[trigger] ds[i] == cs[i] by {
        assert(all.take(i) == items.take(i));
        assert(all[i] == items[i]);
    }
    assert(ds == cs.push(parse::complaint(all, n)));
    scraping::lemma_present_order(cs, parse::complaint(all, n)->0);
    let es = Seq::<parse::VersionItemView>::empty();
    assert(Seq::new(es.len(), |i: int| parse::complaint(es, i)) == Seq::<Option<Seq<char>>>::empty());
}

/// The latest version is that of the main button, else of the first mark of a version on the
/// page, without its code; there is none where that says nothing.
pub proof fn lemma_latest(page: html::Page, marker: Option<Seq<char>>)
    ensures
        parse::version_marker(page) == match html::first_attribute_of(
            page,
            ".dt-main-download-btn[data-dt-version]"@,
            "data-dt-version"@,
        ) {
            Some(v) => Some(v),
            None => html::first_attribute_of(page, "[data-dt-version]"@, "data-dt-version"@),
        },
        parse::latest_of(marker) is Some <==> marker is Some && model::stripped(marker->0).len() > 0,
        parse::latest_of(marker) matches Some(v) ==> v == parse::cleaned(marker->0),
{
    if let Some(v) = marker {
        lemma_cleaned_edges(v, Seq::<char>::empty());
    }
}

/// A file is served by the code of its version, or as the latest one.
pub proof fn lemma_file_url(pkg: Seq<char>, code: Seq<char>)
    ensures
        parse::file_url(pkg, Some(code)) == "https://d.apkpure.com"@ + "/b/APK/"@ + pkg
            + "?versionCode="@ + code,
        parse::file_url(pkg, None) == "https://d.apkpure.com"@ + "/b/APK/"@ + pkg
            + "?version=latest"@,
{
}

/// What the elements of the pages stand for.
pub proof fn lemma_elements(n: html::Node, page: html::Page)
    ensures
        parse::search_row(n).href == html::attribute(n, "href"@),
        parse::search_row(n).heading == html::first_text(n, "p.p1"@),
        parse::search_rows(page).len() == html::matched(page, "a[href*=\"apkpure.com/\"]"@).len(),
        forall|i: int|
            0 <= i < parse::search_rows(page).len() ==> #[trigger] parse::search_rows(page)[i]
                == parse::search_row(html::matched(page, "a[href*=\"apkpure.com/\"]"@)[i]),
        parse::version_item(n).version == html::attribute(n, "data-dt-version"@),
        parse::version_item(n).code == html::attribute(n, "data-dt-versioncode"@),
        parse::version_item(n).date == html::first_text(n, "span.update-on"@),
        parse::version_items(page).len() == html::matched(
            page,
            "div.ver_download_link[data-dt-version][data-dt-versioncode]"@,
        ).len(),
        forall|i: int|
            0 <= i < parse::version_items(page).len() ==> #[trigger] parse::version_items(page)[i]
                == parse::version_item(
                html::matched(
                    page,
                    "div.ver_download_link[data-dt-version][data-dt-versioncode]"@,
                )[i],
            ),
{
}

/// What is listed of rows: the version and the date of each.
pub proof fn lemma_infos(rows: Seq<parse::VersionRowView>)
    ensures
        apkpure::infos(rows).len() == rows.len(),
        forall|i: int|
            0 <= i < rows.len() ==> (#[trigger] apkpure::infos(rows)[i]).version == rows[i].version
                && apkpure::infos(rows)[i].uploaded == rows[i].uploaded,
        apkpure::versions_in(rows).len() == rows.len(),
        forall|i: int|
            0 <= i < rows.len() ==> #[trigger] apkpure::versions_in(rows)[i] == rows[i].version,
{
}

/// A search asks for the term and answers with what the page holds, or as the site failed.
pub proof fn lemma_search(q: Seq<char>, page: Seq<char>, e: contract::ErrorView)
    ensures
        apkpure::search_start(q) == flow::StepView::<_, Seq<contract::AppView>>::Ask(
            flow::RequestView::Get(below("/search?q="@ + scrape::encoded(q))),
            apkpure::Searching,
        ),
        apkpure::search_next(apkpure::Searching, Ok(page)) == flow::StepView::<
            apkpure::Searching,
            Seq<contract::AppView>,
        >::Done(parse::searched(parse::search_rows(html::document(page)))),
        apkpure::search_next(apkpure::Searching, Err(e)) == flow::StepView::<
            apkpure::Searching,
            Seq<contract::AppView>,
        >::Done(Err(e)),
{
}

/// A listing asks for the versions of the package and answers with those that the page lists.
pub proof fn lemma_listing(pkg: Seq<char>, page: Seq<char>, e: contract::ErrorView)
    ensures
        apkpure::versions_start(pkg) == flow::StepView::<_, Seq<contract::VersionView>>::Ask(
            flow::RequestView::Get(below("/x/"@ + pkg + "/versions"@)),
            apkpure::Listing,
        ),
        apkpure::versions_next(apkpure::Listing, Ok(page)) == flow::StepView::<
            apkpure::Listing,
            Seq<contract::VersionView>,
        >::Done(
            match parse::versions_found(parse::version_items(html::document(page))) {
                Ok(rows) => Ok(apkpure::infos(rows)),
                Err(x) => Err(x),
            },
        ),
        apkpure::versions_next(apkpure::Listing, Err(e)) == flow::StepView::<
            apkpure::Listing,
            Seq<contract::VersionView>,
        >::Done(Err(e)),
        apkpure::reported(true, Ok(page)) == parse::complaints(
            parse::version_items(html::document(page)),
        ),
        apkpure::reported(false, Ok(page)).len() == 0,
        apkpure::reported(true, Err(e)).len() == 0,
{
}

/// A download asks for the list where a version is wanted, and answers with the file of the
/// row that is taken for it, by its code; else it asks for the page of the app, and answers
/// with the latest file. It is for every ABI and needs no headers.
pub proof fn lemma_download(
    pkg: Seq<char>,
    want: Seq<char>,
    page: Seq<char>,
    d: DownloadView,
    e: contract::ErrorView,
)
    ensures
        apkpure::download_start(pkg, Some(want)) == flow::StepView::<_, contract::TargetView>::Ask(
            flow::RequestView::Get(below("/x/"@ + pkg + "/versions"@)),
            DownloadView::Rows(pkg, want),
        ),
        apkpure::download_start(pkg, None) == flow::StepView::<_, contract::TargetView>::Ask(
            flow::RequestView::Get(below("/x/"@ + pkg)),
            DownloadView::App(pkg),
        ),
        apkpure::download_next(d, Err(e)) == flow::StepView::<
            DownloadView,
            contract::TargetView,
        >::Done(Err(e)),
        apkpure::download_next(DownloadView::Rows(pkg, want), Ok(page)) == flow::StepView::<
            DownloadView,
            contract::TargetView,
        >::Done(
            match parse::versions_found(parse::version_items(html::document(page))) {
                Err(x) => Err(x),
                Ok(rows) => apkpure::build_target(rows, want, pkg),
            },
        ),
        match parse::latest_of(parse::version_marker(html::document(page))) {
            None => apkpure::download_next(DownloadView::App(pkg), Ok(page)) == flow::StepView::<
                DownloadView,
                contract::TargetView,
            >::Done(Err(contract::ErrorView::NotFound("no app page for "@ + pkg))),
            Some(v) => apkpure::download_next(DownloadView::App(pkg), Ok(page))
                matches flow::StepView::Done(Ok(t)) && t.version == v && t.url
                == "https://d.apkpure.com"@ + "/b/APK/"@ + pkg + "?version=latest"@ && t.arch == (
            Arch { arm64_v8a: true, armeabi_v7a: true, x86: true, x86_64: true }) && t.provider
                == ProviderId::Apkpure && t.headers.len() == 0,
        },
{
}

/// The target for a version is the file of the row that is taken for it, or there is none.
pub proof fn lemma_build_target(rows: Seq<parse::VersionRowView>, want: Seq<char>, pkg: Seq<char>)
    ensures
        match scrape::pinned(apkpure::versions_in(rows), want) {
            None => apkpure::build_target(rows, want, pkg) == Err::<
                contract::TargetView,
                contract::ErrorView,
            >(contract::ErrorView::NotFound("no version "@ + want + " for "@ + pkg)),
            Some(i) => apkpure::build_target(rows, want, pkg) matches Ok(t) && t.version
                == rows[i].version && t.url == "https://d.apkpure.com"@ + "/b/APK/"@ + pkg
                + "?versionCode="@ + rows[i].code && t.arch == (Arch {
                arm64_v8a: true,
                armeabi_v7a: true,
                x86: true,
                x86_64: true,
            }) && t.provider == ProviderId::Apkpure && t.headers.len() == 0,
        },
{
}

} // verus!
