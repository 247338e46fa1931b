//! Laws of APKCombo: what its pages say, and how a download goes through them.

use crate::common::contract;
use crate::common::contract::{Arch, ProviderId};
use crate::common::flow;
use crate::html;
use crate::laws::scraping;
use crate::laws::texts;
use crate::model;
use crate::model::Class;
use crate::providers::apkcombo;
use crate::providers::apkcombo::parse;
use crate::providers::apkcombo::{DownloadView, StageView};
use crate::providers::scrape;
use vstd::prelude::*;

verus! {

/// An address below the site.
pub open spec fn below(href: Seq<char>) -> Seq<char> {
    contract::absolute("https://apkcombo.com"@, href)
}

/// The pages of an app stand below its slug and its package.
pub proof fn lemma_app_page(slug: Seq<char>, pkg: Seq<char>, tail: Seq<char>)
    ensures
        parse::app_page(slug, pkg, tail) == below(slug + "/"@ + pkg + "/"@ + tail),
        parse::site(tail) == below(tail),
{
}

/// The slug of a package is what stands before it in the path of its page, and nothing else
/// is there; the locale that was asked for is no slug.
pub proof fn lemma_slug(url: Seq<char>, pkg: Seq<char>, slug: Seq<char>)
    ensures
        parse::slug_in(url, pkg) == Some(slug) <==> {
            &&& contract::path_below("https://apkcombo.com"@, url) == Some(slug + seq!['/'] + pkg)
            &&& !slug.contains('/')
            &&& !pkg.contains('/')
            &&& slug != "en"@
        },
{
    match contract::path_below("https://apkcombo.com"@, url) {
        Some(path) => {
            texts::lemma_two_pieces(path, '/', slug, pkg);
            let segs = model::pieces(path, Class::One('/'));
            if segs.len() == 2 && segs[1] == pkg && segs[0] == slug {
                assert(segs == seq![slug, pkg]);
            }
        },
        None => {},
    }
}

/// The package in an address is its second and last part, and has a dot.
pub proof fn lemma_package(href: Seq<char>, package: Seq<char>)
    ensures
        parse::package_in(href) == Some(package) <==> package.contains('.') && exists|
            slug: Seq<char>,
        |
            model::trimmed(href, Class::One('/')) == #[trigger] (slug + seq!['/'] + package)
                && !slug.contains('/') && !package.contains('/'),
{
    let path = model::trimmed(href, Class::One('/'));
    let segs = model::pieces(path, Class::One('/'));
    if parse::package_in(href) == Some(package) {
        assert(segs == seq![segs[0], package]);
        texts::lemma_two_pieces(path, '/', segs[0], package);
        assert(path == segs[0] + seq!['/'] + package);
    }
    if exists|slug: Seq<char>|
        path == #[trigger] (slug + seq!['/'] + package) && !slug.contains('/') && !package.contains(
            '/',
        ) {
        let slug = choose|slug: Seq<char>|
            path == #[trigger] (slug + seq!['/'] + package) && !slug.contains('/')
                && !package.contains('/');
        texts::lemma_two_pieces(path, '/', slug, package);
        assert(segs[1] == package);
    }
}

/// The title of a link is its own, without ` APK` at its end; where that says nothing it is
/// the text of the link.
pub proof fn lemma_title(row: parse::SearchRowView)
    ensures
        row.title is None ==> parse::row_title(row) == row.text,
        row.title matches Some(t) ==> {
            let short = model::stripped(model::without_suffix(t, " APK"@));
            &&& short.len() > 0 ==> parse::row_title(row) == short
            &&& short.len() == 0 ==> parse::row_title(row) == row.text
        },
{
}

/// The apps of a search: a link without a package adds none, nor does one to a package that
/// is there; any other adds its package with its title, behind the others. Nothing found is
/// reported.
pub proof fn lemma_found(rows: Seq<parse::SearchRowView>, row: parse::SearchRowView)
    ensures
        parse::found(Seq::<parse::SearchRowView>::empty()).len() == 0,
        row.href is None ==> parse::found(rows.push(row)) == parse::found(rows),
        row.href matches Some(href) ==> {
            &&& parse::package_in(href) is None ==> parse::found(rows.push(row)) == parse::found(rows)
            &&& parse::package_in(href) matches Some(p) ==> {
                let seen = exists|i: int|
                    0 <= i < parse::found(rows).len() && (#[trigger] parse::found(rows)[i]).package
                        == p;
                &&& seen ==> parse::found(rows.push(row)) == parse::found(rows)
                &&& !seen ==> parse::found(rows.push(row)) == parse::found(rows).push(
                    contract::AppView { package: p, title: parse::row_title(row) },
                )
            }
        },
        parse::searched(rows) == if parse::found(rows).len() > 0 {
            Ok::<Seq<contract::AppView>, contract::ErrorView>(parse::found(rows))
        } else {
            Err(contract::ErrorView::NotFound("search returned nothing"@))
        },
{
    assert(rows.push(row).drop_last() == rows);
}

/// The version in a name, nothing where there is no name.
pub proof fn lemma_named(name: Seq<char>)
    ensures
        parse::named_version(Some(name)) == scrape::version_of(name),
        parse::named_version(None).len() == 0,
{
}

/// The date of an entry is what stands before the first middle dot of its description.
pub proof fn lemma_date_part(date: Seq<char>, rest: Seq<char>)
    requires
        !date.contains('\u{b7}'),
    ensures
        parse::date_part(Some(date + seq!['\u{b7}'] + rest)) == date,
        parse::date_part(Some(date)) == date,
        parse::date_part(None).len() == 0,
{
    texts::lemma_first_piece(date, '\u{b7}', rest);
}

/// An entry lists a version just where it has an address and a date: the version of its name,
/// that date, and the page behind that address. Otherwise, with an address, it is reported.
pub proof fn lemma_listed(item: parse::VersionItemView)
    ensures
        ({
            let date = scrape::dated(parse::date_part(item.description), "%b %d, %Y"@);
            &&& parse::listed_version(item) is Some <==> item.href is Some && date is Some
            &&& parse::listed_version(item) matches Some(row) ==> row.version
                == parse::named_version(item.name) && Some(row.uploaded) == date
                && row.download_page_url == below(item.href->0)
            &&& parse::complaint(item) is Some <==> item.href is Some && date is None
            &&& parse::complaint(item) matches Some(t) ==> t == scrape::undated(
                "apkcombo"@,
                parse::named_version(item.name),
                parse::date_part(item.description),
            )
        }),
{
}

/// The versions of a list: those of its entries that list one, in order. None is reported.
pub proof fn lemma_versions(items: Seq<parse::VersionItemView>, item: parse::VersionItemView)
    ensures
        parse::listed_versions(Seq::<parse::VersionItemView>::empty()).len() == 0,
        parse::listed_version(item) is None ==> parse::listed_versions(items.push(item))
            == parse::listed_versions(items),
        parse::listed_version(item) matches Some(row) ==> parse::listed_versions(items.push(item))
            == parse::listed_versions(items).push(row),
        parse::versions_found(items) == if parse::listed_versions(items).len() > 0 {
            Ok::<Seq<parse::VersionRowView>, contract::ErrorView>(parse::listed_versions(items))
        } else {
            Err(contract::ErrorView::NotFound("no versions listed"@))
        },
        parse::complaint(item) is None ==> parse::complaints(items.push(item)) == parse::complaints(
            items,
        ),
        parse::complaint(item) matches Some(t) ==> parse::complaints(items.push(item))
            == parse::complaints(items).push(t),
{
    let all = items.push(item);
    assert(all.drop_last() == items);
    let cs = Seq::new(items.len(), |i: int| parse::complaint(items[i]));
    let ds = Seq::new(all.len(), |i: int| parse::complaint(all[i]));
    assert(ds == cs.push(parse::complaint(item)));
    scraping::lemma_present_order(cs, parse::complaint(item)->0);
}

/// What is listed of rows: the version and the date of each.
pub proof fn lemma_infos(rows: Seq<parse::VersionRowView>)
    ensures
        apkcombo::infos(rows).len() == rows.len(),
        forall|i: int|
            0 <= i < rows.len() ==> (#[trigger] apkcombo::infos(rows)[i]).version == rows[i].version
                && apkcombo::infos(rows)[i].uploaded == rows[i].uploaded,
        apkcombo::versions_in(rows).len() == rows.len(),
        forall|i: int|
            0 <= i < rows.len() ==> #[trigger] apkcombo::versions_in(rows)[i] == rows[i].version,
{
}

/// The build tag of a download page is what stands in the first quotes behind `var xid`,
/// where that is ASCII letters and digits and not empty.
pub proof fn lemma_tag(
    html: Seq<char>,
    a: Seq<char>,
    b: Seq<char>,
    tag: Seq<char>,
    c: Seq<char>,
)
    requires
        html == a + "var xid"@ + (b + seq!['"'] + (tag + seq!['"'] + c)),
        model::first(html, "var xid"@) == Some(a.len() as int),
        !b.contains('"'),
        !tag.contains('"'),
    ensures
        parse::xid_in(html) == if tag.len() > 0 && forall|i: int|
            0 <= i < tag.len() ==> {
                let t = #[trigger] tag[i] as int;
                0x30 <= t <= 0x39 || 0x41 <= t <= 0x5a || 0x61 <= t <= 0x7a
            } {
            Some(tag)
        } else {
            None
        },
{
    reveal_strlit("var xid");
    reveal_strlit("\"");
    assert("\""@ == seq!['"']);
    let front = "var xid"@ + b;
    assert(!front.contains('"')) by {
        if front.contains('"') {
            let i = front.index_of('"');
            if i >= "var xid"@.len() {
                assert(b[i - "var xid"@.len()] == '"');
            }
        }
    }
    let rest = tag + seq!['"'] + c;
    assert(html.skip(a.len() as int) == front + seq!['"'] + rest);
    texts::lemma_cut_at(front, '"', rest);
    texts::lemma_cut_at(tag, '"', c);
    if model::all_alnum(tag) {
        assert forall|i: int| 0 <= i < tag.len() implies {
            let t = #[trigger] tag[i] as int;
            0x30 <= t <= 0x39 || 0x41 <= t <= 0x5a || 0x61 <= t <= 0x7a
        } by {
            assert(model::is_alnum(tag[i]));
        }
    }
}

/// Without `var xid` there is no tag, and the known one stands in for it.
pub proof fn lemma_no_tag(html: Seq<char>)
    requires
        !model::holds(html, "var xid"@),
    ensures
        parse::xid_in(html) is None,
        parse::FALLBACK_XID@ == "01a1200x20240308"@,
{
    texts::lemma_occurs_none(html, "var xid"@);
}

/// A file of the fragment: the version of its name, the ABIs of its group, its address below
/// the site; it is a bundle just where its type says `xapk`, in any case.
pub proof fn lemma_variant(arch: Arch, item: parse::VariantItemView, href: Seq<char>)
    ensures
        ({
            let v = parse::variant_at(arch, item, href);
            &&& v.version == parse::named_version(item.name)
            &&& v.arch == arch
            &&& v.url == below(href)
            &&& v.bundle <==> item.kind is Some && (item.kind->0).len() == 4 && texts::same_letter(
                item.kind->0[0],
                'x',
            ) && texts::same_letter(item.kind->0[1], 'a') && texts::same_letter(
                item.kind->0[2],
                'p',
            ) && texts::same_letter(item.kind->0[3], 'k')
        }),
{
    reveal_strlit("xapk");
    if let Some(t) = item.kind {
        texts::lemma_same_letters(t, "xapk"@);
        assert("xapk"@.len() == 4);
        if t.len() == 4 && texts::same_letter(t[0], 'x') && texts::same_letter(t[1], 'a')
            && texts::same_letter(t[2], 'p') && texts::same_letter(t[3], 'k') {
            assert forall|i: int| 0 <= i < t.len() implies texts::same_letter(
                #[trigger] t[i],
                "xapk"@[i],
            ) by {}
        }
        if model::same_letters(t, "xapk"@) {
            assert(texts::same_letter(t[0], "xapk"@[0]));
            assert(texts::same_letter(t[1], "xapk"@[1]));
            assert(texts::same_letter(t[2], "xapk"@[2]));
            assert(texts::same_letter(t[3], "xapk"@[3]));
        }
    }
}

/// The files of a group: one without an address adds nothing, nor does one whose address was
/// taken; any other adds its variant behind the others.
pub proof fn lemma_items(
    acc: parse::Collected,
    arch: Arch,
    items: Seq<parse::VariantItemView>,
    item: parse::VariantItemView,
)
    ensures
        parse::with_items(acc, arch, Seq::<parse::VariantItemView>::empty()) == acc,
        ({
            let front = parse::with_items(acc, arch, items);
            let all = parse::with_items(acc, arch, items.push(item));
            &&& item.href is None ==> all == front
            &&& item.href matches Some(href) ==> {
                &&& front.hrefs.contains(href) ==> all == front
                &&& !front.hrefs.contains(href) ==> all.hrefs == front.hrefs.push(href)
                    && all.variants == front.variants.push(parse::variant_at(arch, item, href))
            }
        }),
{
    assert(items.push(item).drop_last() == items);
}

/// The groups of a fragment add their files one after the other, each with its own ABIs. A
/// fragment without files is reported.
pub proof fn lemma_groups(groups: Seq<parse::VariantGroupView>, group: parse::VariantGroupView)
    ensures
        parse::collected(Seq::<parse::VariantGroupView>::empty()).variants.len() == 0,
        parse::collected(Seq::<parse::VariantGroupView>::empty()).hrefs.len() == 0,
        parse::collected(groups.push(group)) == parse::with_items(
            parse::collected(groups),
            scrape::listed_arch(group.arch),
            group.items,
        ),
        parse::variants_found(groups) == if parse::collected(groups).variants.len() > 0 {
            Ok::<Seq<scrape::VariantView>, contract::ErrorView>(parse::collected(groups).variants)
        } else {
            Err(contract::ErrorView::ParseError("no variants in download fragment"@))
        },
{
    assert(groups.push(group).drop_last() == groups);
}

/// What the elements of the pages stand for.
pub proof fn lemma_elements(n: html::Node, page: html::Page)
    ensures
        parse::search_row(n).href == html::attribute(n, "href"@),
        parse::search_row(n).title == html::attribute(n, "title"@),
        parse::search_row(n).text == html::node_text(n),
        parse::search_rows(page).len() == html::matched(page, "a.l_item"@).len(),
        forall|i: int|
            0 <= i < parse::search_rows(page).len() ==> #[trigger] parse::search_rows(page)[i]
                == parse::search_row(html::matched(page, "a.l_item"@)[i]),
        parse::version_item(n).href == html::attribute(n, "href"@),
        parse::version_item(n).name == html::first_text(n, ".vername"@),
        parse::version_item(n).description == html::first_text(n, ".description"@),
        parse::version_items(page).len() == html::matched(
            page,
            "ul.list-versions li a.ver-item"@,
        ).len(),
        forall|i: int|
            0 <= i < parse::version_items(page).len() ==> #[trigger] parse::version_items(page)[i]
                == parse::version_item(html::matched(page, "ul.list-versions li a.ver-item"@)[i]),
        parse::variant_item(n).href == html::attribute(n, "href"@),
        parse::variant_item(n).name == html::first_text(n, ".vername"@),
        parse::variant_item(n).kind == html::first_text(n, ".vtype"@),
        parse::variant_items(n).len() == html::matched_in(n, "ul.file-list li a.variant"@).len(),
        forall|i: int|
            0 <= i < parse::variant_items(n).len() ==> #[trigger] parse::variant_items(n)[i]
                == parse::variant_item(html::matched_in(n, "ul.file-list li a.variant"@)[i]),
        parse::variant_group(n).arch == html::first_text(
            n,
            "span.blur code, code.blur, span.blur"@,
        ),
        parse::variant_group(n).items == parse::variant_items(n),
        parse::variant_groups(page).len() == html::matched(
            page,
            ".content-tab .tree > ul > li"@,
        ).len(),
        forall|i: int|
            0 <= i < parse::variant_groups(page).len() ==> #[trigger] parse::variant_groups(page)[i]
                == parse::variant_group(html::matched(page, ".content-tab .tree > ul > li"@)[i]),
{
}

/// A file is served at the address of its variant with the check-in token and the package.
pub proof fn lemma_final_url(r2: Seq<char>, token: Seq<char>, pkg: Seq<char>)
    ensures
        parse::final_url(r2, token, pkg) == r2 + "&"@ + model::stripped(token) + "&package_name="@
            + pkg + "&lang=en"@,
{
}

/// A search asks for the term and answers with what the page holds, or as the site failed.
pub proof fn lemma_search(q: Seq<char>, page: Seq<char>, e: contract::ErrorView)
    ensures
        apkcombo::search_start(q) == flow::StepView::<_, Seq<contract::AppView>>::Ask(
            flow::RequestView::Get(below("/search?q="@ + scrape::encoded(q))),
            apkcombo::Searching,
        ),
        apkcombo::search_next(apkcombo::Searching, Ok(page)) == flow::StepView::<
            apkcombo::Searching,
            Seq<contract::AppView>,
        >::Done(parse::searched(parse::search_rows(html::document(page)))),
        apkcombo::search_next(apkcombo::Searching, Err(e)) == flow::StepView::<
            apkcombo::Searching,
            Seq<contract::AppView>,
        >::Done(Err(e)),
{
}

/// A listing first asks where the package leads, then for its old versions, and answers with
/// those that the page lists. A failure of the site ends it.
pub proof fn lemma_listing(pkg: Seq<char>, url: Seq<char>, page: Seq<char>, e: contract::ErrorView)
    ensures
        apkcombo::versions_start(pkg) == flow::StepView::<_, Seq<contract::VersionView>>::Ask(
            flow::RequestView::Resolve(below("en"@ + "/"@ + pkg + "/"@ + ""@)),
            apkcombo::ListingView::Slug(pkg),
        ),
        apkcombo::versions_next(apkcombo::ListingView::Slug(pkg), Ok(url)) == match parse::slug_in(
            below(url),
            pkg,
        ) {
            Some(slug) => flow::StepView::<_, Seq<contract::VersionView>>::Ask(
                flow::RequestView::Get(below(slug + "/"@ + pkg + "/"@ + "old-versions"@)),
                apkcombo::ListingView::Rows,
            ),
            None => flow::StepView::Done(
                Err(contract::ErrorView::NotFound("no app page for "@ + pkg)),
            ),
        },
        apkcombo::versions_next(apkcombo::ListingView::Rows, Ok(page)) == flow::StepView::<
            apkcombo::ListingView,
            Seq<contract::VersionView>,
        >::Done(
            match parse::versions_found(parse::version_items(html::document(page))) {
                Ok(rows) => Ok(apkcombo::infos(rows)),
                Err(x) => Err(x),
            },
        ),
        apkcombo::versions_next(apkcombo::ListingView::Slug(pkg), Err(e)) == flow::StepView::<
            apkcombo::ListingView,
            Seq<contract::VersionView>,
        >::Done(Err(e)),
        apkcombo::versions_next(apkcombo::ListingView::Rows, Err(e)) == flow::StepView::<
            apkcombo::ListingView,
            Seq<contract::VersionView>,
        >::Done(Err(e)),
        apkcombo::reported(true, Ok(page)) == parse::complaints(
            parse::version_items(html::document(page)),
        ),
        apkcombo::reported(false, Ok(page)).len() == 0,
        apkcombo::reported(true, Err(e)).len() == 0,
{
}

/// The page of the version asked for is that of the row that is taken for it.
pub proof fn lemma_build_page(rows: Seq<parse::VersionRowView>, want: Seq<char>, pkg: Seq<char>)
    ensures
        scrape::pinned(apkcombo::versions_in(rows), want) matches Some(i) ==> apkcombo::build_page(
            rows,
            want,
            pkg,
        ) == Ok::<Seq<char>, contract::ErrorView>(rows[i].download_page_url),
        scrape::pinned(apkcombo::versions_in(rows), want) is None ==> apkcombo::build_page(
            rows,
            want,
            pkg,
        ) == Err::<Seq<char>, contract::ErrorView>(
            contract::ErrorView::NotFound("no build "@ + want + " for "@ + pkg),
        ),
{
}

/// What a download asks first, and how it goes on from each reply: from where the package
/// leads to the page of the latest build, or to the list for the version asked for; from the
/// list to the page of that version; from the page to the variants of that version; from
/// these to the check-in for the build that is chosen; and from its token to the file.
pub proof fn lemma_download(d: DownloadView, text: Seq<char>, e: contract::ErrorView)
    ensures
        apkcombo::download_start(d.pkg, d.version, d.arch) == flow::StepView::<
            _,
            contract::TargetView,
        >::Ask(
            flow::RequestView::Resolve(below("en"@ + "/"@ + d.pkg + "/"@ + ""@)),
            DownloadView { stage: StageView::Slug, ..d },
        ),
        apkcombo::download_next(d, Err(e)) == flow::StepView::<
            DownloadView,
            contract::TargetView,
        >::Done(Err(e)),
        d.stage is Slug ==> apkcombo::download_next(d, Ok(text)) == match parse::slug_in(
            below(text),
            d.pkg,
        ) {
            None => flow::StepView::<DownloadView, contract::TargetView>::Done(
                Err(contract::ErrorView::NotFound("no app page for "@ + d.pkg)),
            ),
            Some(slug) => match d.version {
                None => flow::StepView::Ask(
                    flow::RequestView::Get(
                        below(slug + "/"@ + d.pkg + "/"@ + "download/phone-latest-apk"@),
                    ),
                    DownloadView { stage: StageView::Page(slug), ..d },
                ),
                Some(want) => flow::StepView::Ask(
                    flow::RequestView::Get(below(slug + "/"@ + d.pkg + "/"@ + "old-versions"@)),
                    DownloadView { stage: StageView::Rows(slug, want), ..d },
                ),
            },
        },
        d.stage matches StageView::Rows(slug, want) ==> apkcombo::download_next(d, Ok(text))
            == match parse::versions_found(parse::version_items(html::document(text))) {
            Err(x) => flow::StepView::<DownloadView, contract::TargetView>::Done(Err(x)),
            Ok(rows) => match apkcombo::build_page(rows, want, d.pkg) {
                Err(x) => flow::StepView::Done(Err(x)),
                Ok(page) => flow::StepView::Ask(
                    flow::RequestView::Get(page),
                    DownloadView { stage: StageView::Page(slug), ..d },
                ),
            },
        },
        d.stage is Fragment ==> apkcombo::download_next(d, Ok(text)) == match parse::variants_found(
            parse::variant_groups(html::snippet(text)),
        ) {
            Err(x) => flow::StepView::<DownloadView, contract::TargetView>::Done(Err(x)),
            Ok(vs) => match scrape::choice(vs, d.arch) {
                None => flow::StepView::Done(
                    Err(contract::ErrorView::NotFound("no downloadable variant for "@ + d.pkg)),
                ),
                Some(i) => flow::StepView::Ask(
                    flow::RequestView::Post(
                        below("/checkin"@),
                        Seq::<(Seq<char>, Seq<char>)>::empty(),
                    ),
                    DownloadView { stage: StageView::Checkin(vs[i]), ..d },
                ),
            },
        },
{
}

/// The variants that are asked for are those of the version asked for: the form names the
/// package and that version, or an empty one for the latest. Two downloads that differ only
/// in the version never send the same request.
pub proof fn lemma_fragment(d: DownloadView, slug: Seq<char>, page: Seq<char>)
    requires
        d.stage == StageView::Page(slug),
    ensures
        apkcombo::download_next(d, Ok(page)) matches flow::StepView::Ask(
            flow::RequestView::Post(url, form),
            next,
        ) && {
            &&& next == (DownloadView { stage: StageView::Fragment, ..d })
            &&& form.len() == 2
            &&& form[0] == ("package_name"@, d.pkg)
            &&& form[1].0 == "version"@
            &&& d.version matches Some(want) ==> form[1].1 == want
            &&& d.version is None ==> form[1].1.len() == 0
            &&& url == below(
                slug + "/"@ + d.pkg + "/"@ + ((match parse::xid_in(page) {
                    Some(tag) => tag,
                    None => "01a1200x20240308"@,
                }) + "/dl"@),
            )
        },
{
    reveal_strlit("");
}

/// Two downloads that differ in the version asked for never ask for the same variants.
pub proof fn lemma_fragments_differ(
    d: DownloadView,
    other: DownloadView,
    slug: Seq<char>,
    page: Seq<char>,
    v: Seq<char>,
    w: Seq<char>,
)
    requires
        v != w,
        d.version == Some(v),
        other == (DownloadView { version: Some(w), ..d }),
        d.stage == StageView::Page(slug),
    ensures
        apkcombo::download_next(d, Ok(page))->Ask_0 != apkcombo::download_next(
            other,
            Ok(page),
        )->Ask_0,
{
    lemma_fragment(d, slug, page);
    lemma_fragment(other, slug, page);
}

/// The target: the file of the variant that was chosen, with its version, else the one asked
/// for, else the latest; its ABIs; and no headers.
pub proof fn lemma_target(d: DownloadView, v: scrape::VariantView, token: Seq<char>)
    requires
        d.stage == StageView::Checkin(v),
    ensures
        apkcombo::download_next(d, Ok(token)) matches flow::StepView::Done(Ok(t)) && {
            &&& t.url == v.url + "&"@ + model::stripped(token) + "&package_name="@ + d.pkg
                + "&lang=en"@
            &&& v.version.len() > 0 ==> t.version == v.version
            &&& v.version.len() == 0 && d.version is Some ==> Some(t.version) == d.version
            &&& v.version.len() == 0 && d.version is None ==> t.version == "latest"@
            &&& t.arch == v.arch
            &&& t.provider == ProviderId::Apkcombo
            &&& t.headers.len() == 0
        },
{
}

/// What every download keeps: it is for the package, the version and the ABIs that were asked
/// for, and while it waits for variants it has asked for those of that version.
pub open spec fn faithful(
    at: flow::StepView<DownloadView, contract::TargetView>,
    pkg: Seq<char>,
    version: Option<Seq<char>>,
    arch: Arch,
) -> bool {
    at matches flow::StepView::Ask(q, d) ==> {
        &&& d.pkg == pkg
        &&& d.version == version
        &&& d.arch == arch
        &&& d.stage matches StageView::Rows(_, want) ==> version == Some(want)
        &&& d.stage is Fragment ==> {
            &&& q is Post
            &&& q->Post_1.contains(("package_name"@, pkg))
            &&& version matches Some(want) ==> q->Post_1.contains(("version"@, want))
            &&& version is None ==> q->Post_1.contains(("version"@, Seq::<char>::empty()))
        }
    }
}

/// Whatever the site replies, in every run of a download the variants that are asked for are
/// those of the version asked for.
pub proof fn lemma_every_run(
    world: flow::World,
    pkg: Seq<char>,
    version: Option<Seq<char>>,
    arch: Arch,
    n: nat,
)
    ensures
        faithful(
            flow::run(
                world,
                |d: DownloadView, reply: flow::ReplyView| apkcombo::download_next(d, reply),
                apkcombo::download_start(pkg, version, arch),
                n,
            ),
            pkg,
            version,
            arch,
        ),
{
    let next = |d: DownloadView, reply: flow::ReplyView| apkcombo::download_next(d, reply);
    lemma_run_from(world, next, apkcombo::download_start(pkg, version, arch), pkg, version, arch, n);
}

/// The same from any step of it.
proof fn lemma_run_from(
    world: flow::World,
    next: spec_fn(DownloadView, flow::ReplyView) -> flow::StepView<DownloadView, contract::TargetView>,
    at: flow::StepView<DownloadView, contract::TargetView>,
    pkg: Seq<char>,
    version: Option<Seq<char>>,
    arch: Arch,
    n: nat,
)
    requires
        forall|d: DownloadView, r: flow::ReplyView| #[trigger]
            next(d, r) == apkcombo::download_next(d, r),
        faithful(at, pkg, version, arch),
    ensures
        faithful(flow::run(world, next, at, n), pkg, version, arch),
    decreases n,
{
    if let flow::StepView::Ask(q, d) = at {
        if n > 0 {
            let r = world(q);
            let then = next(d, r);
            assert(then == apkcombo::download_next(d, r));
            if let Ok(text) = r {
                if let StageView::Page(slug) = d.stage {
                    lemma_fragment(d, slug, text);
                    if let flow::StepView::Ask(flow::RequestView::Post(_, form), _) = then {
                        assert(form.contains(form[0]));
                        assert(form.contains(form[1]));
                        if version is None {
                            assert(form[1].1 == Seq::<char>::empty());
                        }
                    }
                }
            }
            assert(faithful(then, pkg, version, arch));
            lemma_run_from(world, next, then, pkg, version, arch, (n - 1) as nat);
        }
    }
}

/// The build that is taken of variants is the one that is chosen for the ABIs; without any it
/// is reported for the package.
pub proof fn lemma_variant_for(vs: Seq<scrape::VariantView>, arch: Arch, pkg: Seq<char>)
    ensures
        scrape::choice(vs, arch) matches Some(i) ==> apkcombo::variant_for(vs, arch, pkg) == Ok::<
            scrape::VariantView,
            contract::ErrorView,
        >(vs[i]),
        scrape::choice(vs, arch) is None ==> apkcombo::variant_for(vs, arch, pkg) == Err::<
            scrape::VariantView,
            contract::ErrorView,
        >(contract::ErrorView::NotFound("no downloadable variant for "@ + pkg)),
{
}

} // verus!
