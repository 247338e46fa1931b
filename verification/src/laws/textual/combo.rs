//! Laws of APKCombo where what its pages say stays text.

use crate::common::contract as common;
use crate::common::contract::ProviderId;
use crate::common::flow;
use crate::html;
use crate::laws::texts;
use crate::model;
use crate::model::Class;
use crate::providers::apkcombo::parse as pages;
use crate::providers::scrape;
use crate::textual::apkcombo;
use crate::textual::apkcombo::parse;
use crate::textual::apkcombo::{DownloadView, StageView};
use crate::textual::contract;
use crate::textual::fetch;
use crate::textual::urls;
use vstd::prelude::*;

verus! {

/// The addresses of the site: what a link leads to, a search with `+` for spaces, and a page
/// of an app below its slug and its package.
pub proof fn lemma_addresses(
    href: Seq<char>,
    q: Seq<char>,
    slug: Seq<char>,
    pkg: Seq<char>,
    tail: Seq<char>,
)
    ensures
        parse::site(href) == urls::seen_from("https://apkcombo.com"@, href),
        apkcombo::search_page(q) == "https://apkcombo.com"@ + "/search?q="@ + model::replaced(
            model::stripped(q),
            ' ',
            '+',
        ),
        apkcombo::app_page(slug, pkg, tail) == "https://apkcombo.com"@ + "/"@ + slug + "/"@ + pkg
            + "/"@ + tail,
{
}

/// The slug of a package is what stands before it in the path of its page, and nothing else
/// is there; the locale that was asked for is no slug.
pub proof fn lemma_slug(url: Seq<char>, pkg: Seq<char>, slug: Seq<char>)
    ensures
        parse::slug_in(url, pkg) == Some(slug) <==> {
            &&& common::path_below("https://apkcombo.com"@, url) == Some(slug + seq!['/'] + pkg)
            &&& !slug.contains('/')
            &&& !pkg.contains('/')
            &&& slug.len() > 0
            &&& slug != "en"@
        },
{
    match common::path_below("https://apkcombo.com"@, url) {
        Some(path) => {
            texts::lemma_two_pieces(path, '/', slug, pkg);
            let segs = model::pieces(path, Class::One('/'));
            if segs.len() == 2 && segs[1] == pkg && segs[0] == slug {
                assert(segs == seq![slug, pkg]);
            }
        },
        None => {},
    }
}

/// What a search answers of each app that the page holds, in order.
pub proof fn lemma_results(hits: Seq<common::AppView>)
    ensures
        apkcombo::results(hits).len() == hits.len(),
        forall|i: int|
            0 <= i < hits.len() ==> {
                let r = #[trigger] apkcombo::results(hits)[i];
                &&& r.package == hits[i].package
                &&& r.title == hits[i].title
                &&& r.version is None
                &&& r.developer is None
                &&& r.provider == ProviderId::Apkcombo
            },
{
}

/// A search asks for the term and answers with what the page holds, or as the site failed.
pub proof fn lemma_search(q: Seq<char>, page: Seq<char>, e: contract::ErrorView)
    ensures
        apkcombo::search_start(q) matches flow::StepView::Ask(flow::RequestView::Get(url), _) && url
            == apkcombo::search_page(q),
        apkcombo::search_next(apkcombo::Searching, Err(e)) matches flow::StepView::Done(Err(x)) && x
            == e,
        match pages::searched(pages::search_rows(html::document(page))) {
            Ok(hits) => apkcombo::search_next(
                apkcombo::Searching,
                Ok(page),
            ) matches flow::StepView::Done(Ok(rs)) && rs == apkcombo::results(hits),
            Err(x) => apkcombo::search_next(
                apkcombo::Searching,
                Ok(page),
            ) matches flow::StepView::Done(Err(y)) && y == fetch::raised(x),
        },
{
}

/// When an entry was uploaded is what stands before the first middle dot of its description,
/// where that says something.
pub proof fn lemma_upload(date: Seq<char>, rest: Seq<char>)
    requires
        !date.contains('\u{b7}'),
    ensures
        model::stripped(date).len() > 0 ==> parse::upload_text(
            Some(date + seq!['\u{b7}'] + rest),
        ) == Some(model::stripped(date)) && parse::upload_text(Some(date)) == Some(
            model::stripped(date),
        ),
        model::stripped(date).len() == 0 ==> parse::upload_text(
            Some(date + seq!['\u{b7}'] + rest),
        ) is None && parse::upload_text(Some(date)) is None,
        parse::upload_text(None) is None,
{
    texts::lemma_first_piece(date, '\u{b7}', rest);
}

/// An entry lists a version just where it has an address: under its name, with its upload,
/// and the page behind that address.
pub proof fn lemma_listed(item: pages::VersionItemView)
    ensures
        parse::listed_version(item) is Some <==> item.href is Some,
        parse::listed_version(item) matches Some(row) ==> {
            &&& item.name matches Some(n) ==> row.name == n
            &&& item.name is None ==> row.name.len() == 0
            &&& row.uploaded == parse::upload_text(item.description)
            &&& row.download_page_url == urls::seen_from("https://apkcombo.com"@, item.href->0)
        },
{
    reveal_strlit("");
}

/// The versions of a list: those of its entries that list one, in order. None is reported.
pub proof fn lemma_versions(items: Seq<pages::VersionItemView>, item: pages::VersionItemView)
    ensures
        parse::listed_versions(Seq::<pages::VersionItemView>::empty()).len() == 0,
        parse::listed_version(item) is None ==> parse::listed_versions(items.push(item))
            == parse::listed_versions(items),
        parse::listed_version(item) matches Some(row) ==> parse::listed_versions(items.push(item))
            == parse::listed_versions(items).push(row),
        parse::listed_versions(items).len() > 0 ==> parse::versions_found(items) == Ok::<
            Seq<parse::VersionRowView>,
            contract::ErrorView,
        >(parse::listed_versions(items)),
        parse::listed_versions(items).len() == 0 ==> parse::versions_found(items) == Err::<
            Seq<parse::VersionRowView>,
            contract::ErrorView,
        >(contract::ErrorView::NotFound("no versions listed"@)),
{
    assert(items.push(item).drop_last() == items);
}

/// The ABIs of a label: what stands between commas and plus signs, without white space around
/// it, where anything is left.
pub proof fn lemma_tidied(ws: Seq<Seq<char>>, w: Seq<char>, label: Seq<char>)
    ensures
        parse::tidied(Seq::<Seq<char>>::empty()).len() == 0,
        model::stripped(w).len() > 0 ==> parse::tidied(ws.push(w)) == parse::tidied(ws).push(
            model::stripped(w),
        ),
        model::stripped(w).len() == 0 ==> parse::tidied(ws.push(w)) == parse::tidied(ws),
        parse::arch_list(None).len() == 0,
        parse::arch_list(Some(label)) == parse::tidied(
            model::pieces(label, Class::Either(',', '+')),
        ),
{
    assert(ws.push(w).drop_last() == ws);
}

/// A file of the fragment: its name and its type as they stand, the ABIs of its group, and
/// its address.
pub proof fn lemma_variant(arch: Seq<Seq<char>>, item: pages::VariantItemView, href: Seq<char>)
    ensures
        ({
            let v = parse::variant_at(arch, item, href);
            &&& item.name matches Some(n) ==> v.version == n
            &&& item.name is None ==> v.version.len() == 0
            &&& item.kind matches Some(k) ==> v.kind == k
            &&& item.kind is None ==> v.kind.len() == 0
            &&& v.arch == arch
            &&& v.r2_url == urls::seen_from("https://apkcombo.com"@, href)
        }),
{
    reveal_strlit("");
}

/// The files of a group: one without an address adds nothing, nor does one whose address was
/// taken; any other adds its variant behind the others.
pub proof fn lemma_items(
    acc: parse::Collected,
    arch: Seq<Seq<char>>,
    items: Seq<pages::VariantItemView>,
    item: pages::VariantItemView,
)
    ensures
        parse::with_items(acc, arch, Seq::<pages::VariantItemView>::empty()) == acc,
        ({
            let front = parse::with_items(acc, arch, items);
            let all = parse::with_items(acc, arch, items.push(item));
            &&& item.href is None ==> all == front
            &&& item.href matches Some(href) ==> {
                &&& front.hrefs.contains(href) ==> all == front
                &&& !front.hrefs.contains(href) ==> all.hrefs == front.hrefs.push(href)
                    && all.variants == front.variants.push(parse::variant_at(arch, item, href))
            }
        }),
{
    assert(items.push(item).drop_last() == items);
}

/// The groups of a fragment add their files one after the other, each with its own ABIs. A
/// fragment without files is reported.
pub proof fn lemma_groups(groups: Seq<pages::VariantGroupView>, group: pages::VariantGroupView)
    ensures
        parse::collected(Seq::<pages::VariantGroupView>::empty()).variants.len() == 0,
        parse::collected(Seq::<pages::VariantGroupView>::empty()).hrefs.len() == 0,
        parse::collected(groups.push(group)) == parse::with_items(
            parse::collected(groups),
            parse::arch_list(group.arch),
            group.items,
        ),
        parse::collected(groups).variants.len() > 0 ==> parse::variants_found(groups) == Ok::<
            Seq<parse::VariantView>,
            contract::ErrorView,
        >(parse::collected(groups).variants),
        parse::collected(groups).variants.len() == 0 ==> parse::variants_found(groups) == Err::<
            Seq<parse::VariantView>,
            contract::ErrorView,
        >(contract::ErrorView::ParseError("no variants in download fragment"@)),
{
    assert(groups.push(group).drop_last() == groups);
}

/// Whether a variant is of a kind: a bundle is an XAPK and everything else an APK, whatever
/// the case of the letters. It has an ABI where one of its ABIs is that, in any case too.
pub proof fn lemma_suits(v: parse::VariantView, arch: Seq<char>)
    ensures
        parse::kind_ok(v, true) <==> texts::spells(v.kind, "xapk"@),
        parse::kind_ok(v, false) <==> texts::spells(v.kind, "apk"@),
        parse::arch_ok(v, arch) <==> exists|i: int|
            0 <= i < v.arch.len() && texts::spells(#[trigger] v.arch[i], arch),
{
    texts::lemma_same_letters(v.kind, "xapk"@);
    texts::lemma_same_letters(v.kind, "apk"@);
    assert forall|i: int| 0 <= i < v.arch.len() implies model::same_letters(
        #[trigger] v.arch[i],
        arch,
    ) == texts::spells(v.arch[i], arch) by {
        texts::lemma_same_letters(v.arch[i], arch);
    }
}

/// The first of its kind with the ABI.
proof fn lemma_exact(vs: Seq<parse::VariantView>, arch: Seq<char>, bundle: bool)
    ensures
        match parse::exact(vs, arch, bundle) {
            Some(i) => {
                &&& 0 <= i < vs.len()
                &&& parse::kind_ok(vs[i], bundle) && parse::arch_ok(vs[i], arch)
                &&& forall|j: int|
                    0 <= j < i ==> !(parse::kind_ok(#[trigger] vs[j], bundle) && parse::arch_ok(
                        vs[j],
                        arch,
                    ))
            },
            None => forall|j: int|
                0 <= j < vs.len() ==> !(parse::kind_ok(#[trigger] vs[j], bundle) && parse::arch_ok(
                    vs[j],
                    arch,
                )),
        },
    decreases vs.len(),
{
    if vs.len() > 0 {
        let front = vs.drop_last();
        lemma_exact(front, arch, bundle);
        assert forall|j: int| 0 <= j < front.len() implies #[trigger] vs[j] == front[j] by {}
    }
}

/// The last of its kind with the most ABIs.
proof fn lemma_widest(vs: Seq<parse::VariantView>, bundle: bool)
    ensures
        match parse::widest(vs, bundle) {
            Some(i) => {
                &&& 0 <= i < vs.len()
                &&& parse::kind_ok(vs[i], bundle)
                &&& forall|j: int|
                    0 <= j < vs.len() && parse::kind_ok(#[trigger] vs[j], bundle) ==> {
                        &&& vs[j].arch.len() <= vs[i].arch.len()
                        &&& j > i ==> vs[j].arch.len() < vs[i].arch.len()
                    }
            },
            None => forall|j: int| 0 <= j < vs.len() ==> !parse::kind_ok(#[trigger] vs[j], bundle),
        },
    decreases vs.len(),
{
    if vs.len() > 0 {
        let front = vs.drop_last();
        lemma_widest(front, bundle);
        assert forall|j: int| 0 <= j < front.len() implies #[trigger] vs[j] == front[j] by {}
    }
}

/// The build to take: the first of the kind with the ABI; where there is none, of those of the
/// kind one with the most ABIs, and of several the last; where there is none of the kind the
/// first of all; and none just where there are no builds.
pub proof fn lemma_choice(vs: Seq<parse::VariantView>, arch: Seq<char>, bundle: bool)
    ensures
        parse::choice(vs, arch, bundle) is None <==> vs.len() == 0,
        parse::choice(vs, arch, bundle) matches Some(i) ==> {
            &&& 0 <= i < vs.len()
            &&& forall|k: int|
                0 <= k < vs.len() && parse::kind_ok(#[trigger] vs[k], bundle) && parse::arch_ok(
                    vs[k],
                    arch,
                ) ==> i <= k && parse::kind_ok(vs[i], bundle) && parse::arch_ok(vs[i], arch)
            &&& (forall|k: int|
                0 <= k < vs.len() ==> !(parse::kind_ok(#[trigger] vs[k], bundle) && parse::arch_ok(
                    vs[k],
                    arch,
                ))) ==> forall|k: int|
                0 <= k < vs.len() && parse::kind_ok(#[trigger] vs[k], bundle) ==> {
                    &&& parse::kind_ok(vs[i], bundle)
                    &&& vs[k].arch.len() <= vs[i].arch.len()
                    &&& k > i ==> vs[k].arch.len() < vs[i].arch.len()
                }
            &&& (forall|k: int| 0 <= k < vs.len() ==> !parse::kind_ok(#[trigger] vs[k], bundle))
                ==> i == 0
        },
{
    lemma_exact(vs, arch, bundle);
    lemma_widest(vs, bundle);
}

/// What is listed of rows: the version in the name of each, and its upload.
pub proof fn lemma_infos(rows: Seq<parse::VersionRowView>)
    ensures
        apkcombo::infos(rows).len() == rows.len(),
        forall|i: int|
            0 <= i < rows.len() ==> {
                let r = #[trigger] apkcombo::infos(rows)[i];
                &&& r.version == scrape::version_of(rows[i].name)
                &&& r.version_code is None
                &&& r.uploaded == rows[i].uploaded
                &&& r.provider == ProviderId::Apkcombo
            },
        apkcombo::versions_in(rows).len() == rows.len(),
        forall|i: int|
            0 <= i < rows.len() ==> #[trigger] apkcombo::versions_in(rows)[i] == scrape::version_of(
                rows[i].name,
            ),
{
}

/// A listing first asks where the package leads, then for its old versions, and answers with
/// those that the page lists. A failure of the site ends it.
pub proof fn lemma_listing(pkg: Seq<char>, text: Seq<char>, e: contract::ErrorView)
    ensures
        apkcombo::versions_start(pkg) matches flow::StepView::Ask(
            flow::RequestView::Resolve(url),
            apkcombo::ListingView::Slug(p),
        ) && url == apkcombo::app_page("en"@, pkg, ""@) && p == pkg,
        match parse::slug_in(text, pkg) {
            Some(slug) => apkcombo::versions_next(
                apkcombo::ListingView::Slug(pkg),
                Ok(text),
            ) matches flow::StepView::Ask(flow::RequestView::Get(url), apkcombo::ListingView::Rows)
                && url == apkcombo::app_page(slug, pkg, "old-versions"@),
            None => apkcombo::versions_next(
                apkcombo::ListingView::Slug(pkg),
                Ok(text),
            ) matches flow::StepView::Done(Err(contract::ErrorView::NotFound(t))) && t
                == "no app page for "@ + pkg,
        },
        match parse::versions_found(pages::version_items(html::document(text))) {
            Ok(rows) => apkcombo::versions_next(
                apkcombo::ListingView::Rows,
                Ok(text),
            ) matches flow::StepView::Done(Ok(vs)) && vs == apkcombo::infos(rows),
            Err(x) => apkcombo::versions_next(
                apkcombo::ListingView::Rows,
                Ok(text),
            ) matches flow::StepView::Done(Err(y)) && y == x,
        },
        apkcombo::versions_next(
            apkcombo::ListingView::Slug(pkg),
            Err(e),
        ) matches flow::StepView::Done(Err(y)) && y == e,
        apkcombo::versions_next(apkcombo::ListingView::Rows, Err(e)) matches flow::StepView::Done(
            Err(y),
        ) && y == e,
{
}

/// The page of the version asked for is that of the row that is taken for it.
pub proof fn lemma_build_page(rows: Seq<parse::VersionRowView>, want: Seq<char>, pkg: Seq<char>)
    ensures
        scrape::pinned(apkcombo::versions_in(rows), want) matches Some(i) ==> apkcombo::build_page(
            rows,
            want,
            pkg,
        ) == Ok::<Seq<char>, contract::ErrorView>(rows[i].download_page_url),
        scrape::pinned(apkcombo::versions_in(rows), want) is None ==> apkcombo::build_page(
            rows,
            want,
            pkg,
        ) == Err::<Seq<char>, contract::ErrorView>(
            contract::ErrorView::NotFound("no build "@ + want + " for "@ + pkg),
        ),
{
}

/// What a download asks first, and how it goes on: from where the package leads to the page of
/// the latest build, or to the list for the version asked for; from the list to the page of
/// that version. A failure of the site ends it.
pub proof fn lemma_download(d: DownloadView, text: Seq<char>, e: contract::ErrorView)
    ensures
        apkcombo::download_start(d.pkg, d.version, d.arch) matches flow::StepView::Ask(
            flow::RequestView::Resolve(url),
            next,
        ) && url == apkcombo::app_page("en"@, d.pkg, ""@) && next == (DownloadView {
            stage: StageView::Slug,
            ..d
        }),
        apkcombo::download_next(d, Err(e)) matches flow::StepView::Done(Err(y)) && y == e,
        d.stage is Slug ==> match parse::slug_in(text, d.pkg) {
            None => apkcombo::download_next(d, Ok(text)) matches flow::StepView::Done(
                Err(contract::ErrorView::NotFound(t)),
            ) && t == "no app page for "@ + d.pkg,
            Some(slug) => {
                &&& d.version is None ==> (apkcombo::download_next(
                    d,
                    Ok(text),
                ) matches flow::StepView::Ask(flow::RequestView::Get(url), next) && url
                    == apkcombo::app_page(slug, d.pkg, "download/phone-latest-apk"@) && next == (
                DownloadView { stage: StageView::Page(slug), ..d }))
                &&& d.version is Some ==> (apkcombo::download_next(
                    d,
                    Ok(text),
                ) matches flow::StepView::Ask(flow::RequestView::Get(url), next) && url
                    == apkcombo::app_page(slug, d.pkg, "old-versions"@) && next == (DownloadView {
                    stage: StageView::Rows(slug, d.version->0),
                    ..d
                }))
            },
        },
        d.stage matches StageView::Rows(slug, want) ==> match parse::versions_found(
            pages::version_items(html::document(text)),
        ) {
            Err(x) => apkcombo::download_next(d, Ok(text)) matches flow::StepView::Done(Err(y)) && y
                == x,
            Ok(rows) => match apkcombo::build_page(rows, want, d.pkg) {
                Err(x) => apkcombo::download_next(d, Ok(text)) matches flow::StepView::Done(Err(y))
                    && y == x,
                Ok(page) => apkcombo::download_next(d, Ok(text)) matches flow::StepView::Ask(
                    flow::RequestView::Get(url),
                    next,
                ) && url == page && next == (DownloadView { stage: StageView::Page(slug), ..d }),
            },
        },
        d.stage is Fragment ==> match parse::variants_found(
            pages::variant_groups(html::snippet(text)),
        ) {
            Err(x) => apkcombo::download_next(d, Ok(text)) matches flow::StepView::Done(Err(y)) && y
                == x,
            Ok(vs) => match parse::choice(vs, d.arch, false) {
                None => apkcombo::download_next(d, Ok(text)) matches flow::StepView::Done(
                    Err(contract::ErrorView::NotFound(t)),
                ) && t == "no downloadable variant for "@ + d.pkg,
                Some(i) => apkcombo::download_next(d, Ok(text)) matches flow::StepView::Ask(
                    flow::RequestView::Post(url, form),
                    next,
                ) && url == "https://apkcombo.com"@ + "/checkin"@ && form.len() == 0 && next == (
                DownloadView { stage: StageView::Checkin(vs[i]), ..d }),
            },
        },
{
}

/// The variants that are asked for are those of the version asked for: the form names the
/// package and that version, or an empty one for the latest.
pub proof fn lemma_fragment(d: DownloadView, slug: Seq<char>, page: Seq<char>)
    requires
        d.stage == StageView::Page(slug),
    ensures
        apkcombo::download_next(d, Ok(page)) matches flow::StepView::Ask(
            flow::RequestView::Post(url, form),
            next,
        ) && {
            &&& next == (DownloadView { stage: StageView::Fragment, ..d })
            &&& form.len() == 2
            &&& form[0] == ("package_name"@, d.pkg)
            &&& form[1].0 == "version"@
            &&& d.version matches Some(want) ==> form[1].1 == want
            &&& d.version is None ==> form[1].1.len() == 0
            &&& url == apkcombo::app_page(
                slug,
                d.pkg,
                (match pages::xid_in(page) {
                    Some(tag) => tag,
                    None => "01a1200x20240308"@,
                }) + "/dl"@,
            )
        },
{
    reveal_strlit("");
}

/// The target: the file of the variant that was chosen, under the version of its name, else
/// the one asked for, else the latest; its first ABI; named by these and its kind.
pub proof fn lemma_target(d: DownloadView, v: parse::VariantView, token: Seq<char>)
    requires
        d.stage == StageView::Checkin(v),
    ensures
        apkcombo::download_next(d, Ok(token)) matches flow::StepView::Done(Ok(t)) && {
            &&& t.url == v.r2_url + "&"@ + model::stripped(token) + "&package_name="@ + d.pkg
                + "&lang=en"@
            &&& t.version is Some
            &&& v.version.len() > 0 ==> t.version == Some(scrape::version_of(v.version))
            &&& v.version.len() == 0 && d.version is Some ==> t.version == d.version
            &&& v.version.len() == 0 && d.version is None ==> t.version == Some("latest"@)
            &&& v.arch.len() > 0 ==> t.arch == Some(v.arch[0])
            &&& v.arch.len() == 0 ==> t.arch is None
            &&& texts::spells(v.kind, "xapk"@) ==> t.filename == contract::filename(
                d.pkg,
                t.version->0,
                t.arch,
                "xapk"@,
            )
            &&& !texts::spells(v.kind, "xapk"@) ==> t.filename == contract::filename(
                d.pkg,
                t.version->0,
                t.arch,
                "apk"@,
            )
            &&& t.provider == ProviderId::Apkcombo
            &&& t.headers.len() == 0
        },
{
    reveal_strlit("xapk");
    reveal_strlit("XAPK");
    texts::lemma_same_letters(v.kind, "XAPK"@);
    if texts::spells(v.kind, "xapk"@) {
        assert forall|i: int| 0 <= i < v.kind.len() implies texts::same_letter(
            #[trigger] v.kind[i],
            "XAPK"@[i],
        ) by {
            assert(texts::same_letter(v.kind[i], "xapk"@[i]));
        }
    }
    if model::same_letters(v.kind, "XAPK"@) {
        assert forall|i: int| 0 <= i < v.kind.len() implies texts::same_letter(
            #[trigger] v.kind[i],
            "xapk"@[i],
        ) by {
            assert(texts::same_letter(v.kind[i], "XAPK"@[i]));
        }
    }
}

/// What every download keeps: it is for the package, the version and the ABI that were asked
/// for, and while it waits for variants it has asked for those of that version.
pub open spec fn faithful(
    at: flow::StepView<DownloadView, contract::TargetView, contract::ErrorView>,
    pkg: Seq<char>,
    version: Option<Seq<char>>,
    arch: Seq<char>,
) -> bool {
    at matches flow::StepView::Ask(q, d) ==> {
        &&& d.pkg == pkg
        &&& d.version == version
        &&& d.arch == arch
        &&& d.stage matches StageView::Rows(_, want) ==> version == Some(want)
        &&& d.stage is Fragment ==> {
            &&& q is Post
            &&& q->Post_1.contains(("package_name"@, pkg))
            &&& version matches Some(want) ==> q->Post_1.contains(("version"@, want))
            &&& version is None ==> q->Post_1.contains(("version"@, Seq::<char>::empty()))
        }
    }
}

/// Whatever the site replies, in every run of a download the variants that are asked for are
/// those of the version asked for.
pub proof fn lemma_every_run(
    world: flow::World<contract::ErrorView>,
    pkg: Seq<char>,
    version: Option<Seq<char>>,
    arch: Seq<char>,
    n: nat,
)
    ensures
        faithful(
            flow::run(
                world,
                |d: DownloadView, reply: flow::ReplyView<contract::ErrorView>|
                    apkcombo::download_next(d, reply),
                apkcombo::download_start(pkg, version, arch),
                n,
            ),
            pkg,
            version,
            arch,
        ),
{
    let next = |d: DownloadView, reply: flow::ReplyView<contract::ErrorView>|
        apkcombo::download_next(d, reply);
    lemma_run_from(world, next, apkcombo::download_start(pkg, version, arch), pkg, version, arch, n);
}

/// The same from any step of it.
proof fn lemma_run_from(
    world: flow::World<contract::ErrorView>,
    next: spec_fn(DownloadView, flow::ReplyView<contract::ErrorView>) -> flow::StepView<
        DownloadView,
        contract::TargetView,
        contract::ErrorView,
    >,
    at: flow::StepView<DownloadView, contract::TargetView, contract::ErrorView>,
    pkg: Seq<char>,
    version: Option<Seq<char>>,
    arch: Seq<char>,
    n: nat,
)
    requires
        forall|d: DownloadView, r: flow::ReplyView<contract::ErrorView>| #[trigger]
            next(d, r) == apkcombo::download_next(d, r),
        faithful(at, pkg, version, arch),
    ensures
        faithful(flow::run(world, next, at, n), pkg, version, arch),
    decreases n,
{
    if let flow::StepView::Ask(q, d) = at {
        if n > 0 {
            let r = world(q);
            let then = next(d, r);
            assert(then == apkcombo::download_next(d, r));
            if let Ok(text) = r {
                if let StageView::Page(slug) = d.stage {
                    lemma_fragment(d, slug, text);
                    if let flow::StepView::Ask(flow::RequestView::Post(_, form), _) = then {
                        assert(form.contains(form[0]));
                        assert(form.contains(form[1]));
                        if version is None {
                            assert(form[1].1 == Seq::<char>::empty());
                        }
                    }
                }
            }
            assert(faithful(then, pkg, version, arch));
            lemma_run_from(world, next, then, pkg, version, arch, (n - 1) as nat);
        }
    }
}

/// The build that is taken of variants is the plain one that is chosen for the ABI; without any
/// it is reported for the package.
pub proof fn lemma_variant_for(vs: Seq<parse::VariantView>, arch: Seq<char>, pkg: Seq<char>)
    ensures
        parse::choice(vs, arch, false) matches Some(i) ==> apkcombo::variant_for(vs, arch, pkg)
            == Ok::<parse::VariantView, contract::ErrorView>(vs[i]),
        vs.len() == 0 ==> apkcombo::variant_for(vs, arch, pkg) == Err::<
            parse::VariantView,
            contract::ErrorView,
        >(contract::ErrorView::NotFound("no downloadable variant for "@ + pkg)),
{
    lemma_choice(vs, arch, false);
}

} // verus!
