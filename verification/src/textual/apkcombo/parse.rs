//! The pages of APKCombo.

use crate::common::contract as common;
use crate::html;
use crate::html::{parse_document, parse_fragment};
use crate::model;
use crate::model::Class;
use crate::providers::apkcombo::parse;
use crate::providers::apkcombo::parse::{
    read_groups, read_versions, SearchHit, SearchRow, VariantGroup, VariantItem, VersionItem,
};
use crate::strings::{
    eq_ignore_ascii_case, listed, same, split_by, strip_prefix, trim, trim_by,
};
use crate::textual::contract;
use crate::textual::contract::ProviderError;
use crate::textual::fetch;
use crate::textual::fetch::raise;
use crate::textual::urls;
use crate::textual::urls::abs_from;
use vstd::prelude::*;

verus! {

/// The site.
pub const BASE_URL: &'static str = "https://apkcombo.com";

/// The locale under which a package id leads to its page.
pub const LOOKUP_LOCALE: &'static str = "en";

/// `href` as a URL on the site.
pub open spec fn site(href: Seq<char>) -> Seq<char> {
    urls::seen_from(BASE_URL@, href)
}

/// `href` as a URL on the site.
pub fn abs(href: &str) -> (r: String)
    ensures
        r@ == site(href@),
{
    abs_from(BASE_URL, href)
}

/// The `{slug}` of a canonical app URL `{BASE}/{slug}/{pkg}/`.
pub open spec fn slug_in(url: Seq<char>, pkg: Seq<char>) -> Option<Seq<char>> {
    match common::path_below(BASE_URL@, url) {
        Some(path) => {
            let segs = model::pieces(path, Class::One('/'));
            if segs.len() == 2 && segs[1] == pkg && segs[0].len() > 0 && segs[0] != LOOKUP_LOCALE@ {
                Some(segs[0])
            } else {
                None
            }
        },
        None => None,
    }
}

/// The `{slug}` of a canonical app URL `{BASE}/{slug}/{pkg}/`. `None` where the
/// URL has another shape, or still the locale that was asked for: then the site
/// has no page for the package.
pub fn slug_from_canonical_url(url: &str, pkg: &str) -> (r: Option<String>)
    ensures
        model::opt(r) == slug_in(url@, pkg@),
{
    let rest = match strip_prefix(url, BASE_URL) {
        Some(rest) => rest,
        None => {
            return None;
        },
    };
    let path = trim_by(rest.as_str(), Class::One('/'));
    let segs = split_by(path.as_str(), Class::One('/'));
    assert(model::texts(segs@).len() == segs@.len());
    if segs.len() == 2 {
        assert(model::texts(segs@)[0] == segs@[0]@);
        assert(model::texts(segs@)[1] == segs@[1]@);
        if same(segs[1].as_str(), pkg) && !segs[0].as_str().is_empty() && !same(
            segs[0].as_str(),
            LOOKUP_LOCALE,
        ) {
            return Some(segs[0].clone());
        }
    }
    None
}

/// What a search comes to.
pub open spec fn searched(rows: Seq<parse::SearchRowView>) -> Result<
    Seq<common::AppView>,
    contract::ErrorView,
> {
    match parse::searched(rows) {
        Ok(hits) => Ok(hits),
        Err(e) => Err(fetch::raised(e)),
    }
}

/// The apps that the links of a search page lead to, each package once.
pub fn search_hits(rows: &[SearchRow]) -> (r: Result<Vec<SearchHit>, ProviderError>)
    ensures
        common::outcomes(r) == searched(model::views(rows@)),
{
    match parse::search_hits(rows) {
        Ok(hits) => Ok(hits),
        Err(e) => Err(raise(e)),
    }
}

/// Reads the page of `/search?q=...`.
pub fn parse_search(html: &str) -> (r: Result<Vec<SearchHit>, ProviderError>)
    ensures
        common::outcomes(r) == searched(parse::search_rows(html::document(html@))),
{
    match parse::parse_search(html) {
        Ok(hits) => Ok(hits),
        Err(e) => Err(raise(e)),
    }
}

/// A version of an app and the page to download it from.
pub struct VersionRow {
    pub name: String,
    pub uploaded: Option<String>,
    /// `/{slug}/{pkg}/download/phone-{version}-apk` (absolute).
    pub download_page_url: String,
}

/// What a [`VersionRow`] says.
pub struct VersionRowView {
    pub name: Seq<char>,
    pub uploaded: Option<Seq<char>>,
    pub download_page_url: Seq<char>,
}

impl View for VersionRow {
    type V = VersionRowView;

    open spec fn view(&self) -> VersionRowView {
        VersionRowView {
            name: self.name@,
            uploaded: model::opt(self.uploaded),
            download_page_url: self.download_page_url@,
        }
    }
}

/// The date in a description: what stands before the first `\u{b7}`, if anything.
pub open spec fn upload_text(description: Option<Seq<char>>) -> Option<Seq<char>> {
    match description {
        Some(t) => {
            let date = model::stripped(model::pieces(t, Class::One('\u{b7}'))[0]);
            if date.len() > 0 {
                Some(date)
            } else {
                None
            }
        },
        None => None,
    }
}

/// The text, or none where it is absent.
pub open spec fn or_empty(t: Option<Seq<char>>) -> Seq<char> {
    match t {
        Some(s) => s,
        None => ""@,
    }
}

/// The version that an entry lists, if it has an address.
pub open spec fn listed_version(item: parse::VersionItemView) -> Option<VersionRowView> {
    match item.href {
        Some(href) => Some(
            VersionRowView {
                name: or_empty(item.name),
                uploaded: upload_text(item.description),
                download_page_url: site(href),
            },
        ),
        None => None,
    }
}

/// The versions that entries list.
pub open spec fn listed_versions(items: Seq<parse::VersionItemView>) -> Seq<VersionRowView>
    decreases items.len(),
{
    if items.len() == 0 {
        Seq::<VersionRowView>::empty()
    } else {
        let front = listed_versions(items.drop_last());
        match listed_version(items.last()) {
            Some(row) => front.push(row),
            None => front,
        }
    }
}

/// What a list of versions comes to.
pub open spec fn versions_found(items: Seq<parse::VersionItemView>) -> Result<
    Seq<VersionRowView>,
    contract::ErrorView,
> {
    if listed_versions(items).len() == 0 {
        Err(contract::ErrorView::NotFound("no versions listed"@))
    } else {
        Ok(listed_versions(items))
    }
}

/// The text, or none where it is absent.
pub(crate) fn text_or_empty(t: &Option<String>) -> (r: String)
    ensures
        r@ == or_empty(model::opt(*t)),
{
    match t {
        Some(s) => s.clone(),
        None => "".to_owned(),
    }
}

/// The date in a description.
fn read_upload(description: &Option<String>) -> (r: Option<String>)
    ensures
        model::opt(r) == upload_text(model::opt(*description)),
{
    match description {
        Some(t) => {
            let parts = split_by(t.as_str(), Class::One('\u{b7}'));
            proof {
                crate::strings::lemma_pieces_len(t@, Class::One('\u{b7}'));
            }
            assert(model::texts(parts@)[0] == parts@[0]@);
            let date = trim(parts[0].as_str());
            if date.as_str().is_empty() {
                None
            } else {
                Some(date)
            }
        },
        None => None,
    }
}

/// The versions that the entries of a page list.
pub fn version_rows(items: &[VersionItem]) -> (r: Result<Vec<VersionRow>, ProviderError>)
    ensures
        common::outcomes(r) == versions_found(model::views(items@)),
{
    let ghost iv = model::views(items@);
    let mut rows: Vec<VersionRow> = Vec::new();
    let mut i: usize = 0;
    assert(model::views(rows@) == listed_versions(iv.take(0)));
    while i < items.len()
        invariant
            i <= items@.len(),
            iv == model::views(items@),
            model::views(rows@) == listed_versions(iv.take(i as int)),
        decreases items@.len() - i,
    {
        assert(iv.take(i + 1).drop_last() == iv.take(i as int));
        assert(iv.take(i + 1).last() == items@[i as int]@);
        if let Some(href) = &items[i].href {
            let row = VersionRow {
                name: text_or_empty(&items[i].name),
                uploaded: read_upload(&items[i].description),
                download_page_url: abs(href.as_str()),
            };
            proof {
                model::lemma_views_push(rows@, row);
            }
            rows.push(row);
        }
        i += 1;
    }
    assert(iv.take(iv.len() as int) == iv);
    assert(model::views(rows@).len() == rows@.len());
    if rows.len() == 0 {
        Err(ProviderError::NotFound("no versions listed".to_owned()))
    } else {
        Ok(rows)
    }
}

/// Reads the page of old versions.
pub fn parse_versions(html: &str) -> (r: Result<Vec<VersionRow>, ProviderError>)
    ensures
        common::outcomes(r) == versions_found(parse::version_items(html::document(html@))),
{
    let doc = parse_document(html);
    let items = read_versions(&doc);
    version_rows(&items)
}

/// One build that can be downloaded.
pub struct Variant {
    pub version: String,
    /// `APK` or `XAPK`.
    pub kind: String,
    pub arch: Vec<String>,
    /// `/r2?u=<encoded signed URL>` (absolute).
    pub r2_url: String,
}

/// What a [`Variant`] says.
pub struct VariantView {
    pub version: Seq<char>,
    pub kind: Seq<char>,
    pub arch: Seq<Seq<char>>,
    pub r2_url: Seq<char>,
}

impl View for Variant {
    type V = VariantView;

    open spec fn view(&self) -> VariantView {
        VariantView {
            version: self.version@,
            kind: self.kind@,
            arch: model::texts(self.arch@),
            r2_url: self.r2_url@,
        }
    }
}

/// Texts without white space at either end; those of which nothing is left are
/// dropped.
pub open spec fn tidied(ws: Seq<Seq<char>>) -> Seq<Seq<char>>
    decreases ws.len(),
{
    if ws.len() == 0 {
        Seq::<Seq<char>>::empty()
    } else {
        let front = tidied(ws.drop_last());
        let t = model::stripped(ws.last());
        if t.len() > 0 {
            front.push(t)
        } else {
            front
        }
    }
}

/// The ABIs that a label lists.
pub open spec fn arch_list(label: Option<Seq<char>>) -> Seq<Seq<char>> {
    match label {
        Some(t) => tidied(model::pieces(t, Class::Either(',', '+'))),
        None => Seq::<Seq<char>>::empty(),
    }
}

/// The variants so far and the addresses that they were found under.
pub struct Collected {
    pub variants: Seq<VariantView>,
    pub hrefs: Seq<Seq<char>>,
}

/// The variant that a file is.
pub open spec fn variant_at(
    arch: Seq<Seq<char>>,
    item: parse::VariantItemView,
    href: Seq<char>,
) -> VariantView {
    VariantView {
        version: or_empty(item.name),
        kind: or_empty(item.kind),
        arch,
        r2_url: site(href),
    }
}

/// The variants after the files of a group, each address once.
pub open spec fn with_items(
    acc: Collected,
    arch: Seq<Seq<char>>,
    items: Seq<parse::VariantItemView>,
) -> Collected
    decreases items.len(),
{
    if items.len() == 0 {
        acc
    } else {
        let front = with_items(acc, arch, items.drop_last());
        match items.last().href {
            Some(href) => if front.hrefs.contains(href) {
                front
            } else {
                Collected {
                    variants: front.variants.push(variant_at(arch, items.last(), href)),
                    hrefs: front.hrefs.push(href),
                }
            },
            None => front,
        }
    }
}

/// The variants of the groups, each address once.
pub open spec fn collected(groups: Seq<parse::VariantGroupView>) -> Collected
    decreases groups.len(),
{
    if groups.len() == 0 {
        Collected { variants: Seq::<VariantView>::empty(), hrefs: Seq::<Seq<char>>::empty() }
    } else {
        with_items(
            collected(groups.drop_last()),
            arch_list(groups.last().arch),
            groups.last().items,
        )
    }
}

/// What a variant fragment comes to.
pub open spec fn variants_found(groups: Seq<parse::VariantGroupView>) -> Result<
    Seq<VariantView>,
    contract::ErrorView,
> {
    if collected(groups).variants.len() == 0 {
        Err(contract::ErrorView::ParseError("no variants in download fragment"@))
    } else {
        Ok(collected(groups).variants)
    }
}

/// The ABIs that a label lists.
fn list_arch(label: &Option<String>) -> (r: Vec<String>)
    ensures
        model::texts(r@) == arch_list(model::opt(*label)),
{
    let mut out: Vec<String> = Vec::new();
    let t = match label {
        Some(t) => t,
        None => {
            assert(model::texts(out@) == Seq::<Seq<char>>::empty());
            return out;
        },
    };
    let parts = split_by(t.as_str(), Class::Either(',', '+'));
    let ghost ps = model::texts(parts@);
    let mut i: usize = 0;
    assert(model::texts(out@) == tidied(ps.take(0)));
    while i < parts.len()
        invariant
            i <= parts@.len(),
            ps == model::texts(parts@),
            model::texts(out@) == tidied(ps.take(i as int)),
        decreases parts@.len() - i,
    {
        assert(ps.take(i + 1).drop_last() == ps.take(i as int));
        assert(ps.take(i + 1).last() == parts@[i as int]@);
        let p = trim(parts[i].as_str());
        if !p.as_str().is_empty() {
            let ghost before = out@;
            let ghost pv = p@;
            out.push(p);
            assert(model::texts(out@) == model::texts(before).push(pv));
        }
        i += 1;
    }
    assert(ps.take(ps.len() as int) == ps);
    out
}

/// A copy of a list of texts.
pub(crate) fn copy_texts(v: &Vec<String>) -> (r: Vec<String>)
    ensures
        model::texts(r@) == model::texts(v@),
{
    let mut out: Vec<String> = Vec::new();
    let mut i: usize = 0;
    while i < v.len()
        invariant
            i <= v@.len(),
            model::texts(out@) == model::texts(v@).take(i as int),
        decreases v@.len() - i,
    {
        let ghost before = out@;
        out.push(v[i].clone());
        assert(model::texts(out@) == model::texts(before).push(v@[i as int]@));
        assert(model::texts(out@) == model::texts(v@).take(i + 1));
        i += 1;
    }
    assert(model::texts(v@).take(v@.len() as int) == model::texts(v@));
    out
}

/// Adds the files of a group to the variants.
fn add_items(
    variants: &mut Vec<Variant>,
    seen: &mut Vec<String>,
    arch: &Vec<String>,
    items: &[VariantItem],
)
    ensures
        ({
            let before = Collected {
                variants: model::views(old(variants)@),
                hrefs: model::texts(old(seen)@),
            };
            let after = with_items(before, model::texts(arch@), model::views(items@));
            model::views(final(variants)@) == after.variants && model::texts(final(seen)@)
                == after.hrefs
        }),
{
    let ghost iv = model::views(items@);
    let ghost abis = model::texts(arch@);
    let ghost before = Collected {
        variants: model::views(variants@),
        hrefs: model::texts(seen@),
    };
    let mut i: usize = 0;
    assert(iv.take(0) == Seq::<parse::VariantItemView>::empty());
    while i < items.len()
        invariant
            i <= items@.len(),
            iv == model::views(items@),
            abis == model::texts(arch@),
            model::views(variants@) == with_items(before, abis, iv.take(i as int)).variants,
            model::texts(seen@) == with_items(before, abis, iv.take(i as int)).hrefs,
        decreases items@.len() - i,
    {
        assert(iv.take(i + 1).drop_last() == iv.take(i as int));
        assert(iv.take(i + 1).last() == items@[i as int]@);
        let item = &items[i];
        if let Some(href) = &item.href {
            if !listed(seen, href.as_str()) {
                let v = Variant {
                    version: text_or_empty(&item.name),
                    kind: text_or_empty(&item.kind),
                    arch: copy_texts(arch),
                    r2_url: abs(href.as_str()),
                };
                assert(v@ == variant_at(abis, item@, href@));
                let ghost old_seen = seen@;
                seen.push(href.clone());
                assert(model::texts(seen@) == model::texts(old_seen).push(href@));
                proof {
                    model::lemma_views_push(variants@, v);
                }
                variants.push(v);
            }
        }
        i += 1;
    }
    assert(iv.take(iv.len() as int) == iv);
}

/// The variants of the groups, each address once.
pub fn variant_list(groups: &[VariantGroup]) -> (r: Result<Vec<Variant>, ProviderError>)
    ensures
        common::outcomes(r) == variants_found(model::views(groups@)),
{
    let ghost gv = model::views(groups@);
    let mut variants: Vec<Variant> = Vec::new();
    let mut seen: Vec<String> = Vec::new();
    let mut i: usize = 0;
    assert(model::views(variants@) == collected(gv.take(0)).variants);
    assert(model::texts(seen@) == collected(gv.take(0)).hrefs);
    while i < groups.len()
        invariant
            i <= groups@.len(),
            gv == model::views(groups@),
            model::views(variants@) == collected(gv.take(i as int)).variants,
            model::texts(seen@) == collected(gv.take(i as int)).hrefs,
        decreases groups@.len() - i,
    {
        assert(gv.take(i + 1).drop_last() == gv.take(i as int));
        assert(gv.take(i + 1).last() == groups@[i as int]@);
        let arch = list_arch(&groups[i].arch);
        add_items(&mut variants, &mut seen, &arch, &groups[i].items);
        i += 1;
    }
    assert(gv.take(gv.len() as int) == gv);
    assert(model::views(variants@).len() == variants@.len());
    if variants.len() == 0 {
        Err(ProviderError::ParseError("no variants in download fragment".to_owned()))
    } else {
        Ok(variants)
    }
}

/// Reads the variant fragment.
pub fn parse_variants(fragment: &str) -> (r: Result<Vec<Variant>, ProviderError>)
    ensures
        common::outcomes(r) == variants_found(parse::variant_groups(html::snippet(fragment@))),
{
    let doc = parse_fragment(fragment);
    let groups = read_groups(&doc);
    variant_list(&groups)
}

/// Whether a variant is of the kind that is wanted.
pub open spec fn kind_ok(v: VariantView, bundle: bool) -> bool {
    model::same_letters(v.kind, if bundle { "xapk"@ } else { "apk"@ })
}

/// Whether a variant lists an ABI.
pub open spec fn arch_ok(v: VariantView, arch: Seq<char>) -> bool {
    exists|i: int| 0 <= i < v.arch.len() && model::same_letters(#[trigger] v.arch[i], arch)
}

/// The first variant of a kind that lists an ABI.
pub open spec fn exact(vs: Seq<VariantView>, arch: Seq<char>, bundle: bool) -> Option<int>
    decreases vs.len(),
{
    if vs.len() == 0 {
        None
    } else {
        match exact(vs.drop_last(), arch, bundle) {
            Some(i) => Some(i),
            None => if kind_ok(vs.last(), bundle) && arch_ok(vs.last(), arch) {
                Some(vs.len() - 1)
            } else {
                None
            },
        }
    }
}

/// The last of the variants of a kind that list the most ABIs.
pub open spec fn widest(vs: Seq<VariantView>, bundle: bool) -> Option<int>
    decreases vs.len(),
{
    if vs.len() == 0 {
        None
    } else {
        let front = widest(vs.drop_last(), bundle);
        if !kind_ok(vs.last(), bundle) {
            front
        } else {
            match front {
                Some(i) if vs[i].arch.len() > vs.last().arch.len() => front,
                _ => Some(vs.len() - 1),
            }
        }
    }
}

/// The variant to download: of the wanted kind with the ABI, else of that kind
/// with the most ABIs, else the first.
pub open spec fn choice(vs: Seq<VariantView>, arch: Seq<char>, bundle: bool) -> Option<int> {
    match exact(vs, arch, bundle) {
        Some(i) => Some(i),
        None => match widest(vs, bundle) {
            Some(i) => Some(i),
            None => if vs.len() > 0 {
                Some(0)
            } else {
                None
            },
        },
    }
}

/// Whether a variant lists an ABI.
fn has_arch(v: &Variant, arch: &str) -> (r: bool)
    ensures
        r == arch_ok(v@, arch@),
{
    let mut i: usize = 0;
    while i < v.arch.len()
        invariant
            i <= v.arch@.len(),
            forall|j: int| 0 <= j < i ==> !model::same_letters(#[trigger] v.arch@[j]@, arch@),
        decreases v.arch@.len() - i,
    {
        if eq_ignore_ascii_case(v.arch[i].as_str(), arch) {
            assert(model::same_letters(v@.arch[i as int], arch@));
            return true;
        }
        i += 1;
    }
    assert forall|j: int| 0 <= j < v@.arch.len() implies !model::same_letters(
        #[trigger] v@.arch[j],
        arch@,
    ) by {
        assert(v@.arch[j] == v.arch@[j]@);
    }
    false
}

/// Whether a variant is of the kind that is wanted.
fn is_kind(v: &Variant, bundle: bool) -> (r: bool)
    ensures
        r == kind_ok(v@, bundle),
{
    if bundle {
        eq_ignore_ascii_case(v.kind.as_str(), "xapk")
    } else {
        eq_ignore_ascii_case(v.kind.as_str(), "apk")
    }
}

/// An exact variant that is found early stays the first one.
proof fn lemma_exact(vs: Seq<VariantView>, arch: Seq<char>, bundle: bool, n: int)
    requires
        0 <= n <= vs.len(),
        exact(vs.take(n), arch, bundle) is Some,
    ensures
        exact(vs, arch, bundle) == exact(vs.take(n), arch, bundle),
    decreases vs.len() - n,
{
    if n == vs.len() {
        assert(vs.take(n) == vs);
    } else {
        assert(vs.take(n + 1).drop_last() == vs.take(n));
        lemma_exact(vs, arch, bundle, n + 1);
    }
}

/// Picks a variant: an XAPK where a bundle is wanted, else an APK; with the exact
/// ABI, else with the most ABIs, else the first.
pub fn choose_variant<'a>(variants: &'a [Variant], arch: &str, bundle: bool) -> (r: Option<
    &'a Variant,
>)
    ensures
        match choice(model::views(variants@), arch@, bundle) {
            Some(i) => 0 <= i < variants@.len() && r == Some(&variants@[i]),
            None => r is None,
        },
{
    let ghost vs = model::views(variants@);
    let mut best: Option<usize> = None;
    let mut i: usize = 0;
    while i < variants.len()
        invariant
            i <= variants@.len(),
            vs == model::views(variants@),
            exact(vs.take(i as int), arch@, bundle) is None,
            (match best {
                Some(b) => Some(b as int),
                None => None,
            }) == widest(vs.take(i as int), bundle),
            best matches Some(b) ==> b < i,
        decreases variants@.len() - i,
    {
        assert(vs.take(i + 1).drop_last() == vs.take(i as int));
        let v = &variants[i];
        assert(vs.take(i + 1).last() == v@);
        if is_kind(v, bundle) {
            if has_arch(v, arch) {
                proof {
                    lemma_exact(vs, arch@, bundle, i + 1);
                }
                return Some(v);
            }
            let wider = match best {
                Some(b) => {
                    assert(vs.take(i + 1)[b as int] == variants@[b as int]@);
                    variants[b].arch.len() <= v.arch.len()
                },
                None => true,
            };
            if wider {
                best = Some(i);
            }
        }
        i += 1;
    }
    assert(vs.take(vs.len() as int) == vs);
    match best {
        Some(b) => Some(&variants[b]),
        None => if variants.len() > 0 {
            Some(&variants[0])
        } else {
            None
        },
    }
}

/// A variant is picked whenever there is one. It is of the wanted kind wherever
/// one is, and has the ABI wherever one of that kind has it.
pub proof fn lemma_choice(vs: Seq<VariantView>, arch: Seq<char>, bundle: bool)
    ensures
        choice(vs, arch, bundle) is None <==> vs.len() == 0,
        match choice(vs, arch, bundle) {
            Some(i) => {
                &&& 0 <= i < vs.len()
                &&& forall|j: int|
                    0 <= j < vs.len() && kind_ok(#[trigger] vs[j], bundle) ==> kind_ok(vs[i], bundle)
                        && (arch_ok(vs[j], arch) ==> arch_ok(vs[i], arch))
            },
            None => true,
        },
{
    lemma_exact_is(vs, arch, bundle);
    lemma_widest_is(vs, bundle);
}

/// What [`exact`] finds.
proof fn lemma_exact_is(vs: Seq<VariantView>, arch: Seq<char>, bundle: bool)
    ensures
        match exact(vs, arch, bundle) {
            Some(i) => 0 <= i < vs.len() && kind_ok(vs[i], bundle) && arch_ok(vs[i], arch),
            None => forall|j: int|
                0 <= j < vs.len() ==> !(kind_ok(#[trigger] vs[j], bundle) && arch_ok(vs[j], arch)),
        },
    decreases vs.len(),
{
    if vs.len() > 0 {
        let front = vs.drop_last();
        lemma_exact_is(front, arch, bundle);
        assert forall|j: int| 0 <= j < front.len() implies front[j] == vs[j] by {}
    }
}

/// What [`widest`] finds.
proof fn lemma_widest_is(vs: Seq<VariantView>, bundle: bool)
    ensures
        match widest(vs, bundle) {
            Some(i) => 0 <= i < vs.len() && kind_ok(vs[i], bundle),
            None => forall|j: int| 0 <= j < vs.len() ==> !kind_ok(#[trigger] vs[j], bundle),
        },
    decreases vs.len(),
{
    if vs.len() > 0 {
        let front = vs.drop_last();
        lemma_widest_is(front, bundle);
        assert forall|j: int| 0 <= j < front.len() implies front[j] == vs[j] by {}
    }
}

} // verus!
