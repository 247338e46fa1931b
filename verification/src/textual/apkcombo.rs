//! APKCombo. No captcha stands before the download: a package id leads to the slug
//! of its page, and that to the download.

use crate::common::contract as common;
use crate::common::contract::ProviderId;
use crate::common::flow;
use crate::common::flow::{field, Reply, Request, Step};
use crate::html;
use crate::model;
use crate::providers::apkcombo::parse as pages;
use crate::providers::apkcombo::parse::{extract_xid, final_download_url, SearchHit};
use crate::providers::scrape;
use crate::providers::scrape::{find_pinned, version_token};
use crate::strings::{copied, eq_ignore_ascii_case, plus, plus3, plus4};
use crate::textual::contract;
use crate::textual::contract::{
    download_filename, AppResult, DownloadTarget, ProviderError, VersionInfo,
};
use crate::textual::urls;
use crate::textual::urls::spaced;
use vstd::prelude::*;

pub mod parse;

verus! {

/// The site.
pub struct ApkCombo;

/// The page of a search.
pub open spec fn search_page(q: Seq<char>) -> Seq<char> {
    parse::BASE_URL@ + "/search?q="@ + urls::plussed(q)
}

/// `{BASE}/{slug}/{pkg}/{tail}`.
pub open spec fn app_page(slug: Seq<char>, pkg: Seq<char>, tail: Seq<char>) -> Seq<char> {
    parse::BASE_URL@ + "/"@ + slug + "/"@ + pkg + "/"@ + tail
}

/// The page of a search.
fn search_url(query: &str) -> (r: String)
    ensures
        r@ == search_page(query@),
{
    let term = spaced(query);
    plus3(parse::BASE_URL, "/search?q=", term.as_str())
}

/// `{BASE}/{slug}/{pkg}/{tail}`.
fn app_url(slug: &str, pkg: &str, tail: &str) -> (r: String)
    ensures
        r@ == app_page(slug@, pkg@, tail@),
{
    let head = plus4(parse::BASE_URL, "/", slug, "/");
    plus4(head.as_str(), pkg, "/", tail)
}

/// A search is waiting for its page.
pub struct Searching;

impl View for Searching {
    type V = Searching;

    open spec fn view(&self) -> Searching {
        *self
    }
}

/// The results that hits are.
pub open spec fn results(hits: Seq<common::AppView>) -> Seq<contract::AppView> {
    Seq::new(
        hits.len(),
        |i: int|
            contract::AppView {
                package: hits[i].package,
                title: hits[i].title,
                version: None,
                developer: None,
                provider: ProviderId::Apkcombo,
            },
    )
}

/// The results that hits are.
fn app_results(hits: Vec<SearchHit>) -> (r: Vec<AppResult>)
    ensures
        model::views(r@) == results(model::views(hits@)),
{
    let ghost all = results(model::views(hits@));
    let mut out: Vec<AppResult> = Vec::new();
    let mut i: usize = 0;
    assert(model::views(out@) == all.take(0));
    while i < hits.len()
        invariant
            i <= hits@.len(),
            all == results(model::views(hits@)),
            model::views(out@) == all.take(i as int),
        decreases hits@.len() - i,
    {
        let a = AppResult {
            package: hits[i].package.clone(),
            title: hits[i].title.clone(),
            version: None,
            developer: None,
            provider: ProviderId::Apkcombo,
        };
        assert(a@ == all[i as int]);
        proof {
            model::lemma_views_push(out@, a);
        }
        out.push(a);
        assert(model::views(out@) == all.take(i + 1));
        i += 1;
    }
    assert(all.take(all.len() as int) == all);
    out
}

/// What a search asks first.
pub open spec fn search_start(q: Seq<char>) -> flow::StepView<
    Searching,
    Seq<contract::AppView>,
    contract::ErrorView,
> {
    flow::StepView::Ask(flow::RequestView::Get(search_page(q)), Searching)
}

/// What a reply to a search comes to.
pub open spec fn search_next(state: Searching, reply: flow::ReplyView<contract::ErrorView>) -> flow::StepView<
    Searching,
    Seq<contract::AppView>,
    contract::ErrorView,
> {
    flow::StepView::Done(
        match reply {
            Ok(page) => match parse::searched(pages::search_rows(html::document(page))) {
                Ok(hits) => Ok(results(hits)),
                Err(e) => Err(e),
            },
            Err(e) => Err(e),
        },
    )
}

impl Searching {
    /// Goes on with the reply.
    pub fn advance(self, reply: Reply<ProviderError>) -> (r: Step<
        Searching,
        Vec<AppResult>,
        ProviderError,
    >)
        ensures
            flow::list_step(r) == search_next(self@, flow::reply_view(reply)),
    {
        let page = match reply {
            Ok(page) => page,
            Err(e) => {
                return Step::Done(Err(e));
            },
        };
        match parse::parse_search(page.as_str()) {
            Ok(hits) => Step::Done(Ok(app_results(hits))),
            Err(e) => Step::Done(Err(e)),
        }
    }
}

/// The request for the canonical page of a package.
pub open spec fn slug_request(pkg: Seq<char>) -> flow::RequestView {
    flow::RequestView::Resolve(app_page(parse::LOOKUP_LOCALE@, pkg, ""@))
}

/// The slug, from where that request led.
pub open spec fn slug_read(pkg: Seq<char>, url: Seq<char>) -> Result<Seq<char>, contract::ErrorView> {
    match parse::slug_in(url, pkg) {
        Some(slug) => Ok(slug),
        None => Err(contract::ErrorView::NotFound("no app page for "@ + pkg)),
    }
}

/// The request for the canonical page of a package.
fn ask_slug(pkg: &str) -> (r: Request)
    ensures
        r@ == slug_request(pkg@),
{
    Request::Resolve(app_url(parse::LOOKUP_LOCALE, pkg, ""))
}

/// The slug of a package, from where the lookup led.
pub fn slug_for(pkg: &str, final_url: &str) -> (r: Result<String, ProviderError>)
    ensures
        common::outcome(r) == slug_read(pkg@, final_url@),
{
    match parse::slug_from_canonical_url(final_url, pkg) {
        Some(slug) => Ok(slug),
        None => {
            let msg = plus("no app page for ", pkg);
            Err(ProviderError::NotFound(msg))
        },
    }
}

/// The request for the list of versions.
pub open spec fn rows_request(slug: Seq<char>, pkg: Seq<char>) -> flow::RequestView {
    flow::RequestView::Get(app_page(slug, pkg, "old-versions"@))
}

/// The list of versions on a page.
pub open spec fn rows_read(page: Seq<char>) -> Result<
    Seq<parse::VersionRowView>,
    contract::ErrorView,
> {
    parse::versions_found(pages::version_items(html::document(page)))
}

/// The versions of rows.
pub open spec fn infos(rows: Seq<parse::VersionRowView>) -> Seq<contract::VersionView> {
    Seq::new(
        rows.len(),
        |i: int|
            contract::VersionView {
                version: scrape::version_of(rows[i].name),
                version_code: None,
                uploaded: rows[i].uploaded,
                provider: ProviderId::Apkcombo,
            },
    )
}

/// The versions of rows.
fn version_infos(rows: Vec<parse::VersionRow>) -> (r: Vec<VersionInfo>)
    ensures
        model::views(r@) == infos(model::views(rows@)),
{
    let ghost all = infos(model::views(rows@));
    let mut out: Vec<VersionInfo> = Vec::new();
    let mut i: usize = 0;
    assert(model::views(out@) == all.take(0));
    while i < rows.len()
        invariant
            i <= rows@.len(),
            all == infos(model::views(rows@)),
            model::views(out@) == all.take(i as int),
        decreases rows@.len() - i,
    {
        let uploaded = match &rows[i].uploaded {
            Some(d) => Some(d.clone()),
            None => None,
        };
        let v = VersionInfo {
            version: version_token(rows[i].name.as_str()),
            version_code: None,
            uploaded,
            provider: ProviderId::Apkcombo,
        };
        assert(v@ == all[i as int]);
        proof {
            model::lemma_views_push(out@, v);
        }
        out.push(v);
        assert(model::views(out@) == all.take(i + 1));
        i += 1;
    }
    assert(all.take(all.len() as int) == all);
    out
}

/// A listing of versions is waiting for a reply.
pub enum Listing {
    /// Where the package id leads.
    Slug(String),
    /// The list.
    Rows,
}

/// What a [`Listing`] says.
pub enum ListingView {
    Slug(Seq<char>),
    Rows,
}

impl View for Listing {
    type V = ListingView;

    open spec fn view(&self) -> ListingView {
        match *self {
            Listing::Slug(pkg) => ListingView::Slug(pkg@),
            Listing::Rows => ListingView::Rows,
        }
    }
}

/// What a listing asks first.
pub open spec fn versions_start(pkg: Seq<char>) -> flow::StepView<
    ListingView,
    Seq<contract::VersionView>,
    contract::ErrorView,
> {
    flow::StepView::Ask(slug_request(pkg), ListingView::Slug(pkg))
}

/// How a listing goes on with a reply.
pub open spec fn versions_next(
    state: ListingView,
    reply: flow::ReplyView<contract::ErrorView>,
) -> flow::StepView<ListingView, Seq<contract::VersionView>, contract::ErrorView> {
    match reply {
        Err(e) => flow::StepView::Done(Err(e)),
        Ok(text) => match state {
            ListingView::Slug(pkg) => match slug_read(pkg, text) {
                Ok(slug) => flow::StepView::Ask(rows_request(slug, pkg), ListingView::Rows),
                Err(e) => flow::StepView::Done(Err(e)),
            },
            ListingView::Rows => flow::StepView::Done(
                match rows_read(text) {
                    Ok(rows) => Ok(infos(rows)),
                    Err(e) => Err(e),
                },
            ),
        },
    }
}

impl Listing {
    /// Goes on with the reply.
    pub fn advance(self, reply: Reply<ProviderError>) -> (r: Step<
        Listing,
        Vec<VersionInfo>,
        ProviderError,
    >)
        ensures
            flow::list_step(r) == versions_next(self@, flow::reply_view(reply)),
    {
        let text = match reply {
            Ok(text) => text,
            Err(e) => {
                return Step::Done(Err(e));
            },
        };
        match self {
            Listing::Slug(pkg) => match slug_for(pkg.as_str(), text.as_str()) {
                Ok(slug) => Step::Ask(
                    Request::Get(app_url(slug.as_str(), pkg.as_str(), "old-versions")),
                    Listing::Rows,
                ),
                Err(e) => Step::Done(Err(e)),
            },
            Listing::Rows => match parse::parse_versions(text.as_str()) {
                Ok(rows) => Step::Done(Ok(version_infos(rows))),
                Err(e) => Step::Done(Err(e)),
            },
        }
    }
}

/// Which reply a download is waiting for.
pub enum Stage {
    /// Where the package id leads.
    Slug,
    /// The list of versions under a slug, for the version asked for.
    Rows(String, String),
    /// The download page under a slug.
    Page(String),
    /// The variant fragment.
    Fragment,
    /// The check-in token for a variant.
    Checkin(parse::Variant),
}

/// What a [`Stage`] says.
pub enum StageView {
    Slug,
    Rows(Seq<char>, Seq<char>),
    Page(Seq<char>),
    Fragment,
    Checkin(parse::VariantView),
}

impl View for Stage {
    type V = StageView;

    open spec fn view(&self) -> StageView {
        match *self {
            Stage::Slug => StageView::Slug,
            Stage::Rows(slug, want) => StageView::Rows(slug@, want@),
            Stage::Page(slug) => StageView::Page(slug@),
            Stage::Fragment => StageView::Fragment,
            Stage::Checkin(v) => StageView::Checkin(v@),
        }
    }
}

/// A download on its way: what was asked for, and the reply it is waiting for.
pub struct Download {
    pub pkg: String,
    pub version: Option<String>,
    pub arch: String,
    pub stage: Stage,
}

/// What a [`Download`] says.
pub struct DownloadView {
    pub pkg: Seq<char>,
    pub version: Option<Seq<char>>,
    pub arch: Seq<char>,
    pub stage: StageView,
}

impl View for Download {
    type V = DownloadView;

    open spec fn view(&self) -> DownloadView {
        DownloadView {
            pkg: self.pkg@,
            version: model::opt(self.version),
            arch: self.arch@,
            stage: self.stage@,
        }
    }
}

/// The versions of rows.
pub open spec fn versions_in(rows: Seq<parse::VersionRowView>) -> Seq<Seq<char>> {
    Seq::new(rows.len(), |i: int| scrape::version_of(rows[i].name))
}

/// The version to take: the one asked for, else the first below it.
pub open spec fn build_at(rows: Seq<parse::VersionRowView>, want: Seq<char>) -> Option<
    parse::VersionRowView,
> {
    match scrape::pinned(versions_in(rows), want) {
        Some(i) => Some(rows[i]),
        None => None,
    }
}

/// The version to take: the one asked for, else the first below it.
fn find_row(rows: &[parse::VersionRow], want: &str) -> (r: Option<usize>)
    ensures
        r matches Some(i) ==> i < rows@.len(),
        (match r {
            Some(i) => Some(rows@[i as int]@),
            None => None,
        }) == build_at(model::views(rows@), want@),
{
    let ghost rv = model::views(rows@);
    let ghost all = versions_in(rv);
    let mut versions: Vec<String> = Vec::new();
    let mut i: usize = 0;
    assert(model::texts(versions@) == all.take(0));
    while i < rows.len()
        invariant
            i <= rows@.len(),
            rv == model::views(rows@),
            all == versions_in(rv),
            model::texts(versions@) == all.take(i as int),
        decreases rows@.len() - i,
    {
        assert(rv[i as int] == rows@[i as int]@);
        let v = version_token(rows[i].name.as_str());
        let ghost before = versions@;
        versions.push(v);
        assert(model::texts(versions@) == model::texts(before).push(v@));
        assert(model::texts(versions@) == all.take(i + 1));
        i += 1;
    }
    assert(all.take(all.len() as int) == all);
    assert(model::texts(versions@).len() == versions@.len());
    let found = find_pinned(&versions, want);
    assert(found matches Some(k) ==> rv[k as int] == rows@[k as int]@);
    found
}

/// A row of the version asked for wins wherever it stands, and the first of them.
pub proof fn lemma_exact_wins(rows: Seq<parse::VersionRowView>, want: Seq<char>, n: int)
    requires
        0 <= n < rows.len(),
        versions_in(rows)[n] == want,
    ensures
        exists|i: int|
            0 <= i <= n && build_at(rows, want) == Some(#[trigger] rows[i]) && versions_in(rows)[i]
                == want,
{
    let vs = versions_in(rows);
    scrape::lemma_pinned(vs, want);
    assert(vs.contains(vs[n]));
    let i = scrape::pinned(vs, want)->0;
    assert(build_at(rows, want) == Some(rows[i]));
}

/// The download page of the version asked for.
pub open spec fn build_page(
    rows: Seq<parse::VersionRowView>,
    want: Seq<char>,
    pkg: Seq<char>,
) -> Result<Seq<char>, contract::ErrorView> {
    match build_at(rows, want) {
        Some(row) => Ok(row.download_page_url),
        None => Err(contract::ErrorView::NotFound("no build "@ + want + " for "@ + pkg)),
    }
}

/// The download page of the version asked for.
pub fn find_build(rows: &[parse::VersionRow], want: &str, pkg: &str) -> (r: Result<
    String,
    ProviderError,
>)
    ensures
        common::outcome(r) == build_page(model::views(rows@), want@, pkg@),
{
    match find_row(rows, want) {
        Some(i) => Ok(rows[i].download_page_url.clone()),
        None => Err(ProviderError::NotFound(plus4("no build ", want, " for ", pkg))),
    }
}

/// The plain APK to download.
pub open spec fn variant_for(
    vs: Seq<parse::VariantView>,
    arch: Seq<char>,
    pkg: Seq<char>,
) -> Result<parse::VariantView, contract::ErrorView> {
    match parse::choice(vs, arch, false) {
        Some(i) => Ok(vs[i]),
        None => Err(contract::ErrorView::NotFound("no downloadable variant for "@ + pkg)),
    }
}

/// The plain APK to download.
pub fn pick_variant(variants: &[parse::Variant], arch: &str, pkg: &str) -> (r: Result<
    parse::Variant,
    ProviderError,
>)
    ensures
        common::outcome(r) == variant_for(model::views(variants@), arch@, pkg@),
{
    match parse::choose_variant(variants, arch, false) {
        Some(v) => Ok(
            parse::Variant {
                version: v.version.clone(),
                kind: v.kind.clone(),
                arch: parse::copy_texts(&v.arch),
                r2_url: v.r2_url.clone(),
            },
        ),
        None => {
            let msg = plus("no downloadable variant for ", pkg);
            Err(ProviderError::NotFound(msg))
        },
    }
}

/// The request for the variant fragment.
pub open spec fn fragment_request(d: DownloadView, slug: Seq<char>, page: Seq<char>) -> flow::RequestView {
    let xid = match pages::xid_in(page) {
        Some(tag) => tag,
        None => pages::FALLBACK_XID@,
    };
    let version = match d.version {
        Some(v) => v,
        None => ""@,
    };
    flow::RequestView::Post(
        app_page(slug, d.pkg, xid + "/dl"@),
        seq![("package_name"@, d.pkg), ("version"@, version)],
    )
}

/// The check-in request.
pub open spec fn checkin_request() -> flow::RequestView {
    flow::RequestView::Post(
        parse::BASE_URL@ + "/checkin"@,
        Seq::<(Seq<char>, Seq<char>)>::empty(),
    )
}

/// The version of a target: that of the variant, else the one asked for.
pub open spec fn target_version(d: DownloadView, v: parse::VariantView) -> Seq<char> {
    if v.version.len() > 0 {
        scrape::version_of(v.version)
    } else {
        match d.version {
            Some(want) => want,
            None => "latest"@,
        }
    }
}

/// The first ABI that a variant lists.
pub open spec fn first_arch(v: parse::VariantView) -> Option<Seq<char>> {
    if v.arch.len() > 0 {
        Some(v.arch[0])
    } else {
        None
    }
}

/// The target that a variant and a check-in token make.
pub open spec fn target(d: DownloadView, v: parse::VariantView, token: Seq<char>) -> contract::TargetView {
    let version = target_version(d, v);
    let ext = if model::same_letters(v.kind, "XAPK"@) { "xapk"@ } else { "apk"@ };
    contract::TargetView {
        url: pages::final_url(v.r2_url, token, d.pkg),
        filename: contract::filename(d.pkg, version, first_arch(v), ext),
        version: Some(version),
        arch: first_arch(v),
        provider: ProviderId::Apkcombo,
        headers: Seq::<(Seq<char>, Seq<char>)>::empty(),
    }
}

/// What a download asks first.
pub open spec fn download_start(
    pkg: Seq<char>,
    version: Option<Seq<char>>,
    arch: Seq<char>,
) -> flow::StepView<DownloadView, contract::TargetView, contract::ErrorView> {
    flow::StepView::Ask(
        slug_request(pkg),
        DownloadView { pkg, version, arch, stage: StageView::Slug },
    )
}

/// How a download goes on with a reply.
pub open spec fn download_next(
    d: DownloadView,
    reply: flow::ReplyView<contract::ErrorView>,
) -> flow::StepView<DownloadView, contract::TargetView, contract::ErrorView> {
    match reply {
        Err(e) => flow::StepView::Done(Err(e)),
        Ok(text) => match d.stage {
            StageView::Slug => match slug_read(d.pkg, text) {
                Err(e) => flow::StepView::Done(Err(e)),
                Ok(slug) => match d.version {
                    None => flow::StepView::Ask(
                        flow::RequestView::Get(
                            app_page(slug, d.pkg, "download/phone-latest-apk"@),
                        ),
                        DownloadView { stage: StageView::Page(slug), ..d },
                    ),
                    Some(want) => flow::StepView::Ask(
                        rows_request(slug, d.pkg),
                        DownloadView { stage: StageView::Rows(slug, want), ..d },
                    ),
                },
            },
            StageView::Rows(slug, want) => match rows_read(text) {
                Err(e) => flow::StepView::Done(Err(e)),
                Ok(rows) => match build_page(rows, want, d.pkg) {
                    Err(e) => flow::StepView::Done(Err(e)),
                    Ok(page) => flow::StepView::Ask(
                        flow::RequestView::Get(page),
                        DownloadView { stage: StageView::Page(slug), ..d },
                    ),
                },
            },
            StageView::Page(slug) => flow::StepView::Ask(
                fragment_request(d, slug, text),
                DownloadView { stage: StageView::Fragment, ..d },
            ),
            StageView::Fragment => match parse::variants_found(
                pages::variant_groups(html::snippet(text)),
            ) {
                Err(e) => flow::StepView::Done(Err(e)),
                Ok(vs) => match variant_for(vs, d.arch, d.pkg) {
                    Err(e) => flow::StepView::Done(Err(e)),
                    Ok(v) => flow::StepView::Ask(
                        checkin_request(),
                        DownloadView { stage: StageView::Checkin(v), ..d },
                    ),
                },
            },
            StageView::Checkin(v) => flow::StepView::Done(Ok(target(d, v, text))),
        },
    }
}

impl Download {
    /// The same download, waiting for another reply.
    fn at(self, stage: Stage) -> (r: Download)
        ensures
            r@ == (DownloadView { stage: stage@, ..self@ }),
    {
        Download { pkg: self.pkg, version: self.version, arch: self.arch, stage }
    }

    /// Goes on with where the package id led.
    fn after_slug(self, text: &str) -> (r: Step<Download, DownloadTarget, ProviderError>)
        ensures
            flow::step(r) == download_next(
                (DownloadView { stage: StageView::Slug, ..self@ }),
                Ok(text@),
            ),
    {
        let slug = match slug_for(self.pkg.as_str(), text) {
            Ok(slug) => slug,
            Err(e) => {
                return Step::Done(Err(e));
            },
        };
        match &self.version {
            None => {
                let page = app_url(slug.as_str(), self.pkg.as_str(), "download/phone-latest-apk");
                Step::Ask(Request::Get(page), self.at(Stage::Page(slug)))
            },
            Some(want) => {
                let want = want.clone();
                let page = app_url(slug.as_str(), self.pkg.as_str(), "old-versions");
                Step::Ask(Request::Get(page), self.at(Stage::Rows(slug, want)))
            },
        }
    }

    /// Goes on with the download page.
    fn after_page(self, slug: String, text: &str) -> (r: Step<
        Download,
        DownloadTarget,
        ProviderError,
    >)
        ensures
            flow::step(r) == download_next(
                (DownloadView { stage: StageView::Page(slug@), ..self@ }),
                Ok(text@),
            ),
    {
        let xid = extract_xid(text);
        let tail = plus(xid.as_str(), "/dl");
        let url = app_url(slug.as_str(), self.pkg.as_str(), tail.as_str());
        let mut form: Vec<(String, String)> = Vec::new();
        field(&mut form, "package_name", self.pkg.as_str());
        match &self.version {
            Some(v) => field(&mut form, "version", v.as_str()),
            None => field(&mut form, "version", ""),
        }
        let ghost paged = DownloadView { stage: StageView::Page(slug@), ..self@ };
        assert(flow::RequestView::Post(url@, common::header_texts(form@)) == fragment_request(
            paged,
            slug@,
            text@,
        )) by {
            assert(common::header_texts(form@) == fragment_request(paged, slug@, text@)->Post_1);
        }
        Step::Ask(Request::Post(url, form), self.at(Stage::Fragment))
    }

    /// Goes on with the variant fragment.
    fn after_fragment(self, text: &str) -> (r: Step<Download, DownloadTarget, ProviderError>)
        ensures
            flow::step(r) == download_next(
                (DownloadView { stage: StageView::Fragment, ..self@ }),
                Ok(text@),
            ),
    {
        let variants = match parse::parse_variants(text) {
            Ok(vs) => vs,
            Err(e) => {
                return Step::Done(Err(e));
            },
        };
        match pick_variant(&variants, self.arch.as_str(), self.pkg.as_str()) {
            Ok(v) => {
                let url = plus(parse::BASE_URL, "/checkin");
                let form: Vec<(String, String)> = Vec::new();
                assert(common::header_texts(form@) == Seq::<(Seq<char>, Seq<char>)>::empty());
                Step::Ask(Request::Post(url, form), self.at(Stage::Checkin(v)))
            },
            Err(e) => Step::Done(Err(e)),
        }
    }

    /// Ends with the check-in token.
    fn after_checkin(self, v: parse::Variant, token: &str) -> (r: DownloadTarget)
        ensures
            r@ == target(
                (DownloadView { stage: StageView::Checkin(v@), ..self@ }),
                v@,
                token@,
            ),
    {
        let version = if !v.version.as_str().is_empty() {
            version_token(v.version.as_str())
        } else {
            match &self.version {
                Some(want) => want.clone(),
                None => "latest".to_owned(),
            }
        };
        let ext = if eq_ignore_ascii_case(v.kind.as_str(), "XAPK") { "xapk" } else { "apk" };
        let arch: Option<String> = if v.arch.len() > 0 {
            assert(v@.arch[0] == v.arch@[0]@);
            Some(v.arch[0].clone())
        } else {
            None
        };
        let filename = match &arch {
            Some(a) => download_filename(
                self.pkg.as_str(),
                version.as_str(),
                Some(a.as_str()),
                ext,
            ),
            None => download_filename(self.pkg.as_str(), version.as_str(), None, ext),
        };
        let headers: Vec<(String, String)> = Vec::new();
        assert(common::header_texts(headers@) == Seq::<(Seq<char>, Seq<char>)>::empty());
        DownloadTarget {
            url: final_download_url(v.r2_url.as_str(), token, self.pkg.as_str()),
            filename,
            version: Some(version),
            arch,
            provider: ProviderId::Apkcombo,
            headers,
        }
    }

    /// Goes on with the reply.
    pub fn advance(self, reply: Reply<ProviderError>) -> (r: Step<
        Download,
        DownloadTarget,
        ProviderError,
    >)
        ensures
            flow::step(r) == download_next(self@, flow::reply_view(reply)),
    {
        let text = match reply {
            Ok(text) => text,
            Err(e) => {
                return Step::Done(Err(e));
            },
        };
        let Download { pkg, version, arch, stage } = self;
        let d = Download { pkg, version, arch, stage: Stage::Slug };
        match stage {
            Stage::Slug => d.after_slug(text.as_str()),
            Stage::Rows(slug, want) => {
                let rows = match parse::parse_versions(text.as_str()) {
                    Ok(rows) => rows,
                    Err(e) => {
                        return Step::Done(Err(e));
                    },
                };
                match find_build(&rows, want.as_str(), d.pkg.as_str()) {
                    Ok(page) => Step::Ask(Request::Get(page), d.at(Stage::Page(slug))),
                    Err(e) => Step::Done(Err(e)),
                }
            },
            Stage::Page(slug) => d.after_page(slug, text.as_str()),
            Stage::Fragment => d.after_fragment(text.as_str()),
            Stage::Checkin(v) => Step::Done(Ok(d.after_checkin(v, text.as_str()))),
        }
    }
}

impl ApkCombo {
    /// Searches for an app.
    pub fn search(query: &str) -> (r: Step<Searching, Vec<AppResult>, ProviderError>)
        ensures
            flow::list_step(r) == search_start(query@),
    {
        Step::Ask(Request::Get(search_url(query)), Searching)
    }

    /// Lists the versions of an app.
    pub fn versions(pkg: &str) -> (r: Step<Listing, Vec<VersionInfo>, ProviderError>)
        ensures
            flow::list_step(r) == versions_start(pkg@),
    {
        Step::Ask(ask_slug(pkg), Listing::Slug(pkg.to_owned()))
    }

    /// Resolves a download.
    pub fn download_url(pkg: &str, version: Option<&str>, arch: &str) -> (r: Step<
        Download,
        DownloadTarget,
        ProviderError,
    >)
        ensures
            flow::step(r) == download_start(pkg@, model::opt_str(version), arch@),
    {
        Step::Ask(
            ask_slug(pkg),
            Download {
                pkg: pkg.to_owned(),
                version: copied(version),
                arch: arch.to_owned(),
                stage: Stage::Slug,
            },
        )
    }
}

/// A download ends after at most five requests.
pub proof fn lemma_download_ends(
    world: flow::World<contract::ErrorView>,
    pkg: Seq<char>,
    version: Option<Seq<char>>,
    arch: Seq<char>,
)
    ensures
        flow::run(
            world,
            |d: DownloadView, reply: flow::ReplyView<contract::ErrorView>| download_next(d, reply),
            download_start(pkg, version, arch),
            5,
        ) is Done,
{
    reveal_with_fuel(flow::run, 6);
}

} // verus!
