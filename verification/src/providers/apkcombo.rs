//! APKCombo. A download is found on the way app page, list of old versions,
//! download page, variant fragment, check-in.

use crate::common::contract;
use crate::common::contract::{
    AppResult, Arch, DownloadTarget, ProviderConst, ProviderError, ProviderId, VersionInfo,
};
use crate::common::flow;
use crate::common::flow::{field, Reply, Request, Step};
use crate::html;
use crate::model;
use crate::providers::scrape;
use crate::providers::scrape::{choose_variant, find_pinned, query, Variant};
use crate::strings::{copied, plus, plus4};
use vstd::prelude::*;

pub mod parse;

verus! {

/// The site.
pub struct ApkCombo;

impl ProviderConst for ApkCombo {
    open spec fn ident() -> ProviderId {
        ProviderId::Apkcombo
    }

    open spec fn base() -> Seq<char> {
        "https://apkcombo.com"@
    }

    fn id() -> (r: ProviderId) {
        ProviderId::Apkcombo
    }

    fn base_url() -> (r: &'static str) {
        "https://apkcombo.com"
    }
}

/// A search is waiting for its page.
pub struct Searching;

impl View for Searching {
    type V = Searching;

    open spec fn view(&self) -> Searching {
        *self
    }
}

/// What a search asks first.
pub open spec fn search_start(q: Seq<char>) -> flow::StepView<Searching, Seq<contract::AppView>> {
    flow::StepView::Ask(
        flow::RequestView::Get(parse::site("/search?q="@ + scrape::encoded(q))),
        Searching,
    )
}

/// What a reply to a search comes to.
pub open spec fn search_next(state: Searching, reply: flow::ReplyView) -> flow::StepView<
    Searching,
    Seq<contract::AppView>,
> {
    flow::StepView::Done(
        match reply {
            Ok(page) => parse::searched(parse::search_rows(html::document(page))),
            Err(e) => Err(e),
        },
    )
}

impl Searching {
    /// Goes on with the reply.
    pub fn advance(self, reply: Reply) -> (r: Step<Searching, Vec<AppResult>>)
        ensures
            flow::list_step(r) == search_next(self@, flow::reply_view(reply)),
    {
        let page = match reply {
            Ok(page) => page,
            Err(e) => {
                return Step::Done(Err(e));
            },
        };
        match parse::parse_search(page.as_str()) {
            Ok(hits) => Step::Done(Ok(app_results(hits))),
            Err(e) => Step::Done(Err(e)),
        }
    }
}

/// The hits as results.
fn app_results(hits: Vec<parse::SearchHit>) -> (r: Vec<AppResult>)
    ensures
        model::views(r@) == model::views(hits@),
{
    let mut out: Vec<AppResult> = Vec::new();
    let mut i: usize = 0;
    while i < hits.len()
        invariant
            i <= hits@.len(),
            model::views(out@) == model::views(hits@).take(i as int),
        decreases hits@.len() - i,
    {
        let a = AppResult { package: hits[i].package.clone(), title: hits[i].title.clone() };
        proof {
            model::lemma_views_push(out@, a);
        }
        out.push(a);
        assert(model::views(out@) == model::views(hits@).take(i + 1));
        i += 1;
    }
    assert(model::views(hits@).take(hits@.len() as int) == model::views(hits@));
    out
}

/// The request for the canonical page of a package: `/en/{pkg}/` leads to
/// `/{slug}/{pkg}/`.
pub open spec fn slug_request(pkg: Seq<char>) -> flow::RequestView {
    flow::RequestView::Resolve(parse::app_page(parse::LOOKUP_LOCALE@, pkg, ""@))
}

/// The slug, from where that request led.
pub open spec fn slug_read(pkg: Seq<char>, url: Seq<char>) -> Result<Seq<char>, contract::ErrorView> {
    match parse::slug_in(parse::site(url), pkg) {
        Some(slug) => Ok(slug),
        None => Err(contract::ErrorView::NotFound("no app page for "@ + pkg)),
    }
}

/// The request for the canonical page of a package.
fn ask_slug(pkg: &str) -> (r: Request)
    ensures
        r@ == slug_request(pkg@),
{
    Request::Resolve(parse::app_url(parse::LOOKUP_LOCALE, pkg, "").into_string())
}

/// The slug of a package, from where the lookup led.
pub fn slug_for(pkg: &str, final_url: &str) -> (r: Result<String, ProviderError>)
    ensures
        contract::outcome(r) == slug_read(pkg@, final_url@),
{
    let url: parse::Url = contract::Url::of(final_url);
    match parse::slug_from_canonical_url(&url, pkg) {
        Some(slug) => Ok(slug),
        None => {
            let msg = plus("no app page for ", pkg);
            Err(ProviderError::NotFound(msg))
        },
    }
}

/// The request for the list of versions.
pub open spec fn rows_request(slug: Seq<char>, pkg: Seq<char>) -> flow::RequestView {
    flow::RequestView::Get(parse::app_page(slug, pkg, "old-versions"@))
}

/// The list of versions on a page.
pub open spec fn rows_read(page: Seq<char>) -> Result<
    Seq<parse::VersionRowView>,
    contract::ErrorView,
> {
    parse::versions_found(parse::version_items(html::document(page)))
}

/// The request for the list of versions.
fn ask_rows(slug: &str, pkg: &str) -> (r: Request)
    ensures
        r@ == rows_request(slug@, pkg@),
{
    Request::Get(parse::app_url(slug, pkg, "old-versions").into_string())
}

/// The versions of rows.
pub open spec fn infos(rows: Seq<parse::VersionRowView>) -> Seq<contract::VersionView> {
    Seq::new(
        rows.len(),
        |i: int| contract::VersionView { version: rows[i].version, uploaded: rows[i].uploaded },
    )
}

/// The versions of rows.
fn version_infos(rows: Vec<parse::VersionRow>) -> (r: Vec<VersionInfo>)
    ensures
        model::views(r@) == infos(model::views(rows@)),
{
    let ghost all = infos(model::views(rows@));
    let mut out: Vec<VersionInfo> = Vec::new();
    let mut i: usize = 0;
    assert(model::views(out@) == all.take(0));
    while i < rows.len()
        invariant
            i <= rows@.len(),
            all == infos(model::views(rows@)),
            model::views(out@) == all.take(i as int),
        decreases rows@.len() - i,
    {
        let v = VersionInfo { version: rows[i].version.clone(), uploaded: rows[i].uploaded };
        assert(v@ == all[i as int]);
        proof {
            model::lemma_views_push(out@, v);
        }
        out.push(v);
        assert(model::views(out@) == all.take(i + 1));
        i += 1;
    }
    assert(all.take(all.len() as int) == all);
    out
}

/// A listing of versions is waiting for a reply.
pub enum Listing {
    /// Where the package id leads.
    Slug(String),
    /// The list.
    Rows,
}

/// What a [`Listing`] says.
pub enum ListingView {
    Slug(Seq<char>),
    Rows,
}

impl View for Listing {
    type V = ListingView;

    open spec fn view(&self) -> ListingView {
        match *self {
            Listing::Slug(pkg) => ListingView::Slug(pkg@),
            Listing::Rows => ListingView::Rows,
        }
    }
}

/// What a listing asks first.
pub open spec fn versions_start(pkg: Seq<char>) -> flow::StepView<
    ListingView,
    Seq<contract::VersionView>,
> {
    flow::StepView::Ask(slug_request(pkg), ListingView::Slug(pkg))
}

/// How a listing goes on with a reply.
pub open spec fn versions_next(state: ListingView, reply: flow::ReplyView) -> flow::StepView<
    ListingView,
    Seq<contract::VersionView>,
> {
    match reply {
        Err(e) => flow::StepView::Done(Err(e)),
        Ok(text) => match state {
            ListingView::Slug(pkg) => match slug_read(pkg, text) {
                Ok(slug) => flow::StepView::Ask(rows_request(slug, pkg), ListingView::Rows),
                Err(e) => flow::StepView::Done(Err(e)),
            },
            ListingView::Rows => flow::StepView::Done(
                match rows_read(text) {
                    Ok(rows) => Ok(infos(rows)),
                    Err(e) => Err(e),
                },
            ),
        },
    }
}

/// What is reported of a list of versions that is awaited.
pub open spec fn reported(awaited: bool, reply: flow::ReplyView) -> Seq<Seq<char>> {
    match reply {
        Ok(page) if awaited => parse::complaints(parse::version_items(html::document(page))),
        _ => Seq::<Seq<char>>::empty(),
    }
}

/// What is reported of a list of versions that is awaited.
fn report(awaited: bool, reply: &Reply) -> (r: Vec<String>)
    ensures
        model::texts(r@) == reported(awaited, flow::reply_view(*reply)),
{
    match reply {
        Ok(page) if awaited => parse::parse_complaints(page.as_str()),
        _ => {
            let none: Vec<String> = Vec::new();
            assert(model::texts(none@) == Seq::<Seq<char>>::empty());
            none
        },
    }
}

impl Listing {
    /// What to report before going on with the reply: the dates of a list of versions
    /// that cannot be read.
    pub fn reports(&self, reply: &Reply) -> (r: Vec<String>)
        ensures
            model::texts(r@) == reported(self@ is Rows, flow::reply_view(*reply)),
    {
        report(matches!(self, Listing::Rows), reply)
    }

    /// Goes on with the reply.
    pub fn advance(self, reply: Reply) -> (r: Step<Listing, Vec<VersionInfo>>)
        ensures
            flow::list_step(r) == versions_next(self@, flow::reply_view(reply)),
    {
        let text = match reply {
            Ok(text) => text,
            Err(e) => {
                return Step::Done(Err(e));
            },
        };
        match self {
            Listing::Slug(pkg) => match slug_for(pkg.as_str(), text.as_str()) {
                Ok(slug) => Step::Ask(ask_rows(slug.as_str(), pkg.as_str()), Listing::Rows),
                Err(e) => Step::Done(Err(e)),
            },
            Listing::Rows => match parse::parse_versions(text.as_str()) {
                Ok(rows) => Step::Done(Ok(version_infos(rows))),
                Err(e) => Step::Done(Err(e)),
            },
        }
    }
}

/// Which reply a download is waiting for.
pub enum Stage {
    /// Where the package id leads.
    Slug,
    /// The list of versions under a slug, for the version asked for.
    Rows(String, String),
    /// The download page under a slug.
    Page(String),
    /// The variant fragment.
    Fragment,
    /// The check-in token for a variant.
    Checkin(Variant),
}

/// What a [`Stage`] says.
pub enum StageView {
    Slug,
    Rows(Seq<char>, Seq<char>),
    Page(Seq<char>),
    Fragment,
    Checkin(scrape::VariantView),
}

impl View for Stage {
    type V = StageView;

    open spec fn view(&self) -> StageView {
        match *self {
            Stage::Slug => StageView::Slug,
            Stage::Rows(slug, want) => StageView::Rows(slug@, want@),
            Stage::Page(slug) => StageView::Page(slug@),
            Stage::Fragment => StageView::Fragment,
            Stage::Checkin(v) => StageView::Checkin(v@),
        }
    }
}

/// A download on its way: what was asked for, and the reply it is waiting for.
pub struct Download {
    pub pkg: String,
    pub version: Option<String>,
    pub arch: Arch,
    pub stage: Stage,
}

/// What a [`Download`] says.
pub struct DownloadView {
    pub pkg: Seq<char>,
    pub version: Option<Seq<char>>,
    pub arch: Arch,
    pub stage: StageView,
}

impl View for Download {
    type V = DownloadView;

    open spec fn view(&self) -> DownloadView {
        DownloadView {
            pkg: self.pkg@,
            version: model::opt(self.version),
            arch: self.arch,
            stage: self.stage@,
        }
    }
}

/// The versions of rows.
pub open spec fn versions_in(rows: Seq<parse::VersionRowView>) -> Seq<Seq<char>> {
    Seq::new(rows.len(), |i: int| rows[i].version)
}

/// The version to take: the one asked for, else the first below it.
pub open spec fn build_at(rows: Seq<parse::VersionRowView>, want: Seq<char>) -> Option<
    parse::VersionRowView,
> {
    match scrape::pinned(versions_in(rows), want) {
        Some(i) => Some(rows[i]),
        None => None,
    }
}

/// The version to take: the one asked for, else the first below it.
fn find_row(rows: &[parse::VersionRow], want: &str) -> (r: Option<usize>)
    ensures
        r matches Some(i) ==> i < rows@.len(),
        (match r {
            Some(i) => Some(rows@[i as int]@),
            None => None,
        }) == build_at(model::views(rows@), want@),
{
    let ghost rv = model::views(rows@);
    let ghost all = versions_in(rv);
    let mut versions: Vec<String> = Vec::new();
    let mut i: usize = 0;
    assert(model::texts(versions@) == all.take(0));
    while i < rows.len()
        invariant
            i <= rows@.len(),
            rv == model::views(rows@),
            all == versions_in(rv),
            model::texts(versions@) == all.take(i as int),
        decreases rows@.len() - i,
    {
        assert(rv[i as int] == rows@[i as int]@);
        let v = rows[i].version.clone();
        let ghost before = versions@;
        versions.push(v);
        assert(model::texts(versions@) == model::texts(before).push(v@));
        assert(model::texts(versions@) == all.take(i + 1));
        i += 1;
    }
    assert(all.take(all.len() as int) == all);
    assert(model::texts(versions@).len() == versions@.len());
    let found = find_pinned(&versions, want);
    assert(found matches Some(k) ==> rv[k as int] == rows@[k as int]@);
    found
}

/// A row of the version asked for wins wherever it stands, and the first of them.
pub proof fn lemma_exact_wins(rows: Seq<parse::VersionRowView>, want: Seq<char>, n: int)
    requires
        0 <= n < rows.len(),
        versions_in(rows)[n] == want,
    ensures
        exists|i: int|
            0 <= i <= n && build_at(rows, want) == Some(#[trigger] rows[i]) && versions_in(rows)[i]
                == want,
{
    let vs = versions_in(rows);
    scrape::lemma_pinned(vs, want);
    assert(vs.contains(vs[n]));
    let i = scrape::pinned(vs, want)->0;
    assert(build_at(rows, want) == Some(rows[i]));
}

/// The download page of the version asked for.
pub open spec fn build_page(
    rows: Seq<parse::VersionRowView>,
    want: Seq<char>,
    pkg: Seq<char>,
) -> Result<Seq<char>, contract::ErrorView> {
    match build_at(rows, want) {
        Some(row) => Ok(row.download_page_url),
        None => Err(contract::ErrorView::NotFound("no build "@ + want + " for "@ + pkg)),
    }
}

/// The download page of the version asked for.
pub fn find_build(rows: &[parse::VersionRow], want: &str, pkg: &str) -> (r: Result<
    String,
    ProviderError,
>)
    ensures
        contract::outcome(r) == build_page(model::views(rows@), want@, pkg@),
{
    match find_row(rows, want) {
        Some(i) => Ok(rows[i].download_page_url.to_string()),
        None => Err(ProviderError::NotFound(plus4("no build ", want, " for ", pkg))),
    }
}

/// The variant to download.
pub open spec fn variant_for(
    vs: Seq<scrape::VariantView>,
    arch: Arch,
    pkg: Seq<char>,
) -> Result<scrape::VariantView, contract::ErrorView> {
    match scrape::choice(vs, arch) {
        Some(i) => Ok(vs[i]),
        None => Err(contract::ErrorView::NotFound("no downloadable variant for "@ + pkg)),
    }
}

/// The variant to download.
pub fn pick_variant(variants: &[Variant], arch: Arch, pkg: &str) -> (r: Result<
    Variant,
    ProviderError,
>)
    ensures
        contract::outcome(r) == variant_for(model::views(variants@), arch, pkg@),
{
    match choose_variant(variants, arch) {
        Some(v) => Ok(
            Variant {
                version: v.version.clone(),
                arch: v.arch,
                bundle: v.bundle,
                url: v.url.clone(),
            },
        ),
        None => {
            let msg = plus("no downloadable variant for ", pkg);
            Err(ProviderError::NotFound(msg))
        },
    }
}

/// The request for the variant fragment.
pub open spec fn fragment_request(d: DownloadView, slug: Seq<char>, page: Seq<char>) -> flow::RequestView {
    let xid = match parse::xid_in(page) {
        Some(tag) => tag,
        None => parse::FALLBACK_XID@,
    };
    let version = match d.version {
        Some(v) => v,
        None => ""@,
    };
    flow::RequestView::Post(
        parse::app_page(slug, d.pkg, xid + "/dl"@),
        seq![("package_name"@, d.pkg), ("version"@, version)],
    )
}

/// The target that a variant and a check-in token make.
pub open spec fn target(d: DownloadView, v: scrape::VariantView, token: Seq<char>) -> contract::TargetView {
    contract::TargetView {
        url: parse::final_url(v.url, token, d.pkg),
        version: if v.version.len() > 0 {
            v.version
        } else {
            match d.version {
                Some(want) => want,
                None => "latest"@,
            }
        },
        arch: v.arch,
        provider: ProviderId::Apkcombo,
        headers: Seq::<(Seq<char>, Seq<char>)>::empty(),
    }
}

/// What a download asks first.
pub open spec fn download_start(pkg: Seq<char>, version: Option<Seq<char>>, arch: Arch) -> flow::StepView<
    DownloadView,
    contract::TargetView,
> {
    flow::StepView::Ask(
        slug_request(pkg),
        DownloadView { pkg, version, arch, stage: StageView::Slug },
    )
}

/// How a download goes on with a reply.
pub open spec fn download_next(d: DownloadView, reply: flow::ReplyView) -> flow::StepView<
    DownloadView,
    contract::TargetView,
> {
    match reply {
        Err(e) => flow::StepView::Done(Err(e)),
        Ok(text) => match d.stage {
            StageView::Slug => match slug_read(d.pkg, text) {
                Err(e) => flow::StepView::Done(Err(e)),
                Ok(slug) => match d.version {
                    None => flow::StepView::Ask(
                        flow::RequestView::Get(
                            parse::app_page(slug, d.pkg, "download/phone-latest-apk"@),
                        ),
                        DownloadView { stage: StageView::Page(slug), ..d },
                    ),
                    Some(want) => flow::StepView::Ask(
                        rows_request(slug, d.pkg),
                        DownloadView { stage: StageView::Rows(slug, want), ..d },
                    ),
                },
            },
            StageView::Rows(slug, want) => match rows_read(text) {
                Err(e) => flow::StepView::Done(Err(e)),
                Ok(rows) => match build_page(rows, want, d.pkg) {
                    Err(e) => flow::StepView::Done(Err(e)),
                    Ok(page) => flow::StepView::Ask(
                        flow::RequestView::Get(page),
                        DownloadView { stage: StageView::Page(slug), ..d },
                    ),
                },
            },
            StageView::Page(slug) => flow::StepView::Ask(
                fragment_request(d, slug, text),
                DownloadView { stage: StageView::Fragment, ..d },
            ),
            StageView::Fragment => match parse::variants_found(
                parse::variant_groups(html::snippet(text)),
            ) {
                Err(e) => flow::StepView::Done(Err(e)),
                Ok(vs) => match variant_for(vs, d.arch, d.pkg) {
                    Err(e) => flow::StepView::Done(Err(e)),
                    Ok(v) => flow::StepView::Ask(
                        flow::RequestView::Post(
                            parse::site("/checkin"@),
                            Seq::<(Seq<char>, Seq<char>)>::empty(),
                        ),
                        DownloadView { stage: StageView::Checkin(v), ..d },
                    ),
                },
            },
            StageView::Checkin(v) => flow::StepView::Done(Ok(target(d, v, text))),
        },
    }
}

impl Download {
    /// What to report before going on with the reply: the dates of a list of versions
    /// that cannot be read.
    pub fn reports(&self, reply: &Reply) -> (r: Vec<String>)
        ensures
            model::texts(r@) == reported(self@.stage is Rows, flow::reply_view(*reply)),
    {
        report(matches!(self.stage, Stage::Rows(_, _)), reply)
    }

    /// Goes on with where the package id led.
    fn after_slug(self, text: &str) -> (r: Step<Download, DownloadTarget>)
        requires
            self.stage@ == StageView::Slug,
        ensures
            flow::step(r) == download_next(self@, Ok(text@)),
    {
        let slug = match slug_for(self.pkg.as_str(), text) {
            Ok(slug) => slug,
            Err(e) => {
                return Step::Done(Err(e));
            },
        };
        match &self.version {
            None => {
                let page = parse::app_url(
                    slug.as_str(),
                    self.pkg.as_str(),
                    "download/phone-latest-apk",
                );
                Step::Ask(
                    Request::Get(page.into_string()),
                    Download {
                        pkg: self.pkg,
                        version: self.version,
                        arch: self.arch,
                        stage: Stage::Page(slug),
                    },
                )
            },
            Some(want) => {
                let want = want.clone();
                let ask = ask_rows(slug.as_str(), self.pkg.as_str());
                Step::Ask(
                    ask,
                    Download {
                        pkg: self.pkg,
                        version: self.version,
                        arch: self.arch,
                        stage: Stage::Rows(slug, want),
                    },
                )
            },
        }
    }

    /// Goes on with the download page.
    fn after_page(self, slug: String, text: &str) -> (r: Step<Download, DownloadTarget>)
        ensures
            flow::step(r) == download_next(
                (DownloadView { stage: StageView::Page(slug@), ..self@ }),
                Ok(text@),
            ),
    {
        let xid = parse::extract_xid(text);
        let tail = plus(xid.as_str(), "/dl");
        let url = parse::app_url(slug.as_str(), self.pkg.as_str(), tail.as_str());
        let mut form: Vec<(String, String)> = Vec::new();
        field(&mut form, "package_name", self.pkg.as_str());
        match &self.version {
            Some(v) => field(&mut form, "version", v.as_str()),
            None => field(&mut form, "version", ""),
        }
        let ghost paged = DownloadView { stage: StageView::Page(slug@), ..self@ };
        let url = url.into_string();
        assert(flow::RequestView::Post(url@, contract::header_texts(form@)) == fragment_request(
            paged,
            slug@,
            text@,
        )) by {
            assert(contract::header_texts(form@) == fragment_request(paged, slug@, text@)->Post_1);
        }
        Step::Ask(
            Request::Post(url, form),
            Download {
                pkg: self.pkg,
                version: self.version,
                arch: self.arch,
                stage: Stage::Fragment,
            },
        )
    }

    /// Goes on with the variant fragment.
    fn after_fragment(self, text: &str) -> (r: Step<Download, DownloadTarget>)
        requires
            self.stage@ == StageView::Fragment,
        ensures
            flow::step(r) == download_next(self@, Ok(text@)),
    {
        let variants = match parse::parse_variants(text) {
            Ok(vs) => vs,
            Err(e) => {
                return Step::Done(Err(e));
            },
        };
        match pick_variant(&variants, self.arch, self.pkg.as_str()) {
            Ok(v) => {
                let url: parse::Url = contract::Url::of("/checkin");
                let form: Vec<(String, String)> = Vec::new();
                assert(contract::header_texts(form@) == Seq::<(Seq<char>, Seq<char>)>::empty());
                Step::Ask(
                    Request::Post(url.into_string(), form),
                    Download {
                        pkg: self.pkg,
                        version: self.version,
                        arch: self.arch,
                        stage: Stage::Checkin(v),
                    },
                )
            },
            Err(e) => Step::Done(Err(e)),
        }
    }

    /// Goes on with the reply.
    pub fn advance(self, reply: Reply) -> (r: Step<Download, DownloadTarget>)
        ensures
            flow::step(r) == download_next(self@, flow::reply_view(reply)),
    {
        let text = match reply {
            Ok(text) => text,
            Err(e) => {
                return Step::Done(Err(e));
            },
        };
        let Download { pkg, version, arch, stage } = self;
        match stage {
            Stage::Slug => {
                let d = Download { pkg, version, arch, stage: Stage::Slug };
                d.after_slug(text.as_str())
            },
            Stage::Rows(slug, want) => {
                let rows = match parse::parse_versions(text.as_str()) {
                    Ok(rows) => rows,
                    Err(e) => {
                        return Step::Done(Err(e));
                    },
                };
                match find_build(&rows, want.as_str(), pkg.as_str()) {
                    Ok(page) => Step::Ask(
                        Request::Get(page),
                        Download { pkg, version, arch, stage: Stage::Page(slug) },
                    ),
                    Err(e) => Step::Done(Err(e)),
                }
            },
            Stage::Page(slug) => {
                let d = Download { pkg, version, arch, stage: Stage::Fragment };
                d.after_page(slug, text.as_str())
            },
            Stage::Fragment => {
                let d = Download { pkg, version, arch, stage: Stage::Fragment };
                d.after_fragment(text.as_str())
            },
            Stage::Checkin(v) => {
                let url = parse::final_download_url(v.url.as_str(), text.as_str(), pkg.as_str());
                let version = if !v.version.as_str().is_empty() {
                    v.version
                } else {
                    match version {
                        Some(want) => want,
                        None => "latest".to_owned(),
                    }
                };
                let headers: Vec<(String, String)> = Vec::new();
                assert(contract::header_texts(headers@) == Seq::<
                    (Seq<char>, Seq<char>),
                >::empty());
                Step::Done(
                    Ok(
                        DownloadTarget {
                            url,
                            version,
                            arch: v.arch,
                            provider: ProviderId::Apkcombo,
                            headers,
                        },
                    ),
                )
            },
        }
    }
}

impl ApkCombo {
    /// Searches for an app.
    pub fn search(q: &str) -> (r: Step<Searching, Vec<AppResult>>)
        ensures
            flow::list_step(r) == search_start(q@),
    {
        let term = query(q);
        let path = plus("/search?q=", term.as_str());
        let url: parse::Url = contract::Url::of(path.as_str());
        Step::Ask(Request::Get(url.into_string()), Searching)
    }

    /// Lists the versions of an app.
    pub fn versions(pkg: &str) -> (r: Step<Listing, Vec<VersionInfo>>)
        ensures
            flow::list_step(r) == versions_start(pkg@),
    {
        Step::Ask(ask_slug(pkg), Listing::Slug(pkg.to_owned()))
    }

    /// Resolves a download.
    pub fn download_url(pkg: &str, version: Option<&str>, arch: Arch) -> (r: Step<
        Download,
        DownloadTarget,
    >)
        ensures
            flow::step(r) == download_start(pkg@, model::opt_str(version), arch),
    {
        Step::Ask(
            ask_slug(pkg),
            Download { pkg: pkg.to_owned(), version: copied(version), arch, stage: Stage::Slug },
        )
    }
}

/// A download as a whole: what it comes to at a site that replies as `world` does.
pub open spec fn resolved(
    world: flow::World,
    pkg: Seq<char>,
    version: Option<Seq<char>>,
    arch: Arch,
) -> Result<contract::TargetView, contract::ErrorView> {
    let d = DownloadView { pkg, version, arch, stage: StageView::Slug };
    match world(slug_request(pkg)) {
        Err(e) => Err(e),
        Ok(url) => match slug_read(pkg, url) {
            Err(e) => Err(e),
            Ok(slug) => match download_page(world, slug, pkg, version) {
                Err(e) => Err(e),
                Ok(page) => match world(flow::RequestView::Get(page)) {
                    Err(e) => Err(e),
                    Ok(html) => variant_target(world, d, fragment_request(d, slug, html)),
                },
            },
        },
    }
}

/// The download page: of the latest build, or of the version asked for.
pub open spec fn download_page(
    world: flow::World,
    slug: Seq<char>,
    pkg: Seq<char>,
    version: Option<Seq<char>>,
) -> Result<Seq<char>, contract::ErrorView> {
    match version {
        None => Ok(parse::app_page(slug, pkg, "download/phone-latest-apk"@)),
        Some(want) => match world(rows_request(slug, pkg)) {
            Err(e) => Err(e),
            Ok(html) => match rows_read(html) {
                Err(e) => Err(e),
                Ok(rows) => build_page(rows, want, pkg),
            },
        },
    }
}

/// The target behind a variant fragment.
pub open spec fn variant_target(
    world: flow::World,
    d: DownloadView,
    fragment: flow::RequestView,
) -> Result<contract::TargetView, contract::ErrorView> {
    match world(fragment) {
        Err(e) => Err(e),
        Ok(html) => match parse::variants_found(parse::variant_groups(html::snippet(html))) {
            Err(e) => Err(e),
            Ok(vs) => match variant_for(vs, d.arch, d.pkg) {
                Err(e) => Err(e),
                Ok(v) => match world(
                    flow::RequestView::Post(
                        parse::site("/checkin"@),
                        Seq::<(Seq<char>, Seq<char>)>::empty(),
                    ),
                ) {
                    Err(e) => Err(e),
                    Ok(token) => Ok(target(d, v, token)),
                },
            },
        },
    }
}

/// A download ends after at most five requests, with what [`resolved`] says.
pub proof fn lemma_download_resolves(
    world: flow::World,
    pkg: Seq<char>,
    version: Option<Seq<char>>,
    arch: Arch,
)
    ensures
        flow::run(
            world,
            |d: DownloadView, reply: flow::ReplyView| download_next(d, reply),
            download_start(pkg, version, arch),
            5,
        ) == flow::StepView::<DownloadView, contract::TargetView>::Done(
            resolved(world, pkg, version, arch),
        ),
{
    reveal_with_fuel(flow::run, 6);
}

} // verus!
