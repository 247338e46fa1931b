use apk_fetch::common::contract::{Arch, Date, DownloadTarget, ProviderError, ProviderId};
use apk_fetch::common::flow::{Reply, Request, Step};
use apk_fetch::providers::apkcombo::parse::{
    app_url, extract_xid, final_download_url, parse_search, parse_variants, parse_versions,
    slug_from_canonical_url, Url, VersionRow, FALLBACK_XID, LOOKUP_LOCALE,
};
use apk_fetch::providers::apkcombo::{
    find_build, slug_for, ApkCombo, Download, Listing, Searching,
};
use apk_fetch::textual::apkcombo as textual_apkcombo;
use apk_fetch::textual::apkcombo::parse as textual_parse;

const YT: &str = "com.google.android.youtube";

#[test]
fn parse_slug_off_the_redirect() {
    let yt = YT;
    // `/en/{pkg}/` redirected to the canonical page: first segment is the slug.
    assert_eq!(
        slug_from_canonical_url(&Url::of(&format!("/youtube/{yt}/")), yt).as_deref(),
        Some("youtube")
    );
    // Never redirected — APKCombo has no page for it.
    assert_eq!(
        slug_from_canonical_url(&Url::of(&format!("{LOOKUP_LOCALE}/{yt}/")), yt),
        None
    );
    // Landed on a different app's page.
    assert_eq!(
        slug_from_canonical_url(&Url::of("/spotify/com.spotify.music/"), yt),
        None
    );
}

#[test]
fn slug_off_the_redirect() {
    let yt = YT;
    let base = textual_parse::BASE_URL;
    let locale = textual_parse::LOOKUP_LOCALE;
    assert_eq!(
        textual_parse::slug_from_canonical_url(&format!("{base}/youtube/{yt}/"), yt).as_deref(),
        Some("youtube")
    );
    assert_eq!(
        textual_parse::slug_from_canonical_url(&format!("{base}/{locale}/{yt}/"), yt),
        None
    );
    assert_eq!(
        textual_parse::slug_from_canonical_url(&format!("{base}/spotify/com.spotify.music/"), yt),
        None
    );
}

#[test]
fn parse_xid_extraction() {
    assert_eq!(
        extract_xid(r#"...<script>var xid = "abc123def"</script>..."#),
        "abc123def"
    );
    assert_eq!(extract_xid("no xid here"), FALLBACK_XID);
}

#[test]
fn xid_extraction() {
    // The pages of the two families of providers carry the same tag.
    assert_eq!(
        extract_xid(r#"...<script>var xid = "abc123def"</script>..."#),
        "abc123def"
    );
    assert_eq!(extract_xid("no xid here"), FALLBACK_XID);
}

#[test]
fn final_url_shape() {
    assert_eq!(
        final_download_url("https://apkcombo.com/r2?u=X", "fp=a&ip=b", "com.x.y"),
        "https://apkcombo.com/r2?u=X&fp=a&ip=b&package_name=com.x.y&lang=en"
    );
}

#[test]
fn xid_has_to_look_like_one() {
    assert_eq!(extract_xid(r#"var xid = "a-b""#), FALLBACK_XID);
    assert_eq!(extract_xid(r#"var xid = """#), FALLBACK_XID);
    assert_eq!(extract_xid(r#"var xid = "abc"#), FALLBACK_XID);
}

pub const SEARCH: &str = r#"<html><body>
<a class="l_item" href="/youtube/com.google.android.youtube/" title="YouTube APK"> YouTube by G </a>
<a class="l_item" href="/youtube/com.google.android.youtube/" title="Again APK">x</a>
<a class="l_item" href="/music/com.google.android.apps.youtube.music/" title=" APK">YouTube   Music</a>
<a class="l_item" href="/nodots/plain/" title="Plain">x</a>
<a class="l_item" href="/a/b.c/d/" title="Deep">x</a>
<a class="l_item" title="No link">x</a>
<a class="other" href="/z/z.z/">z</a>
</body></html>"#;

pub const OLD: &str = r#"<ul class="list-versions">
<li><a class="ver-item" href="/youtube/com.google.android.youtube/download/phone-21.3-apk">
<span class="vername">YouTube 21.3</span><span class="description">Sep 4, 2026 &middot; Android 10+</span></a></li>
<li><a class="ver-item" href="/youtube/com.google.android.youtube/download/phone-21.2-apk">
<span class="vername">YouTube 21.2</span><span class="description">Aug 31, 2026 &middot; Android 9+</span></a></li>
<li><a class="ver-item" href="/x"><span class="vername">YouTube 20</span><span class="description">soon</span></a></li>
<li><a class="ver-item"><span class="vername">No link</span></a></li>
</ul>"#;

pub const FRAGMENT: &str = r#"<div class="content-tab" id="best-variant-tab"><div class="tree"><ul>
<li><span class="blur"><code>arm64-v8a, x86</code></span>
<ul class="file-list"><li><a class="variant" href="/r2?u=A"><span class="vername">YouTube 21.3</span><span class="vtype">XAPK</span></a></li></ul></li>
</ul></div></div>
<div class="content-tab" id="variants-tab"><div class="tree"><ul>
<li><span class="blur"><code>arm64-v8a</code></span>
<ul class="file-list">
<li><a class="variant" href="/r2?u=A"><span class="vername">again</span></a></li>
<li><a class="variant" href="/r2?u=B"><span class="vername">YouTube 21.3</span><span class="vtype">APK</span></a></li>
<li><a class="variant"><span class="vtype">APK</span></a></li>
</ul></li>
<li><ul class="file-list"><li><a class="variant" href="https://cdn.x/r2?u=C"></a></li></ul></li>
</ul></div></div>"#;

#[test]
fn apkcombo_search_page() {
    let hits = parse_search(SEARCH).unwrap();
    let got: Vec<(&str, &str)> = hits
        .iter()
        .map(|h| (h.package.as_str(), h.title.as_str()))
        .collect();
    assert_eq!(
        got,
        vec![
            (YT, "YouTube"),
            ("com.google.android.apps.youtube.music", "YouTube Music")
        ]
    );
    match parse_search("<p>nothing</p>") {
        Err(ProviderError::NotFound(m)) => assert_eq!(m, "search returned nothing"),
        _ => panic!("something"),
    }
}

#[test]
fn version_page() {
    let rows = parse_versions(OLD).unwrap();
    assert_eq!(rows.len(), 2);
    assert_eq!(rows[0].version, "21.3");
    assert_eq!(rows[0].uploaded, Date { year: 2026, month: 9, day: 4 });
    assert_eq!(
        rows[1].download_page_url.as_str(),
        "https://apkcombo.com/youtube/com.google.android.youtube/download/phone-21.2-apk"
    );
    assert!(matches!(parse_versions(""), Err(ProviderError::NotFound(_))));
}

#[test]
fn variant_fragment() {
    let vs = parse_variants(FRAGMENT).unwrap();
    let got: Vec<(&str, bool, Arch, &str)> = vs
        .iter()
        .map(|v| (v.version.as_str(), v.bundle, v.arch, v.url.as_str()))
        .collect();
    assert_eq!(
        got,
        vec![
            (
                "21.3",
                true,
                Arch::arm64_v8a().union(Arch::x86()),
                "https://apkcombo.com/r2?u=A"
            ),
            ("21.3", false, Arch::arm64_v8a(), "https://apkcombo.com/r2?u=B"),
            ("", false, Arch::all(), "https://cdn.x/r2?u=C"),
        ]
    );
    assert!(matches!(parse_variants("<p></p>"), Err(ProviderError::ParseError(_))));
}

fn drive<S, T>(
    start: Step<S, T>,
    advance: fn(S, Reply) -> Step<S, T>,
    world: fn(&Request) -> Reply,
) -> (Vec<Request>, Result<T, ProviderError>) {
    let mut asked: Vec<Request> = Vec::new();
    let mut step = start;
    loop {
        match step {
            Step::Ask(q, s) => {
                let reply = world(&q);
                asked.push(q);
                step = advance(s, reply);
            }
            Step::Done(r) => return (asked, r),
            Step::Abort => panic!("aborted"),
        }
    }
}

fn site(q: &Request) -> Reply {
    match q {
        Request::Resolve(u) => {
            assert_eq!(u, "https://apkcombo.com/en/com.google.android.youtube/");
            Ok("https://apkcombo.com/youtube/com.google.android.youtube/".to_string())
        }
        Request::Get(u) if u.ends_with("/old-versions") => Ok(OLD.to_string()),
        Request::Get(u) if u.contains("/search?q=") => Ok(SEARCH.to_string()),
        Request::Get(u) if u.contains("/download/phone-") => Ok("var xid = \"tag9\"".to_string()),
        Request::Post(u, form) if u.ends_with("/tag9/dl") => {
            assert_eq!(form[0].0, "package_name");
            assert_eq!(form[0].1, YT);
            assert_eq!(form[1].0, "version");
            Ok(FRAGMENT.to_string())
        }
        Request::Post(u, form) if u == "https://apkcombo.com/checkin" => {
            assert!(form.is_empty());
            Ok(" fp=1&ip=2\n".to_string())
        }
        _ => Err(ProviderError::Network("unexpected".to_string())),
    }
}

#[test]
fn searches_in_one_request() {
    let (asked, r) = drive(ApkCombo::search(" you tube "), Searching::advance, site);
    assert_eq!(asked.len(), 1);
    assert!(matches!(&asked[0], Request::Get(u) if u == "https://apkcombo.com/search?q=you+tube"));
    assert_eq!(r.unwrap()[0].package, YT);
}

#[test]
fn lists_versions_in_two_requests() {
    let (asked, r) = drive(ApkCombo::versions(YT), Listing::advance, site);
    assert_eq!(asked.len(), 2);
    assert_eq!(r.unwrap()[1].version, "21.2");
}

#[test]
fn resolves_the_latest_build() {
    let (asked, r) = drive(
        ApkCombo::download_url(YT, None, Arch::arm64_v8a()),
        Download::advance,
        site,
    );
    assert_eq!(asked.len(), 4);
    let t: DownloadTarget = r.unwrap();
    assert_eq!(
        t.url,
        "https://apkcombo.com/r2?u=B&fp=1&ip=2&package_name=com.google.android.youtube&lang=en"
    );
    assert_eq!(t.version, "21.3");
    assert_eq!(t.arch, Arch::arm64_v8a());
    assert_eq!(t.provider, ProviderId::Apkcombo);
    assert!(t.headers.is_empty());
}

#[test]
fn resolves_a_pinned_build_in_five_requests() {
    let (asked, r) = drive(
        ApkCombo::download_url(YT, Some("21.2"), Arch::x86_64()),
        Download::advance,
        site,
    );
    assert_eq!(asked.len(), 5);
    assert!(matches!(&asked[2], Request::Get(u) if u.ends_with("phone-21.2-apk")));
    // The build that runs on it has no version of its own, so it has the one asked for.
    let t = r.unwrap();
    assert_eq!(t.version, "21.2");
    assert_eq!(t.arch, Arch::all());
}

#[test]
fn missing_builds_are_not_found() {
    let (_, r) = drive(
        ApkCombo::download_url(YT, Some("9.9"), Arch::all()),
        Download::advance,
        site,
    );
    match r {
        Err(ProviderError::NotFound(m)) => {
            assert_eq!(m, "no build 9.9 for com.google.android.youtube")
        }
        _ => panic!("found"),
    }
    match slug_for("com.x", "https://apkcombo.com/en/com.x/") {
        Err(ProviderError::NotFound(m)) => assert_eq!(m, "no app page for com.x"),
        _ => panic!("found"),
    }
}

#[test]
fn errors_end_a_flow() {
    fn down(_: &Request) -> Reply {
        Err(ProviderError::Blocked)
    }
    let (asked, r) = drive(ApkCombo::versions(YT), Listing::advance, down);
    assert_eq!(asked.len(), 1);
    assert!(matches!(r, Err(ProviderError::Blocked)));
}

#[test]
fn app_urls() {
    assert_eq!(app_url("s", "p.q", "t").as_str(), "https://apkcombo.com/s/p.q/t");
}

#[test]
fn textual_pages() {
    let hits = textual_parse::parse_search(SEARCH).unwrap();
    assert_eq!(hits.len(), 2);
    let rows = textual_parse::parse_versions(OLD).unwrap();
    assert_eq!(rows.len(), 3);
    assert_eq!(rows[0].name, "YouTube 21.3");
    assert_eq!(rows[0].uploaded.as_deref(), Some("Sep 4, 2026"));
    assert_eq!(rows[2].uploaded.as_deref(), Some("soon"));
    let vs = textual_parse::parse_variants(FRAGMENT).unwrap();
    assert_eq!(vs.len(), 3);
    assert_eq!(vs[0].arch, vec!["arm64-v8a".to_string(), "x86".to_string()]);
    assert_eq!(vs[0].kind, "XAPK");
    assert_eq!(
        textual_parse::choose_variant(&vs, "ARM64-v8a", false).unwrap().r2_url,
        "https://apkcombo.com/r2?u=B"
    );
    assert_eq!(
        textual_parse::choose_variant(&vs, "mips", true).unwrap().r2_url,
        "https://apkcombo.com/r2?u=A"
    );
    assert!(textual_parse::choose_variant(&[], "x86", true).is_none());
}

#[test]
fn apkcombo_reports_unread_dates() {
    let page: Reply = Ok(OLD.to_string());
    assert_eq!(
        Listing::Rows.reports(&page),
        vec!["apkcombo: 20: unparseable upload date \"soon\""]
    );
    assert!(Listing::Slug("com.x".to_string()).reports(&page).is_empty());
    assert!(Listing::Rows.reports(&Err(ProviderError::Blocked)).is_empty());
}

#[test]
fn apkcombo_takes_the_exact_version() {
    let row = |version: &str| VersionRow {
        version: version.to_string(),
        uploaded: Date { year: 2025, month: 4, day: 1 },
        download_page_url: app_url("s", "p.q", version),
    };
    let rows = vec![row("2.6.2"), row("2.6")];
    assert!(find_build(&rows, "2.6", "p.q").unwrap().ends_with("/2.6"));
    assert!(find_build(&rows[..1], "2.6", "p.q").unwrap().ends_with("/2.6.2"));
    let named = |name: &str, n: &str| textual_parse::VersionRow {
        name: name.to_string(),
        uploaded: None,
        download_page_url: format!("https://x/{n}"),
    };
    let rows = vec![named("X 12.6", "a"), named("X 2.6.2", "b"), named("X 2.6", "c")];
    assert_eq!(textual_apkcombo::find_build(&rows, "2.6", "p.q").unwrap(), "https://x/c");
    assert_eq!(textual_apkcombo::find_build(&rows[..2], "2.6", "p.q").unwrap(), "https://x/b");
    // A name that merely holds the text is another version.
    assert!(textual_apkcombo::find_build(&rows[..1], "2.6", "p.q").is_err());
}
