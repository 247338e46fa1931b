use apk_fetch::common::contract::{Arch, Date, ProviderId};
use apk_fetch::html::text_of;
use apk_fetch::order::rank_order;
use apk_fetch::providers::fixtures::{assert_absolute, fixture_name};
use apk_fetch::providers::scrape::{
    abs, choose_variant, find_pinned, parse_date, query, version_matches, version_token, Variant,
};

#[test]
fn abs_resolves_against_base() {
    let base = "https://example.com";
    assert_eq!(abs(base, "https://cdn.x/y"), "https://cdn.x/y");
    assert_eq!(abs(base, "/apk/x"), "https://example.com/apk/x");
    assert_eq!(abs(base, "apk/x"), "https://example.com/apk/x");
}

#[test]
fn version_token_takes_the_trailing_number() {
    assert_eq!(version_token("Spotify 9.1.80.2221"), "9.1.80.2221");
    assert_eq!(version_token("YouTube 21.36.45 (arm64-v8a)"), "21.36.45");
    assert_eq!(version_token("nothing numeric"), "nothing numeric");
}

fn variant(bundle: bool, arch: Arch) -> Variant {
    Variant {
        version: "1.0".to_string(),
        arch,
        bundle,
        url: "https://x/".to_string(),
    }
}

#[test]
fn choose_variant_prefers_apk_then_exact_arch() {
    let vs = vec![
        variant(true, Arch::arm64_v8a()),
        variant(false, Arch::armeabi_v7a()),
        variant(false, Arch::arm64_v8a()),
        variant(false, Arch::all()),
    ];
    // Exact-arch APK wins over an arch-matching bundle and other APKs
    assert_eq!(
        choose_variant(&vs, Arch::arm64_v8a()).unwrap().arch,
        Arch::arm64_v8a()
    );
    assert_eq!(
        choose_variant(&vs, Arch::armeabi_v7a()).unwrap().arch,
        Arch::armeabi_v7a()
    );
    // No exact match -> an APK that includes the ABI (universal), never the bundle
    let picked = choose_variant(&vs, Arch::x86()).unwrap();
    assert!(!picked.bundle);
    assert_eq!(picked.arch, Arch::all());

    // Bundle-only app: arch match on the bundle beats an off-arch bundle
    let bundles = vec![variant(true, Arch::all()), variant(true, Arch::arm64_v8a())];
    assert_eq!(
        choose_variant(&bundles, Arch::arm64_v8a()).unwrap().arch,
        Arch::arm64_v8a()
    );
}

#[test]
fn version_matches_is_boundary_aware() {
    assert!(version_matches("2.6.2", "2.6.2"));
    assert!(version_matches("2.6.2", "2.6"));
    assert!(!version_matches("2.60", "2.6"));
    assert!(!version_matches("12.6.2", "2.6"));
    assert!(!version_matches("21.36.45", "1.3"));
}

#[test]
fn nothing_to_choose_from() {
    assert!(choose_variant(&[], Arch::all()).is_none());
    let off = vec![variant(true, Arch::x86())];
    assert_eq!(choose_variant(&off, Arch::arm64_v8a()).unwrap().arch, Arch::x86());
}

#[test]
fn queries_are_form_encoded() {
    assert_eq!(query("  youtube music "), "youtube+music");
    assert_eq!(query("a&b=ü"), "a%26b%3D%C3%BC");
    assert_eq!(query("com.x_y-z*"), "com.x_y-z*");
}

#[test]
fn dates_are_read_by_a_pattern() {
    assert_eq!(
        parse_date("p", "1.0", " Sep 7, 2026 ", "%b %d, %Y"),
        Ok(Date { year: 2026, month: 9, day: 7 })
    );
    assert_eq!(
        parse_date("p", "1.0", " yester\"day", "%b %d, %Y"),
        Err("p: 1.0: unparseable upload date \" yester\\\"day\"".to_string())
    );
    assert!(parse_date("p", "1.0", "Feb 30, 2026", "%b %d, %Y").is_err());
}

#[test]
fn ranking_is_stable() {
    assert_eq!(
        rank_order(&[(2, 0), (1, 5), (1, 4), (2, 0), (1, 5)]),
        vec![2, 1, 4, 0, 3]
    );
    assert_eq!(rank_order(&[]), Vec::<usize>::new());
}

#[test]
fn element_text_is_collapsed() {
    let d = scraper::Html::parse_fragment("<p> a <b>b\n c</b>  </p>");
    let p = scraper::Selector::parse("p").unwrap();
    let e = d.select(&p).next().unwrap();
    assert_eq!(text_of(&e), "a b c");
}

#[test]
fn absolute_urls_have_nothing_wrong_with_them() {
    assert_eq!(assert_absolute("https://a.b/c/d", "x"), Ok(()));
    assert_eq!(
        assert_absolute("http://a.b/c", "x"),
        Err("x: not absolute https: http://a.b/c".to_string())
    );
    assert_eq!(
        assert_absolute("https://local/c", "x"),
        Err("x: host looks wrong: local".to_string())
    );
    assert_eq!(
        assert_absolute("https://a.b//c", "x"),
        Err("x: double slash after host: https://a.b//c".to_string())
    );
    assert_eq!(
        assert_absolute("https://a.b/https://c.d", "x"),
        Err("x: repeated scheme: https://a.b/https://c.d".to_string())
    );
    assert_eq!(assert_absolute("https://a.b", "x"), Ok(()));
}

#[test]
fn saved_pages_by_request() {
    let c = |u: &str| fixture_name(ProviderId::Apkcombo, u);
    assert_eq!(c("https://apkcombo.com/search?q=youtube"), Some("search"));
    assert_eq!(c("https://apkcombo.com/y/com.x/old-versions"), Some("old-versions"));
    assert_eq!(c("https://apkcombo.com/y/com.x/download/phone-1-apk"), Some("download-page"));
    assert_eq!(c("https://apkcombo.com/y/com.x/9/dl"), Some("variants"));
    assert_eq!(c("https://apkcombo.com/en/com.x/"), Some("redirect"));
    assert_eq!(c("https://apkcombo.com/checkin"), Some("checkin"));
    assert_eq!(c("https://apkcombo.com/"), None);
    let m = |u: &str| fixture_name(ProviderId::Apkmirror, u);
    assert_eq!(m("https://m/?post_type=app_release&s=youtube"), Some("search"));
    assert_eq!(m("https://m/?post_type=app_release&s=com.x"), Some("search-pkg"));
    assert_eq!(m("https://m/?post_type=app_release&s=a&s=b.c"), Some("search"));
    assert_eq!(m("https://m/?post_type=app_release"), Some("search"));
    assert_eq!(m("https://m/a/download/?key=1"), Some("download-starting"));
    assert_eq!(m("https://m/a-1-android-apk-download/"), Some("download-page"));
    assert_eq!(m("https://m/a-1-release/"), Some("version"));
    assert_eq!(m("https://m/apk/a/b/"), Some("app"));
    let p = |u: &str| fixture_name(ProviderId::Apkpure, u);
    assert_eq!(p("https://apkpure.com/search?q=x"), Some("search"));
    assert_eq!(p("https://apkpure.com/x/com.x/versions"), Some("versions"));
    assert_eq!(p("https://apkpure.com/x/com.x"), Some("app"));
}

#[test]
fn versions_below_versions() {
    assert!(version_matches("2.6.2.1", "2.6.2") && version_matches("2.6.2", "2.6"));
    assert!(version_matches("2.6.2.1", "2.6"));
    assert!(version_matches("", ""));
    assert!(!version_matches("2", "2."));
}

#[test]
fn only_a_scheme_makes_a_link_absolute() {
    let base = "https://example.com";
    assert_eq!(abs(base, "httpd/x/"), "https://example.com/httpd/x/");
    assert_eq!(abs(base, "http://cdn.x/y"), "http://cdn.x/y");
}

#[test]
fn an_exact_version_wins_wherever_it_stands() {
    let vs = |v: &[&str]| v.iter().map(|s| s.to_string()).collect::<Vec<String>>();
    assert_eq!(find_pinned(&vs(&["2.6.2", "2.6"]), "2.6"), Some(1));
    assert_eq!(find_pinned(&vs(&["2.6.2", "2.6.1"]), "2.6"), Some(0));
    assert_eq!(find_pinned(&vs(&["2.61"]), "2.6"), None);
}
