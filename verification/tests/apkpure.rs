use apk_fetch::common::contract::{Arch, Date, ProviderError, ProviderId};
use apk_fetch::common::flow::{Reply, Request, Step};
use apk_fetch::providers::apkpure::parse::{
    clean_version, download_url, latest_version, package_from_href, parse_search, parse_versions,
    VersionRow,
};
use apk_fetch::providers::apkpure::{find_build, ApkPure, Download, Listing, Searching};
use apk_fetch::textual::apkpure as textual_apkpure;
use apk_fetch::textual::apkpure::parse as textual_parse;

#[test]
fn download_url_shape() {
    assert_eq!(
        textual_parse::download_url("org.mozilla.firefox", "155.0.1"),
        "https://d.apkpure.com/b/APK/org.mozilla.firefox?version=155.0.1"
    );
}

#[test]
fn download_urls_by_code() {
    assert_eq!(
        download_url("com.x", Some("42")),
        "https://d.apkpure.com/b/APK/com.x?versionCode=42"
    );
    assert_eq!(
        download_url("com.x", None),
        "https://d.apkpure.com/b/APK/com.x?version=latest"
    );
    assert_eq!(
        textual_parse::download_url("com.x", "1.0 ü~"),
        "https://d.apkpure.com/b/APK/com.x?version=1.0%20%FC~"
    );
}

#[test]
fn versions_lose_their_code() {
    assert_eq!(clean_version(" 2.6.2(20653) "), "2.6.2");
    assert_eq!(clean_version("(20653)"), "(20653)");
    assert_eq!(clean_version("2.6.2"), "2.6.2");
}

#[test]
fn packages_in_links() {
    assert_eq!(
        package_from_href("https://apkpure.com/youtube/com.google.android.youtube/").as_deref(),
        Some("com.google.android.youtube")
    );
    assert_eq!(package_from_href("https://apkpure.com/a.b"), None);
    assert_eq!(package_from_href("https://apkpure.com/a.b.c?d"), None);
}

const SEARCH: &str = r#"<div><a href="https://apkpure.com/youtube/com.google.android.youtube"><p class="p1">YouTube</p><p class="p2">Google LLC</p></a>
<a href="https://apkpure.com/youtube/com.google.android.youtube/"><p class="p1">Twice</p></a>
<a href="https://apkpure.com/music/com.google.android.music"><p class="p1"> </p></a>
<a href="https://apkpure.com/music/com.google.android.music"><p class="p1">Music</p><p class="p2"></p></a>
<a href="https://elsewhere.com/x/com.a.b.c"><p class="p1">Else</p></a>
<a href="https://apkpure.com/none/com.no.title"></a></div>"#;

const VERSIONS: &str = r#"<div class="ver_download_link" data-dt-version="2.6.2(20653)" data-dt-versioncode=" 20653 "><span class="update-on">Apr 10, 2025</span></div>
<div class="ver_download_link" data-dt-version="2.6.2" data-dt-versioncode="1"><span class="update-on">Apr 9, 2025</span></div>
<div class="ver_download_link" data-dt-version="2.6.1" data-dt-versioncode="20652"><span class="update-on">Apr 1, 2025</span></div>
<div class="ver_download_link" data-dt-version="2.6.0" data-dt-versioncode="20651"><span class="update-on">once</span></div>
<div class="ver_download_link" data-dt-version="2.5.0"></div>"#;

#[test]
fn apkpure_search_page() {
    let hits = parse_search(SEARCH).unwrap();
    let got: Vec<(&str, &str)> = hits
        .iter()
        .map(|h| (h.package.as_str(), h.title.as_str()))
        .collect();
    assert_eq!(
        got,
        vec![
            ("com.google.android.youtube", "YouTube"),
            ("com.google.android.music", "Music")
        ]
    );
    assert!(matches!(parse_search(""), Err(ProviderError::NotFound(_))));
    let textual = textual_parse::parse_search(SEARCH).unwrap();
    assert_eq!(textual[0].developer.as_deref(), Some("Google LLC"));
    assert_eq!(textual[1].developer, None);
}

#[test]
fn versions_page() {
    let rows = parse_versions(VERSIONS).unwrap();
    let got: Vec<(&str, &str)> = rows
        .iter()
        .map(|r| (r.version.as_str(), r.code.as_str()))
        .collect();
    assert_eq!(got, vec![("2.6.2", "20653"), ("2.6.1", "20652")]);
    assert_eq!(rows[0].uploaded, Date { year: 2025, month: 4, day: 10 });
    assert!(matches!(parse_versions(""), Err(ProviderError::NotFound(_))));
    let textual = textual_parse::parse_versions(VERSIONS).unwrap();
    assert_eq!(textual.len(), 4);
    assert_eq!(textual[3].version_code, None);
}

#[test]
fn latest_version_on_the_app_page() {
    let page = r#"<a data-dt-version="1.0"></a><a class="dt-main-download-btn" data-dt-version="2.0(7)"></a>"#;
    assert_eq!(latest_version(page).as_deref(), Some("2.0"));
    assert_eq!(
        latest_version(r#"<a data-dt-version="1.0"></a>"#).as_deref(),
        Some("1.0")
    );
    assert_eq!(latest_version(r#"<a data-dt-version=" "></a>"#), None);
    assert_eq!(latest_version("<p></p>"), None);
}

fn drive<S, T>(
    start: Step<S, T>,
    advance: fn(S, Reply) -> Step<S, T>,
    world: fn(&str) -> Reply,
) -> (Vec<String>, Result<T, ProviderError>) {
    let mut asked: Vec<String> = Vec::new();
    let mut step = start;
    loop {
        match step {
            Step::Ask(Request::Get(u), s) => {
                let reply = world(&u);
                asked.push(u);
                step = advance(s, reply);
            }
            Step::Done(r) => return (asked, r),
            _ => panic!("only pages are asked for"),
        }
    }
}

fn site(u: &str) -> Reply {
    Ok(if u.contains("/search?q=") {
        SEARCH.to_string()
    } else if u.ends_with("/versions") {
        VERSIONS.to_string()
    } else {
        r#"<a data-dt-version="2.6.2(20653)"></a>"#.to_string()
    })
}

#[test]
fn search_and_list() {
    let (asked, r) = drive(ApkPure::search("you tube"), Searching::advance, site);
    assert_eq!(asked, vec!["https://apkpure.com/search?q=you+tube"]);
    assert_eq!(r.unwrap().len(), 2);
    let (asked, r) = drive(ApkPure::versions("com.x"), Listing::advance, site);
    assert_eq!(asked, vec!["https://apkpure.com/x/com.x/versions"]);
    assert_eq!(r.unwrap()[1].version, "2.6.1");
}

#[test]
fn downloads_in_one_request() {
    let (asked, r) = drive(
        ApkPure::download_url("com.x", None, Arch::x86()),
        Download::advance,
        site,
    );
    assert_eq!(asked, vec!["https://apkpure.com/x/com.x"]);
    let t = r.unwrap();
    assert_eq!(t.url, "https://d.apkpure.com/b/APK/com.x?version=latest");
    assert_eq!(t.version, "2.6.2");
    assert_eq!(t.arch, Arch::all());
    assert_eq!(t.provider, ProviderId::Apkpure);
    let (_, r) = drive(
        ApkPure::download_url("com.x", Some("2.6.1"), Arch::x86()),
        Download::advance,
        site,
    );
    assert_eq!(r.unwrap().url, "https://d.apkpure.com/b/APK/com.x?versionCode=20652");
    let (_, r) = drive(
        ApkPure::download_url("com.x", Some("3"), Arch::x86()),
        Download::advance,
        site,
    );
    assert!(matches!(r, Err(ProviderError::NotFound(m)) if m == "no version 3 for com.x"));
    fn empty(_: &str) -> Reply {
        Ok(String::new())
    }
    let (_, r) = drive(
        ApkPure::download_url("com.x", None, Arch::x86()),
        Download::advance,
        empty,
    );
    assert!(matches!(r, Err(ProviderError::NotFound(m)) if m == "no app page for com.x"));
}

#[test]
fn apkpure_reports_unread_dates() {
    let page: Reply = Ok(VERSIONS.to_string());
    assert_eq!(
        Listing.reports(&page),
        vec!["apkpure: 2.6.0: unparseable upload date \"once\""]
    );
    assert_eq!(
        Download::Rows("com.x".to_string(), "1".to_string())
            .reports(&page)
            .len(),
        1
    );
    assert!(Download::App("com.x".to_string()).reports(&page).is_empty());
}

fn row(version: &str, code: &str) -> VersionRow {
    VersionRow {
        version: version.to_string(),
        code: code.to_string(),
        uploaded: Date { year: 2025, month: 4, day: 1 },
    }
}

#[test]
fn apkpure_takes_the_exact_version() {
    let rows = vec![row("2.6.2", "262"), row("2.6", "260")];
    assert!(find_build(&rows, "2.6", "com.x").unwrap().url.ends_with("?versionCode=260"));
    assert!(find_build(&rows[..1], "2.6", "com.x").unwrap().url.ends_with("?versionCode=262"));
    let older = vec![
        textual_parse::VersionRow { version: "2.6.2".to_string(), version_code: None },
        textual_parse::VersionRow { version: "2.6".to_string(), version_code: None },
    ];
    assert_eq!(
        textual_apkpure::find_build(&older, "2.6", "com.x").unwrap().version.as_deref(),
        Some("2.6")
    );
}

#[test]
fn a_row_without_a_date_hides_no_other() {
    let page = r#"<div class="ver_download_link" data-dt-version="1.0" data-dt-versioncode="1"><span class="update-on">once</span></div>
<div class="ver_download_link" data-dt-version="1.0" data-dt-versioncode="2"><span class="update-on">Apr 9, 2025</span></div>
<div class="ver_download_link" data-dt-version="1.0" data-dt-versioncode="3"><span class="update-on">never</span></div>"#;
    let rows = parse_versions(page).unwrap();
    assert_eq!(rows.len(), 1);
    assert_eq!((rows[0].version.as_str(), rows[0].code.as_str()), ("1.0", "2"));
    assert_eq!(rows[0].uploaded, Date { year: 2025, month: 4, day: 9 });
    assert_eq!(
        Listing.reports(&Ok(page.to_string())),
        vec!["apkpure: 1.0: unparseable upload date \"once\""]
    );
}
