use apk_fetch::common::flow::{Reply, Request, Step};
use apk_fetch::textual::named::{ProviderError, VersionInfo};
use apk_fetch::textual::uptodown::parse::{
    app_code, app_package, parse_search, parse_versions_json, search_terms,
};
use apk_fetch::textual::uptodown::{App, Download, Listing, Resolving, Searching, Uptodown};

#[test]
fn search_terms_from_pkg() {
    assert_eq!(
        search_terms("com.spotify.music"),
        vec!["spotify music", "spotify", "music"]
    );
    assert_eq!(search_terms("com.whatsapp"), vec!["whatsapp"]);
}

#[test]
fn search_terms_are_longest_first_and_never_empty() {
    assert_eq!(
        search_terms("org.ab.abcd.ab"),
        vec!["ab abcd ab", "abcd", "ab"]
    );
    assert_eq!(search_terms("com.android"), vec!["com.android"]);
    assert_eq!(search_terms("COM.x.Yz"), vec!["Yz"]);
}

const SEARCH: &str = r#"<div id="content-list">
<div class="item" data-code="11" onclick="location.href='https://spotify.en.uptodown.com/android'"><img alt="Spotify icon"></div>
<div class="item" data-code="12" onclick="location.href='https://spotify-lite.en.uptodown.com/android'"> Spotify
 Lite </div>
<div class="item" data-code="13" onclick="location.href='https://elsewhere.com/android'">x</div>
<div class="item" data-code="14">no link</div>
<div class="item" onclick="location.href='https://a.en.uptodown.com'">no code</div>
</div>"#;

const PAGE: &str = r#"<table><tr><th>License</th><td>Free</td></tr>
<tr><th>PACKAGE name</th><td>the icon</td><td> com.spotify.music </td></tr></table><b data-code="99"></b>"#;

const VERSIONS: &str = r#"{"data":[{"version":"9.1.80","lastUpdate":"Sep 1, 2026"},{"version":7},{"version":"9.1.79"}]}"#;

#[test]
fn uptodown_search_page() {
    let hits = parse_search(SEARCH).unwrap();
    let got: Vec<(&str, &str, &str)> = hits
        .iter()
        .map(|h| (h.base.as_str(), h.code.as_str(), h.name.as_str()))
        .collect();
    assert_eq!(
        got,
        vec![
            ("https://spotify.en.uptodown.com", "11", "Spotify"),
            ("https://spotify-lite.en.uptodown.com", "12", "Spotify Lite"),
        ]
    );
    assert!(matches!(parse_search(""), Err(ProviderError::NotFound)));
}

#[test]
fn app_page() {
    assert_eq!(app_package(PAGE).as_deref(), Some("com.spotify.music"));
    assert_eq!(app_package("<table></table>"), None);
    assert_eq!(app_code(PAGE).as_deref(), Some("99"));
    assert_eq!(app_code(r#"<b data-code="9x"></b>"#), None);
    assert_eq!(app_code(r#"<b data-code=""></b>"#), None);
}

#[test]
fn versions_document() {
    let rows = parse_versions_json(VERSIONS).unwrap();
    assert_eq!(rows.len(), 2);
    assert_eq!(rows[0].version, "9.1.80");
    assert_eq!(rows[0].uploaded.as_deref(), Some("Sep 1, 2026"));
    assert_eq!(rows[1].uploaded, None);
    match parse_versions_json("{") {
        Err(ProviderError::ParseError(m)) => {
            assert!(m.starts_with("versions json: ") && m.contains("EOF"))
        }
        _ => panic!("parsed"),
    }
    match parse_versions_json(r#"{"data":{}}"#) {
        Err(ProviderError::ParseError(m)) => assert_eq!(m, "versions json: no data array"),
        _ => panic!("parsed"),
    }
    assert!(matches!(parse_versions_json(r#"{"data":[]}"#), Err(ProviderError::NotFound)));
}

fn drive<S, T>(
    start: Step<S, T, ProviderError>,
    advance: fn(S, Reply<ProviderError>) -> Step<S, T, ProviderError>,
    world: fn(&str) -> Reply<ProviderError>,
) -> (Vec<String>, Result<T, ProviderError>) {
    let mut asked: Vec<String> = Vec::new();
    let mut step = start;
    loop {
        match step {
            Step::Ask(Request::Get(u), s) => {
                let reply = world(&u);
                asked.push(u);
                step = advance(s, reply);
            }
            Step::Done(r) => return (asked, r),
            _ => panic!("only pages are asked for"),
        }
    }
}

fn site(u: &str) -> Reply<ProviderError> {
    if u.ends_with("?query=spotify+music") {
        Err(ProviderError::NotFound)
    } else if u.contains("?query=") {
        Ok(SEARCH.to_string())
    } else if u == "https://spotify.en.uptodown.com/android" {
        Ok("<p>another app</p>".to_string())
    } else if u == "https://spotify-lite.en.uptodown.com/android" {
        Ok(PAGE.to_string())
    } else {
        Ok(VERSIONS.to_string())
    }
}

#[test]
fn packages_are_confirmed_on_their_page() {
    let (asked, r) = drive(Uptodown::resolve("com.spotify.music"), Resolving::advance, site);
    assert_eq!(
        asked,
        vec![
            "https://en.uptodown.com/android/search?query=spotify+music",
            "https://en.uptodown.com/android/search?query=spotify",
            "https://spotify.en.uptodown.com/android",
            "https://spotify-lite.en.uptodown.com/android",
        ]
    );
    let app: App = match r {
        Ok(a) => a,
        Err(_) => panic!("not resolved"),
    };
    assert_eq!(app.base, "https://spotify-lite.en.uptodown.com");
    assert_eq!(app.code, "99");
}

#[test]
fn no_page_is_looked_at_twice() {
    let (asked, r) = drive(Uptodown::resolve("com.other.thing"), Resolving::advance, site);
    assert!(matches!(r, Err(ProviderError::NotFound)));
    let pages: Vec<&String> = asked.iter().filter(|u| u.ends_with("/android")).collect();
    assert_eq!(pages.len(), 2);
}

#[test]
fn versions_follow_the_resolution() {
    let (asked, r) = drive(Uptodown::versions("com.spotify.music"), Listing::advance, site);
    assert_eq!(
        asked[4],
        "https://spotify-lite.en.uptodown.com/android/apps/99/versions/1"
    );
    let rows: Vec<VersionInfo> = match r {
        Ok(v) => v,
        Err(_) => panic!("no versions"),
    };
    assert_eq!(rows[0].version, "9.1.80");
    assert_eq!(rows[0].provider, "uptodown");
}

#[test]
fn downloads_are_always_blocked() {
    let (_, r) = drive(
        Uptodown::download_url("com.spotify.music", None, "arm64-v8a"),
        Download::advance,
        site,
    );
    assert!(matches!(r, Err(ProviderError::Blocked { retry_after: None })));
    let (_, r) = drive(
        Uptodown::download_url("com.other.thing", None, "arm64-v8a"),
        Download::advance,
        site,
    );
    assert!(matches!(r, Err(ProviderError::NotFound)));
}

#[test]
fn search_names_apps_by_subdomain() {
    let (asked, r) = drive(Uptodown::search(" spotify  x "), Searching::advance, site);
    assert_eq!(
        asked,
        vec!["https://en.uptodown.com/android/search?query=spotify++x"]
    );
    let apps = match r {
        Ok(a) => a,
        Err(_) => panic!("no apps"),
    };
    assert_eq!(apps[1].package, "spotify-lite");
    assert_eq!(apps[1].title, "Spotify Lite");
}
