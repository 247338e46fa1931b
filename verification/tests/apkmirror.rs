use apk_fetch::common::contract::{Arch, Date, ProviderError, ProviderId};
use apk_fetch::common::flow::{Reply, Request, Step};
use apk_fetch::providers::apkmirror::parse::{
    app_slug, latest_version, link_or, parse_download_button, parse_final_link, parse_search,
    parse_variants, parse_versions, rank, strip_version, token_match, try_latest_version,
    try_parse_search, SearchHit, Url,
};
use apk_fetch::providers::apkmirror::{find_build, ApkMirror, Download, Listing, Searching};
use apk_fetch::providers::scrape::version_token;
use apk_fetch::textual::apkmirror as textual_apkmirror;
use apk_fetch::textual::apkmirror::parse as textual_parse;
use apk_fetch::textual::named;

#[test]
fn derives_app_slug() {
    assert_eq!(
        app_slug(&Url::of(
            "https://www.apkmirror.com/apk/mozilla/firefox/firefox-x-y-release/"
        ))
        .as_deref(),
        Some("mozilla/firefox")
    );
    assert_eq!(app_slug(&Url::of("https://www.apkmirror.com/apk/mozilla/")), None);
    assert_eq!(app_slug(&Url::of("https://elsewhere/apk/a/b/")), None);
}

#[test]
fn strips_version_from_any_position() {
    assert_eq!(
        strip_version("LINE: Calls & Messages 26.14.0"),
        "LINE: Calls & Messages"
    );
    // Version is not the last token
    assert_eq!(strip_version("YouTube 21.36.42 beta"), "YouTube beta");
    // No dotted number -> title kept whole
    assert_eq!(strip_version("Some App"), "Some App");
    assert_eq!(strip_version("2nd Line"), "2nd Line");
}

fn hit(title: &str, repo: &str) -> SearchHit {
    SearchHit {
        title: title.to_string(),
        release_url: Url::of(&format!("/apk/org/{repo}/{repo}-1-release/")),
    }
}

#[test]
fn rank_covers_query_tokens_then_penalises_slug_extras() {
    let r = |title: &str, repo: &str, q: &str| rank(&hit(title, repo), q);
    // coverage rungs: whole word < prefix < substring < absent
    assert!(r("LINE Camera 1.0", "line-camera", "line") < r("Lineage2M 1.0", "lineage2m", "line"));
    assert!(
        r("Lineage2M 1.0", "lineage2m", "line") < r("Airline Manager", "airline-manager", "line")
    );
    assert!(
        r("Airline Manager", "airline-manager", "line")
            < r("Korean Air My", "korean-air-my", "line")
    );
    // every query token counts, order-free; the version token never does
    assert_eq!(
        r("YouTube Music 9.3", "youtube-music", "youtube music"),
        (0, 0)
    );
    assert_eq!(r("Music - YouTube", "youtube-music", "youtube music").0, 0);
    assert_eq!(r("YouTube 21.3", "youtube", "youtube music").0, 3);
    // package-id query: coverage ties, uncovered slug tokens pick the phone app
    let pkg = "com.google.android.youtube";
    let phone = r("YouTube 1.0", "youtube", pkg);
    let beta = r("YouTube 1.2 beta", "youtube-beta", pkg);
    let wear = r("YouTube 1.1", "youtube-wear-os", pkg);
    assert!(phone < beta && beta < wear);
    // Asking for the channel lifts its penalty; `dev` in a package id is a
    // token, not a substring, so `com.devhd.x` doesn't pick `-dev`
    assert!(
        r("YouTube beta", "youtube-beta", "youtube beta") < r("YouTube", "youtube", "youtube beta")
    );
    assert!(
        r("Feedly", "feedly", "com.devhd.feedly") < r("Feedly", "feedly-dev", "com.devhd.feedly")
    );
}

#[test]
fn derives_app_page() {
    assert_eq!(
        textual_parse::app_page_from_release(
            "https://www.apkmirror.com/apk/mozilla/firefox/firefox-x-y-release/"
        )
        .unwrap(),
        "https://www.apkmirror.com/apk/mozilla/firefox/"
    );
}

#[test]
fn version_token_extracts_number() {
    assert_eq!(version_token("Firefox Fast & Private Browser 155.0.1"), "155.0.1");
}

#[test]
fn tokens_match_by_degrees() {
    assert_eq!(token_match("line", "line"), 0);
    assert_eq!(token_match("line", "lineage"), 1);
    assert_eq!(token_match("line", "airline"), 2);
    assert_eq!(token_match("line", "korean"), 3);
}

#[test]
fn ranking_folds_case_beyond_ascii() {
    assert_eq!(rank(&hit("ÜBER 1.0", "über"), "Über").0, 0);
}

const SEARCH: &str = r#"<div class="appRow"><h5 class="appRowTitle"><a class="fontBlack" href="/apk/google/youtube-wear-os/youtube-wear-os-1-1-release/">YouTube for Wear OS 1.1</a></h5></div>
<div class="appRow"><h5 class="appRowTitle"><a class="fontBlack" href="/apk/google/youtube/youtube-21-3-release/"> YouTube
 21.3 </a></h5></div>
<div class="appRow"><h5 class="appRowTitle"><a class="fontBlack" href="/apk/google/youtube/youtube-21-2-release/">YouTube 21.2</a></h5></div>
<h5 class="widgetHeader">Popular</h5>
<div class="appRow"><h5 class="appRowTitle"><a class="fontBlack" href="/apk/x/y/y-1-release/">Unrelated 1</a></h5></div>"#;

const APP: &str = r#"<div class="listWidget"><a name="other"></a></div>
<div class="listWidget p-relative"><a name="all_versions"></a>
<div class="appRow"><h5 class="appRowTitle"><a class="fontBlack" href="/apk/google/youtube/youtube-21-3-release/">YouTube 21.3</a></h5><span class="dateyear_utc" data-utcdate="09/7/2026 02:34 UTC"></span></div>
<div class="appRow"><h5 class="appRowTitle"><a class="fontBlack">No link 20.0</a></h5><span class="dateyear_utc" data-utcdate="09/7/2026 02:34 UTC"></span></div>
<div class="appRow"><h5 class="appRowTitle"><a class="fontBlack" href="/apk/google/youtube/youtube-21-2-release/">YouTube 21.2</a></h5><span class="dateyear_utc" data-utcdate="8/31/2026 23:59 UTC"></span></div>
<div class="appRow"><h5 class="appRowTitle"><a class="fontBlack" href="/apk/google/youtube/youtube-21-1-release/">YouTube 21.1</a></h5></div>
</div>"#;

const VERSION: &str = r#"<div class="variants-table">
<div class="table-row headerFont"><div class="table-cell">Variant</div></div>
<div class="table-row"><div class="table-cell"><a class="accent_color" href="/apk/google/youtube/a-android-apk-download/">21.3</a><span class="apkm-badge">BUNDLE</span></div><div class="table-cell">arm64-v8a</div></div>
<div class="table-row"><div class="table-cell"><a class="accent_color" href="/apk/google/youtube/b-android-apk-download/">21.3</a><span class="apkm-badge">apk</span></div><div class="table-cell">arm64-v8a + armeabi-v7a</div></div>
<div class="table-row"><div class="table-cell"><a class="accent_color" href="/apk/google/youtube/c-android-apk-download/">21.3</a></div></div>
<div class="table-row"><div class="table-cell">no link</div></div>
</div>"#;

const BUTTON: &str = r#"<a class="downloadButton">none</a><a class="downloadButton" href="/apk/google/youtube/b/download/?key=abc">Download APK</a>"#;

const STARTING: &str = r#"<div class="card-with-tabs"><a href="/fallback">x</a></div><a id="download-link" href="/wp-content/download.php?id=1&amp;key=2">here</a>"#;

#[test]
fn search_page_by_rank() {
    let hits = parse_search(SEARCH, "com.google.android.youtube").unwrap();
    let got: Vec<&str> = hits.iter().map(|h| h.title.as_str()).collect();
    assert_eq!(got, vec!["YouTube 21.3", "YouTube 21.2", "YouTube for Wear OS 1.1"]);
    assert_eq!(hits[0].version(), "21.3");
    assert_eq!(
        hits[0].release_url.as_str(),
        "https://www.apkmirror.com/apk/google/youtube/youtube-21-3-release/"
    );
    assert!(matches!(
        try_parse_search("No results found matching your query", "q"),
        Some(Err(ProviderError::NotFound(_)))
    ));
    assert!(matches!(parse_search("<p></p>", "q"), Err(ProviderError::NotFound(_))));
    // A hit without a link is more than the page reader can answer for.
    assert!(try_parse_search(
        r#"<h5 class="appRowTitle"><a class="fontBlack">x</a></h5>"#,
        "q"
    )
    .is_none());
}

#[test]
fn newest_release_on_the_app_page() {
    let hit = latest_version(APP).unwrap();
    assert_eq!(hit.title, "YouTube 21.3");
    match try_latest_version("<p></p>") {
        Some(Err(ProviderError::ParseError(m))) => {
            assert_eq!(m, "no 'All versions' widget on app page")
        }
        _ => panic!("a widget"),
    }
    match try_latest_version(r#"<div class="listWidget p-relative"></div>"#) {
        Some(Err(ProviderError::ParseError(m))) => {
            assert_eq!(m, "no item in 'All versions' widget")
        }
        _ => panic!("an item"),
    }
    assert!(try_latest_version(
        r#"<div class="listWidget p-relative"><h5 class="appRowTitle"><a class="fontBlack">x</a></h5></div>"#
    )
    .is_none());
}

#[test]
fn app_page_versions() {
    let rows = parse_versions(APP).unwrap();
    assert_eq!(rows.len(), 2);
    assert_eq!(rows[0].version, "21.3");
    assert_eq!(rows[1].uploaded, Date { year: 2026, month: 8, day: 31 });
    assert!(matches!(parse_versions(""), Err(ProviderError::ParseError(_))));
    assert!(matches!(
        parse_versions(r#"<div class="listWidget p-relative"></div>"#),
        Err(ProviderError::NotFound(_))
    ));
}

#[test]
fn version_page_variants() {
    let vs = parse_variants(VERSION);
    assert_eq!(vs.len(), 3);
    assert!(vs[0].bundle && !vs[1].bundle && vs[2].bundle);
    assert_eq!(vs[1].arch, Arch::arm64_v8a().union(Arch::armeabi_v7a()));
    assert_eq!(vs[2].arch, Arch::all());
    assert_eq!(
        vs[1].url,
        "https://www.apkmirror.com/apk/google/youtube/b-android-apk-download/"
    );
    assert!(parse_variants("<p></p>").is_empty());
}

#[test]
fn download_links() {
    assert_eq!(
        parse_download_button(BUTTON).unwrap().as_str(),
        "https://www.apkmirror.com/apk/google/youtube/b/download/?key=abc"
    );
    assert_eq!(
        parse_final_link(STARTING).unwrap().as_str(),
        "https://www.apkmirror.com/wp-content/download.php?id=1&key=2"
    );
    assert_eq!(
        parse_final_link(r#"<div class="card-with-tabs"><a href="/fallback">x</a></div>"#)
            .unwrap()
            .as_str(),
        "https://www.apkmirror.com/fallback"
    );
    assert!(matches!(parse_download_button(""), Err(ProviderError::ParseError(_))));
    assert!(matches!(parse_final_link(""), Err(ProviderError::ParseError(_))));
    assert!(matches!(link_or(None, "gone"), Err(ProviderError::ParseError(m)) if m == "gone"));
}

fn drive<S, T>(
    start: Step<S, T>,
    advance: fn(S, Reply) -> Step<S, T>,
    world: fn(&Request) -> Reply,
) -> (Vec<String>, Result<T, ProviderError>) {
    let mut asked: Vec<String> = Vec::new();
    let mut step = start;
    loop {
        match step {
            Step::Ask(q, s) => {
                let reply = world(&q);
                match q {
                    Request::Get(u) => asked.push(u),
                    _ => panic!("only pages are asked for"),
                }
                step = advance(s, reply);
            }
            Step::Done(r) => return (asked, r),
            Step::Abort => panic!("aborted"),
        }
    }
}

fn site(q: &Request) -> Reply {
    let u = match q {
        Request::Get(u) => u.as_str(),
        _ => panic!("only pages are asked for"),
    };
    Ok(if u.contains("post_type=app_release") {
        SEARCH
    } else if u.contains("/download/?key=") {
        STARTING
    } else if u.ends_with("-android-apk-download/") {
        BUTTON
    } else if u.ends_with("youtube-21-2-release/") {
        VERSION
    } else {
        APP
    }
    .to_string())
}

#[test]
fn search_names_apps_by_slug() {
    let (asked, r) = drive(ApkMirror::search("you tube"), Searching::advance, site);
    assert_eq!(
        asked,
        vec!["https://www.apkmirror.com/?post_type=app_release&searchtype=app&s=you+tube"]
    );
    let apps = r.unwrap();
    assert!(apps.iter().any(|a| a.package == "google/youtube" && a.title == "YouTube"));
}

#[test]
fn search_decodes_slugs() {
    fn odd(_: &Request) -> Reply {
        Ok(r#"<h5 class="appRowTitle"><a class="fontBlack" href="/apk/o/caf%C3%A9/x-release/">Café 1.0</a></h5>"#.to_string())
    }
    let (_, r) = drive(ApkMirror::search("cafe"), Searching::advance, odd);
    assert_eq!(r.unwrap()[0].package, "o/café");
}

#[test]
fn versions_come_off_the_app_page() {
    let (asked, r) = drive(
        ApkMirror::versions("com.google.android.youtube"),
        Listing::advance,
        site,
    );
    assert_eq!(asked.len(), 3);
    assert_eq!(asked[2], "https://www.apkmirror.com/apk/google/youtube/");
    assert_eq!(r.unwrap().len(), 2);
}

#[test]
fn pinned_builds_walk_the_chain() {
    let (asked, r) = drive(
        ApkMirror::download_url("com.google.android.youtube", Some("21.2"), Arch::arm64_v8a()),
        Download::advance,
        site,
    );
    assert_eq!(asked.len(), 4);
    assert!(asked[0].contains("searchtype=apk&s=com.google.android.youtube+21.2"));
    let t = r.unwrap();
    assert_eq!(
        t.url,
        "https://www.apkmirror.com/wp-content/download.php?id=1&key=2"
    );
    assert_eq!(t.version, "21.3");
    assert_eq!(t.provider, ProviderId::Apkmirror);
    // The file is served to whoever comes from the page with the button.
    assert_eq!(
        t.headers,
        vec![(
            "Referer".to_string(),
            "https://www.apkmirror.com/apk/google/youtube/b/download/?key=abc".to_string()
        )]
    );
}

#[test]
fn single_builds_skip_the_table() {
    fn single(q: &Request) -> Reply {
        match q {
            Request::Get(u) if u.contains("post_type=app_release") => Ok(SEARCH.to_string()),
            Request::Get(u) if u.contains("/download/?key=") => Ok(STARTING.to_string()),
            Request::Get(_) => Ok(format!("{APP}{BUTTON}")),
            _ => panic!("only pages are asked for"),
        }
    }
    let (asked, r) = drive(
        ApkMirror::download_url("com.google.android.youtube", None, Arch::x86()),
        Download::advance,
        single,
    );
    assert_eq!(asked.len(), 4);
    let t = r.unwrap();
    assert_eq!(t.version, "latest");
    assert_eq!(t.arch, Arch::all());
}

#[test]
fn pages_without_their_links_abort() {
    let step = Searching { query: "q".to_string() }.advance(Ok(
        r#"<h5 class="appRowTitle"><a class="fontBlack">x</a></h5>"#.to_string(),
    ));
    assert!(matches!(step, Step::Abort));
}

#[test]
fn missing_builds_and_blocks() {
    let (_, r) = drive(
        ApkMirror::download_url("com.x", Some("9.9"), Arch::all()),
        Download::advance,
        site,
    );
    assert!(matches!(r, Err(ProviderError::NotFound(m)) if m == "no build 9.9 for com.x"));
    fn blocked(_: &Request) -> Reply {
        Err(ProviderError::Blocked)
    }
    let (asked, r) = drive(
        ApkMirror::download_url("com.x", None, Arch::all()),
        Download::advance,
        blocked,
    );
    assert_eq!(asked.len(), 1);
    assert!(matches!(r, Err(ProviderError::Blocked)));
}

#[test]
fn textual_mirror_pages() {
    let hits = textual_parse::parse_search(SEARCH).unwrap();
    assert_eq!(hits.len(), 3);
    assert_eq!(hits[0].title, "YouTube for Wear OS 1.1");
    assert!(textual_parse::parse_search("No results found matching your query").is_err());
    let rows = textual_parse::parse_versions(APP).unwrap();
    assert_eq!(rows.len(), 3);
    assert_eq!(rows[0].uploaded.as_deref(), Some("09/7/2026 02:34 UTC"));
    assert_eq!(rows[2].uploaded, None);
    let vs = textual_parse::parse_variants(VERSION);
    assert_eq!(vs.len(), 3);
    assert_eq!(vs[0].kind, "BUNDLE");
    assert!(textual_parse::choose_variant(&vs, "arm64-v8a")
        .unwrap()
        .download_page_url
        .ends_with("b-android-apk-download/"));
    assert!(textual_parse::choose_variant(&[], "x86").is_none());
    assert!(textual_parse::parse_download_button(BUTTON).unwrap().ends_with("?key=abc"));
    assert!(textual_parse::parse_final_link(STARTING)
        .unwrap()
        .contains("download.php?id="));
    assert_eq!(
        textual_parse::app_page_from_release("https://www.apkmirror.com/news/a/b/"),
        None
    );
}

#[test]
fn apkmirror_reports_unread_dates() {
    let page: Reply = Ok(APP.to_string());
    assert_eq!(
        Listing::Versions.reports(&page),
        vec!["apkmirror: 21.1: unparseable upload date \"\""]
    );
    assert!(Listing::App.reports(&page).is_empty());
    assert!(Listing::Versions.reports(&Ok(String::new())).is_empty());
}

#[test]
fn no_results_page_is_not_found() {
    let page = "<html><body><p>No results found matching your query</p></body></html>";
    assert!(matches!(
        textual_parse::parse_search(page),
        Err(named::ProviderError::NotFound)
    ));
}

#[test]
fn an_app_is_listed_once() {
    fn twice(_: &Request) -> Reply {
        Ok(r#"<h5 class="appRowTitle"><a class="fontBlack" href="/apk/foo/bar/bar-2-release/">Bar 2.0</a></h5>
<h5 class="appRowTitle"><a class="fontBlack" href="/apk/foo/bar/bar-1-release/">Bar 1.0</a></h5>"#.to_string())
    }
    let (_, r) = drive(ApkMirror::search("bar"), Searching::advance, twice);
    let apps = r.unwrap();
    assert_eq!(apps.len(), 1);
    assert_eq!((apps[0].package.as_str(), apps[0].title.as_str()), ("foo/bar", "Bar"));
}

#[test]
fn apkmirror_takes_the_exact_version() {
    let release = |title: &str, n: &str| SearchHit {
        title: title.to_string(),
        release_url: Url::of(&format!("/apk/o/x/x-{n}-release/")),
    };
    let hits = vec![release("X 2.6.2", "2-6-2"), release("X 2.6", "2-6")];
    assert!(find_build(&hits, "2.6", "x").unwrap().ends_with("x-2-6-release/"));
    assert!(find_build(&hits[..1], "2.6", "x").unwrap().ends_with("x-2-6-2-release/"));
    let row = |title: &str, n: &str| textual_parse::VersionRow {
        title: title.to_string(),
        version_page_url: format!("https://x/{n}"),
        uploaded: None,
    };
    let rows = vec![row("X 12.6", "a"), row("X 2.6.2", "b"), row("X 2.6", "c")];
    assert_eq!(textual_apkmirror::find_build(&rows, "2.6").unwrap(), "https://x/c");
    assert_eq!(textual_apkmirror::find_build(&rows[..2], "2.6").unwrap(), "https://x/b");
    // A title that merely holds the text is another version.
    assert!(matches!(
        textual_apkmirror::find_build(&rows[..1], "2.6"),
        Err(named::ProviderError::NotFound)
    ));
}

#[test]
fn labels_hold_underscores() {
    let build = |arch: &str, n: &str| textual_parse::Variant {
        version: "1".to_string(),
        arch: arch.to_string(),
        kind: "APK".to_string(),
        download_page_url: n.to_string(),
    };
    let vs = vec![build("x86_64", "a"), build("x86", "b")];
    assert_eq!(textual_parse::choose_variant(&vs, "x86").unwrap().download_page_url, "b");
    assert_eq!(textual_parse::choose_variant(&vs, "x86_64").unwrap().download_page_url, "a");
    let both = vec![build("arm64-v8a", "a"), build("x86 + x86_64", "b")];
    assert_eq!(textual_parse::choose_variant(&both, "x86_64").unwrap().download_page_url, "b");
}

#[test]
fn many_extras_never_rank_like_none() {
    let many = |n: usize| rank(&hit("x", &vec!["a"; n].join("-")), "x").1;
    assert_eq!(many(1), 1);
    assert_eq!(many(254), 254);
    assert_eq!(many(255), 255);
    assert_eq!(many(256), 255);
    assert_eq!(many(600), 255);
}
