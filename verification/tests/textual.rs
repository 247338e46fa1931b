use apk_fetch::cli::commands::Notice;
use apk_fetch::cli::exit::{EXIT_BLOCKED, EXIT_GENERIC, EXIT_NETWORK, EXIT_NOT_FOUND};
use apk_fetch::common::contract::ProviderId;
use apk_fetch::common::fetch::{CurlRun, Verdict, META_SENTINEL};
use apk_fetch::common::flow::{Reply, Request, Step};
use apk_fetch::textual::apkcombo;
use apk_fetch::textual::apkmirror;
use apk_fetch::textual::apkpure;
use apk_fetch::textual::commands::{
    check_targets, get, provider_error_code, provider_fail, provider_line, providers_check,
    providers_list, rank, render_results, resolve_err, resolving_text, route, saved, search, search_targets, search_telling,
    version_line, versions, versions_target, Checks, Note, Route, Search,
};
use apk_fetch::textual::contract::{
    download_filename, AppResult, DownloadTarget, Provider, ProviderError, ProviderFailure,
    ProviderRegistry, ResolveError, VersionInfo,
};
use apk_fetch::textual::fetch::{
    check_head, download_to_file, map_http_status, package_ext_from, rename_to_real_ext, request,
    text_bytes, Fetcher, Save, SaveRun,
};
use apk_fetch::textual::named;
use apk_fetch::textual::urls::{abs_from, spaced};
use std::cell::RefCell;
use std::path::Path;

#[test]
fn lib_filename_shape() {
    assert_eq!(
        download_filename("org.mozilla.firefox", "155.0.1", Some("arm64-v8a"), "apk"),
        "org.mozilla.firefox-155.0.1-arm64-v8a.apk"
    );
    assert_eq!(
        download_filename("org.mozilla.firefox", "155.0.1", None, "xapk"),
        "org.mozilla.firefox-155.0.1.xapk"
    );
    // path separators from a slug-style id get scrubbed
    assert_eq!(
        download_filename("mozilla/firefox", "1.0", Some("universal"), "apk"),
        "mozilla_firefox-1.0-universal.apk"
    );
}

#[test]
fn ext_from_content_type_and_url() {
    assert_eq!(
        package_ext_from("application/vnd.android.package-archive", "").as_deref(),
        Some("apk")
    );
    assert_eq!(
        package_ext_from("application/xapk-package-archive", "").as_deref(),
        Some("xapk")
    );
    // content-type unhelpful -> fall back to the URL
    assert_eq!(
        package_ext_from("application/octet-stream", "https://x/y_APKPure.xapk?k=1").as_deref(),
        Some("xapk")
    );
    assert_eq!(package_ext_from("text/html", "https://x/y"), None);
}

#[test]
fn lib_status_mapping() {
    let u = "https://x/y";
    assert!(matches!(map_http_status(403, u), Some(ProviderError::Blocked { .. })));
    assert!(matches!(map_http_status(429, u), Some(ProviderError::Blocked { .. })));
    assert!(matches!(map_http_status(404, u), Some(ProviderError::NotFound(_))));
    assert!(map_http_status(200, u).is_none());
}

#[test]
fn files_get_the_extension_that_was_served() {
    assert_eq!(
        rename_to_real_ext("a-1.0.apk", "application/xapk-package-archive", ""),
        "a-1.0.xapk"
    );
    assert_eq!(rename_to_real_ext("a-1.0.apk", "text/html", ""), "a-1.0.apk");
    // Only the last part of a path has an extension.
    let xapk = |path: &str| rename_to_real_ext(path, "application/xapk-package-archive", "");
    assert_eq!(xapk("a.b/c"), "a.b/c.xapk");
    assert_eq!(xapk("a.b/c.apk"), "a.b/c.xapk");
    assert_eq!(xapk("a.b/c.xapk"), "a.b/c.xapk");
    assert_eq!(xapk(".apk"), ".apk.xapk");
    for path in ["", ".", "..", "a.b/..", "/", "./", "../."] {
        assert_eq!(xapk(path), path);
    }
    for path in ["a.apk", "c", "c.", "a.b/c", "a.b/c.d.apk", "a/", "a.apk//", "a.b/./", ".x", "..."] {
        let real = Path::new(path).with_extension("xapk");
        assert_eq!(xapk(path), real.to_str().unwrap());
    }
}

#[test]
fn downloads_end_with_a_name() {
    assert!(matches!(download_to_file(SaveRun::Saved), Save::ReadHead));
    assert!(matches!(
        download_to_file(SaveRun::NotRun("no curl".to_string())),
        Save::Fail(ProviderError::Network(_))
    ));
    assert!(matches!(
        download_to_file(SaveRun::Lost("gone".to_string())),
        Save::Fail(_) | Save::Remove(_)
    ));
    assert!(matches!(
        download_to_file(SaveRun::Failed("exit status: 22".to_string(), "404".to_string())),
        Save::Fail(_) | Save::Remove(_)
    ));
    assert!(matches!(check_head("a.apk", "", b"<htm"), Save::Remove(_)));
    assert!(matches!(check_head("a.apk", "", b"PK\x03\x04"), Save::Name(_)));
}

#[test]
fn requests_as_with_the_other_errors() {
    let run = |code: i32, out: &str| {
        CurlRun::Ended(code == 0, Some(code), out.to_string(), "no".to_string())
    };
    assert!(matches!(request("https://x", 0, run(7, "")), Verdict::Retry(1, _)));
    assert!(matches!(
        request("https://x", 0, run(0, "b\n429")),
        Verdict::Done(Err(ProviderError::Blocked { .. }))
    ));
    assert!(matches!(request("https://x", 0, run(0, "b\n200")), Verdict::Done(Ok(b)) if b == "b"));
    assert!(!META_SENTINEL.is_empty());
}

/// A fetcher with one page.
struct OnePage;

impl Fetcher for OnePage {
    fn get_text(&self, url: &str) -> Result<String, ProviderError> {
        if url == "https://x" {
            Ok("é".to_string())
        } else {
            Err(ProviderError::RateLimited)
        }
    }
}

#[test]
fn bytes_are_those_of_the_text() {
    assert_eq!(OnePage.get_bytes("https://x").unwrap(), vec![0xc3, 0xa9]);
    assert!(matches!(OnePage.get_bytes("https://y"), Err(ProviderError::RateLimited)));
    assert_eq!(text_bytes(Ok("a".to_string())).unwrap(), vec![97]);
}

#[test]
fn links_and_queries() {
    assert_eq!(abs_from("https://a", "/b"), "https://a/b");
    assert_eq!(abs_from("https://a", "//b"), "https://a//b");
    assert_eq!(abs_from("https://a", "http:x"), "https://a/http:x");
    assert_eq!(abs_from("https://a", "httpd/x/"), "https://a/httpd/x/");
    assert_eq!(abs_from("https://a", "http://b/c"), "http://b/c");
    assert_eq!(spaced(" a b  c "), "a+b++c");
}

struct Fixed {
    id: ProviderId,
    up: bool,
}

fn target(id: ProviderId) -> DownloadTarget {
    DownloadTarget {
        url: "https://x".to_string(),
        filename: "f".to_string(),
        version: None,
        arch: None,
        provider: id,
        headers: Vec::new(),
    }
}

impl Provider for Fixed {
    fn name(&self) -> ProviderId {
        self.id
    }

    fn search(&self, query: &str) -> Result<Vec<AppResult>, ProviderError> {
        if self.up {
            Ok(vec![hit(query, None)])
        } else {
            Err(ProviderError::RateLimited)
        }
    }

    fn versions(&self, _pkg: &str) -> Result<Vec<VersionInfo>, ProviderError> {
        Err(ProviderError::ParseError("odd".to_string()))
    }

    fn download_url(
        &self,
        _pkg: &str,
        _version: Option<&str>,
        _arch: &str,
    ) -> Result<DownloadTarget, ProviderError> {
        if self.up {
            Ok(target(self.id))
        } else {
            Err(ProviderError::Blocked { retry_after: Some(3) })
        }
    }
}

#[test]
fn registry_by_identity() {
    let mut r: ProviderRegistry<Fixed> = ProviderRegistry::new();
    r.register(Fixed { id: ProviderId::Apkpure, up: false });
    r.register(Fixed { id: ProviderId::Apkcombo, up: true });
    assert_eq!(r.names(), vec![ProviderId::Apkpure, ProviderId::Apkcombo]);
    assert!(r.get(ProviderId::Apkmirror).is_none());
    assert_eq!(r.search(ProviderId::Apkcombo, "q").unwrap()[0].package, "q");
    assert!(r.check(ProviderId::Apkpure).is_err());
    assert!(r.check(ProviderId::Apkcombo).is_ok());
    let t = r
        .resolve_with_fallback(
            "com.x",
            None,
            "x86",
            &[ProviderId::Apkpure, ProviderId::Apkcombo],
        )
        .unwrap();
    assert_eq!(t.provider, ProviderId::Apkcombo);
    let e = r
        .resolve_with_fallback("com.x", None, "x86", &[ProviderId::Apkpure])
        .unwrap_err();
    assert!(e.all_blocked() && !e.all_not_found() && !e.any_network());
    assert_eq!(resolve_err(&e).code, EXIT_BLOCKED);
    assert_eq!(
        r.versions(ProviderId::Apkcombo, "q").unwrap_err().provider,
        ProviderId::Apkcombo
    );
    assert!(r
        .download_url(ProviderId::Apkpure, "q", None, "x86")
        .is_err());
}

fn hit(title: &str, version: Option<&str>) -> AppResult {
    AppResult {
        package: title.to_string(),
        title: title.to_string(),
        version: version.map(|v| v.to_string()),
        developer: None,
        provider: ProviderId::Apkpure,
    }
}

#[test]
fn reports_in_columns() {
    let lines = render_results(&[hit("a", None), hit("bcd", Some("1.0"))]);
    assert_eq!(lines[0].title, "a  ");
    assert_eq!(lines[0].version.as_deref(), Some("   "));
    assert_eq!(lines[1].version.as_deref(), Some("1.0"));
    let bare = render_results(&[hit("a", None)]);
    assert_eq!(bare[0].version, None);
}

#[test]
fn searches_ask_everyone() {
    let fail = |e: ProviderError| ProviderFailure { provider: ProviderId::Apkpure, source: e };
    let order = vec![ProviderId::Apkpure, ProviderId::Apkcombo, ProviderId::Apkmirror];
    let mut s = Search::start(false, order.clone());
    assert_eq!(s.next(), Some(ProviderId::Apkpure));
    assert!(matches!(s.absorb(Err(fail(ProviderError::RateLimited))), Note::Warn(_)));
    assert_eq!(s.next(), Some(ProviderId::Apkcombo));
    match s.absorb(Ok(Vec::new())) {
        Note::Warn(w) => assert_eq!(w, "apkcombo: no results"),
        _ => panic!("no warning"),
    }
    assert_eq!(s.next(), Some(ProviderId::Apkmirror));
    assert!(matches!(s.absorb(Ok(vec![hit("a", None)])), Note::Show(_)));
    assert_eq!(s.next(), None);
    assert!(s.finish("q").1.is_none());
    let mut none = Search::start(true, order.clone());
    none.absorb(Err(fail(ProviderError::RateLimited)));
    let (merged, e) = none.finish("q");
    assert!(merged.is_empty());
    assert_eq!(e.unwrap().code, EXIT_BLOCKED);
    let (_, e) = Search::start(false, Vec::new()).finish("q");
    let e = e.unwrap();
    assert_eq!((e.code, e.source.as_str()), (EXIT_NOT_FOUND, "no results for 'q'"));
    let mut json = Search::start(true, order);
    json.absorb(Ok(vec![hit("a", None)]));
    json.absorb(Ok(vec![hit("b", None)]));
    assert_eq!(json.finish("q").0.len(), 2);
}

fn both() -> ProviderRegistry<Fixed> {
    let mut r: ProviderRegistry<Fixed> = ProviderRegistry::new();
    r.register(Fixed { id: ProviderId::Apkpure, up: false });
    r.register(Fixed { id: ProviderId::Apkcombo, up: true });
    r
}

#[test]
fn searches_go_through_the_registry() {
    let r = both();
    let (merged, e) = search(&r, "q", &[], true, true);
    assert_eq!(merged.len(), 1);
    assert_eq!(merged[0].package, "q");
    assert!(e.is_none());
    let (merged, e) = search(&r, "q", &[ProviderId::Apkpure], false, true);
    assert!(merged.is_empty());
    let e = e.unwrap();
    assert_eq!(e.code, EXIT_BLOCKED);
    assert!(e.source.starts_with("apkpure: "));
    // Without a name the usual provider is asked.
    assert_eq!(search(&r, "q", &[], false, true).0.len(), 1);
    let said: RefCell<Vec<String>> = RefCell::new(Vec::new());
    let (merged, e) = search_telling(&r, "q", &[], true, false, |n: Notice<AppResult>| {
        said.borrow_mut().push(match n {
            Notice::Asking(t) => t,
            Notice::Warn(t) => format!("! {t}"),
            Notice::Show(id, rows) => format!("{} {}", id.as_str(), rows.len()),
        })
    });
    assert!(merged.is_empty() && e.is_none());
    let said = said.into_inner();
    assert_eq!(said[0], "searching apkpure...");
    assert!(said[1].starts_with("! apkpure: "));
    assert_eq!(said[2..], ["searching apkcombo...", "apkcombo 1"]);
}

#[test]
fn checks_go_through_the_registry() {
    let r = both();
    let (rows, e) = providers_check(&r, None, true, |_: bool, _: String| panic!("told"));
    assert_eq!(rows.len(), 2);
    assert_eq!(rows[1], (ProviderId::Apkcombo, "ok".to_string()));
    assert!(e.is_none());
    let said: RefCell<Vec<(bool, String)>> = RefCell::new(Vec::new());
    let (rows, e) = providers_check(&r, Some(ProviderId::Apkpure), false, |ok: bool, t: String| {
        said.borrow_mut().push((ok, t))
    });
    assert_eq!((rows.len(), rows[0].0), (1, ProviderId::Apkpure));
    assert_eq!(e.unwrap().code, EXIT_BLOCKED);
    let said = said.into_inner();
    assert_eq!(said.len(), 1);
    assert!(!said[0].0 && said[0].1.starts_with("apkpure: "));
    let (rows, e) = providers_check(&r, Some(ProviderId::Apkcombo), true, |_: bool, _: String| {});
    assert_eq!(rows, vec![(ProviderId::Apkcombo, "ok".to_string())]);
    assert!(e.is_none());
}

#[test]
fn downloads_go_through_the_registry() {
    let r = both();
    let order = [ProviderId::Apkpure, ProviderId::Apkcombo];
    let said: RefCell<Vec<String>> = RefCell::new(Vec::new());
    let note = |t: String| said.borrow_mut().push(t);
    let t = get(&r, "com.x", None, None, &order, "x86", true, note).unwrap();
    assert_eq!(t.provider, ProviderId::Apkcombo);
    // Without falling back only the first of the list is asked.
    let e = get(&r, "com.x", None, None, &order, "x86", false, note).unwrap_err();
    assert_eq!(e.code, EXIT_BLOCKED);
    assert!(e.source.starts_with("apkpure: "));
    let named = Some(ProviderId::Apkcombo);
    assert!(get(&r, "com.x", None, named, &order, "x86", true, note).is_ok());
    let e = get(&r, "com.x", None, None, &order[..1], "x86", true, note).unwrap_err();
    assert_eq!(e.code, EXIT_BLOCKED);
    assert_eq!(
        said.into_inner(),
        vec![
            "resolving com.x (fallback: apkpure -> apkcombo)...",
            "resolving com.x via apkpure...",
            "resolving com.x via apkcombo...",
            "resolving com.x (fallback: apkpure)...",
        ]
    );
    assert_eq!(versions(&r, "q", named).unwrap_err().source, {
        let f = r.versions(ProviderId::Apkcombo, "q").unwrap_err();
        f.to_string()
    });
}

#[test]
fn exit_codes_of_textual_errors() {
    assert_eq!(provider_error_code(&ProviderError::RateLimited), EXIT_BLOCKED);
    assert_eq!(provider_error_code(&ProviderError::NotFound(String::new())), EXIT_NOT_FOUND);
    assert_eq!(provider_error_code(&ProviderError::Network(String::new())), EXIT_NETWORK);
    assert_eq!(provider_error_code(&ProviderError::ParseError(String::new())), EXIT_GENERIC);
    let f = ProviderFailure {
        provider: ProviderId::Apkpure,
        source: ProviderError::NotFound("gone".to_string()),
    };
    let e = provider_fail(&f);
    assert_eq!((e.code, e.source.as_str()), (EXIT_NOT_FOUND, "apkpure: gone"));
    let mixed = ResolveError {
        pkg: "com.x".to_string(),
        attempts: vec![
            f,
            ProviderFailure {
                provider: ProviderId::Apkcombo,
                source: ProviderError::Network("down".to_string()),
            },
        ],
    };
    assert_eq!(resolve_err(&mixed).code, EXIT_NETWORK);
    let none = ResolveError { pkg: "com.x".to_string(), attempts: Vec::new() };
    assert_eq!(resolve_err(&none).code, EXIT_GENERIC);
    assert!(!none.all_blocked() && !none.all_not_found());
}

#[test]
fn routes() {
    let usual = ProviderId::default_priority();
    assert_eq!(search_targets(true, &[], &usual), usual);
    assert_eq!(search_targets(false, &[], &usual), vec![ProviderId::Apkcombo]);
    assert_eq!(versions_target(None), ProviderId::Apkcombo);
    assert_eq!(versions_target(Some(ProviderId::Apkpure)), ProviderId::Apkpure);
    assert!(matches!(route(None, &usual, true), Route::Fallback(o) if o == usual));
    assert!(matches!(
        route(None, &[ProviderId::Apkpure], false),
        Route::Single(ProviderId::Apkpure)
    ));
    assert!(matches!(
        route(Some(ProviderId::Apkmirror), &usual, true),
        Route::Single(ProviderId::Apkmirror)
    ));
    assert!(matches!(route(None, &[], false), Route::Single(ProviderId::Apkcombo)));
    assert_eq!(
        resolving_text("com.x", &Route::Single(ProviderId::Apkpure)),
        "resolving com.x via apkpure..."
    );
    assert_eq!(
        resolving_text("com.x", &Route::Fallback(usual)),
        "resolving com.x (fallback: apkcombo -> apkpure -> apkmirror)..."
    );
    assert_eq!(rank(ProviderId::Apkmirror), Some(3));
    assert_eq!(provider_line(ProviderId::Apkpure), "apkpure  (priority 2)");
    assert_eq!(
        version_line(&VersionInfo {
            version: "1.0".to_string(),
            version_code: None,
            uploaded: None,
            provider: ProviderId::Apkpure,
        }),
        "1.0  (apkpure)"
    );
}

#[test]
fn checks_end_with_a_named_failure() {
    let registered = ProviderId::default_priority();
    assert_eq!(check_targets(None, &registered), registered);
    assert_eq!(
        check_targets(Some(ProviderId::Apkpure), &registered),
        vec![ProviderId::Apkpure]
    );
    let mut c = Checks::start(vec![ProviderId::Apkpure, ProviderId::Apkcombo]);
    assert_eq!(c.next(), Some(ProviderId::Apkpure));
    assert_eq!(c.absorb(Ok(())), "apkpure: ok");
    assert_eq!(c.next(), Some(ProviderId::Apkcombo));
    c.absorb(Err(ProviderFailure {
        provider: ProviderId::Apkcombo,
        source: ProviderError::Network("down".to_string()),
    }));
    assert_eq!(c.next(), None);
    assert_eq!(c.results.len(), 2);
    assert_eq!(c.results[0].1, "ok");
    assert_eq!(c.finish(Some(ProviderId::Apkcombo)).1.unwrap().code, EXIT_NETWORK);
}

struct Named {
    name: &'static str,
    up: bool,
}

impl named::Provider for Named {
    fn name(&self) -> &'static str {
        self.name
    }

    fn search(&self, _query: &str) -> Result<Vec<named::AppResult>, named::ProviderError> {
        Err(named::ProviderError::NotFound)
    }

    fn versions(&self, _pkg: &str) -> Result<Vec<named::VersionInfo>, named::ProviderError> {
        Err(named::ProviderError::NotFound)
    }

    fn download_url(
        &self,
        _pkg: &str,
        _version: Option<&str>,
    ) -> Result<named::DownloadTarget, named::ProviderError> {
        if self.up {
            Ok(named::DownloadTarget {
                url: "https://x".to_string(),
                filename: "f".to_string(),
                version: None,
                provider: self.name.to_string(),
                headers: Vec::new(),
            })
        } else {
            Err(named::ProviderError::NotFound)
        }
    }
}

#[test]
fn registry_by_name_skips_strangers() {
    let mut r: named::ProviderRegistry<Named> = named::ProviderRegistry::new();
    r.register(Named { name: "one", up: false });
    r.register(Named { name: "two", up: true });
    assert_eq!(r.names(), vec!["one", "two"]);
    assert!(r.get("three").is_none());
    let t = match r.resolve_with_fallback("com.x", None, &["three", "one", "two"]) {
        Ok(t) => t,
        Err(_) => panic!("not resolved"),
    };
    assert_eq!(t.provider, "two");
    let e = match r.resolve_with_fallback("com.x", None, &["three", "one"]) {
        Ok(_) => panic!("resolved"),
        Err(e) => e,
    };
    assert_eq!(e.attempts.len(), 1);
    assert_eq!(e.attempts[0].0, "one");
    assert!(e.all_not_found());
}

fn drive<S, T, E>(
    start: Step<S, T, E>,
    advance: fn(S, Reply<E>) -> Step<S, T, E>,
    world: fn(&Request) -> Reply<E>,
) -> Result<T, E> {
    let mut step = start;
    loop {
        match step {
            Step::Ask(q, s) => {
                let reply = world(&q);
                step = advance(s, reply);
            }
            Step::Done(r) => return r,
            Step::Abort => panic!("aborted"),
        }
    }
}

fn combo(q: &Request) -> Reply<ProviderError> {
    Ok(match q {
        Request::Resolve(_) => "https://apkcombo.com/app/com.x.y/".to_string(),
        Request::Get(u) if u.ends_with("old-versions") => {
            r#"<ul class="list-versions"><li><a class="ver-item" href="/app/com.x.y/download/phone-1.2-apk"><b class="vername">App 1.2</b></a></li></ul>"#.to_string()
        }
        Request::Get(_) => "var xid = \"t\"".to_string(),
        Request::Post(u, _) if u.ends_with("/dl") => {
            r#"<div class="content-tab"><div class="tree"><ul><li><code class="blur">x86</code><ul class="file-list"><li><a class="variant" href="/r2?u=A"><b class="vername">App 1.2</b><b class="vtype">XAPK</b></a></li></ul></li></ul></div></div>"#.to_string()
        }
        Request::Post(_, _) => "fp=1".to_string(),
    })
}

#[test]
fn combo_names_the_file_beforehand() {
    let t = match drive(
        apkcombo::ApkCombo::download_url("com.x.y", Some("1.2"), "x86"),
        apkcombo::Download::advance,
        combo,
    ) {
        Ok(t) => t,
        Err(_) => panic!("not resolved"),
    };
    assert_eq!(t.filename, "com.x.y-1.2-x86.xapk");
    assert_eq!(t.arch.as_deref(), Some("x86"));
    assert_eq!(t.url, "https://apkcombo.com/r2?u=A&fp=1&package_name=com.x.y&lang=en");
}

fn pure(q: &Request) -> Reply<ProviderError> {
    match q {
        Request::Get(u) if u.ends_with("/versions") => {
            Ok(r#"<div class="ver_download_link" data-dt-version="2.0(7)"></div>"#.to_string())
        }
        Request::Get(_) => Ok(r#"<a data-dt-version="2.0(7)"></a>"#.to_string()),
        _ => Err(ProviderError::RateLimited),
    }
}

#[test]
fn pure_asks_for_the_latest() {
    let t = match drive(
        apkpure::ApkPure::download_url("com.x.y", None, "x86"),
        apkpure::Download::advance,
        pure,
    ) {
        Ok(t) => t,
        Err(_) => panic!("not resolved"),
    };
    assert_eq!(t.url, "https://d.apkpure.com/b/APK/com.x.y?version=latest");
    assert_eq!(t.filename, "com.x.y-2.0.apk");
    let pinned = match drive(
        apkpure::ApkPure::download_url("com.x.y", Some("2"), "x86"),
        apkpure::Download::advance,
        pure,
    ) {
        Ok(t) => t,
        Err(_) => panic!("not resolved"),
    };
    assert_eq!(pinned.url, "https://d.apkpure.com/b/APK/com.x.y?version=2.0");
}

fn mirror(q: &Request) -> Reply<named::ProviderError> {
    let u = match q {
        Request::Get(u) => u.as_str(),
        _ => panic!("only pages are asked for"),
    };
    Ok(if u.contains("post_type") {
        r#"<h5 class="appRowTitle"><a class="fontBlack" href="/apk/o/app-beta/app-beta-1-release/">App beta 1</a></h5><h5 class="appRowTitle"><a class="fontBlack" href="/apk/o/app/app-1-release/">App 1</a></h5>"#
    } else if u.contains("/download/?key=") {
        r#"<a id="download-link" href="/download.php?id=1">x</a>"#
    } else {
        assert!(!u.contains("-beta"));
        r#"<a class="downloadButton" href="/apk/o/app/download/?key=k">x</a>"#
    }
    .to_string())
}

#[test]
fn mirror_passes_over_prereleases() {
    let t = match drive(
        apkmirror::ApkMirror::download_url("com.x.y", None, "x86"),
        apkmirror::Download::advance,
        mirror,
    ) {
        Ok(t) => t,
        Err(_) => panic!("not resolved"),
    };
    assert_eq!(t.url, "https://www.apkmirror.com/download.php?id=1");
    assert_eq!(t.filename, "com.x.y_latest.apk");
    assert_eq!(t.headers[0].0, "Referer");
}

#[test]
fn textual_downloads_are_reported() {
    let s = saved(target(ProviderId::Apkpure), Ok("out/f".to_string())).unwrap();
    assert_eq!((s.path.as_str(), s.provider), ("out/f", ProviderId::Apkpure));
    assert_eq!((s.version, s.arch), (None, None));
    let down = Err(ProviderError::Network("down".to_string()));
    let e = saved(target(ProviderId::Apkpure), down).unwrap_err();
    assert_eq!(e.code, EXIT_NETWORK);
    assert!(e.source.starts_with("download failed: "));
    assert_eq!(
        providers_list(&both()),
        vec![(ProviderId::Apkpure, Some(2)), (ProviderId::Apkcombo, Some(1))]
    );
}
