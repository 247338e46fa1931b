use apk_fetch::cli::args::{Cli, Command, ProvidersCmd};
use apk_fetch::cli::commands::{
    announce, checked, col_width, directory_failed, download_failed, emit, fan_out, get, pad,
    planned, providers_check, providers_list, resolving_text, saved, search, search_notfound,
    versions, versions_notfound, Check, Note, Notice, Row, Sweep,
};
use apk_fetch::cli::dispatch::{dispatch, selection, Job};
use apk_fetch::cli::exit::{
    provider_error_code, AppError, EXIT_BLOCKED, EXIT_CANCELLED, EXIT_GENERIC, EXIT_NETWORK,
    EXIT_NOT_FOUND,
};
use apk_fetch::common::contract::{
    AppResult, Arch, DownloadTarget, ProviderError, ProviderFailure, ProviderId, ResolveError,
    VersionInfo,
};
use apk_fetch::common::registry::{Provider, ProviderRegistry};
use std::cell::RefCell;

fn failure(id: ProviderId, e: ProviderError) -> ProviderFailure {
    e.raised_by(id)
}

#[test]
fn columns_count_what_the_terminal_shows() {
    assert_eq!(pad("ab", 4), "ab  ");
    assert_eq!(pad("日本", 5), "日本 ");
    assert_eq!(pad("abc", 2), "abc");
    assert_eq!(
        col_width(&[Some("ab".to_string()), None, Some("日本".to_string())]),
        4
    );
    assert_eq!(col_width(&[None]), 0);
}

#[test]
fn rows_in_columns() {
    let rows = emit(&[
        Row { label: "a".to_string(), sub: "x".to_string() },
        Row { label: "bcd".to_string(), sub: "y".to_string() },
    ]);
    assert_eq!(rows[0].label, "a  ");
    assert_eq!(rows[1].label, "bcd");
    assert_eq!(rows[1].sub, "y");
}

fn network(id: ProviderId) -> ProviderFailure {
    failure(id, ProviderError::Network("down".to_string()))
}

fn blocked(id: ProviderId) -> ProviderFailure {
    failure(id, ProviderError::Blocked)
}

#[test]
fn sweeps_go_on_after_errors() {
    let mut s: Sweep<u8> = Sweep::start(false, ProviderId::default_priority());
    assert_eq!(s.next(), Some(ProviderId::Apkcombo));
    match s.absorb(Err(network(ProviderId::Apkcombo))) {
        Note::Warn(w) => assert!(w.starts_with("apkcombo: ") && w.ends_with("down")),
        _ => panic!("no warning"),
    }
    assert_eq!(s.next(), Some(ProviderId::Apkpure));
    match s.absorb(Ok(Vec::new())) {
        Note::Warn(w) => assert_eq!(w, "apkpure: no results"),
        _ => panic!("no warning"),
    }
    assert_eq!(s.next(), Some(ProviderId::Apkmirror));
    match s.absorb(Ok(vec![7])) {
        Note::Show(rows) => assert_eq!(rows, vec![7]),
        _ => panic!("nothing shown"),
    }
    assert_eq!(s.next(), None);
    assert!(matches!(s.finish("none"), (None, None)));
}

#[test]
fn sweeps_without_rows_end_with_the_last_error() {
    let ids = vec![ProviderId::Apkcombo, ProviderId::Apkpure];
    let mut s: Sweep<u8> = Sweep::start(false, ids);
    s.absorb(Err(network(ProviderId::Apkcombo)));
    s.absorb(Err(blocked(ProviderId::Apkpure)));
    let (collected, e) = s.finish("none");
    assert!(collected.is_none());
    assert_eq!(e.unwrap().code, EXIT_BLOCKED);
    let empty: Sweep<u8> = Sweep::start(false, Vec::new());
    let e = empty.finish(&search_notfound("q")).1.unwrap();
    assert_eq!((e.code, e.source.as_str()), (EXIT_NOT_FOUND, "no results for 'q'"));
    assert_eq!(versions_notfound("com.x"), "no versions for 'com.x'");
}

#[test]
fn collected_sweeps_end_like_the_others() {
    let ids = vec![ProviderId::Apkcombo, ProviderId::Apkpure];
    let mut s: Sweep<u8> = Sweep::start(true, ids.clone());
    assert!(matches!(s.absorb(Ok(vec![1, 2])), Note::Quiet));
    assert!(matches!(s.absorb(Err(blocked(ProviderId::Apkpure))), Note::Quiet));
    let (collected, e) = s.finish("none");
    assert_eq!(collected.unwrap(), vec![(ProviderId::Apkcombo, vec![1, 2])]);
    assert!(e.is_none());
    // Only failures: the last of them is how it ends.
    let (collected, e) = fan_out(
        ids.clone(),
        true,
        "searching",
        "none",
        |id: ProviderId| -> Result<Vec<u8>, ProviderFailure> { Err(blocked(id)) },
        |_: Notice<u8>| panic!("told"),
    );
    assert_eq!(collected.unwrap(), Vec::new());
    assert_eq!(e.unwrap().code, EXIT_BLOCKED);
    // Nothing at all, and no failure: nothing is what was collected.
    let (collected, e) = fan_out(
        ids,
        true,
        "searching",
        "none",
        |_: ProviderId| -> Result<Vec<u8>, ProviderFailure> { Ok(Vec::new()) },
        |_: Notice<u8>| panic!("told"),
    );
    assert_eq!(collected.unwrap(), Vec::new());
    assert!(e.is_none());
}

struct Fixed {
    id: ProviderId,
    found: bool,
}

impl Provider for Fixed {
    fn id(&self) -> ProviderId {
        self.id
    }

    fn search(&self, query: &str) -> Result<Vec<AppResult>, ProviderError> {
        if self.found {
            Ok(vec![AppResult { package: query.to_string(), title: self.id.to_string() }])
        } else {
            Err(ProviderError::Blocked)
        }
    }

    fn versions(&self, _pkg: &str) -> Result<Vec<VersionInfo>, ProviderError> {
        Ok(Vec::new())
    }

    fn download_url(
        &self,
        _pkg: &str,
        version: Option<&str>,
        arch: Arch,
    ) -> Result<DownloadTarget, ProviderError> {
        if self.found {
            Ok(DownloadTarget {
                url: "https://x/y".to_string(),
                version: version.unwrap_or("1.0").to_string(),
                arch,
                provider: self.id,
                headers: Vec::new(),
            })
        } else {
            Err(ProviderError::Blocked)
        }
    }
}

fn fixed(found: &[(ProviderId, bool)]) -> ProviderRegistry<Fixed> {
    ProviderRegistry::new(found.iter().map(|(id, found)| Fixed { id: *id, found: *found }).collect())
}

#[test]
fn every_provider_is_asked_in_order() {
    let r = fixed(&[
        (ProviderId::Apkpure, false),
        (ProviderId::Apkcombo, true),
        (ProviderId::Apkmirror, true),
    ]);
    let said: RefCell<Vec<String>> = RefCell::new(Vec::new());
    let (collected, e) = search(&r, "q", false, |n: Notice<AppResult>| {
        said.borrow_mut().push(match n {
            Notice::Asking(t) => t,
            Notice::Warn(t) => format!("! {t}"),
            Notice::Show(id, rows) => format!("{} {} {}", id.as_str(), rows.len(), rows[0].package),
        })
    });
    assert!(collected.is_none() && e.is_none());
    let said = said.into_inner();
    assert_eq!(said[0], "searching apkpure...");
    assert!(said[1].starts_with("! apkpure: "));
    assert_eq!(said[2..4], ["searching apkcombo...", "apkcombo 1 q"]);
    assert_eq!(said[4..], ["searching apkmirror...", "apkmirror 1 q"]);
    let (collected, e) = search(&r, "q", true, |_: Notice<AppResult>| panic!("told"));
    let ids: Vec<ProviderId> = collected.unwrap().iter().map(|(id, _)| *id).collect();
    assert_eq!(ids, vec![ProviderId::Apkcombo, ProviderId::Apkmirror]);
    assert!(e.is_none());
    let (_, e) = versions(&r, "com.x", false, |_: Notice<VersionInfo>| {});
    let e = e.unwrap();
    assert_eq!((e.code, e.source.as_str()), (EXIT_NOT_FOUND, "no versions for 'com.x'"));
}

#[test]
fn collected_failures_fail() {
    let r = fixed(&[(ProviderId::Apkpure, false), (ProviderId::Apkcombo, false)]);
    let (collected, e) = search(&r, "q", true, |_: Notice<AppResult>| panic!("told"));
    assert!(collected.unwrap().is_empty());
    let e = e.unwrap();
    assert_eq!(e.code, EXIT_BLOCKED);
    assert!(e.source.starts_with("apkcombo: "));
}

#[test]
fn every_provider_is_checked_in_order() {
    let r = fixed(&[(ProviderId::Apkpure, false), (ProviderId::Apkcombo, true)]);
    let said: RefCell<Vec<(bool, String)>> = RefCell::new(Vec::new());
    let rows = providers_check(&r, false, |c: Check| said.borrow_mut().push((c.ok, c.line)));
    assert!(rows.is_empty());
    let said = said.into_inner();
    assert!(!said[0].0 && said[0].1.starts_with("apkpure: "));
    assert_eq!(said[1..], [(true, "apkcombo: ok".to_string())]);
    let rows = providers_check(&r, true, |_: Check| panic!("told"));
    assert_eq!(rows.len(), 2);
    assert_eq!((rows[0].name, rows[0].ok), (ProviderId::Apkpure, false));
    assert_eq!((rows[1].name, rows[1].status.as_str()), (ProviderId::Apkcombo, "ok"));
}

#[test]
fn downloads_are_resolved_in_order() {
    let r = fixed(&[(ProviderId::Apkpure, false), (ProviderId::Apkcombo, true)]);
    let said: RefCell<Vec<String>> = RefCell::new(Vec::new());
    let plan = get(&r, "com.x", Some("2.0"), Arch::x86(), |t: String| said.borrow_mut().push(t));
    let plan = plan.unwrap();
    assert_eq!(said.into_inner(), vec!["resolving com.x (apkpure -> apkcombo)...".to_string()]);
    assert_eq!(plan.target.provider, ProviderId::Apkcombo);
    assert_eq!(plan.filename, "com.x-2.0-x86");
    let down = fixed(&[(ProviderId::Apkpure, false)]);
    let e = get(&down, "com.x", None, Arch::x86(), |_: String| {}).unwrap_err();
    assert_eq!(e.code, EXIT_BLOCKED);
}

#[test]
fn messages() {
    assert_eq!(announce("searching", ProviderId::Apkpure), "searching apkpure...");
    assert_eq!(
        resolving_text("com.x", &[ProviderId::Apkcombo, ProviderId::Apkpure]),
        "resolving com.x (apkcombo -> apkpure)..."
    );
}

fn target() -> DownloadTarget {
    DownloadTarget {
        url: "https://x/y".to_string(),
        version: "1.0".to_string(),
        arch: Arch::x86(),
        provider: ProviderId::Apkpure,
        headers: Vec::new(),
    }
}

#[test]
fn downloads_are_named_and_reported() {
    let plan = planned("com.x", Ok(target())).unwrap();
    assert_eq!(plan.filename, "com.x-1.0-x86");
    let s = saved(plan, Ok("out/com.x-1.0-x86.apk".to_string())).unwrap();
    assert_eq!(s.path, "out/com.x-1.0-x86.apk");
    assert_eq!(s.provider, ProviderId::Apkpure);
    let e = saved(planned("com.x", Ok(target())).unwrap(), Err(ProviderError::Cancelled)).unwrap_err();
    assert_eq!((e.code, e.source.as_str()), (EXIT_CANCELLED, "cancelled"));
    let e = download_failed(&ProviderError::Network("down".to_string()));
    assert_eq!(e.code, EXIT_NETWORK);
    assert!(e.source.starts_with("download failed: "));
    let e = directory_failed("denied");
    assert_eq!((e.code, e.source.as_str()), (EXIT_NETWORK, "denied"));
}

fn unresolved(attempts: Vec<ProviderFailure>) -> AppError {
    planned("com.x", Err(ResolveError { pkg: "com.x".to_string(), attempts })).unwrap_err()
}

#[test]
fn exit_codes() {
    assert_eq!(provider_error_code(&ProviderError::NotFound(String::new())), EXIT_NOT_FOUND);
    assert_eq!(provider_error_code(&ProviderError::Blocked), EXIT_BLOCKED);
    assert_eq!(provider_error_code(&ProviderError::Network(String::new())), EXIT_NETWORK);
    assert_eq!(provider_error_code(&ProviderError::Cancelled), EXIT_CANCELLED);
    assert_eq!(provider_error_code(&ProviderError::ParseError(String::new())), EXIT_GENERIC);
    assert_eq!(AppError::from_json("bad").code, EXIT_GENERIC);
}

#[test]
fn fallbacks_end_with_the_common_reason() {
    let blocked = || failure(ProviderId::Apkcombo, ProviderError::Blocked);
    let missing = || failure(ProviderId::Apkpure, ProviderError::NotFound("x".to_string()));
    let down = || failure(ProviderId::Apkmirror, ProviderError::Network("x".to_string()));
    assert_eq!(unresolved(vec![blocked(), blocked()]).code, EXIT_BLOCKED);
    assert_eq!(unresolved(vec![missing()]).code, EXIT_NOT_FOUND);
    assert_eq!(unresolved(vec![blocked(), down()]).code, EXIT_NETWORK);
    assert_eq!(unresolved(vec![blocked(), missing()]).code, EXIT_GENERIC);
    assert_eq!(unresolved(Vec::new()).code, EXIT_GENERIC);
    // With one attempt, it is that attempt's failure.
    let one = unresolved(vec![missing()]);
    let alone = AppError::from_failure(&missing());
    assert_eq!((one.code, one.source), (alone.code, alone.source));
}

#[test]
fn lists_and_checks() {
    assert_eq!(
        providers_list(&[ProviderId::Apkpure, ProviderId::Apkcombo]),
        vec![(ProviderId::Apkpure, 1), (ProviderId::Apkcombo, 2)]
    );
    let ok = checked(ProviderId::Apkpure, &Ok(()));
    assert!(ok.ok);
    assert_eq!((ok.status.as_str(), ok.line.as_str()), ("ok", "apkpure: ok"));
    let bad = checked(
        ProviderId::Apkpure,
        &Err(failure(ProviderId::Apkpure, ProviderError::NotFound("gone".to_string()))),
    );
    assert!(!bad.ok);
    assert_eq!((bad.status.as_str(), bad.line.as_str()), ("gone", "apkpure: gone"));
}

#[test]
fn commands_select_providers() {
    let usual = ProviderId::default_priority();
    let search = |provider: Vec<ProviderId>, all: bool| Command::Search {
        query: "q".to_string(),
        provider,
        all,
    };
    assert_eq!(selection(&search(Vec::new(), true)), usual);
    assert_eq!(selection(&search(Vec::new(), false)), vec![usual[0]]);
    assert_eq!(
        selection(&search(vec![ProviderId::Apkmirror], false)),
        vec![ProviderId::Apkmirror]
    );
    let get = |provider: Option<ProviderId>, priority: Vec<ProviderId>| Command::Get {
        package_id: "com.x".to_string(),
        version: None,
        provider,
        priority,
        arch: Arch::arm64_v8a(),
        output: ".".to_string(),
    };
    assert_eq!(selection(&get(None, Vec::new())), usual);
    assert_eq!(
        selection(&get(None, vec![ProviderId::Apkpure])),
        vec![ProviderId::Apkpure]
    );
    assert_eq!(
        selection(&get(Some(ProviderId::Apkmirror), vec![ProviderId::Apkpure])),
        vec![ProviderId::Apkmirror]
    );
    let check = |name: Option<ProviderId>| Command::Providers {
        cmd: ProvidersCmd::Check { name },
    };
    assert_eq!(selection(&check(Some(ProviderId::Apkpure))), vec![ProviderId::Apkpure]);
    assert_eq!(selection(&check(None)), usual);
}

#[test]
fn commands_become_jobs() {
    let call = dispatch(Cli {
        json: true,
        command: Command::Versions {
            package_id: "com.x".to_string(),
            provider: Vec::new(),
            all: true,
        },
    });
    assert!(call.json);
    assert_eq!(call.order.len(), 3);
    assert!(matches!(call.job, Job::Versions(p) if p == "com.x"));
    let call = dispatch(Cli {
        json: false,
        command: Command::Get {
            package_id: "com.x".to_string(),
            version: Some("1".to_string()),
            provider: None,
            priority: Vec::new(),
            arch: Arch::x86(),
            output: "out".to_string(),
        },
    });
    match call.job {
        Job::Get(p, v, a, o) => {
            assert_eq!((p.as_str(), v.as_deref(), a, o.as_str()), ("com.x", Some("1"), Arch::x86(), "out"))
        }
        _ => panic!("another job"),
    }
    let call = dispatch(Cli {
        json: false,
        command: Command::Providers { cmd: ProvidersCmd::List },
    });
    assert!(matches!(call.job, Job::List));
}
