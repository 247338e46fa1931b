use apk_fetch::common::contract::ProviderError;
use apk_fetch::common::fetch::{
    base_cmd, check_head, curl_exit_is_transient, download_cmd, download_to_file,
    ext_from_disposition, ext_from_type_or_url, looks_blocked, map_http_status, post_form, renamed,
    request, request_cmd, resolve_cmd, resolve_url, served_ext, split_reply, starts_with_zip_magic,
    trim_html, CurlRun, HttpFetcher, Save, SaveRun, Verdict, MAX_RETRIES, META_SENTINEL,
    RETRY_BASE_BACKOFF, THROTTLE_DELAY, USER_AGENT,
};

#[test]
fn trim_html_strips_noise_only() {
    assert_eq!(
        trim_html("<a>x</a><SCRIPT src=1>var y</script><b>z</b><style>.c{}</style>"),
        "<a>x</a><b>z</b>"
    );
    assert_eq!(
        trim_html("<p>ok</p><script>never closed"),
        "<p>ok</p><script>never closed"
    );
}

#[test]
fn fetch_status_mapping() {
    let u = "https://x/y";
    assert!(matches!(map_http_status(403, u), Some(ProviderError::Blocked)));
    assert!(matches!(map_http_status(429, u), Some(ProviderError::Blocked)));
    assert!(matches!(map_http_status(404, u), Some(ProviderError::NotFound(_))));
    assert!(map_http_status(200, u).is_none());
}

#[test]
fn disposition_wins_and_takes_the_last_redirect() {
    // What `curl -D -` writes: one header block per hop, CRLF-terminated.
    let headers = [
        "HTTP/1.1 302 Found",
        "Content-Disposition: attachment; filename=\"first\".apk\"",
        "",
        "HTTP/1.1 200 OK",
        "Content-Type: application/octet-stream",
        "Content-Disposition: attachment; filename=\"yt_21.35.448_apkmirror.com\".apkm\"",
        "",
    ]
    .join("\r\n");
    assert_eq!(ext_from_disposition(&headers).as_deref(), Some("apkm"));
}

#[test]
fn disposition_rfc5987_and_junk() {
    assert_eq!(
        ext_from_disposition("Content-Disposition: attachment; filename*=UTF-8''app.xapk")
            .as_deref(),
        Some("xapk")
    );
    // A hostile name can't smuggle a path or a long suffix through.
    assert_eq!(
        ext_from_disposition("content-disposition: attachment; filename=\"x./../etc/passwd\""),
        None
    );
    assert_eq!(ext_from_disposition("Content-Type: text/html"), None);
}

#[test]
fn served_ext_splits_curl_stdout() {
    let out = format!(
        "HTTP/1.1 200 OK\r\nContent-Type: application/octet-stream\r\n\r\n\n{META_SENTINEL}application/octet-stream\thttps://cdn/x.xapk?t=1"
    );
    assert_eq!(served_ext(&out).as_deref(), Some("xapk"));
    assert_eq!(served_ext("no sentinel at all"), None);
}

#[test]
fn falls_back_to_type_then_url() {
    assert_eq!(
        ext_from_type_or_url("application/vnd.android.package-archive", "").as_deref(),
        Some("apk")
    );
    assert_eq!(
        ext_from_type_or_url("application/octet-stream", "https://cdn/x.apkm?token=1").as_deref(),
        Some("apkm")
    );
    // download.php?id=&key= tells us nothing — the file keeps its bare name.
    assert_eq!(
        ext_from_type_or_url(
            "application/octet-stream",
            "https://a/download.php?id=1&key=z"
        ),
        None
    );
}

#[test]
fn detects_cloudflare_challenge() {
    assert!(looks_blocked(
        "<html><head><title>Just a moment...</title></head></html>"
    ));
    assert!(looks_blocked("window._cf_chl_opt={};"));
    assert!(!looks_blocked("<html><body>normal apkmirror page</body></html>"));
}

#[test]
fn disposition_outranks_type_and_url() {
    let out = format!(
        "Content-Disposition: attachment; filename=\"a.apkm\"\r\n\n{META_SENTINEL}application/vnd.android.package-archive\thttps://cdn/x.xapk"
    );
    assert_eq!(served_ext(&out).as_deref(), Some("apkm"));
}

#[test]
fn zip_magic() {
    assert!(starts_with_zip_magic(b"PK\x03\x04rest"));
    assert!(starts_with_zip_magic(b"PK\x05\x06"));
    assert!(!starts_with_zip_magic(b"PK\x07\x08"));
    assert!(!starts_with_zip_magic(b"PK"));
    assert!(!starts_with_zip_magic(b"<html>"));
}

#[test]
fn transient_exits() {
    for code in [6, 7, 28, 35, 52, 55, 56] {
        assert!(curl_exit_is_transient(Some(code)), "{code}");
    }
    assert!(!curl_exit_is_transient(Some(3)));
    assert!(!curl_exit_is_transient(None));
}

#[test]
fn throttle_keeps_requests_apart() {
    let mut f = HttpFetcher::new();
    assert_eq!(f.min_gap, THROTTLE_DELAY);
    assert_eq!(f.throttle(5), 0);
    f.sent(10);
    assert_eq!(f.throttle(10), THROTTLE_DELAY);
    assert_eq!(f.throttle(10 + THROTTLE_DELAY - 1), 1);
    assert_eq!(f.throttle(10 + THROTTLE_DELAY), 0);
    let mut none = HttpFetcher::with_delay(0);
    none.sent(10);
    assert_eq!(none.throttle(10), 0);
}

fn ended(code: i32, stdout: &str) -> CurlRun {
    CurlRun::Ended(code == 0, Some(code), stdout.to_string(), "curl said no\n".to_string())
}

#[test]
fn requests_are_tried_again_when_the_network_fails() {
    let mut attempt: u32 = 0;
    let mut waits: Vec<u64> = Vec::new();
    loop {
        match request("https://x/y", attempt, ended(28, "")) {
            Verdict::Retry(n, wait) => {
                assert_eq!(n, attempt + 1);
                waits.push(wait);
                attempt = n;
            }
            Verdict::Done(r) => {
                assert!(matches!(r, Err(ProviderError::Network(_))));
                break;
            }
        }
    }
    assert_eq!(attempt, MAX_RETRIES);
    assert_eq!(
        waits,
        vec![RETRY_BASE_BACKOFF, 2 * RETRY_BASE_BACKOFF, 3 * RETRY_BASE_BACKOFF]
    );
}

#[test]
fn requests_end_with_the_body_or_an_error() {
    match request("https://x/y", 0, ended(0, "<p>hi</p>\n200")) {
        Verdict::Done(Ok(body)) => assert_eq!(body, "<p>hi</p>"),
        _ => panic!("no body"),
    }
    assert!(matches!(
        request("https://x/y", 0, ended(0, "gone\n404")),
        Verdict::Done(Err(ProviderError::NotFound(_)))
    ));
    assert!(matches!(
        request("https://x/y", 0, ended(0, "no\n403")),
        Verdict::Done(Err(ProviderError::Blocked))
    ));
    assert!(matches!(
        request("https://x/y", 0, ended(0, "<title>Just a moment...</title>\n200")),
        Verdict::Done(Err(ProviderError::Blocked))
    ));
    assert!(matches!(
        request("https://x/y", 0, ended(3, "")),
        Verdict::Done(Err(ProviderError::Network(_)))
    ));
    assert!(matches!(
        request("https://x/y", 0, CurlRun::NotRun("no curl".to_string())),
        Verdict::Done(Err(ProviderError::Network(_)))
    ));
    assert!(matches!(request("https://x/y", 0, ended(0, "busy\n503")), Verdict::Retry(1, _)));
}

#[test]
fn replies_end_in_a_status() {
    assert_eq!(split_reply("a\nb\n200"), ("a\nb".to_string(), 200));
    assert_eq!(split_reply("\n404").1, 404);
}

#[test]
fn redirects_are_read_off_curl() {
    assert_eq!(
        resolve_url(ended(0, "HTTP/2 200\r\n\r\n\nhttps://x/z ")).unwrap(),
        "https://x/z"
    );
    match resolve_url(ended(28, "")) {
        Err(ProviderError::Network(m)) => assert_eq!(m, "curl exited Some(28): curl said no"),
        _ => panic!("no network error"),
    }
    assert!(matches!(resolve_url(ended(28, "")), Err(ProviderError::Network(_))));
    assert!(matches!(
        resolve_url(CurlRun::NotRun("no curl".to_string())),
        Err(ProviderError::Network(_))
    ));
}

fn words(line: &[String]) -> Vec<&str> {
    line.iter().map(|w| w.as_str()).collect()
}

#[test]
fn command_lines() {
    let headers = vec![("Referer".to_string(), "https://x/".to_string())];
    let plain = [
        "-sS",
        "-L",
        "--compressed",
        "--connect-timeout",
        "20",
        "-A",
        USER_AGENT,
        "-H",
        "Referer: https://x/",
        "https://x/y",
    ];
    assert_eq!(words(&base_cmd("https://x/y", &headers, false)), plain);
    assert_eq!(base_cmd("https://x/y", &headers, true)[0], "-S");
    let form = post_form(&[("a".to_string(), "c&d".to_string())]);
    assert_eq!(words(&form), ["-X", "POST", "-F", "a=c&d"]);
    let mut posted: Vec<&str> = plain.to_vec();
    posted.extend(["--max-time", "30", "-X", "POST", "-F", "a=c&d", "-w", "\n%{http_code}"]);
    assert_eq!(words(&request_cmd("https://x/y", &headers, &form)), posted);
    let resolve = resolve_cmd("https://x/y");
    assert_eq!(
        words(&resolve[resolve.len() - 6..]),
        ["https://x/y", "-I", "--max-time", "30", "-w", "\n%{url_effective}"]
    );
    let save = download_cmd("https://x/y", &[], "out/file");
    let meta = format!("\n{META_SENTINEL}%{{content_type}}\t%{{url_effective}}");
    assert_eq!(
        words(&save[save.len() - 10..]),
        [
            "https://x/y",
            "--fail",
            "--retry",
            "3",
            "-o",
            "out/file",
            "-D",
            "-",
            "-w",
            meta.as_str()
        ]
    );
}

#[test]
fn downloads_end_as_a_package_or_not_at_all() {
    match download_to_file("d/a", SaveRun::Saved("out".to_string())) {
        Save::ReadHead(dest, out) => assert_eq!((dest.as_str(), out.as_str()), ("d/a", "out")),
        _ => panic!("not read"),
    }
    assert!(matches!(
        download_to_file("d/a", SaveRun::Cancelled),
        Save::Remove(_, ProviderError::Cancelled)
    ));
    assert!(matches!(
        download_to_file("d/a", SaveRun::Failed("exit status: 22".to_string())),
        Save::Remove(_, ProviderError::Network(_))
    ));
    assert!(matches!(
        download_to_file("d/a", SaveRun::NotRun("no curl".to_string())),
        Save::Remove(_, ProviderError::Network(_))
    ));
    assert!(matches!(
        download_to_file("d/a", SaveRun::Lost("gone".to_string())),
        Save::Remove(_, ProviderError::Network(_))
    ));
    let out = format!("\n{META_SENTINEL}application/octet-stream\thttps://cdn/x.apkm");
    match check_head("d/a", &out, b"PK\x03\x04") {
        Save::Rename(from, to) => assert_eq!((from.as_str(), to.as_str()), ("d/a", "d/a.apkm")),
        _ => panic!("not renamed"),
    }
    match check_head("d/a", "nothing known", b"PK\x03\x04") {
        Save::Done(path) => assert_eq!(path, "d/a"),
        _ => panic!("not done"),
    }
    assert!(matches!(check_head("d/a", &out, b"<htm"), Save::Remove(_, _)));
    match renamed("d/a", "d/a.apk", None) {
        Save::Done(path) => assert_eq!(path, "d/a.apk"),
        _ => panic!("not done"),
    }
    assert!(matches!(
        renamed("d/a", "d/a.apk", Some("denied".to_string())),
        Save::Remove(_, ProviderError::Network(_))
    ));
}

#[test]
fn noise_without_a_close_stays() {
    assert_eq!(trim_html(""), "");
    assert_eq!(trim_html("<p>no noise</p>"), "<p>no noise</p>");
    assert_eq!(trim_html("<svg><path/></svg>x<NOSCRIPT>y</noscript>"), "x");
}
