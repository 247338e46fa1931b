//! Pages and files over the system `curl`: what it is called with, and what its
//! runs come to.

use crate::common::contract;
use crate::common::contract::ProviderError;
use crate::model;
use crate::model::Class;
use crate::numbers::{decimal_text, parse_u16, signed_text};
use crate::strings::{
    chars, contains, ends_with, find, is_all_alnum, part, plus, plus3, plus4, rsplit_once, same,
    split_by, split_once, to_ascii_lowercase, trim, trim_by, trim_start_by,
};
use vstd::prelude::*;
use vstd::string::StringExecFns;

verus! {

/// How long a request may take, in seconds.
pub const REQUEST_TIMEOUT_SECS: u64 = 30;

/// How long connecting may take, in seconds.
pub const CONNECT_TIMEOUT_SECS: u64 = 20;

/// The least time between two requests of one fetcher, in milliseconds.
pub const THROTTLE_DELAY: u64 = 1200;

/// How often a request is tried again.
pub const MAX_RETRIES: u32 = 3;

/// The wait before the first retry, in milliseconds; before the `n`th it is `n`
/// times as long.
pub const RETRY_BASE_BACKOFF: u64 = 500;

/// What the requests say of their sender.
pub const USER_AGENT: &'static str = "Mozilla/5.0 (Windows NT 10.0; Win64; x64) AppleWebKit/537.36 (KHTML, like Gecko) Chrome/124.0.0.0 Safari/537.36";

/// Marks the line in the output of `curl` that follows the dump of headers.
pub const META_SENTINEL: &'static str = "\u{1f}apk-fetch\u{1f}";

/// The texts by which a challenge page is known.
pub open spec fn block_signatures() -> Seq<Seq<char>> {
    seq![
        "Just a moment..."@,
        "cf-browser-verification"@,
        "cf_chl_opt"@,
        "Attention Required! | Cloudflare"@,
        "Checking if the site connection is secure"@,
        "_cf_chl_"@,
        "Enable JavaScript and cookies to continue"@,
    ]
}

/// Whether a page is a challenge page.
pub open spec fn blocked(body: Seq<char>) -> bool {
    exists|i: int|
        0 <= i < block_signatures().len() && model::holds(body, #[trigger] block_signatures()[i])
}

/// Whether a page is a challenge page.
pub fn looks_blocked(body: &str) -> (r: bool)
    ensures
        r == blocked(body@),
{
    let found = contains(body, "Just a moment...") || contains(body, "cf-browser-verification")
        || contains(body, "cf_chl_opt") || contains(body, "Attention Required! | Cloudflare")
        || contains(body, "Checking if the site connection is secure") || contains(body, "_cf_chl_")
        || contains(body, "Enable JavaScript and cookies to continue");
    proof {
        let sigs = block_signatures();
        assert(sigs[0] == "Just a moment..."@);
        assert(sigs[1] == "cf-browser-verification"@);
        assert(sigs[2] == "cf_chl_opt"@);
        assert(sigs[3] == "Attention Required! | Cloudflare"@);
        assert(sigs[4] == "Checking if the site connection is secure"@);
        assert(sigs[5] == "_cf_chl_"@);
        assert(sigs[6] == "Enable JavaScript and cookies to continue"@);
    }
    found
}

/// Whether a header line is a `Content-Disposition`.
pub open spec fn is_disposition(line: Seq<char>) -> bool {
    line.len() >= 20 && model::lowered(line.take(20)) == "content-disposition:"@
}

/// The extension of the file name in a header line: `filename="x.apk"`, or
/// `filename*=UTF-8''x.apk`.
pub open spec fn line_ext(line: Seq<char>) -> Option<Seq<char>> {
    match model::cut(line, "filename"@) {
        Some((_, rest)) => {
            let value = model::trimmed_start(rest, Class::Either('*', '='));
            let name = match model::cut_last(value, "''"@) {
                Some((_, n)) => n,
                None => value,
            };
            match model::cut_last(
                model::trimmed(model::stripped(name), Class::One('"')),
                "."@,
            ) {
                Some((_, ext)) => Some(model::lowered(ext)),
                None => None,
            }
        },
        None => None,
    }
}

/// The extension in the last of the lines that gives one.
pub open spec fn last_ext(lines: Seq<Seq<char>>) -> Option<Seq<char>>
    decreases lines.len(),
{
    if lines.len() == 0 {
        None
    } else if is_disposition(lines.last()) && line_ext(lines.last()) is Some {
        line_ext(lines.last())
    } else {
        last_ext(lines.drop_last())
    }
}

/// Whether an extension is short and made of letters and digits.
pub open spec fn proper_ext(ext: Seq<char>) -> bool {
    ext.len() <= 8 && model::all_alnum(ext)
}

/// The extension that the last `Content-Disposition` of a header dump gives, if
/// it is a proper one.
pub open spec fn disposition_ext(headers: Seq<char>) -> Option<Seq<char>> {
    match last_ext(model::pieces(headers, Class::One('\n'))) {
        Some(ext) => if proper_ext(ext) {
            Some(ext)
        } else {
            None
        },
        None => None,
    }
}

/// Whether a header line is a `Content-Disposition`.
fn disposition_line(line: &str) -> (r: bool)
    ensures
        r == is_disposition(line@),
{
    let cs = chars(line);
    if cs.len() < 20 {
        return false;
    }
    let head = part(&cs, 0, 20);
    assert(head@ == line@.take(20));
    let head = to_ascii_lowercase(head.as_str());
    same(head.as_str(), "content-disposition:")
}

/// The extension of the file name in a header line.
fn ext_in_line(line: &str) -> (r: Option<String>)
    ensures
        model::opt(r) == line_ext(line@),
{
    let (_, rest) = match split_once(line, "filename") {
        Some(p) => p,
        None => {
            return None;
        },
    };
    let value = trim_start_by(rest.as_str(), Class::Either('*', '='));
    let name = match rsplit_once(value.as_str(), "''") {
        Some((_, n)) => n,
        None => value,
    };
    let name = trim(name.as_str());
    let name = trim_by(name.as_str(), Class::One('"'));
    match rsplit_once(name.as_str(), ".") {
        Some((_, ext)) => Some(to_ascii_lowercase(ext.as_str())),
        None => None,
    }
}

/// The extension that the last `Content-Disposition` of a header dump gives.
pub fn ext_from_disposition(headers: &str) -> (r: Option<String>)
    ensures
        model::opt(r) == disposition_ext(headers@),
{
    let lines = split_by(headers, Class::One('\n'));
    let ghost ls = model::texts(lines@);
    let mut i: usize = lines.len();
    assert(ls.take(i as int) == ls);
    while i > 0
        invariant
            i <= lines@.len(),
            ls == model::texts(lines@),
            ls == model::pieces(headers@, Class::One('\n')),
            last_ext(ls) == last_ext(ls.take(i as int)),
        decreases i,
    {
        i -= 1;
        assert(ls.take(i + 1).drop_last() == ls.take(i as int));
        assert(ls.take(i + 1).last() == lines@[i as int]@);
        let line = lines[i].as_str();
        if disposition_line(line) {
            if let Some(ext) = ext_in_line(line) {
                let n: usize = chars(ext.as_str()).len();
                if n <= 8 && is_all_alnum(ext.as_str()) {
                    return Some(ext);
                }
                return None;
            }
        }
    }
    None
}

/// Whether a URL shows an extension: before a query, or at the end.
pub open spec fn shows(url: Seq<char>, ext: Seq<char>) -> bool {
    model::holds(url, "."@ + ext + "?"@) || model::finishes(url, "."@ + ext)
}

/// The extension that a content type or a URL tells.
pub open spec fn typed_ext(content_type: Seq<char>, url: Seq<char>) -> Option<Seq<char>> {
    let ct = model::lowered(content_type);
    let hay = model::lowered(url);
    if model::holds(ct, "xapk"@) {
        Some("xapk"@)
    } else if model::holds(ct, "vnd.android.package-archive"@) {
        Some("apk"@)
    } else if shows(hay, "xapk"@) {
        Some("xapk"@)
    } else if shows(hay, "apkm"@) {
        Some("apkm"@)
    } else if shows(hay, "apks"@) {
        Some("apks"@)
    } else if shows(hay, "apk"@) {
        Some("apk"@)
    } else {
        None
    }
}

/// Whether a URL shows an extension: before a query, or at the end.
fn url_shows(url: &str, ext: &str) -> (r: bool)
    ensures
        r == shows(url@, ext@),
{
    let inner = plus3(".", ext, "?");
    let tail = plus(".", ext);
    contains(url, inner.as_str()) || ends_with(url, tail.as_str())
}

/// The extension that a content type or, failing that, a URL tells.
pub fn ext_from_type_or_url(content_type: &str, url: &str) -> (r: Option<String>)
    ensures
        model::opt(r) == typed_ext(content_type@, url@),
{
    let ct = to_ascii_lowercase(content_type);
    let hay = to_ascii_lowercase(url);
    if contains(ct.as_str(), "xapk") {
        Some("xapk".to_owned())
    } else if contains(ct.as_str(), "vnd.android.package-archive") {
        Some("apk".to_owned())
    } else if url_shows(hay.as_str(), "xapk") {
        Some("xapk".to_owned())
    } else if url_shows(hay.as_str(), "apkm") {
        Some("apkm".to_owned())
    } else if url_shows(hay.as_str(), "apks") {
        Some("apks".to_owned())
    } else if url_shows(hay.as_str(), "apk") {
        Some("apk".to_owned())
    } else {
        None
    }
}

/// The extension that the output of `curl` tells: headers, then behind the
/// sentinel the content type, a tab and the URL.
pub open spec fn output_ext(out: Seq<char>) -> Option<Seq<char>> {
    let (headers, meta) = match model::cut_last(out, META_SENTINEL@) {
        Some((h, m)) => (h, m),
        None => (out, Seq::<char>::empty()),
    };
    let (ct, url) = match model::cut(meta, "\t"@) {
        Some((c, u)) => (c, u),
        None => (meta, Seq::<char>::empty()),
    };
    match disposition_ext(headers) {
        Some(ext) => Some(ext),
        None => typed_ext(ct, url),
    }
}

/// The extension that was served, from the output of `curl`: from
/// `Content-Disposition`, else from `Content-Type`, else from the final URL.
pub fn served_ext(curl_stdout: &str) -> (r: Option<String>)
    ensures
        model::opt(r) == output_ext(curl_stdout@),
{
    let none = String::new();
    assert(none@ == Seq::<char>::empty());
    let (headers, meta) = match rsplit_once(curl_stdout, META_SENTINEL) {
        Some(p) => p,
        None => (curl_stdout.to_owned(), none.clone()),
    };
    let (ct, url) = match split_once(meta.as_str(), "\t") {
        Some(p) => p,
        None => (meta, none),
    };
    match ext_from_disposition(headers.as_str()) {
        Some(ext) => Some(ext),
        None => ext_from_type_or_url(ct.as_str(), url.as_str()),
    }
}

/// A served extension is short and made of letters and digits, so that it leads
/// to no other directory.
pub proof fn lemma_served_ext(out: Seq<char>)
    ensures
        output_ext(out) matches Some(ext) ==> proper_ext(ext),
{
    reveal_strlit("xapk");
    reveal_strlit("apkm");
    reveal_strlit("apks");
    reveal_strlit("apk");
}

/// Whether bytes begin like a ZIP archive, which an APK is: `PK\x03\x04`, or
/// `PK\x05\x06` for an empty one.
pub open spec fn zip_magic(head: Seq<u8>) -> bool {
    head.len() >= 4 && (head.take(4) == seq![0x50u8, 0x4bu8, 3u8, 4u8] || head.take(4)
        == seq![0x50u8, 0x4bu8, 5u8, 6u8])
}

/// Whether the first bytes of a file are those of a ZIP archive. A file without
/// four bytes is none.
pub fn starts_with_zip_magic(head: &[u8]) -> (r: bool)
    ensures
        r == zip_magic(head@),
{
    if head.len() < 4 {
        return false;
    }
    let r = head[0] == 0x50 && head[1] == 0x4b && ((head[2] == 3 && head[3] == 4) || (head[2] == 5
        && head[3] == 6));
    proof {
        let h = head@.take(4);
        assert(h[0] == head@[0] && h[1] == head@[1] && h[2] == head@[2] && h[3] == head@[3]);
        if head@[0] == 0x50 && head@[1] == 0x4b && head@[2] == 3 && head@[3] == 4 {
            assert(h == seq![0x50u8, 0x4bu8, 3u8, 4u8]);
        }
        if head@[0] == 0x50 && head@[1] == 0x4b && head@[2] == 5 && head@[3] == 6 {
            assert(h == seq![0x50u8, 0x4bu8, 5u8, 6u8]);
        }
    }
    r
}

/// Whether an exit code of `curl` is worth another try: resolve (6), connect (7),
/// timeout (28), TLS connect (35), empty reply (52), send (55), receive (56).
pub open spec fn transient(code: Option<i32>) -> bool {
    code matches Some(c) && (c == 6 || c == 7 || c == 28 || c == 35 || c == 52 || c == 55 || c
        == 56)
}

/// Whether an exit code of `curl` is worth another try.
pub fn curl_exit_is_transient(code: Option<i32>) -> (r: bool)
    ensures
        r == transient(code),
{
    match code {
        Some(c) => c == 6 || c == 7 || c == 28 || c == 35 || c == 52 || c == 55 || c == 56,
        None => false,
    }
}

/// What an HTTP status says of the reply: nothing against it, or an error.
pub open spec fn status_error(code: nat, url: Seq<char>) -> Option<contract::ErrorView> {
    if code == 404 || code == 410 {
        Some(contract::ErrorView::NotFound("got "@ + model::decimal(code) + " for "@ + url))
    } else if code == 403 || code == 429 {
        Some(contract::ErrorView::Blocked)
    } else if code >= 500 {
        Some(contract::ErrorView::Network("upstream returned "@ + model::decimal(code)))
    } else {
        None
    }
}

/// What an HTTP status says of the reply: nothing against it, or an error.
pub fn map_http_status(code: u16, url: &str) -> (r: Option<ProviderError>)
    ensures
        (match r {
            Some(e) => Some(e@),
            None => None,
        }) == status_error(code as nat, url@),
{
    let digits = decimal_text(code as u64);
    if code == 404 || code == 410 {
        let msg = plus4("got ", digits.as_str(), " for ", url);
        Some(ProviderError::NotFound(msg))
    } else if code == 403 || code == 429 {
        Some(ProviderError::Blocked)
    } else if code >= 500 {
        let msg = plus("upstream returned ", digits.as_str());
        Some(ProviderError::Network(msg))
    } else {
        None
    }
}

/// A fetcher: how far apart its requests are, and when the last one was. Times
/// are milliseconds on a clock that does not go back. Each provider has its own,
/// so that every site has its own cadence.
pub struct HttpFetcher {
    pub min_gap: u64,
    pub last_request: Option<u64>,
}

/// How long to wait before a request, at the time `now`.
pub open spec fn gap_left(min_gap: nat, last_request: Option<u64>, now: nat) -> nat {
    match last_request {
        Some(t) => if now < t {
            min_gap
        } else if now - t < min_gap {
            (min_gap - (now - t)) as nat
        } else {
            0
        },
        None => 0,
    }
}

impl HttpFetcher {
    /// A fetcher with the usual gap.
    pub fn new() -> (r: HttpFetcher)
        ensures
            r.min_gap == THROTTLE_DELAY,
            r.last_request is None,
    {
        HttpFetcher::with_delay(THROTTLE_DELAY)
    }

    /// A fetcher with the given gap.
    pub fn with_delay(min_gap: u64) -> (r: HttpFetcher)
        ensures
            r.min_gap == min_gap,
            r.last_request is None,
    {
        HttpFetcher { min_gap, last_request: None }
    }

    /// How long to wait before the next request.
    pub fn throttle(&self, now: u64) -> (r: u64)
        ensures
            r == gap_left(self.min_gap as nat, self.last_request, now as nat),
    {
        match self.last_request {
            Some(t) => {
                let elapsed: u64 = if now < t { 0 } else { now - t };
                if elapsed < self.min_gap {
                    self.min_gap - elapsed
                } else {
                    0
                }
            },
            None => 0,
        }
    }

    /// A request goes out.
    pub fn sent(&mut self, at: u64)
        ensures
            final(self).min_gap == old(self).min_gap,
            final(self).last_request == Some(at),
    {
        self.last_request = Some(at);
    }
}

/// Whoever waits as told sends no two requests closer together than the gap.
pub proof fn lemma_throttle(min_gap: nat, last: u64, now: nat, at: nat)
    requires
        now >= last,
        at >= now + gap_left(min_gap, Some(last), now),
    ensures
        at - last >= min_gap,
{
}

/// Appends an argument.
fn arg(args: &mut Vec<String>, a: &str)
    ensures
        model::texts(final(args)@) == model::texts(old(args)@).push(a@),
{
    let ghost before = args@;
    args.push(a.to_owned());
    assert(model::texts(args@) == model::texts(before).push(a@));
}

/// The arguments for header fields.
pub open spec fn header_args(headers: Seq<(Seq<char>, Seq<char>)>) -> Seq<Seq<char>>
    decreases headers.len(),
{
    if headers.len() == 0 {
        Seq::<Seq<char>>::empty()
    } else {
        header_args(headers.drop_last()).push("-H"@).push(
            headers.last().0 + ": "@ + headers.last().1,
        )
    }
}

/// The arguments that every call of `curl` begins with. With `progress` its own
/// meter is shown. The only thing said of the sender is the user agent: more than
/// that and some sites take offence.
pub open spec fn base_args(
    url: Seq<char>,
    headers: Seq<(Seq<char>, Seq<char>)>,
    progress: bool,
) -> Seq<Seq<char>> {
    seq![
        if progress { "-S"@ } else { "-sS"@ },
        "-L"@,
        "--compressed"@,
        "--connect-timeout"@,
        model::decimal(CONNECT_TIMEOUT_SECS as nat),
        "-A"@,
        USER_AGENT@,
    ] + header_args(headers) + seq![url]
}

/// The arguments that every call of `curl` begins with.
pub fn base_cmd(url: &str, headers: &[(String, String)], progress: bool) -> (r: Vec<String>)
    ensures
        model::texts(r@) == base_args(url@, contract::header_texts(headers@), progress),
{
    let ghost hs = contract::header_texts(headers@);
    let mut args: Vec<String> = Vec::new();
    assert(model::texts(args@) == Seq::<Seq<char>>::empty());
    if progress {
        arg(&mut args, "-S");
    } else {
        arg(&mut args, "-sS");
    }
    arg(&mut args, "-L");
    arg(&mut args, "--compressed");
    arg(&mut args, "--connect-timeout");
    let secs = decimal_text(CONNECT_TIMEOUT_SECS);
    arg(&mut args, secs.as_str());
    arg(&mut args, "-A");
    arg(&mut args, USER_AGENT);
    let ghost head = model::texts(args@);
    assert(head == seq![
        if progress { "-S"@ } else { "-sS"@ },
        "-L"@,
        "--compressed"@,
        "--connect-timeout"@,
        model::decimal(CONNECT_TIMEOUT_SECS as nat),
        "-A"@,
        USER_AGENT@,
    ]);
    let mut i: usize = 0;
    assert(model::texts(args@) == head + header_args(hs.take(0)));
    while i < headers.len()
        invariant
            i <= headers@.len(),
            hs == contract::header_texts(headers@),
            model::texts(args@) == head + header_args(hs.take(i as int)),
        decreases headers@.len() - i,
    {
        assert(hs.take(i + 1).drop_last() == hs.take(i as int));
        let line = plus3(headers[i].0.as_str(), ": ", headers[i].1.as_str());
        arg(&mut args, "-H");
        arg(&mut args, line.as_str());
        assert(model::texts(args@) == head + header_args(hs.take(i + 1)));
        i += 1;
    }
    assert(hs.take(hs.len() as int) == hs);
    arg(&mut args, url);
    assert(model::texts(args@) == base_args(url@, hs, progress));
    args
}

/// The arguments for the fields of a form.
pub open spec fn form_args(form: Seq<(Seq<char>, Seq<char>)>) -> Seq<Seq<char>>
    decreases form.len(),
{
    if form.len() == 0 {
        seq!["-X"@, "POST"@]
    } else {
        form_args(form.drop_last()).push("-F"@).push(form.last().0 + "="@ + form.last().1)
    }
}

/// The arguments of a request, with `extra` ones.
pub open spec fn request_args(
    url: Seq<char>,
    headers: Seq<(Seq<char>, Seq<char>)>,
    extra: Seq<Seq<char>>,
) -> Seq<Seq<char>> {
    base_args(url, headers, false) + seq!["--max-time"@, model::decimal(REQUEST_TIMEOUT_SECS as nat)]
        + extra + seq!["-w"@, "\n%{http_code}"@]
}

/// The extra arguments of a POST with a multipart form.
pub fn post_form(form: &[(String, String)]) -> (r: Vec<String>)
    ensures
        model::texts(r@) == form_args(contract::header_texts(form@)),
{
    let ghost fs = contract::header_texts(form@);
    let mut args: Vec<String> = Vec::new();
    assert(model::texts(args@) == Seq::<Seq<char>>::empty());
    arg(&mut args, "-X");
    arg(&mut args, "POST");
    assert(model::texts(args@) == form_args(fs.take(0)));
    let mut i: usize = 0;
    while i < form.len()
        invariant
            i <= form@.len(),
            fs == contract::header_texts(form@),
            model::texts(args@) == form_args(fs.take(i as int)),
        decreases form@.len() - i,
    {
        assert(fs.take(i + 1).drop_last() == fs.take(i as int));
        let f = plus3(form[i].0.as_str(), "=", form[i].1.as_str());
        arg(&mut args, "-F");
        arg(&mut args, f.as_str());
        i += 1;
    }
    assert(fs.take(fs.len() as int) == fs);
    args
}

/// The arguments of a request, with `extra` ones.
pub fn request_cmd(url: &str, headers: &[(String, String)], extra: &[String]) -> (r: Vec<String>)
    ensures
        model::texts(r@) == request_args(
            url@,
            contract::header_texts(headers@),
            model::texts(extra@),
        ),
{
    let mut args = base_cmd(url, headers, false);
    let secs = decimal_text(REQUEST_TIMEOUT_SECS);
    arg(&mut args, "--max-time");
    arg(&mut args, secs.as_str());
    let ghost es = model::texts(extra@);
    let ghost head = base_args(url@, contract::header_texts(headers@), false) + seq![
        "--max-time"@,
        model::decimal(REQUEST_TIMEOUT_SECS as nat),
    ];
    assert(model::texts(args@) == head + es.take(0));
    let mut i: usize = 0;
    while i < extra.len()
        invariant
            i <= extra@.len(),
            es == model::texts(extra@),
            model::texts(args@) == head + es.take(i as int),
        decreases extra@.len() - i,
    {
        arg(&mut args, extra[i].as_str());
        assert(model::texts(args@) == head + es.take(i + 1));
        i += 1;
    }
    assert(es.take(es.len() as int) == es);
    arg(&mut args, "-w");
    arg(&mut args, "\n%{http_code}");
    assert(model::texts(args@) == head + es + seq!["-w"@, "\n%{http_code}"@]);
    args
}

/// The arguments that ask where a URL leads.
pub open spec fn resolve_args(url: Seq<char>) -> Seq<Seq<char>> {
    base_args(url, Seq::<(Seq<char>, Seq<char>)>::empty(), false) + seq![
        "-I"@,
        "--max-time"@,
        model::decimal(REQUEST_TIMEOUT_SECS as nat),
        "-w"@,
        "\n%{url_effective}"@,
    ]
}

/// The arguments that ask where a URL leads.
pub fn resolve_cmd(url: &str) -> (r: Vec<String>)
    ensures
        model::texts(r@) == resolve_args(url@),
{
    let none: Vec<(String, String)> = Vec::new();
    assert(contract::header_texts(none@) == Seq::<(Seq<char>, Seq<char>)>::empty());
    let mut args = base_cmd(url, &none, false);
    let secs = decimal_text(REQUEST_TIMEOUT_SECS);
    arg(&mut args, "-I");
    arg(&mut args, "--max-time");
    arg(&mut args, secs.as_str());
    arg(&mut args, "-w");
    arg(&mut args, "\n%{url_effective}");
    assert(model::texts(args@) == resolve_args(url@));
    args
}

/// The arguments that save a URL to a file.
pub open spec fn download_args(
    url: Seq<char>,
    headers: Seq<(Seq<char>, Seq<char>)>,
    dest: Seq<char>,
) -> Seq<Seq<char>> {
    base_args(url, headers, true) + seq![
        "--fail"@,
        "--retry"@,
        model::decimal(MAX_RETRIES as nat),
        "-o"@,
        dest,
        "-D"@,
        "-"@,
        "-w"@,
        "\n"@ + META_SENTINEL@ + "%{content_type}\t%{url_effective}"@,
    ]
}

/// The arguments that save a URL to a file.
pub fn download_cmd(url: &str, headers: &[(String, String)], dest: &str) -> (r: Vec<String>)
    ensures
        model::texts(r@) == download_args(url@, contract::header_texts(headers@), dest@),
{
    let mut args = base_cmd(url, headers, true);
    let tries = decimal_text(MAX_RETRIES as u64);
    arg(&mut args, "--fail");
    arg(&mut args, "--retry");
    arg(&mut args, tries.as_str());
    arg(&mut args, "-o");
    arg(&mut args, dest);
    arg(&mut args, "-D");
    arg(&mut args, "-");
    arg(&mut args, "-w");
    let meta = plus3("\n", META_SENTINEL, "%{content_type}\t%{url_effective}");
    arg(&mut args, meta.as_str());
    assert(model::texts(args@) == download_args(url@, contract::header_texts(headers@), dest@));
    args
}

/// A run of `curl`.
#[derive(Debug)]
pub enum CurlRun {
    /// It could not be started, for this reason.
    NotRun(String),
    /// It ended: whether well, with which exit code, and what it wrote.
    Ended(bool, Option<i32>, String, String),
}

/// What a [`CurlRun`] says.
pub enum CurlRunView {
    NotRun(Seq<char>),
    Ended(bool, Option<i32>, Seq<char>, Seq<char>),
}

impl View for CurlRun {
    type V = CurlRunView;

    open spec fn view(&self) -> CurlRunView {
        match *self {
            CurlRun::NotRun(e) => CurlRunView::NotRun(e@),
            CurlRun::Ended(ok, code, out, err) => CurlRunView::Ended(ok, code, out@, err@),
        }
    }
}

/// What to make of a run: try again, or be done.
pub enum Verdict<E = ProviderError> {
    /// Wait so many milliseconds, then make the attempt of this number.
    Retry(u32, u64),
    /// The outcome.
    Done(Result<String, E>),
}

/// What a [`Verdict`] says.
pub enum VerdictView<E = contract::ErrorView> {
    Retry(u32, u64),
    Done(Result<Seq<char>, E>),
}

impl<E: View> View for Verdict<E> {
    type V = VerdictView<E::V>;

    open spec fn view(&self) -> VerdictView<E::V> {
        match *self {
            Verdict::Retry(n, wait) => VerdictView::Retry(n, wait),
            Verdict::Done(r) => VerdictView::Done(contract::outcome(r)),
        }
    }
}

/// `curl` could not be started.
pub open spec fn not_run(e: Seq<char>) -> contract::ErrorView {
    contract::ErrorView::Network(
        "could not run `curl` (is it installed and on PATH?): "@ + e,
    )
}

/// An exit code as it is reported.
pub open spec fn code_text(code: Option<i32>) -> Seq<char> {
    match code {
        Some(c) => "Some("@ + model::decimal_signed(c as int) + ")"@,
        None => "None"@,
    }
}

/// `curl` ended badly.
pub open spec fn exited(code: Option<i32>, stderr: Seq<char>) -> contract::ErrorView {
    contract::ErrorView::Network(
        "curl exited "@ + code_text(code) + ": "@ + model::stripped(stderr),
    )
}

/// The body and the HTTP status in the output of a request: the status stands on
/// the last line.
pub open spec fn body_and_status(out: Seq<char>) -> (Seq<char>, nat) {
    let (body, line) = match model::cut_last(out, "\n"@) {
        Some((b, l)) => (b, l),
        None => (out, "0"@),
    };
    (
        body,
        match model::small_number(model::stripped(line)) {
            Some(n) => n,
            None => 0,
        },
    )
}

/// The next attempt, or `e` where there is none.
pub open spec fn retry_or(attempt: nat, e: contract::ErrorView) -> VerdictView {
    if attempt < MAX_RETRIES {
        VerdictView::Retry((attempt + 1) as u32, (RETRY_BASE_BACKOFF * (attempt + 1)) as u64)
    } else {
        VerdictView::Done(Err(e))
    }
}

/// What to make of a run of a request for `url`, after `attempt` failed ones.
/// Transient failures and server errors are tried again.
pub open spec fn verdict(url: Seq<char>, attempt: nat, run: CurlRunView) -> VerdictView {
    match run {
        CurlRunView::NotRun(e) => VerdictView::Done(Err(not_run(e))),
        CurlRunView::Ended(ok, code, out, err) => if !ok {
            if transient(code) {
                retry_or(attempt, exited(code, err))
            } else {
                VerdictView::Done(Err(exited(code, err)))
            }
        } else {
            let (body, status) = body_and_status(out);
            match status_error(status, url) {
                Some(contract::ErrorView::Network(m)) => retry_or(
                    attempt,
                    contract::ErrorView::Network(m),
                ),
                Some(e) => VerdictView::Done(Err(e)),
                None => if blocked(body) {
                    VerdictView::Done(Err(contract::ErrorView::Blocked))
                } else {
                    VerdictView::Done(Ok(body))
                },
            }
        },
    }
}

/// `curl` could not be started.
fn start_failed(e: &str) -> (r: ProviderError)
    ensures
        r@ == not_run(e@),
{
    let msg = plus("could not run `curl` (is it installed and on PATH?): ", e);
    ProviderError::Network(msg)
}

/// `curl` ended badly.
fn exit_failed(code: Option<i32>, stderr: &str) -> (r: ProviderError)
    ensures
        r@ == exited(code, stderr@),
{
    let shown = match code {
        Some(c) => {
            let digits = signed_text(c);
            plus3("Some(", digits.as_str(), ")")
        },
        None => "None".to_owned(),
    };
    let why = trim(stderr);
    let msg = plus4("curl exited ", shown.as_str(), ": ", why.as_str());
    ProviderError::Network(msg)
}

/// The next attempt, or `e` where there is none.
fn retry(attempt: u32, e: ProviderError) -> (r: Verdict)
    ensures
        r@ == retry_or(attempt as nat, e@),
{
    if attempt < MAX_RETRIES {
        let n: u32 = attempt + 1;
        Verdict::Retry(n, RETRY_BASE_BACKOFF * n as u64)
    } else {
        Verdict::Done(Err(e))
    }
}

/// The body and the HTTP status in the output of a request.
pub fn split_reply(out: &str) -> (r: (String, u16))
    ensures
        (r.0@, r.1 as nat) == body_and_status(out@),
{
    let (body, line) = match rsplit_once(out, "\n") {
        Some(p) => p,
        None => (out.to_owned(), "0".to_owned()),
    };
    let line = trim(line.as_str());
    let status: u16 = match parse_u16(line.as_str()) {
        Some(n) => n,
        None => 0,
    };
    (body, status)
}

/// What to make of a run of a request for `url`, after `attempt` failed ones.
pub fn request(url: &str, attempt: u32, run: CurlRun) -> (r: Verdict)
    ensures
        r@ == verdict(url@, attempt as nat, run@),
{
    match run {
        CurlRun::NotRun(e) => Verdict::Done(Err(start_failed(e.as_str()))),
        CurlRun::Ended(ok, code, out, err) => {
            if !ok {
                let e = exit_failed(code, err.as_str());
                if curl_exit_is_transient(code) {
                    return retry(attempt, e);
                }
                return Verdict::Done(Err(e));
            }
            let (body, status) = split_reply(out.as_str());
            match map_http_status(status, url) {
                Some(ProviderError::Network(m)) => retry(attempt, ProviderError::Network(m)),
                Some(e) => Verdict::Done(Err(e)),
                None => if looks_blocked(body.as_str()) {
                    Verdict::Done(Err(ProviderError::Blocked))
                } else {
                    Verdict::Done(Ok(body))
                },
            }
        },
    }
}

/// The outcome of a request whose runs are `runs`, one after the other; `None`
/// where they are too few to tell.
pub open spec fn requested(url: Seq<char>, attempt: nat, runs: Seq<CurlRunView>) -> Option<
    Result<Seq<char>, contract::ErrorView>,
>
    decreases runs.len(),
{
    if runs.len() == 0 {
        None
    } else {
        match verdict(url, attempt, runs[0]) {
            VerdictView::Retry(n, _) => requested(url, n as nat, runs.skip(1)),
            VerdictView::Done(r) => Some(r),
        }
    }
}

/// A request ends after at most one run and [`MAX_RETRIES`] more, and a run is
/// repeated only where it failed to reach the site or the server broke down.
pub proof fn lemma_request_ends(url: Seq<char>, attempt: nat, runs: Seq<CurlRunView>)
    requires
        attempt <= MAX_RETRIES,
        runs.len() + attempt > MAX_RETRIES,
    ensures
        requested(url, attempt, runs) is Some,
    decreases runs.len(),
{
    match verdict(url, attempt, runs[0]) {
        VerdictView::Retry(n, _) => {
            lemma_request_ends(url, n as nat, runs.skip(1));
        },
        VerdictView::Done(_) => {},
    }
}

/// A body that is handed on is no challenge page and came with no error status.
pub proof fn lemma_body_is_page(url: Seq<char>, attempt: nat, run: CurlRunView)
    ensures
        verdict(url, attempt, run) matches VerdictView::Done(Ok(body)) ==> !blocked(body) && run is Ended
            && run->Ended_0 && body_and_status(run->Ended_2).0 == body && status_error(
            body_and_status(run->Ended_2).1,
            url,
        ) is None,
{
}

/// Where a URL led: the last line of the output.
pub open spec fn led_to(run: CurlRunView) -> Result<Seq<char>, contract::ErrorView> {
    match run {
        CurlRunView::NotRun(e) => Err(not_run(e)),
        CurlRunView::Ended(ok, code, out, err) => if ok {
            Ok(model::stripped(model::pieces(out, Class::One('\n')).last()))
        } else {
            Err(exited(code, err))
        },
    }
}

/// Where a URL led. Without a redirect that is the URL itself.
pub fn resolve_url(run: CurlRun) -> (r: Result<String, ProviderError>)
    ensures
        contract::outcome(r) == led_to(run@),
{
    match run {
        CurlRun::NotRun(e) => Err(start_failed(e.as_str())),
        CurlRun::Ended(ok, code, out, err) => {
            if !ok {
                return Err(exit_failed(code, err.as_str()));
            }
            let lines = split_by(out.as_str(), Class::One('\n'));
            proof {
                crate::strings::lemma_pieces_len(out@, Class::One('\n'));
            }
            assert(model::texts(lines@).len() == lines@.len());
            let last: usize = lines.len() - 1;
            assert(model::texts(lines@).last() == lines@[last as int]@);
            Ok(trim(lines[last].as_str()))
        },
    }
}

/// How a run of `curl` that saves a file ended.
#[derive(Debug)]
pub enum SaveRun {
    /// It could not be started, for this reason.
    NotRun(String),
    /// It could not be waited for, for this reason.
    Lost(String),
    /// The user stopped it.
    Cancelled,
    /// It failed, with this exit status.
    Failed(String),
    /// It ended well and wrote this.
    Saved(String),
}

/// What a [`SaveRun`] says.
pub enum SaveRunView {
    NotRun(Seq<char>),
    Lost(Seq<char>),
    Cancelled,
    Failed(Seq<char>),
    Saved(Seq<char>),
}

impl View for SaveRun {
    type V = SaveRunView;

    open spec fn view(&self) -> SaveRunView {
        match *self {
            SaveRun::NotRun(e) => SaveRunView::NotRun(e@),
            SaveRun::Lost(e) => SaveRunView::Lost(e@),
            SaveRun::Cancelled => SaveRunView::Cancelled,
            SaveRun::Failed(s) => SaveRunView::Failed(s@),
            SaveRun::Saved(out) => SaveRunView::Saved(out@),
        }
    }
}

/// What to do next about a file that is being saved.
pub enum Save {
    /// Read the first bytes of the file, and go on with them and this output.
    ReadHead(String, String),
    /// Rename the file from the first to the second.
    Rename(String, String),
    /// The file is there, under this name.
    Done(String),
    /// It failed: remove what may be there under this name.
    Remove(String, ProviderError),
}

/// What a [`Save`] says.
pub enum SaveView {
    ReadHead(Seq<char>, Seq<char>),
    Rename(Seq<char>, Seq<char>),
    Done(Seq<char>),
    Remove(Seq<char>, contract::ErrorView),
}

impl View for Save {
    type V = SaveView;

    open spec fn view(&self) -> SaveView {
        match *self {
            Save::ReadHead(dest, out) => SaveView::ReadHead(dest@, out@),
            Save::Rename(from, to) => SaveView::Rename(from@, to@),
            Save::Done(path) => SaveView::Done(path@),
            Save::Remove(path, e) => SaveView::Remove(path@, e@),
        }
    }
}

/// What to do after the run that saves `dest`.
pub open spec fn after_run(dest: Seq<char>, run: SaveRunView) -> SaveView {
    match run {
        SaveRunView::NotRun(e) => SaveView::Remove(dest, not_run(e)),
        SaveRunView::Lost(e) => SaveView::Remove(dest, contract::ErrorView::Network(e)),
        SaveRunView::Cancelled => SaveView::Remove(dest, contract::ErrorView::Cancelled),
        SaveRunView::Failed(s) => SaveView::Remove(
            dest,
            contract::ErrorView::Network("curl download failed ("@ + s + ")"@),
        ),
        SaveRunView::Saved(out) => SaveView::ReadHead(dest, out),
    }
}

/// What to do once the first bytes of `dest` are known. The name of the file has
/// dots of its own, so the extension is appended to it.
pub open spec fn after_head(dest: Seq<char>, out: Seq<char>, head: Seq<u8>) -> SaveView {
    if !zip_magic(head) {
        SaveView::Remove(
            dest,
            contract::ErrorView::Network(
                "downloaded file is not an APK (server returned a non-package response)"@,
            ),
        )
    } else {
        match output_ext(out) {
            Some(ext) => SaveView::Rename(dest, dest + "."@ + ext),
            None => SaveView::Done(dest),
        }
    }
}

/// What to do after the renaming of `from`, which may have failed.
pub open spec fn after_rename(
    from: Seq<char>,
    to: Seq<char>,
    failure: Option<Seq<char>>,
) -> SaveView {
    match failure {
        Some(e) => SaveView::Remove(from, contract::ErrorView::Network(e)),
        None => SaveView::Done(to),
    }
}

/// What to do after the run that saves `dest`.
pub fn download_to_file(dest: &str, run: SaveRun) -> (r: Save)
    ensures
        r@ == after_run(dest@, run@),
{
    match run {
        SaveRun::NotRun(e) => Save::Remove(dest.to_owned(), start_failed(e.as_str())),
        SaveRun::Lost(e) => Save::Remove(dest.to_owned(), ProviderError::Network(e)),
        SaveRun::Cancelled => Save::Remove(dest.to_owned(), ProviderError::Cancelled),
        SaveRun::Failed(s) => {
            let msg = plus3("curl download failed (", s.as_str(), ")");
            Save::Remove(dest.to_owned(), ProviderError::Network(msg))
        },
        SaveRun::Saved(out) => Save::ReadHead(dest.to_owned(), out),
    }
}

/// What to do once the first bytes of the file are known. A reply that is no
/// archive is an error page that came with a good status.
pub fn check_head(dest: &str, out: &str, head: &[u8]) -> (r: Save)
    ensures
        r@ == after_head(dest@, out@, head@),
{
    if !starts_with_zip_magic(head) {
        return Save::Remove(
            dest.to_owned(),
            ProviderError::Network(
                "downloaded file is not an APK (server returned a non-package response)".to_owned(),
            ),
        );
    }
    match served_ext(out) {
        Some(ext) => {
            let to = plus3(dest, ".", ext.as_str());
            Save::Rename(dest.to_owned(), to)
        },
        None => Save::Done(dest.to_owned()),
    }
}

/// What to do after the renaming, which may have failed.
pub fn renamed(from: &str, to: &str, failure: Option<String>) -> (r: Save)
    ensures
        r@ == after_rename(from@, to@, model::opt(failure)),
{
    match failure {
        Some(e) => Save::Remove(from.to_owned(), ProviderError::Network(e)),
        None => Save::Done(to.to_owned()),
    }
}

/// A file is kept only if its run ended well and it begins like an archive; its
/// name is the one it was to have, with at most a proper extension behind it.
pub proof fn lemma_saved(dest: Seq<char>, run: SaveRunView, head: Seq<u8>, failure: Option<Seq<char>>)
    ensures
        !(after_run(dest, run) is Done),
        after_run(dest, run) matches SaveView::ReadHead(d, out) ==> d == dest && run
            == SaveRunView::Saved(out) && match after_head(d, out, head) {
            SaveView::Done(path) => path == dest && zip_magic(head),
            SaveView::Rename(from, to) => {
                &&& from == dest
                &&& zip_magic(head)
                &&& output_ext(out) matches Some(ext) && proper_ext(ext) && to == dest + "."@ + ext
                &&& after_rename(from, to, failure) is Done <==> failure is None
            },
            SaveView::Remove(path, _) => path == dest && !zip_magic(head),
            SaveView::ReadHead(..) => false,
        },
{
    lemma_served_ext(run->Saved_0);
}

/// The earlier of two finds; the first where they are at one place.
pub open spec fn earlier(a: Option<(int, Seq<char>)>, b: Option<(int, Seq<char>)>) -> Option<
    (int, Seq<char>),
> {
    match (a, b) {
        (Some(x), Some(y)) => if y.0 < x.0 {
            b
        } else {
            a
        },
        (Some(_), None) => a,
        (None, _) => b,
    }
}

/// Where an element of a name opens.
pub open spec fn opening(lower: Seq<char>, tag: Seq<char>) -> Option<(int, Seq<char>)> {
    match model::first(lower, "<"@ + tag) {
        Some(i) => Some((i, tag)),
        None => None,
    }
}

/// Where the first noise opens.
pub open spec fn first_noise(lower: Seq<char>) -> Option<(int, Seq<char>)> {
    earlier(
        earlier(
            earlier(opening(lower, "script"@), opening(lower, "style"@)),
            opening(lower, "svg"@),
        ),
        opening(lower, "noscript"@),
    )
}

/// The end tag of an element.
pub open spec fn closing(tag: Seq<char>) -> Seq<char> {
    seq!['<', '/'] + tag + seq!['>']
}

/// The first noise opens inside the text.
proof fn lemma_first_noise(lower: Seq<char>)
    ensures
        first_noise(lower) matches Some((start, _)) ==> 0 <= start <= lower.len(),
{
    crate::strings::lemma_first_from(lower, "<"@ + "script"@, 0);
    crate::strings::lemma_first_from(lower, "<"@ + "style"@, 0);
    crate::strings::lemma_first_from(lower, "<"@ + "svg"@, 0);
    crate::strings::lemma_first_from(lower, "<"@ + "noscript"@, 0);
}

/// A page without its noise: the elements `script`, `style`, `svg` and
/// `noscript`. What is opened and never closed stays, with what follows it.
pub open spec fn quiet(html: Seq<char>) -> Seq<char>
    decreases html.len(),
    via quiet_shrinks
{
    let lower = model::lowered(html);
    match first_noise(lower) {
        None => html,
        Some((start, tag)) => match model::first(lower.skip(start), closing(tag)) {
            None => html,
            Some(n) => html.take(start) + quiet(html.skip(start + n + closing(tag).len())),
        },
    }
}

#[via_fn]
proof fn quiet_shrinks(html: Seq<char>) {
    let lower = model::lowered(html);
    lemma_first_noise(lower);
    match first_noise(lower) {
        None => {},
        Some((start, tag)) => {
            crate::strings::lemma_first_from(lower.skip(start), closing(tag), 0);
        },
    }
}

/// Where an element of a name opens, and the name.
fn find_opening(lower: &str, tag: &'static str) -> (r: Option<(usize, &'static str)>)
    ensures
        (match r {
            Some((i, t)) => Some((i as int, t@)),
            None => None,
        }) == opening(lower@, tag@),
{
    let open = plus("<", tag);
    match find(lower, open.as_str()) {
        Some(i) => Some((i, tag)),
        None => None,
    }
}

/// The earlier of two finds.
fn pick_earlier(a: Option<(usize, &'static str)>, b: Option<(usize, &'static str)>) -> (r: Option<
    (usize, &'static str),
>)
    ensures
        (match r {
            Some((i, t)) => Some((i as int, t@)),
            None => None,
        }) == earlier(
            match a {
                Some((i, t)) => Some((i as int, t@)),
                None => None,
            },
            match b {
                Some((i, t)) => Some((i as int, t@)),
                None => None,
            },
        ),
{
    match (a, b) {
        (Some(x), Some(y)) => if y.0 < x.0 {
            Some(y)
        } else {
            Some(x)
        },
        (Some(x), None) => Some(x),
        (None, y) => y,
    }
}

/// Drops the elements `script`, `style`, `svg` and `noscript`, which no parser
/// reads.
pub fn trim_html(html: &str) -> (r: String)
    ensures
        r@ == quiet(html@),
{
    let mut out = String::new();
    let mut rest = html.to_owned();
    assert(out@ + quiet(rest@) == quiet(html@));
    loop
        invariant
            out@ + quiet(rest@) == quiet(html@),
        decreases rest@.len(),
    {
        let lower = to_ascii_lowercase(rest.as_str());
        let a = pick_earlier(
            find_opening(lower.as_str(), "script"),
            find_opening(lower.as_str(), "style"),
        );
        let b = pick_earlier(a, find_opening(lower.as_str(), "svg"));
        let found = pick_earlier(b, find_opening(lower.as_str(), "noscript"));
        proof {
            lemma_first_noise(lower@);
        }
        let (start, tag) = match found {
            Some(p) => p,
            None => {
                out.append(rest.as_str());
                return out;
            },
        };
        let cs = chars(rest.as_str());
        let ls = chars(lower.as_str());
        let n: usize = cs.len();
        let tail = part(&ls, start, n);
        assert(tail@ == lower@.skip(start as int));
        let close = plus3("</", tag, ">");
        proof {
            reveal_strlit("</");
            reveal_strlit(">");
            assert("</"@ == seq!['<', '/']);
            assert(">"@ == seq!['>']);
            crate::strings::lemma_first_from(tail@, closing(tag@), 0);
        }
        let width: usize = chars(close.as_str()).len();
        match find(tail.as_str(), close.as_str()) {
            Some(i) => {
                let head = part(&cs, 0, start);
                let next: usize = start + i + width;
                let after = part(&cs, next, n);
                assert(head@ == rest@.take(start as int));
                assert(after@ == rest@.skip(next as int));
                let ghost before = out@;
                out.append(head.as_str());
                assert(out@ + quiet(after@) == before + (head@ + quiet(after@)));
                rest = after;
            },
            None => {
                out.append(rest.as_str());
                return out;
            },
        }
    }
}

/// A page without noise stays as it is.
pub proof fn lemma_quiet_stays(html: Seq<char>)
    requires
        !model::holds(model::lowered(html), "<"@ + "script"@),
        !model::holds(model::lowered(html), "<"@ + "style"@),
        !model::holds(model::lowered(html), "<"@ + "svg"@),
        !model::holds(model::lowered(html), "<"@ + "noscript"@),
    ensures
        quiet(html) == html,
{
    let lower = model::lowered(html);
    crate::strings::lemma_first_from(lower, "<"@ + "script"@, 0);
    crate::strings::lemma_first_from(lower, "<"@ + "style"@, 0);
    crate::strings::lemma_first_from(lower, "<"@ + "svg"@, 0);
    crate::strings::lemma_first_from(lower, "<"@ + "noscript"@, 0);
}

/// What is left of a page is never longer than the page.
pub proof fn lemma_quiet_shrinks(html: Seq<char>)
    ensures
        quiet(html).len() <= html.len(),
    decreases html.len(),
{
    let lower = model::lowered(html);
    lemma_first_noise(lower);
    if let Some((start, tag)) = first_noise(lower) {
        crate::strings::lemma_first_from(lower.skip(start), closing(tag), 0);
        if let Some(n) = model::first(lower.skip(start), closing(tag)) {
            lemma_quiet_shrinks(html.skip(start + n + closing(tag).len()));
        }
    }
}

} // verus!
