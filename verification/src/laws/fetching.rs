//! Laws of fetching: how `curl` is run, what a run comes to, and which files are kept.

use crate::common::contract;
use crate::common::fetch;
use crate::laws::texts;
use crate::model;
use crate::model::Class;
use vstd::prelude::*;

verus! {

/// The limits: 30 seconds for a request and 20 to connect, 1200 milliseconds between requests
/// to one site, three more tries, and 500 milliseconds more before each.
pub proof fn lemma_limits()
    ensures
        fetch::REQUEST_TIMEOUT_SECS == 30,
        fetch::CONNECT_TIMEOUT_SECS == 20,
        fetch::THROTTLE_DELAY == 1200,
        fetch::MAX_RETRIES == 3,
        fetch::RETRY_BASE_BACKOFF == 500,
{
}

/// Whether a page holds one of the texts by which a challenge is known.
pub open spec fn challenges(body: Seq<char>) -> bool {
    ||| model::holds(body, "Just a moment..."@)
    ||| model::holds(body, "cf-browser-verification"@)
    ||| model::holds(body, "cf_chl_opt"@)
    ||| model::holds(body, "Attention Required! | Cloudflare"@)
    ||| model::holds(body, "Checking if the site connection is secure"@)
    ||| model::holds(body, "_cf_chl_"@)
    ||| model::holds(body, "Enable JavaScript and cookies to continue"@)
}

/// A challenge page is one that holds any of those texts, wherever it stands, and no other.
pub proof fn lemma_challenge(body: Seq<char>)
    ensures
        fetch::blocked(body) <==> challenges(body),
{
    let b = fetch::block_signatures();
    assert(b.len() == 7);
    assert(b[0] == "Just a moment..."@);
    assert(b[1] == "cf-browser-verification"@);
    assert(b[2] == "cf_chl_opt"@);
    assert(b[3] == "Attention Required! | Cloudflare"@);
    assert(b[4] == "Checking if the site connection is secure"@);
    assert(b[5] == "_cf_chl_"@);
    assert(b[6] == "Enable JavaScript and cookies to continue"@);
    if challenges(body) {
        assert(fetch::blocked(body));
    }
}

/// What a status says: 404 and 410 that nothing is there, 403 and 429 that the client is
/// refused, everything from 500 on that the server broke down, and nothing else is an error.
pub proof fn lemma_status(code: nat, url: Seq<char>)
    ensures
        fetch::status_error(code, url) is None <==> code < 500 && code != 403 && code != 404
            && code != 410 && code != 429,
        fetch::status_error(code, url) matches Some(e) ==> {
            &&& e is NotFound <==> code == 404 || code == 410
            &&& e is Blocked <==> code == 403 || code == 429
            &&& e is Network <==> code >= 500
            &&& e matches contract::ErrorView::NotFound(m) ==> m == "got "@ + model::decimal(code)
                + " for "@ + url
            &&& e matches contract::ErrorView::Network(m) ==> m == "upstream returned "@
                + model::decimal(code)
        },
{
}

/// What `curl` writes for a reply: the body, a line break and the status, from which both are
/// read back.
pub proof fn lemma_output(body: Seq<char>, status: nat)
    requires
        status < 65536,
    ensures
        fetch::body_and_status(body + "\n"@ + model::decimal(status)) == (body, status),
{
    reveal_strlit("\n");
    assert("\n"@ == seq!['\n']);
    let d = model::decimal(status);
    texts::lemma_decimal(status);
    assert(!d.contains('\n')) by {
        if d.contains('\n') {
            let i = d.index_of('\n');
            assert(model::is_digit(d[i]));
        }
    }
    texts::lemma_cut_last_at(body, '\n', d);
    assert(model::is_digit(d[0]));
    assert(model::is_digit(d[d.len() - 1]));
    texts::lemma_stripped_stays(d);
}

/// A reply, by its status: the page is handed on only where the status is below 500 and none
/// of 403, 404, 410 and 429, and the page is no challenge. A server that broke down is asked
/// again, at most three times, and then it is a failure to reach the site.
pub proof fn lemma_reply(
    url: Seq<char>,
    attempt: nat,
    code: Option<i32>,
    body: Seq<char>,
    status: nat,
    err: Seq<char>,
)
    requires
        status < 65536,
    ensures
        ({
            let out = body + "\n"@ + model::decimal(status);
            let v = fetch::verdict(url, attempt, fetch::CurlRunView::Ended(true, code, out, err));
            &&& status >= 500 && attempt < 3 ==> v == fetch::VerdictView::<
                contract::ErrorView,
            >::Retry((attempt + 1) as u32, (500 * (attempt + 1)) as u64)
            &&& status >= 500 && attempt >= 3 ==> v == fetch::VerdictView::Done(
                Err::<Seq<char>, contract::ErrorView>(
                    contract::ErrorView::Network("upstream returned "@ + model::decimal(status)),
                ),
            )
            &&& status == 404 || status == 410 ==> v == fetch::VerdictView::Done(
                Err::<Seq<char>, contract::ErrorView>(
                    contract::ErrorView::NotFound(
                        "got "@ + model::decimal(status) + " for "@ + url,
                    ),
                ),
            )
            &&& status == 403 || status == 429 ==> v == fetch::VerdictView::Done(
                Err::<Seq<char>, contract::ErrorView>(contract::ErrorView::Blocked),
            )
            &&& status < 500 && status != 403 && status != 404 && status != 410 && status != 429
                ==> v == fetch::VerdictView::Done(
                if challenges(body) {
                    Err::<Seq<char>, contract::ErrorView>(contract::ErrorView::Blocked)
                } else {
                    Ok(body)
                },
            )
        }),
{
    lemma_output(body, status);
    lemma_challenge(body);
}

/// A page is only ever handed on from a run that ended well. It is what stands before the last
/// line of the output, no challenge page, and the number on that line, if it is one, is below
/// 500 and none of 403, 404, 410 and 429.
pub proof fn lemma_handed_on(url: Seq<char>, attempt: nat, run: fetch::CurlRunView, body: Seq<char>)
    requires
        fetch::verdict(url, attempt, run) == fetch::VerdictView::Done(
            Ok::<Seq<char>, contract::ErrorView>(body),
        ),
    ensures
        run is Ended && run->Ended_0,
        !challenges(body),
        model::holds(run->Ended_2, "\n"@) ==> exists|line: Seq<char>|
            run->Ended_2 == #[trigger] (body + "\n"@ + line) && !line.contains('\n')
                && match model::small_number(model::stripped(line)) {
                Some(n) => n < 500 && n != 403 && n != 404 && n != 410 && n != 429,
                None => true,
            },
        !model::holds(run->Ended_2, "\n"@) ==> body == run->Ended_2,
{
    lemma_challenge(body);
    reveal_strlit("\n");
    let out = run->Ended_2;
    texts::lemma_cut_last(out, "\n"@);
    match model::cut_last(out, "\n"@) {
        Some((b, line)) => {
            assert(out == b + "\n"@ + line);
            assert(body == b);
            if line.contains('\n') {
                let i = line.index_of('\n');
                let j = (b.len() + 1 + i) as int;
                assert(out[j] == '\n');
                assert(out.subrange(j, j + 1) == "\n"@);
                assert(model::occurs_at(out, "\n"@, j));
            }
            let n = fetch::body_and_status(out).1;
            lemma_status(n, url);
            assert(out == body + "\n"@ + line);
        },
        None => {},
    }
    if let Some((b, line)) = model::cut_last(out, "\n"@) {
        texts::lemma_occurs(b, "\n"@, line);
    }
}

/// A run that ended badly: failures to resolve, connect, finish in time, talk TLS, get a
/// reply, send and receive are tried again, at most three times; any other is reported at
/// once, and so is that there is no `curl`.
pub proof fn lemma_bad_run(
    url: Seq<char>,
    attempt: nat,
    code: Option<i32>,
    out: Seq<char>,
    err: Seq<char>,
)
    ensures
        ({
            let v = fetch::verdict(url, attempt, fetch::CurlRunView::Ended(false, code, out, err));
            let again = code == Some(6i32) || code == Some(7i32) || code == Some(28i32) || code
                == Some(35i32) || code == Some(52i32) || code == Some(55i32) || code == Some(56i32);
            &&& again && attempt < 3 ==> v == fetch::VerdictView::<contract::ErrorView>::Retry(
                (attempt + 1) as u32,
                (500 * (attempt + 1)) as u64,
            )
            &&& !(again && attempt < 3) ==> v == fetch::VerdictView::Done(
                Err::<Seq<char>, contract::ErrorView>(fetch::exited(code, err)),
            )
        }),
        fetch::verdict(url, attempt, fetch::CurlRunView::NotRun(err)) == fetch::VerdictView::Done(
            Err::<Seq<char>, contract::ErrorView>(fetch::not_run(err)),
        ),
        fetch::exited(code, err) is Network,
        fetch::not_run(err) is Network,
        model::finishes(fetch::not_run(err)->Network_0, err),
        model::finishes(fetch::exited(code, err)->Network_0, model::stripped(err)),
        model::begins(fetch::exited(code, err)->Network_0, "curl exited "@ + fetch::code_text(code)),
        code matches Some(c) ==> fetch::code_text(code) == "Some("@ + model::decimal_signed(c as int)
            + ")"@,
        code is None ==> fetch::code_text(code) == "None"@,
{
    let m = fetch::not_run(err)->Network_0;
    texts::lemma_finishes(m, err);
    assert(m == "could not run `curl` (is it installed and on PATH?): "@ + err);
    let n = fetch::exited(code, err)->Network_0;
    texts::lemma_finishes(n, model::stripped(err));
    let front = "curl exited "@ + fetch::code_text(code);
    assert(n == (front + ": "@) + model::stripped(err));
    texts::lemma_begins(n, front);
    assert(n == front + (": "@ + model::stripped(err)));
}

/// A retry is the next one, no later than the third, after half a second for each so far.
pub proof fn lemma_retries(url: Seq<char>, attempt: nat, run: fetch::CurlRunView)
    ensures
        fetch::verdict(url, attempt, run) matches fetch::VerdictView::Retry(n, wait) ==> n
            == attempt + 1 && n <= 3 && wait == 500 * n,
{
}

/// Where a URL led is the last line that `curl` wrote.
pub proof fn lemma_led_to(front: Seq<char>, line: Seq<char>, code: Option<i32>, err: Seq<char>)
    requires
        !line.contains('\n'),
    ensures
        fetch::led_to(fetch::CurlRunView::Ended(true, code, front + seq!['\n'] + line, err)) == Ok::<
            Seq<char>,
            contract::ErrorView,
        >(model::stripped(line)),
        fetch::led_to(fetch::CurlRunView::Ended(true, code, line, err)) == Ok::<
            Seq<char>,
            contract::ErrorView,
        >(model::stripped(line)),
        fetch::led_to(fetch::CurlRunView::Ended(false, code, line, err)) == Err::<
            Seq<char>,
            contract::ErrorView,
        >(fetch::exited(code, err)),
        fetch::led_to(fetch::CurlRunView::NotRun(err)) == Err::<Seq<char>, contract::ErrorView>(
            fetch::not_run(err),
        ),
{
    let k = Class::One('\n');
    assert forall|i: int| 0 <= i < line.len() implies !k.has(#[trigger] line[i]) by {
        assert(line.contains(line[i]));
    }
    crate::strings::lemma_piece_more(front, '\n', line, k);
    crate::strings::lemma_one_piece(line, k);
}

/// Nobody waits before the first request, nor once the gap has passed; else exactly as long
/// as is left of it.
pub proof fn lemma_gap(min_gap: nat, t: u64, now: nat)
    ensures
        fetch::gap_left(min_gap, None, now) == 0,
        now >= t + min_gap ==> fetch::gap_left(min_gap, Some(t), now) == 0,
        t <= now < t + min_gap ==> now + fetch::gap_left(min_gap, Some(t), now) == t + min_gap,
        now < t ==> fetch::gap_left(min_gap, Some(t), now) == min_gap,
{
}

/// An archive begins with `P`, `K` and then 3 and 4, or 5 and 6 where it is empty.
pub proof fn lemma_magic(head: Seq<u8>)
    ensures
        fetch::zip_magic(head) <==> head.len() >= 4 && head[0] == 0x50 && head[1] == 0x4b && ((
        head[2] == 3 && head[3] == 4) || (head[2] == 5 && head[3] == 6)),
{
    if head.len() >= 4 {
        let h = head.take(4);
        assert(h[0] == head[0] && h[1] == head[1] && h[2] == head[2] && h[3] == head[3]);
        if head[0] == 0x50 && head[1] == 0x4b && head[2] == 3 && head[3] == 4 {
            assert(h == seq![0x50u8, 0x4bu8, 3u8, 4u8]);
        }
        if head[0] == 0x50 && head[1] == 0x4b && head[2] == 5 && head[3] == 6 {
            assert(h == seq![0x50u8, 0x4bu8, 5u8, 6u8]);
        }
        let x = seq![0x50u8, 0x4bu8, 3u8, 4u8];
        let y = seq![0x50u8, 0x4bu8, 5u8, 6u8];
        assert(x[0] == 0x50 && x[1] == 0x4b && x[2] == 3 && x[3] == 4);
        assert(y[0] == 0x50 && y[1] == 0x4b && y[2] == 5 && y[3] == 6);
    }
}

/// Whether an option stands among arguments at a place, with its value behind it.
pub open spec fn given(args: Seq<Seq<char>>, at: int, option: Seq<char>, value: Seq<char>) -> bool {
    &&& 0 <= at && at + 1 < args.len()
    &&& args[at] == option
    &&& args[at + 1] == value
}

/// Every header field is handed to `curl` behind its own `-H`, in order, and nothing else is.
pub proof fn lemma_header_args(headers: Seq<(Seq<char>, Seq<char>)>)
    ensures
        fetch::header_args(headers).len() == 2 * headers.len(),
        forall|i: int|
            0 <= i < headers.len() ==> given(
                fetch::header_args(headers),
                2 * i,
                "-H"@,
                (#[trigger] headers[i]).0 + ": "@ + headers[i].1,
            ),
    decreases headers.len(),
{
    if headers.len() > 0 {
        let front = headers.drop_last();
        lemma_header_args(front);
        assert forall|i: int| 0 <= i < headers.len() implies given(
            fetch::header_args(headers),
            2 * i,
            "-H"@,
            (#[trigger] headers[i]).0 + ": "@ + headers[i].1,
        ) by {
            if i < front.len() {
                assert(front[i] == headers[i]);
                assert(given(
                    fetch::header_args(front),
                    2 * i,
                    "-H"@,
                    front[i].0 + ": "@ + front[i].1,
                ));
            }
        }
    }
}

/// Every field of a form is handed to `curl` behind its own `-F`, in order, after it is told
/// to post.
pub proof fn lemma_form_args(form: Seq<(Seq<char>, Seq<char>)>)
    ensures
        fetch::form_args(form).len() == 2 + 2 * form.len(),
        given(fetch::form_args(form), 0, "-X"@, "POST"@),
        forall|i: int|
            0 <= i < form.len() ==> given(
                fetch::form_args(form),
                2 * i + 2,
                "-F"@,
                (#[trigger] form[i]).0 + "="@ + form[i].1,
            ),
    decreases form.len(),
{
    if form.len() > 0 {
        let front = form.drop_last();
        lemma_form_args(front);
        assert(given(fetch::form_args(front), 0, "-X"@, "POST"@));
        assert forall|i: int| 0 <= i < form.len() implies given(
            fetch::form_args(form),
            2 * i + 2,
            "-F"@,
            (#[trigger] form[i]).0 + "="@ + form[i].1,
        ) by {
            if i < front.len() {
                assert(front[i] == form[i]);
                assert(given(
                    fetch::form_args(front),
                    2 * i + 2,
                    "-F"@,
                    front[i].0 + "="@ + front[i].1,
                ));
            }
        }
    }
}

/// The decimal forms of the limits.
proof fn lemma_limit_texts()
    ensures
        model::decimal(30) == "30"@,
        model::decimal(20) == "20"@,
        model::decimal(3) == "3"@,
{
    reveal_strlit("30");
    reveal_strlit("20");
    reveal_strlit("3");
    reveal_with_fuel(model::decimal, 3);
    assert(model::decimal(30) == "30"@);
    assert(model::decimal(20) == "20"@);
    assert(model::decimal(3) == "3"@);
}

/// How every call of `curl` begins: quiet unless progress is shown, following redirects,
/// 20 seconds to connect, one user agent, the headers, and then the URL.
pub proof fn lemma_base_args(
    url: Seq<char>,
    headers: Seq<(Seq<char>, Seq<char>)>,
    progress: bool,
)
    ensures
        fetch::base_args(url, headers, progress) == seq![
            if progress {
                "-S"@
            } else {
                "-sS"@
            },
            "-L"@,
            "--compressed"@,
            "--connect-timeout"@,
            "20"@,
            "-A"@,
            "Mozilla/5.0 (Windows NT 10.0; Win64; x64) AppleWebKit/537.36 (KHTML, like Gecko) Chrome/124.0.0.0 Safari/537.36"@,
        ] + fetch::header_args(headers) + seq![url],
{
    lemma_limit_texts();
}

/// A request takes at most 30 seconds, carries what is extra to it, and ends with the status
/// on a line of its own.
pub proof fn lemma_request_args(
    url: Seq<char>,
    headers: Seq<(Seq<char>, Seq<char>)>,
    extra: Seq<Seq<char>>,
)
    ensures
        fetch::request_args(url, headers, extra) == fetch::base_args(url, headers, false) + seq![
            "--max-time"@,
            "30"@,
        ] + extra + seq!["-w"@, "\n%{http_code}"@],
{
    lemma_limit_texts();
}

/// Asking where a URL leads fetches no body and sends no headers, and ends with the final URL
/// on a line of its own.
pub proof fn lemma_resolve_args(url: Seq<char>)
    ensures
        fetch::resolve_args(url) == fetch::base_args(
            url,
            Seq::<(Seq<char>, Seq<char>)>::empty(),
            false,
        ) + seq!["-I"@, "--max-time"@, "30"@, "-w"@, "\n%{url_effective}"@],
{
    lemma_limit_texts();
}

/// A download shows its progress, fails on an error status, is tried three times more, goes to
/// the file it is meant for, and ends with the headers, the content type and the final URL.
pub proof fn lemma_download_args(
    url: Seq<char>,
    headers: Seq<(Seq<char>, Seq<char>)>,
    dest: Seq<char>,
)
    ensures
        fetch::download_args(url, headers, dest) == fetch::base_args(url, headers, true) + seq![
            "--fail"@,
            "--retry"@,
            "3"@,
            "-o"@,
            dest,
            "-D"@,
            "-"@,
            "-w"@,
            "\n"@ + "\u{1f}apk-fetch\u{1f}"@ + "%{content_type}\t%{url_effective}"@,
        ],
{
    lemma_limit_texts();
}

/// Whether a URL shows an extension: at its end, or before a query.
pub open spec fn url_shows(url: Seq<char>, ext: Seq<char>) -> bool {
    (exists|a: Seq<char>| model::lowered(url) == #[trigger] (a + ("."@ + ext))) || (exists|
        a: Seq<char>,
        b: Seq<char>,
    |
        model::lowered(url) == #[trigger] (a + ("."@ + ext + "?"@) + b))
}

/// The kind of a package by its content type, else by its URL: a content type that says
/// `xapk` or that of a package, in any case, is believed before the URL; the URL shows what
/// is told of it, and the more special kinds are looked for first.
pub proof fn lemma_typed_ext(ct: Seq<char>, url: Seq<char>)
    ensures
        ({
            let xapk = model::holds(model::lowered(ct), "xapk"@);
            let apk = model::holds(model::lowered(ct), "vnd.android.package-archive"@);
            let r = fetch::typed_ext(ct, url);
            &&& xapk ==> r == Some("xapk"@)
            &&& !xapk && apk ==> r == Some("apk"@)
            &&& !xapk && !apk ==> {
                &&& url_shows(url, "xapk"@) ==> r == Some("xapk"@)
                &&& !url_shows(url, "xapk"@) && url_shows(url, "apkm"@) ==> r == Some("apkm"@)
                &&& !url_shows(url, "xapk"@) && !url_shows(url, "apkm"@) && url_shows(url, "apks"@)
                    ==> r == Some("apks"@)
                &&& !url_shows(url, "xapk"@) && !url_shows(url, "apkm"@) && !url_shows(url, "apks"@)
                    && url_shows(url, "apk"@) ==> r == Some("apk"@)
                &&& r is None <==> !url_shows(url, "xapk"@) && !url_shows(url, "apkm"@) && !url_shows(
                    url,
                    "apks"@,
                ) && !url_shows(url, "apk"@)
            }
        }),
{
    lemma_shows(url, "xapk"@);
    lemma_shows(url, "apkm"@);
    lemma_shows(url, "apks"@);
    lemma_shows(url, "apk"@);
}

/// What a URL shows.
proof fn lemma_shows(url: Seq<char>, ext: Seq<char>)
    ensures
        fetch::shows(model::lowered(url), ext) <==> url_shows(url, ext),
{
    texts::lemma_holds(model::lowered(url), "."@ + ext + "?"@);
    texts::lemma_finishes(model::lowered(url), "."@ + ext);
}

/// A header line gives a file name where it begins with `Content-Disposition:`, in any case.
pub proof fn lemma_disposition(name: Seq<char>, rest: Seq<char>)
    ensures
        model::same_letters(name, "Content-Disposition:"@) ==> fetch::is_disposition(name + rest),
        fetch::is_disposition(rest) ==> rest.len() >= 20 && model::same_letters(
            rest.take(20),
            "Content-Disposition:"@,
        ),
{
    reveal_strlit("content-disposition:");
    reveal_strlit("Content-Disposition:");
    assert(model::lowered("Content-Disposition:"@) == "content-disposition:"@);
    if model::same_letters(name, "Content-Disposition:"@) {
        assert(model::lowered(name).len() == name.len());
        assert((name + rest).take(20) == name);
    }
}

/// The file name in a header line, in quotes: its extension is what follows its last dot, in
/// lower case.
pub proof fn lemma_quoted_name(
    line: Seq<char>,
    pre: Seq<char>,
    stem: Seq<char>,
    ext: Seq<char>,
)
    requires
        line == pre + "filename"@ + (seq!['=', '"'] + stem + seq!['.'] + ext + seq!['"']),
        model::first(line, "filename"@) == Some(pre.len() as int),
        stem.len() > 0 && stem[0] != '"',
        ext.len() > 0 && !ext.contains('.') && ext.last() != '"',
        !stem.contains('\'') && !ext.contains('\''),
    ensures
        fetch::line_ext(line) == Some(model::lowered(ext)),
{
    reveal_strlit("''");
    reveal_strlit(".");
    assert("."@ == seq!['.']);
    let inner = stem + seq!['.'] + ext;
    let value = seq!['"'] + inner + seq!['"'];
    let rest = seq!['='] + value;
    assert(rest == seq!['=', '"'] + stem + seq!['.'] + ext + seq!['"']);
    assert(line.skip((pre.len() + "filename"@.len()) as int) == rest);
    assert(model::cut(line, "filename"@) == Some((line.take(pre.len() as int), rest)));
    texts::lemma_start_exact(seq!['='], value, Class::Either('*', '='));
    assert(!value.contains('\'')) by {
        if value.contains('\'') {
            let i = value.index_of('\'');
            if 1 <= i < 1 + stem.len() {
                assert(stem[i - 1] == '\'');
            } else if 2 + stem.len() <= i < 2 + stem.len() + ext.len() {
                assert(ext[i - 2 - stem.len()] == '\'');
            }
        }
    }
    assert("''"@.contains('\'')) by {
        assert("''"@[0] == '\'');
    }
    texts::lemma_not_held(value, "''"@, '\'');
    texts::lemma_cut_last(value, "''"@);
    texts::lemma_occurs_none(value, "''"@);
    texts::lemma_stripped_stays(value);
    assert(inner.last() == ext.last());
    texts::lemma_trim_exact(seq!['"'], inner, seq!['"'], Class::One('"'));
    texts::lemma_cut_last_at(stem, '.', ext);
}

/// The extended form of a file name, behind the encoding and two apostrophes.
pub proof fn lemma_extended_name(
    line: Seq<char>,
    pre: Seq<char>,
    encoding: Seq<char>,
    stem: Seq<char>,
    ext: Seq<char>,
)
    requires
        line == pre + "filename"@ + (seq!['*', '='] + encoding + seq!['\'', '\''] + (stem + seq![
            '.',
        ] + ext)),
        model::first(line, "filename"@) == Some(pre.len() as int),
        encoding.len() > 0 && encoding[0] != '*' && encoding[0] != '=',
        stem.len() > 0 && stem[0] != '"' && !model::is_space(stem[0]) && stem[0] != '\'',
        ext.len() > 0 && !ext.contains('.') && ext.last() != '"' && !model::is_space(ext.last()),
        !stem.contains('\'') && !ext.contains('\''),
    ensures
        fetch::line_ext(line) == Some(model::lowered(ext)),
{
    reveal_strlit("''");
    reveal_strlit(".");
    assert("."@ == seq!['.']);
    let inner = stem + seq!['.'] + ext;
    let value = encoding + seq!['\'', '\''] + inner;
    let rest = seq!['*', '='] + value;
    assert(rest == seq!['*', '='] + encoding + seq!['\'', '\''] + inner);
    assert(line.skip((pre.len() + "filename"@.len()) as int) == rest);
    texts::lemma_start_exact(seq!['*', '='], value, Class::Either('*', '='));
    assert("''"@ == seq!['\'', '\'']);
    assert(!inner.contains('\'')) by {
        if inner.contains('\'') {
            let i = inner.index_of('\'');
            if i < stem.len() {
                assert(stem[i] == '\'');
            } else if i > stem.len() {
                assert(ext[i - stem.len() - 1] == '\'');
            }
        }
    }
    texts::lemma_cut_last_pair(encoding, '\'', inner);
    assert(inner.last() == ext.last());
    texts::lemma_stripped_stays(inner);
    let e = Seq::<char>::empty();
    texts::lemma_trim_exact(e, inner, e, Class::One('"'));
    assert(e + inner + e == inner);
    texts::lemma_cut_last_at(stem, '.', ext);
}

/// Of several header lines the last that gives a file name with an extension counts, and it
/// is one of a `Content-Disposition`.
pub proof fn lemma_last_line(lines: Seq<Seq<char>>)
    ensures
        match fetch::last_ext(lines) {
            Some(ext) => exists|i: int|
                {
                    &&& 0 <= i < lines.len()
                    &&& fetch::is_disposition(#[trigger] lines[i])
                    &&& fetch::line_ext(lines[i]) == Some(ext)
                    &&& forall|j: int|
                        i < j < lines.len() ==> !(fetch::is_disposition(#[trigger] lines[j])
                            && fetch::line_ext(lines[j]) is Some)
                },
            None => forall|j: int|
                0 <= j < lines.len() ==> !(fetch::is_disposition(#[trigger] lines[j])
                    && fetch::line_ext(lines[j]) is Some),
        },
    decreases lines.len(),
{
    if lines.len() > 0 {
        let front = lines.drop_last();
        let n = lines.len() - 1;
        if fetch::is_disposition(lines.last()) && fetch::line_ext(lines.last()) is Some {
            assert(fetch::is_disposition(lines[n]));
        } else {
            lemma_last_line(front);
            match fetch::last_ext(front) {
                Some(ext) => {
                    let i = choose|i: int|
                        {
                            &&& 0 <= i < front.len()
                            &&& fetch::is_disposition(#[trigger] front[i])
                            &&& fetch::line_ext(front[i]) == Some(ext)
                            &&& forall|j: int|
                                i < j < front.len() ==> !(fetch::is_disposition(#[trigger] front[j])
                                    && fetch::line_ext(front[j]) is Some)
                        };
                    assert(lines[i] == front[i]);
                    assert forall|j: int| i < j < lines.len() implies !(fetch::is_disposition(
                        #[trigger] lines[j],
                    ) && fetch::line_ext(lines[j]) is Some) by {
                        if j < n {
                            assert(lines[j] == front[j]);
                        }
                    }
                },
                None => {
                    assert forall|j: int| 0 <= j < lines.len() implies !(fetch::is_disposition(
                        #[trigger] lines[j],
                    ) && fetch::line_ext(lines[j]) is Some) by {
                        if j < n {
                            assert(lines[j] == front[j]);
                        }
                    }
                },
            }
        }
    }
}

/// An extension that is told is believed where it is at most eight ASCII letters and digits.
pub proof fn lemma_proper(ext: Seq<char>, headers: Seq<char>)
    ensures
        fetch::proper_ext(ext) <==> ext.len() <= 8 && forall|i: int|
            0 <= i < ext.len() ==> {
                let c = #[trigger] ext[i] as int;
                0x30 <= c <= 0x39 || 0x41 <= c <= 0x5a || 0x61 <= c <= 0x7a
            },
        fetch::disposition_ext(headers) == match fetch::last_ext(
            model::pieces(headers, Class::One('\n')),
        ) {
            Some(e) => if fetch::proper_ext(e) {
                Some(e)
            } else {
                None
            },
            None => None,
        },
{
    if fetch::proper_ext(ext) {
        assert forall|i: int| 0 <= i < ext.len() implies {
            let c = #[trigger] ext[i] as int;
            0x30 <= c <= 0x39 || 0x41 <= c <= 0x5a || 0x61 <= c <= 0x7a
        } by {
            assert(model::is_alnum(ext[i]));
        }
    }
}

/// What a server serves: the file name of its headers counts before the content type and the
/// URL, which stand behind the mark with a tab between them.
pub proof fn lemma_served(out: Seq<char>, headers: Seq<char>, ct: Seq<char>, url: Seq<char>)
    requires
        out == headers + "\u{1f}apk-fetch\u{1f}"@ + (ct + seq!['\t'] + url),
        model::last(out, "\u{1f}apk-fetch\u{1f}"@) == Some(headers.len() as int),
        !ct.contains('\t'),
    ensures
        fetch::output_ext(out) == match fetch::disposition_ext(headers) {
            Some(ext) => Some(ext),
            None => fetch::typed_ext(ct, url),
        },
{
    reveal_strlit("\t");
    assert("\t"@ == seq!['\t']);
    let mark = "\u{1f}apk-fetch\u{1f}"@;
    assert(out.take(headers.len() as int) == headers);
    assert(out.skip((headers.len() + mark.len()) as int) == ct + seq!['\t'] + url);
    texts::lemma_cut_at(ct, '\t', url);
}

/// What becomes of a file that is saved: a run that failed leaves nothing, with the reason;
/// a user who stops it is told so; what is no archive is removed; what is one is kept, with
/// the served extension behind its name.
pub proof fn lemma_save(dest: Seq<char>, out: Seq<char>, head: Seq<u8>, why: Seq<char>)
    ensures
        fetch::after_run(dest, fetch::SaveRunView::Cancelled) == fetch::SaveView::Remove(
            dest,
            contract::ErrorView::Cancelled,
        ),
        fetch::after_run(dest, fetch::SaveRunView::Lost(why)) == fetch::SaveView::Remove(
            dest,
            contract::ErrorView::Network(why),
        ),
        fetch::after_run(dest, fetch::SaveRunView::NotRun(why)) == fetch::SaveView::Remove(
            dest,
            fetch::not_run(why),
        ),
        fetch::after_run(dest, fetch::SaveRunView::Failed(why)) == fetch::SaveView::Remove(
            dest,
            contract::ErrorView::Network("curl download failed ("@ + why + ")"@),
        ),
        fetch::after_run(dest, fetch::SaveRunView::Saved(out)) == fetch::SaveView::ReadHead(dest, out),
        fetch::zip_magic(head) && fetch::output_ext(out) is Some ==> fetch::after_head(
            dest,
            out,
            head,
        ) == fetch::SaveView::Rename(dest, dest + seq!['.'] + fetch::output_ext(out)->0),
        fetch::zip_magic(head) && fetch::output_ext(out) is None ==> fetch::after_head(
            dest,
            out,
            head,
        ) == fetch::SaveView::Done(dest),
        !fetch::zip_magic(head) ==> fetch::after_head(dest, out, head) is Remove
            && fetch::after_head(dest, out, head)->Remove_0 == dest && fetch::after_head(
            dest,
            out,
            head,
        )->Remove_1 is Network,
        fetch::after_rename(dest, out, None) == fetch::SaveView::Done(out),
        fetch::after_rename(dest, out, Some(why)) == fetch::SaveView::Remove(
            dest,
            contract::ErrorView::Network(why),
        ),
{
    reveal_strlit(".");
    assert("."@ == seq!['.']);
}

} // verus!
