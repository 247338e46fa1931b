//! What runs of `curl` come to where the file has its name before it is there.

use crate::common::contract as common;
use crate::common::fetch;
use crate::common::fetch::{
    base_cmd, ext_from_type_or_url, starts_with_zip_magic, CurlRun, Verdict, MAX_RETRIES,
};
use crate::model;
use crate::numbers::decimal_text;
use crate::strings::{chars, part, plus, plus4, rsplit_once, same, split_once, trim};
use crate::textual::contract;
use crate::textual::contract::ProviderError;
use vstd::prelude::*;
use vstd::string::StrSliceExecFns;

verus! {

/// Pages by their URL.
pub trait Fetcher {
    /// The text of a page.
    fn get_text(&self, url: &str) -> (r: Result<String, ProviderError>);

    /// The bytes of a page.
    fn get_bytes(&self, url: &str) -> (r: Result<Vec<u8>, ProviderError>)
        default_ensures
            exists|text: Result<String, ProviderError>| #[trigger]
                call_ensures(Self::get_text, (self, url), text) && as_bytes(text, r),
    {
        let text = self.get_text(url);
        assert(call_ensures(Self::get_text, (self, url), text));
        text_bytes(text)
    }
}

/// Whether `r` has the bytes of the text, or its error.
pub open spec fn as_bytes(
    text: Result<String, ProviderError>,
    r: Result<Vec<u8>, ProviderError>,
) -> bool {
    match text {
        Ok(t) => r matches Ok(b) && b@ == vstd::utf8::encode_utf8(t@),
        Err(e) => r == Err::<Vec<u8>, ProviderError>(e),
    }
}

/// The bytes of a page whose text is there.
pub fn text_bytes(text: Result<String, ProviderError>) -> (r: Result<Vec<u8>, ProviderError>)
    ensures
        as_bytes(text, r),
{
    match text {
        Ok(t) => Ok(t.as_str().as_bytes_vec()),
        Err(e) => Err(e),
    }
}

/// An error of a request as a provider raises it. These providers know of no
/// cancelling: a connection that is given up is a failure of the network.
pub open spec fn raised(e: common::ErrorView) -> contract::ErrorView {
    match e {
        common::ErrorView::Blocked => contract::ErrorView::Blocked { retry_after: None },
        common::ErrorView::NotFound(s) => contract::ErrorView::NotFound(s),
        common::ErrorView::ParseError(s) => contract::ErrorView::ParseError(s),
        common::ErrorView::Network(s) => contract::ErrorView::Network(s),
        common::ErrorView::Cancelled => contract::ErrorView::Network("cancelled"@),
    }
}

/// An error of a request as a provider raises it.
pub(crate) fn raise(e: common::ProviderError) -> (r: ProviderError)
    ensures
        r@ == raised(e@),
{
    match e {
        common::ProviderError::Blocked => ProviderError::Blocked { retry_after: None },
        common::ProviderError::NotFound(s) => ProviderError::NotFound(s),
        common::ProviderError::ParseError(s) => ProviderError::ParseError(s),
        common::ProviderError::Network(s) => ProviderError::Network(s),
        common::ProviderError::Cancelled => ProviderError::Network("cancelled".to_owned()),
    }
}

/// What an HTTP status says of the reply: nothing against it, or an error.
pub open spec fn status_error(code: nat, url: Seq<char>) -> Option<contract::ErrorView> {
    match fetch::status_error(code, url) {
        Some(e) => Some(raised(e)),
        None => None,
    }
}

/// What an HTTP status says of the reply: nothing against it, or an error.
pub fn map_http_status(code: u16, url: &str) -> (r: Option<ProviderError>)
    ensures
        (match r {
            Some(e) => Some(e@),
            None => None,
        }) == status_error(code as nat, url@),
{
    match fetch::map_http_status(code, url) {
        Some(e) => Some(raise(e)),
        None => None,
    }
}

/// What to make of a run of a request for `url`, after `attempt` failed ones.
pub open spec fn verdict(url: Seq<char>, attempt: nat, run: fetch::CurlRunView) -> fetch::VerdictView<
    contract::ErrorView,
> {
    match fetch::verdict(url, attempt, run) {
        fetch::VerdictView::Retry(n, wait) => fetch::VerdictView::Retry(n, wait),
        fetch::VerdictView::Done(Ok(body)) => fetch::VerdictView::Done(Ok(body)),
        fetch::VerdictView::Done(Err(e)) => fetch::VerdictView::Done(Err(raised(e))),
    }
}

/// What to make of a run of a request for `url`, after `attempt` failed ones. A
/// block and a page that is missing are never tried again.
pub fn request(url: &str, attempt: u32, run: CurlRun) -> (r: Verdict<ProviderError>)
    ensures
        r@ == verdict(url@, attempt as nat, run@),
{
    match fetch::request(url, attempt, run) {
        Verdict::Retry(n, wait) => Verdict::Retry(n, wait),
        Verdict::Done(Ok(body)) => Verdict::Done(Ok(body)),
        Verdict::Done(Err(e)) => Verdict::Done(Err(raise(e))),
    }
}

/// A block and a page that is missing are never tried again.
pub proof fn lemma_no_retry(url: Seq<char>, attempt: nat, run: fetch::CurlRunView)
    ensures
        verdict(url, attempt, run) is Retry ==> run is Ended && (if run->Ended_0 {
            status_error(fetch::body_and_status(run->Ended_2).1, url) matches Some(
                contract::ErrorView::Network(_),
            )
        } else {
            fetch::transient(run->Ended_1)
        }),
{
}

/// The kind of package that a content type or a URL tells, as an extension.
pub fn package_ext_from(content_type: &str, url: &str) -> (r: Option<String>)
    ensures
        model::opt(r) == fetch::typed_ext(content_type@, url@),
{
    ext_from_type_or_url(content_type, url)
}

/// The arguments that save a URL to a file.
pub open spec fn download_args(
    url: Seq<char>,
    headers: Seq<(Seq<char>, Seq<char>)>,
    dest: Seq<char>,
) -> Seq<Seq<char>> {
    fetch::base_args(url, headers, false) + seq![
        "--fail"@,
        "--retry"@,
        model::decimal(MAX_RETRIES as nat),
        "-o"@,
        dest,
        "-w"@,
        "%{content_type}\t%{url_effective}"@,
    ]
}

/// Appends an argument.
fn arg(args: &mut Vec<String>, a: &str)
    ensures
        model::texts(final(args)@) == model::texts(old(args)@).push(a@),
{
    let ghost before = args@;
    args.push(a.to_owned());
    assert(model::texts(args@) == model::texts(before).push(a@));
}

/// The arguments that save a URL to a file.
pub fn download_cmd(url: &str, headers: &[(String, String)], dest: &str) -> (r: Vec<String>)
    ensures
        model::texts(r@) == download_args(url@, common::header_texts(headers@), dest@),
{
    let mut args = base_cmd(url, headers, false);
    let tries = decimal_text(MAX_RETRIES as u64);
    arg(&mut args, "--fail");
    arg(&mut args, "--retry");
    arg(&mut args, tries.as_str());
    arg(&mut args, "-o");
    arg(&mut args, dest);
    arg(&mut args, "-w");
    arg(&mut args, "%{content_type}\t%{url_effective}");
    assert(model::texts(args@) == download_args(url@, common::header_texts(headers@), dest@));
    args
}

/// The stem and the extension of a file name. A dot at the front makes none.
pub open spec fn stem_and_ext(name: Seq<char>) -> (Seq<char>, Option<Seq<char>>) {
    match model::cut_last(name, "."@) {
        Some((stem, ext)) => if stem.len() > 0 {
            (stem, Some(ext))
        } else {
            (name, None)
        },
        None => (name, None),
    }
}

/// A path without what names nothing at its end: slashes, and a dot behind one.
pub open spec fn bare(path: Seq<char>) -> Seq<char>
    decreases path.len(),
{
    if path.len() > 0 && path.last() == '/' {
        bare(path.drop_last())
    } else if path.len() > 1 && path.last() == '.' && path[path.len() - 2] == '/' {
        bare(path.drop_last())
    } else {
        path
    }
}

/// The last part of a path, and what is in front of it.
pub open spec fn dir_and_name(path: Seq<char>) -> (Seq<char>, Seq<char>) {
    match model::cut_last(bare(path), "/"@) {
        Some((dir, name)) => (dir + "/"@, name),
        None => (""@, bare(path)),
    }
}

/// Whether the last part of a path is the name of a file, not a way through the tree.
pub open spec fn names_file(name: Seq<char>) -> bool {
    name.len() > 0 && name != "."@ && name != ".."@
}

/// The path of a file that turns out to be a package of the kind `ext`: only the
/// extension of its last part changes.
pub open spec fn real_name(path: Seq<char>, ext: Option<Seq<char>>) -> Seq<char> {
    let (dir, name) = dir_and_name(path);
    match ext {
        Some(e) => if !names_file(name) || stem_and_ext(name).1 == Some(e) {
            path
        } else {
            dir + stem_and_ext(name).0 + "."@ + e
        },
        None => path,
    }
}

/// A path without what names nothing at its end.
fn bare_path(path: &str) -> (r: String)
    ensures
        r@ == bare(path@),
{
    let v = chars(path);
    let mut n: usize = v.len();
    assert(path@.take(n as int) == path@);
    while n > 0 && (v[n - 1] == '/' || (n > 1 && v[n - 1] == '.' && v[n - 2] == '/'))
        invariant
            n <= v@.len(),
            v@ == path@,
            bare(path@) == bare(path@.take(n as int)),
        decreases n,
    {
        assert(path@.take(n as int).drop_last() == path@.take(n - 1));
        n -= 1;
    }
    assert(v@.subrange(0, n as int) == path@.take(n as int));
    part(&v, 0, n)
}

/// The last part of a path, and what is in front of it.
fn split_path(path: &str) -> (r: (String, String))
    ensures
        (r.0@, r.1@) == dir_and_name(path@),
{
    let p = bare_path(path);
    match rsplit_once(p.as_str(), "/") {
        Some((dir, name)) => (plus(dir.as_str(), "/"), name),
        None => ("".to_owned(), p),
    }
}

/// The path of a file, after the server told what kind of package it is.
pub fn rename_to_real_ext(path: &str, content_type: &str, final_url: &str) -> (r: String)
    ensures
        r@ == real_name(path@, fetch::typed_ext(content_type@, final_url@)),
{
    let kind = match package_ext_from(content_type, final_url) {
        Some(e) => e,
        None => {
            return path.to_owned();
        },
    };
    let (dir, name) = split_path(path);
    if name.as_str().is_empty() || same(name.as_str(), ".") || same(name.as_str(), "..") {
        return path.to_owned();
    }
    if let Some((stem, ext)) = rsplit_once(name.as_str(), ".") {
        if !stem.as_str().is_empty() {
            if same(ext.as_str(), kind.as_str()) {
                return path.to_owned();
            }
            return plus4(dir.as_str(), stem.as_str(), ".", kind.as_str());
        }
    }
    plus4(dir.as_str(), name.as_str(), ".", kind.as_str())
}

/// How a run of `curl` that saves a file ended.
#[derive(Debug)]
pub enum SaveRun {
    /// It could not be started, for this reason.
    NotRun(String),
    /// It could not be waited for, for this reason.
    Lost(String),
    /// It failed, with this exit status and this complaint.
    Failed(String, String),
    /// It ended well.
    Saved,
}

/// What a [`SaveRun`] says.
pub enum SaveRunView {
    NotRun(Seq<char>),
    Lost(Seq<char>),
    Failed(Seq<char>, Seq<char>),
    Saved,
}

impl View for SaveRun {
    type V = SaveRunView;

    open spec fn view(&self) -> SaveRunView {
        match *self {
            SaveRun::NotRun(e) => SaveRunView::NotRun(e@),
            SaveRun::Lost(e) => SaveRunView::Lost(e@),
            SaveRun::Failed(s, e) => SaveRunView::Failed(s@, e@),
            SaveRun::Saved => SaveRunView::Saved,
        }
    }
}

/// What to do next about a file that is being saved.
pub enum Save {
    /// Read the first bytes of the file, and go on with them.
    ReadHead,
    /// Give the file this name, unless it has it.
    Name(String),
    /// It failed, and there is nothing to remove.
    Fail(ProviderError),
    /// It failed: remove what is there.
    Remove(ProviderError),
}

/// What a [`Save`] says.
pub enum SaveView {
    ReadHead,
    Name(Seq<char>),
    Fail(contract::ErrorView),
    Remove(contract::ErrorView),
}

impl View for Save {
    type V = SaveView;

    open spec fn view(&self) -> SaveView {
        match *self {
            Save::ReadHead => SaveView::ReadHead,
            Save::Name(n) => SaveView::Name(n@),
            Save::Fail(e) => SaveView::Fail(e@),
            Save::Remove(e) => SaveView::Remove(e@),
        }
    }
}

/// What to do after the run.
pub open spec fn after_run(run: SaveRunView) -> SaveView {
    match run {
        SaveRunView::NotRun(e) => SaveView::Fail(raised(fetch::not_run(e))),
        SaveRunView::Lost(e) => SaveView::Fail(contract::ErrorView::Network(e)),
        SaveRunView::Failed(s, e) => SaveView::Remove(
            contract::ErrorView::Network(
                "curl download failed ("@ + s + "): "@ + model::stripped(e),
            ),
        ),
        SaveRunView::Saved => SaveView::ReadHead,
    }
}

/// What to do with the file `name` once its first bytes are known, and what `curl`
/// wrote: the content type, a tab and the final URL.
pub open spec fn after_head(name: Seq<char>, out: Seq<char>, head: Seq<u8>) -> SaveView {
    if !fetch::zip_magic(head) {
        SaveView::Remove(
            contract::ErrorView::Network(
                "downloaded file is not an APK (server returned a non-package response)"@,
            ),
        )
    } else {
        let (ct, url) = match model::cut(out, "\t"@) {
            Some((c, u)) => (c, u),
            None => (out, ""@),
        };
        SaveView::Name(real_name(name, fetch::typed_ext(ct, url)))
    }
}

/// What to do after the run.
pub fn download_to_file(run: SaveRun) -> (r: Save)
    ensures
        r@ == after_run(run@),
{
    match run {
        SaveRun::NotRun(e) => {
            let msg = plus("could not run `curl` (is it installed and on PATH?): ", e.as_str());
            Save::Fail(ProviderError::Network(msg))
        },
        SaveRun::Lost(e) => Save::Fail(ProviderError::Network(e)),
        SaveRun::Failed(s, e) => {
            let why = trim(e.as_str());
            let msg = plus4("curl download failed (", s.as_str(), "): ", why.as_str());
            Save::Remove(ProviderError::Network(msg))
        },
        SaveRun::Saved => Save::ReadHead,
    }
}

/// What to do once the first bytes of the file are known. A reply that is no
/// archive is an error page that came with a good status.
pub fn check_head(name: &str, out: &str, head: &[u8]) -> (r: Save)
    ensures
        r@ == after_head(name@, out@, head@),
{
    if !starts_with_zip_magic(head) {
        return Save::Remove(
            ProviderError::Network(
                "downloaded file is not an APK (server returned a non-package response)".to_owned(),
            ),
        );
    }
    let (ct, url) = match split_once(out, "\t") {
        Some(p) => p,
        None => (out.to_owned(), "".to_owned()),
    };
    Save::Name(rename_to_real_ext(name, ct.as_str(), url.as_str()))
}

} // verus!
