//! Laws of what runs of `curl` come to where the file has its name before it is there.

use crate::common::contract as common;
use crate::common::fetch as served;
use crate::laws::texts;
use crate::model;
use crate::textual::contract;
use crate::textual::fetch;
use vstd::prelude::*;

verus! {

/// What an error of the other interface becomes: itself, without a time to wait; one of a user
/// who stopped is a failure of the network.
pub proof fn lemma_raised(s: Seq<char>)
    ensures
        fetch::raised(common::ErrorView::Blocked) == (contract::ErrorView::Blocked {
            retry_after: None,
        }),
        fetch::raised(common::ErrorView::NotFound(s)) == contract::ErrorView::NotFound(s),
        fetch::raised(common::ErrorView::ParseError(s)) == contract::ErrorView::ParseError(s),
        fetch::raised(common::ErrorView::Network(s)) == contract::ErrorView::Network(s),
        fetch::raised(common::ErrorView::Cancelled) == contract::ErrorView::Network("cancelled"@),
{
}

/// What a status comes to: a missing page is not found, a site that refuses or limits its rate
/// blocks, any error of the server is one of the network, and nothing else is an error.
pub proof fn lemma_status(code: nat, url: Seq<char>)
    ensures
        fetch::status_error(code, url) is Some <==> code == 404 || code == 410 || code == 403 || code
            == 429 || code >= 500,
        code == 404 || code == 410 ==> fetch::status_error(code, url) == Some(
            contract::ErrorView::NotFound("got "@ + model::decimal(code) + " for "@ + url),
        ),
        code == 403 || code == 429 ==> fetch::status_error(code, url) == Some(
            contract::ErrorView::Blocked { retry_after: None },
        ),
        code >= 500 ==> fetch::status_error(code, url) == Some(
            contract::ErrorView::Network("upstream returned "@ + model::decimal(code)),
        ),
{
}

/// What one run comes to: it is tried again, or ends, just as in the other interface.
pub proof fn lemma_verdict(url: Seq<char>, attempt: nat, run: served::CurlRunView)
    ensures
        match served::verdict(url, attempt, run) {
            served::VerdictView::Retry(n, wait) => fetch::verdict(
                url,
                attempt,
                run,
            ) matches served::VerdictView::Retry(m, w) && m == n && w == wait,
            served::VerdictView::Done(Ok(body)) => fetch::verdict(
                url,
                attempt,
                run,
            ) matches served::VerdictView::Done(Ok(b)) && b == body,
            served::VerdictView::Done(Err(e)) => fetch::verdict(
                url,
                attempt,
                run,
            ) matches served::VerdictView::Done(Err(x)) && x == fetch::raised(e),
        },
{
}

/// A download of a file fails on a bad status, is tried again by `curl` itself, and tells the
/// type and the address of what came.
pub proof fn lemma_download_args(
    url: Seq<char>,
    headers: Seq<(Seq<char>, Seq<char>)>,
    dest: Seq<char>,
)
    ensures
        ({
            let front = served::base_args(url, headers, false);
            let args = fetch::download_args(url, headers, dest);
            &&& args.len() == front.len() + 7
            &&& args.take(front.len() as int) == front
            &&& args[front.len() as int] == "--fail"@
            &&& args[(front.len() + 1) as int] == "--retry"@
            &&& args[(front.len() + 2) as int] == model::decimal(3)
            &&& args[(front.len() + 3) as int] == "-o"@
            &&& args[(front.len() + 4) as int] == dest
            &&& args[(front.len() + 5) as int] == "-w"@
            &&& args[(front.len() + 6) as int] == "%{content_type}\t%{url_effective}"@
        }),
{
}

/// The stem and the extension of a name stand around its last dot; a name without a dot, or
/// whose only dot is in front, has no extension.
pub proof fn lemma_stem(stem: Seq<char>, ext: Seq<char>)
    requires
        !ext.contains('.'),
    ensures
        stem.len() > 0 ==> fetch::stem_and_ext(stem + seq!['.'] + ext) == (stem, Some(ext)),
        fetch::stem_and_ext(seq!['.'] + ext) == (seq!['.'] + ext, None::<Seq<char>>),
        fetch::stem_and_ext(ext) == (ext, None::<Seq<char>>),
{
    reveal_strlit(".");
    assert("."@ == seq!['.']);
    texts::lemma_cut_last_at(stem, '.', ext);
    texts::lemma_cut_last_at(Seq::<char>::empty(), '.', ext);
    assert(Seq::<char>::empty() + seq!['.'] + ext == seq!['.'] + ext);
    texts::lemma_cut_last(ext, "."@);
    assert("."@[0] == '.');
    texts::lemma_not_held(ext, "."@, '.');
    if let Some((a, b)) = model::cut_last(ext, "."@) {
        assert((a + "."@ + b)[a.len() as int] == '.');
        assert(ext.contains('.'));
    }
}

/// Slashes at the end of a path do not count, nor does a last part that is a single dot.
pub proof fn lemma_bare(path: Seq<char>)
    ensures
        fetch::bare(path.push('/')) == fetch::bare(path),
        fetch::bare(path + seq!['/', '.']) == fetch::bare(path),
        path.len() > 0 && path.last() != '/' && !(path.last() == '.' && path.len() > 1
            && path[path.len() - 2] == '/') ==> fetch::bare(path) == path,
        path.len() == 0 ==> fetch::bare(path) == path,
{
    assert(path.push('/').drop_last() == path);
    let dotted = path + seq!['/', '.'];
    assert(dotted.drop_last() == path.push('/'));
    assert(dotted.last() == '.' && dotted[dotted.len() - 2] == '/');
    assert(fetch::bare(dotted) == fetch::bare(path.push('/')));
}

/// The folder and the name of a path: what stands up to its last slash, and what stands behind
/// it.
pub proof fn lemma_dir_and_name(dir: Seq<char>, name: Seq<char>)
    requires
        name.len() > 0,
        name != seq!['.'],
        !name.contains('/'),
    ensures
        fetch::dir_and_name(dir + seq!['/'] + name) == (dir + seq!['/'], name),
        fetch::dir_and_name(name) == (Seq::<char>::empty(), name),
{
    reveal_strlit("/");
    reveal_strlit("");
    assert("/"@ == seq!['/']);
    assert(""@ == Seq::<char>::empty());
    let path = dir + seq!['/'] + name;
    assert(path.last() == name.last());
    assert(name.contains(name.last()));
    if path.last() == '.' && path[path.len() - 2] == '/' {
        if name.len() > 1 {
            assert(name[name.len() - 2] == '/');
            assert(name.contains('/'));
        } else {
            assert(name == seq!['.']);
        }
    }
    lemma_bare(path);
    assert(fetch::bare(path) == path);
    texts::lemma_cut_last_at(dir, '/', name);
    if name.last() == '.' && name.len() > 1 && name[name.len() - 2] == '/' {
        assert(name.contains('/'));
    }
    lemma_bare(name);
    texts::lemma_cut_last(name, "/"@);
    if let Some((a, b)) = model::cut_last(name, "/"@) {
        assert((a + "/"@ + b)[a.len() as int] == '/');
        assert(name.contains('/'));
    }
}

/// A saved file keeps its folder and its stem and gets the extension of what came: in place of
/// the one it had, or behind its name where it had none. Without such an extension, and where
/// it has it, the path stays.
pub proof fn lemma_real_name(dir: Seq<char>, stem: Seq<char>, old: Seq<char>, ext: Seq<char>)
    requires
        stem.len() > 0,
        !stem.contains('/'),
        !old.contains('/'),
        !old.contains('.'),
        stem + seq!['.'] + old != ".."@,
    ensures
        ({
            let path = dir + seq!['/'] + (stem + seq!['.'] + old);
            &&& fetch::real_name(path, None) == path
            &&& old == ext ==> fetch::real_name(path, Some(ext)) == path
            &&& old != ext ==> fetch::real_name(path, Some(ext)) == dir + seq!['/'] + stem + seq!['.']
                + ext
        }),
{
    reveal_strlit(".");
    reveal_strlit("..");
    assert("."@ == seq!['.']);
    let name = stem + seq!['.'] + old;
    if name.contains('/') {
        let i = name.index_of('/');
        if i < stem.len() {
            assert(stem[i] == '/');
            assert(stem.contains('/'));
        } else if i > stem.len() {
            assert(old[i - stem.len() - 1] == '/');
            assert(old.contains('/'));
        }
    }
    assert(name.len() > 1);
    lemma_dir_and_name(dir, name);
    lemma_stem(stem, old);
}

/// A name without an extension gets the one of what came behind it.
pub proof fn lemma_named_so(dir: Seq<char>, name: Seq<char>, ext: Seq<char>)
    requires
        name.len() > 0,
        !name.contains('/'),
        !name.contains('.'),
    ensures
        fetch::real_name(dir + seq!['/'] + name, Some(ext)) == dir + seq!['/'] + name + seq!['.']
            + ext,
        fetch::real_name(name, Some(ext)) == name + seq!['.'] + ext,
        fetch::real_name(name, None) == name,
{
    reveal_strlit(".");
    reveal_strlit("..");
    assert("."@ == seq!['.']);
    if name == seq!['.'] || name == ".."@ {
        assert(name[0] == '.');
        assert(name.contains('.'));
    }
    lemma_dir_and_name(dir, name);
    lemma_stem(name, name);
    assert(Seq::<char>::empty() + name == name);
}

/// A path that names no file stays.
pub proof fn lemma_no_file(dir: Seq<char>, ext: Option<Seq<char>>)
    ensures
        fetch::real_name(dir + seq!['/'] + ".."@, ext) == dir + seq!['/'] + ".."@,
        fetch::real_name(Seq::<char>::empty(), ext) == Seq::<char>::empty(),
        fetch::names_file(dir) <==> dir.len() > 0 && dir != seq!['.'] && dir != seq!['.', '.'],
{
    reveal_strlit(".");
    reveal_strlit("..");
    reveal_strlit("/");
    assert("."@ == seq!['.']);
    assert(".."@ == seq!['.', '.']);
    assert(!".."@.contains('/'));
    lemma_dir_and_name(dir, ".."@);
    let none = Seq::<char>::empty();
    lemma_bare(none);
    texts::lemma_cut_last(none, "/"@);
    if let Some((a, b)) = model::cut_last(none, "/"@) {
        assert((a + "/"@ + b).len() > 0);
    }
}

/// What follows a run of `curl`: one that saved the file is looked at, one that did not takes
/// the file away, and one that could not run or be waited for just fails.
pub proof fn lemma_after_run(s: Seq<char>, e: Seq<char>)
    ensures
        fetch::after_run(fetch::SaveRunView::Saved) is ReadHead,
        fetch::after_run(fetch::SaveRunView::Failed(s, e)) == fetch::SaveView::Remove(
            contract::ErrorView::Network(
                "curl download failed ("@ + s + "): "@ + model::stripped(e),
            ),
        ),
        fetch::after_run(fetch::SaveRunView::Lost(e)) == fetch::SaveView::Fail(
            contract::ErrorView::Network(e),
        ),
        fetch::after_run(fetch::SaveRunView::NotRun(e)) == fetch::SaveView::Fail(
            fetch::raised(served::not_run(e)),
        ),
{
}

/// What follows a look at the file: one that does not start as a package does is taken away;
/// another gets the extension of the type and the address that `curl` told of.
pub proof fn lemma_after_head(
    name: Seq<char>,
    kind: Seq<char>,
    url: Seq<char>,
    out: Seq<char>,
    head: Seq<u8>,
)
    requires
        !kind.contains('\t'),
        !out.contains('\t'),
    ensures
        !served::zip_magic(head) ==> (fetch::after_head(
            name,
            out,
            head,
        ) matches fetch::SaveView::Remove(contract::ErrorView::Network(t)) && t
            == "downloaded file is not an APK (server returned a non-package response)"@),
        served::zip_magic(head) ==> {
            &&& fetch::after_head(name, kind + seq!['\t'] + url, head) == fetch::SaveView::Name(
                fetch::real_name(name, served::typed_ext(kind, url)),
            )
            &&& fetch::after_head(name, out, head) == fetch::SaveView::Name(
                fetch::real_name(name, served::typed_ext(out, Seq::<char>::empty())),
            )
        },
{
    reveal_strlit("\t");
    reveal_strlit("");
    assert("\t"@ == seq!['\t']);
    assert(""@ == Seq::<char>::empty());
    texts::lemma_cut_at(kind, '\t', url);
    texts::lemma_cut(out, "\t"@);
    if let Some((a, b)) = model::cut(out, "\t"@) {
        assert((a + "\t"@ + b)[a.len() as int] == '\t');
        assert(out.contains('\t'));
    }
}

} // verus!
