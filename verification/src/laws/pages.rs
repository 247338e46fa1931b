//! Laws of saved pages: what is left out of them, and which of them answers a request.

use crate::common::contract::ProviderId;
use crate::common::fetch;
use crate::laws::texts;
use crate::model;
use crate::providers::fixtures;
use vstd::prelude::*;

verus! {

/// Whether an element of a name opens at a place of a page, whatever the case of its letters.
pub open spec fn opens(html: Seq<char>, tag: Seq<char>, i: int) -> bool {
    model::occurs_at(model::lowered(html), seq!['<'] + tag, i)
}

/// Whether an element that is left out opens at a place of a page.
pub open spec fn noise_at(html: Seq<char>, i: int) -> bool {
    ||| opens(html, "script"@, i)
    ||| opens(html, "style"@, i)
    ||| opens(html, "svg"@, i)
    ||| opens(html, "noscript"@, i)
}

/// Where the first of four words stands in a text: at the least of the places.
proof fn lemma_first_noise(html: Seq<char>, tag: Seq<char>, at: int)
    requires
        tag == "script"@ || tag == "style"@ || tag == "svg"@ || tag == "noscript"@,
        0 <= at,
        opens(html, tag, at),
        forall|i: int| 0 <= i < at ==> !#[trigger] noise_at(html, i),
    ensures
        fetch::first_noise(model::lowered(html)) == Some((at, tag)),
{
    reveal_strlit("<");
    reveal_strlit("script");
    reveal_strlit("style");
    reveal_strlit("svg");
    reveal_strlit("noscript");
    assert("<"@ == seq!['<']);
    let lower = model::lowered(html);
    let a = "<"@ + "script"@;
    let b = "<"@ + "style"@;
    let c = "<"@ + "svg"@;
    let d = "<"@ + "noscript"@;
    crate::strings::lemma_first_from(lower, a, 0);
    crate::strings::lemma_first_from(lower, b, 0);
    crate::strings::lemma_first_from(lower, c, 0);
    crate::strings::lemma_first_from(lower, d, 0);
    assert forall|i: int| 0 <= i < at implies !(#[trigger] model::occurs_at(lower, a, i)) by {
        assert(!noise_at(html, i));
    }
    assert forall|i: int| 0 <= i < at implies !(#[trigger] model::occurs_at(lower, b, i)) by {
        assert(!noise_at(html, i));
    }
    assert forall|i: int| 0 <= i < at implies !(#[trigger] model::occurs_at(lower, c, i)) by {
        assert(!noise_at(html, i));
    }
    assert forall|i: int| 0 <= i < at implies !(#[trigger] model::occurs_at(lower, d, i)) by {
        assert(!noise_at(html, i));
    }
    let p = "<"@ + tag;
    assert(model::occurs_at(lower, p, at));
    let here = lower.subrange(at, (at + p.len()) as int);
    assert(here == p);
    assert(here[2] == lower[at + 2] && here[1] == lower[at + 1]);
    assert(a[2] == 'c' && b[2] == 't' && c[2] == 'v' && d[1] == 'n');
    if model::occurs_at(lower, a, at) {
        assert(lower.subrange(at, (at + a.len()) as int)[2] == 'c');
        assert(lower.subrange(at, (at + a.len()) as int)[1] == 's');
    }
    if model::occurs_at(lower, b, at) {
        assert(lower.subrange(at, (at + b.len()) as int)[2] == 't');
        assert(lower.subrange(at, (at + b.len()) as int)[1] == 's');
    }
    if model::occurs_at(lower, c, at) {
        assert(lower.subrange(at, (at + c.len()) as int)[2] == 'v');
        assert(lower.subrange(at, (at + c.len()) as int)[1] == 's');
    }
    if model::occurs_at(lower, d, at) {
        assert(lower.subrange(at, (at + d.len()) as int)[1] == 'n');
    }
}

/// What is left out of a page: from the place where the first script, style, drawing or
/// replacement for scripts opens to the first end tag of that element; the rest is read in the
/// same way. One that is never closed stays, with all that follows it.
pub proof fn lemma_quiet(html: Seq<char>, tag: Seq<char>, at: int)
    requires
        tag == "script"@ || tag == "style"@ || tag == "svg"@ || tag == "noscript"@,
        0 <= at,
        opens(html, tag, at),
        forall|i: int| 0 <= i < at ==> !#[trigger] noise_at(html, i),
    ensures
        ({
            let end = seq!['<', '/'] + tag + seq!['>'];
            match model::first(model::lowered(html).skip(at), end) {
                Some(n) => fetch::quiet(html) == html.take(at) + fetch::quiet(
                    html.skip(at + n + end.len()),
                ),
                None => fetch::quiet(html) == html,
            }
        }),
{
    lemma_first_noise(html, tag, at);
}

/// A page without such elements stays as it is.
pub proof fn lemma_quiet_page(html: Seq<char>)
    requires
        forall|i: int| 0 <= i ==> !#[trigger] noise_at(html, i),
    ensures
        fetch::quiet(html) == html,
{
    reveal_strlit("<");
    assert("<"@ == seq!['<']);
    let lower = model::lowered(html);
    assert forall|i: int| 0 <= i implies !(#[trigger] model::occurs_at(
        lower,
        "<"@ + "script"@,
        i,
    )) by {
        assert(!noise_at(html, i));
    }
    assert forall|i: int| 0 <= i implies !(#[trigger] model::occurs_at(
        lower,
        "<"@ + "style"@,
        i,
    )) by {
        assert(!noise_at(html, i));
    }
    assert forall|i: int| 0 <= i implies !(#[trigger] model::occurs_at(
        lower,
        "<"@ + "svg"@,
        i,
    )) by {
        assert(!noise_at(html, i));
    }
    assert forall|i: int| 0 <= i implies !(#[trigger] model::occurs_at(
        lower,
        "<"@ + "noscript"@,
        i,
    )) by {
        assert(!noise_at(html, i));
    }
    crate::strings::lemma_first_from(lower, "<"@ + "script"@, 0);
    crate::strings::lemma_first_from(lower, "<"@ + "style"@, 0);
    crate::strings::lemma_first_from(lower, "<"@ + "svg"@, 0);
    crate::strings::lemma_first_from(lower, "<"@ + "noscript"@, 0);
}

/// The saved page of APKCombo that answers a request, by the address: the first of these that
/// fits.
pub proof fn lemma_combo_page(url: Seq<char>)
    ensures
        ({
            let name = fixtures::name_of(ProviderId::Apkcombo, url);
            let search = model::holds(url, "/search?q="@);
            let old = model::finishes(url, "/old-versions"@);
            let page = model::holds(url, "/download/phone-"@);
            let variants = model::finishes(url, "/dl"@);
            let redirect = model::holds(url, "/en/"@);
            let checkin = model::finishes(url, "/checkin"@);
            &&& search ==> name == Some("search"@)
            &&& !search && old ==> name == Some("old-versions"@)
            &&& !search && !old && page ==> name == Some("download-page"@)
            &&& !search && !old && !page && variants ==> name == Some("variants"@)
            &&& !search && !old && !page && !variants && redirect ==> name == Some("redirect"@)
            &&& !search && !old && !page && !variants && !redirect && checkin ==> name == Some(
                "checkin"@,
            )
            &&& !search && !old && !page && !variants && !redirect && !checkin ==> name is None
        }),
{
}

/// The saved page of APKMirror that answers a request: searches for packages, which have a dot,
/// are told from those for names.
pub proof fn lemma_mirror_page(url: Seq<char>, a: Seq<char>, q: Seq<char>)
    ensures
        ({
            let name = fixtures::name_of(ProviderId::Apkmirror, url);
            let search = model::holds(url, "post_type=app_release"@);
            let starting = model::holds(url, "/download/?key="@);
            let page = model::finishes(url, "-android-apk-download/"@);
            let version = model::finishes(url, "-release/"@);
            &&& search && url == a + "&s="@ + q && model::first(url, "&s="@) == Some(
                a.len() as int,
            ) && !model::holds(q, "&s="@) && q.contains('.') ==> name == Some("search-pkg"@)
            &&& search && url == a + "&s="@ + q && model::first(url, "&s="@) == Some(
                a.len() as int,
            ) && !q.contains('.') ==> name == Some("search"@)
            &&& search && !model::holds(url, "&s="@) ==> name == Some("search"@)
            &&& !search && starting ==> name == Some("download-starting"@)
            &&& !search && !starting && page ==> name == Some("download-page"@)
            &&& !search && !starting && !page && version ==> name == Some("version"@)
            &&& !search && !starting && !page && !version ==> name == Some("app"@)
        }),
{
    let s = "&s="@;
    texts::lemma_cut(url, s);
    if url == a + s + q && model::first(url, s) == Some(a.len() as int) {
        assert(url.skip((a.len() + s.len()) as int) == q);
        texts::lemma_cut(q, s);
        if let Some((x, y)) = model::cut(q, s) {
            texts::lemma_occurs(x, s, y);
            if x.contains('.') {
                let i = x.index_of('.');
                assert((x + s + y)[i] == '.');
                assert(q.contains('.'));
            }
        }
    }
    if let Some((x, y)) = model::cut(url, s) {
        texts::lemma_occurs(x, s, y);
    }
}

/// The saved page of APKPure that answers a request.
pub proof fn lemma_pure_page(url: Seq<char>)
    ensures
        ({
            let name = fixtures::name_of(ProviderId::Apkpure, url);
            let search = model::holds(url, "/search?q="@);
            let versions = model::finishes(url, "/versions"@);
            &&& search ==> name == Some("search"@)
            &&& !search && versions ==> name == Some("versions"@)
            &&& !search && !versions ==> name == Some("app"@)
        }),
{
}

/// An address below a host is sound where it is absolute, its host has a dot, no second slash
/// follows the host, and no second address is in it; anything else is told, in that order.
pub proof fn lemma_sound(host: Seq<char>, path: Seq<char>, app: Seq<char>)
    requires
        !host.contains('/'),
    ensures
        ({
            let rest = host + seq!['/'] + path;
            let url = "https://"@ + rest;
            let fault = fixtures::url_fault(url, app);
            let dotted = host.contains('.');
            let slash = path.len() > 0 && path[0] == '/';
            let twice = model::holds(rest, "https://"@);
            &&& !dotted ==> fault == Some(app + ": host looks wrong: "@ + host)
            &&& dotted && slash ==> fault == Some(app + ": double slash after host: "@ + url)
            &&& dotted && !slash && twice ==> fault == Some(app + ": repeated scheme: "@ + url)
            &&& dotted && !slash && !twice ==> fault is None
        }),
{
    reveal_strlit("/");
    assert("/"@ == seq!['/']);
    let p = "https://"@;
    let rest = host + seq!['/'] + path;
    texts::lemma_begins(p + rest, p);
    assert(model::begins(p + rest, p));
    assert((p + rest).skip(p.len() as int) == rest);
    texts::lemma_first_piece(host, '/', path);
    texts::lemma_end_pieces(host, '.');
    texts::lemma_cut_at(host, '/', path);
    if path.len() > 0 && path[0] == '/' {
        assert(path.take(1) == "/"@);
        assert(model::begins(path, "/"@));
    } else if model::begins(path, "/"@) {
        assert(path.take(1)[0] == '/');
    }
}

/// What is no absolute `https` address is told so.
pub proof fn lemma_not_absolute(url: Seq<char>, app: Seq<char>)
    requires
        !model::begins(url, "https://"@),
    ensures
        fixtures::url_fault(url, app) == Some(app + ": not absolute https: "@ + url),
{
}

} // verus!
