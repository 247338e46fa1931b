//! Laws of command lines and exit codes.

use crate::cli::args::{Command, ProvidersCmd};
use crate::cli::dispatch;
use crate::cli::dispatch::Job;
use crate::cli::exit;
use crate::common::contract;
use crate::common::contract::{Arch, ProviderId};
use vstd::prelude::*;

verus! {

/// The usual order: APKCombo, then APKPure, then APKMirror, and nobody else.
pub proof fn lemma_usual_order()
    ensures
        contract::priority().len() == 3,
        contract::priority()[0] == ProviderId::Apkcombo,
        contract::priority()[1] == ProviderId::Apkpure,
        contract::priority()[2] == ProviderId::Apkmirror,
{
}

/// A search asks everyone in the usual order where all are wanted, else exactly those that
/// are named, in that order, else the first of the usual order.
pub proof fn lemma_search_selects(query: String, provider: Vec<ProviderId>, all: bool)
    ensures
        ({
            let order = dispatch::selected(Command::Search { query, provider, all });
            &&& all ==> order == seq![
                ProviderId::Apkcombo,
                ProviderId::Apkpure,
                ProviderId::Apkmirror,
            ]
            &&& !all && provider@.len() > 0 ==> order == provider@
            &&& !all && provider@.len() == 0 ==> order == seq![ProviderId::Apkcombo]
        }),
{
}

/// A listing of versions selects as a search does: everyone, those that are named, or the
/// first.
pub proof fn lemma_versions_selects(package_id: String, provider: Vec<ProviderId>, all: bool)
    ensures
        ({
            let order = dispatch::selected(Command::Versions { package_id, provider, all });
            &&& all ==> order == seq![
                ProviderId::Apkcombo,
                ProviderId::Apkpure,
                ProviderId::Apkmirror,
            ]
            &&& !all && provider@.len() > 0 ==> order == provider@
            &&& !all && provider@.len() == 0 ==> order == seq![ProviderId::Apkcombo]
        }),
{
}

/// A search and a listing with the same choices ask the same providers.
pub proof fn lemma_same_choices(
    query: String,
    package_id: String,
    provider: Vec<ProviderId>,
    all: bool,
)
    ensures
        dispatch::selected(Command::Search { query, provider, all }) == dispatch::selected(
            Command::Versions { package_id, provider, all },
        ),
{
}

/// A download asks the named provider alone, else the list of priorities as it is, else
/// everyone in the usual order.
pub proof fn lemma_get_selects(
    package_id: String,
    version: Option<String>,
    provider: Option<ProviderId>,
    priority: Vec<ProviderId>,
    arch: Arch,
    output: String,
)
    ensures
        ({
            let order = dispatch::selected(
                Command::Get { package_id, version, provider, priority, arch, output },
            );
            &&& provider matches Some(p) ==> order == seq![p]
            &&& provider is None && priority@.len() > 0 ==> order == priority@
            &&& provider is None && priority@.len() == 0 ==> order == seq![
                ProviderId::Apkcombo,
                ProviderId::Apkpure,
                ProviderId::Apkmirror,
            ]
        }),
{
}

/// A check asks the named provider alone, else everyone; a list shows everyone.
pub proof fn lemma_providers_selects(name: Option<ProviderId>)
    ensures
        ({
            let order = dispatch::selected(
                Command::Providers { cmd: ProvidersCmd::Check { name } },
            );
            &&& name matches Some(n) ==> order == seq![n]
            &&& name is None ==> order == seq![
                ProviderId::Apkcombo,
                ProviderId::Apkpure,
                ProviderId::Apkmirror,
            ]
        }),
        dispatch::selected(Command::Providers { cmd: ProvidersCmd::List }) == seq![
            ProviderId::Apkcombo,
            ProviderId::Apkpure,
            ProviderId::Apkmirror,
        ],
{
}

/// A command does what it is called, on what it was given.
pub proof fn lemma_jobs(
    text: String,
    version: Option<String>,
    provider: Vec<ProviderId>,
    only: Option<ProviderId>,
    arch: Arch,
    output: String,
    all: bool,
)
    ensures
        dispatch::job(Command::Search { query: text, provider, all }) == Job::Search(text),
        dispatch::job(Command::Versions { package_id: text, provider, all }) == Job::Versions(text),
        dispatch::job(
            Command::Get {
                package_id: text,
                version,
                provider: only,
                priority: provider,
                arch,
                output,
            },
        ) == Job::Get(text, version, arch, output),
        dispatch::job(Command::Providers { cmd: ProvidersCmd::List }) is List,
        dispatch::job(Command::Providers { cmd: ProvidersCmd::Check { name: only } }) is Check,
{
}

/// The exit codes: 3 where nothing was found, 4 where a site refused, 5 where it could not be
/// reached, 130 where the user stopped it, else 1. Different reasons have different codes.
pub proof fn lemma_error_codes(e: contract::ErrorView)
    ensures
        exit::error_code(e) == 3 <==> e is NotFound,
        exit::error_code(e) == 4 <==> e is Blocked,
        exit::error_code(e) == 5 <==> e is Network,
        exit::error_code(e) == 130 <==> e is Cancelled,
        exit::error_code(e) == 1 <==> e is ParseError,
{
}

/// Where every provider failed for one reason, that reason's code; else 5 where one could not
/// be reached; else 1.
pub proof fn lemma_resolve_codes(fs: Seq<contract::FailureView>)
    ensures
        fs.len() > 0 && (forall|i: int| 0 <= i < fs.len() ==> (#[trigger] fs[i]).source is NotFound)
            ==> exit::resolve_code(fs) == 3,
        fs.len() > 0 && (forall|i: int| 0 <= i < fs.len() ==> (#[trigger] fs[i]).source is Blocked)
            ==> exit::resolve_code(fs) == 4,
        fs.len() > 0 && (forall|i: int| 0 <= i < fs.len() ==> (#[trigger] fs[i]).source is Cancelled)
            ==> exit::resolve_code(fs) == 130,
        (exists|i: int| 0 <= i < fs.len() && (#[trigger] fs[i]).source is Network)
            ==> exit::resolve_code(fs) == 5,
        fs.len() == 0 ==> exit::resolve_code(fs) == 1,
        (exists|i: int, j: int|
            0 <= i < fs.len() && 0 <= j < fs.len() && exit::error_code((#[trigger] fs[i]).source)
                != exit::error_code((#[trigger] fs[j]).source)) && (forall|i: int|
            0 <= i < fs.len() ==> !((#[trigger] fs[i]).source is Network)) ==> exit::resolve_code(fs)
            == 1,
{
    if exists|i: int| 0 <= i < fs.len() && (#[trigger] fs[i]).source is Network {
        let i = choose|i: int| 0 <= i < fs.len() && (#[trigger] fs[i]).source is Network;
        assert(exit::error_code(fs[i].source) == 5);
        assert(exit::some_code(fs, 5));
        if exit::all_code(fs, exit::error_code(fs[0].source)) {
            assert(exit::error_code(fs[i].source) == exit::error_code(fs[0].source));
        }
    } else {
        assert(!exit::some_code(fs, 5)) by {
            if exit::some_code(fs, 5) {
                let i = choose|i: int|
                    0 <= i < fs.len() && exit::error_code((#[trigger] fs[i]).source) == 5;
                assert(fs[i].source is Network);
            }
        }
    }
    if fs.len() > 0 {
        assert(fs[0] == fs[0]);
    }
    if exists|i: int, j: int|
        0 <= i < fs.len() && 0 <= j < fs.len() && exit::error_code((#[trigger] fs[i]).source)
            != exit::error_code((#[trigger] fs[j]).source) {
        let (i, j) = choose|i: int, j: int|
            0 <= i < fs.len() && 0 <= j < fs.len() && exit::error_code((#[trigger] fs[i]).source)
                != exit::error_code((#[trigger] fs[j]).source);
        if exit::all_code(fs, exit::error_code(fs[0].source)) {
            assert(exit::error_code(fs[i].source) == exit::error_code(fs[j].source));
        }
    }
}

/// A failure ends the process with its own code and a message that names its provider; the
/// failure of several names the package and every one of them.
pub proof fn lemma_messages(pkg: Seq<char>, fs: Seq<contract::FailureView>, i: int)
    requires
        0 <= i < fs.len(),
    ensures
        exit::failed(fs[i]).code == exit::error_code(fs[i].source),
        exit::failed(fs[i]).source == contract::failure_text(fs[i]),
        exit::unresolved(pkg, fs).code == exit::resolve_code(fs),
        exit::unresolved(pkg, fs).source == contract::resolve_text(pkg, fs),
        crate::model::holds(exit::unresolved(pkg, fs).source, contract::failure_text(fs[i])),
        fs.len() > 1 ==> crate::model::begins(
            exit::unresolved(pkg, fs).source,
            "all providers failed for '"@ + pkg + "':"@,
        ),
{
    let r = contract::resolve_text(pkg, fs);
    if fs.len() == 1 {
        let t = contract::failure_text(fs[0]);
        let e = Seq::<char>::empty();
        crate::laws::texts::lemma_occurs(e, t, e);
        assert(e + t + e == t);
    } else {
        lemma_lines(fs, i);
        let head = "all providers failed for '"@ + pkg + "':"@;
        let (a, b) = choose|a: Seq<char>, b: Seq<char>|
            contract::failure_lines(fs) == #[trigger] (a + contract::failure_text(fs[i]) + b);
        assert(r == (head + a) + contract::failure_text(fs[i]) + b);
        crate::laws::texts::lemma_occurs(head + a, contract::failure_text(fs[i]), b);
        assert(r == head + contract::failure_lines(fs));
        crate::laws::texts::lemma_begins(r, head);
    }
}

/// Every failure stands among the lines, behind a dash.
pub proof fn lemma_lines(fs: Seq<contract::FailureView>, i: int)
    requires
        0 <= i < fs.len(),
    ensures
        exists|a: Seq<char>, b: Seq<char>|
            contract::failure_lines(fs) == #[trigger] (a + contract::failure_text(fs[i]) + b),
        contract::failure_lines(fs) == contract::failure_lines(fs.drop_last()) + "\n  - "@
            + contract::failure_text(fs.last()),
    decreases fs.len(),
{
    let t = contract::failure_text(fs[i]);
    let front = contract::failure_lines(fs.drop_last());
    if i == fs.len() - 1 {
        assert(contract::failure_lines(fs) == (front + "\n  - "@) + t + Seq::<char>::empty());
    } else {
        lemma_lines(fs.drop_last(), i);
        let (a, b) = choose|a: Seq<char>, b: Seq<char>| front == #[trigger] (a + t + b);
        let more = "\n  - "@ + contract::failure_text(fs.last());
        assert(contract::failure_lines(fs) == a + t + (b + more));
    }
}

} // verus!
