//! Failures as process exit codes.

use crate::common::contract;
use crate::common::contract::{ProviderError, ProviderFailure, ResolveError};
use crate::model;
use vstd::prelude::*;

verus! {

/// Anything that has no code of its own.
pub const EXIT_GENERIC: u8 = 1;

/// Nothing was found.
pub const EXIT_NOT_FOUND: u8 = 3;

/// A site does not serve this client.
pub const EXIT_BLOCKED: u8 = 4;

/// A site could not be reached.
pub const EXIT_NETWORK: u8 = 5;

/// The user stopped it: 128 and the number of the signal, as is usual.
pub const EXIT_CANCELLED: u8 = 130;

/// A failure with the exit code to end with.
#[derive(Debug)]
pub struct AppError {
    pub code: u8,
    pub source: String,
}

/// What an [`AppError`] says.
pub struct AppErrorView {
    pub code: u8,
    pub source: Seq<char>,
}

impl View for AppError {
    type V = AppErrorView;

    open spec fn view(&self) -> AppErrorView {
        AppErrorView { code: self.code, source: self.source@ }
    }
}

/// The exit code for one provider's failure.
pub open spec fn error_code(e: contract::ErrorView) -> u8 {
    match e {
        contract::ErrorView::NotFound(_) => EXIT_NOT_FOUND,
        contract::ErrorView::Blocked => EXIT_BLOCKED,
        contract::ErrorView::Network(_) => EXIT_NETWORK,
        contract::ErrorView::Cancelled => EXIT_CANCELLED,
        contract::ErrorView::ParseError(_) => EXIT_GENERIC,
    }
}

/// The exit code for one provider's failure.
pub fn provider_error_code(e: &ProviderError) -> (r: u8)
    ensures
        r == error_code(e@),
{
    match e {
        ProviderError::NotFound(_) => EXIT_NOT_FOUND,
        ProviderError::Blocked => EXIT_BLOCKED,
        ProviderError::Network(_) => EXIT_NETWORK,
        ProviderError::Cancelled => EXIT_CANCELLED,
        ProviderError::ParseError(_) => EXIT_GENERIC,
    }
}

/// Whether every failure has the code `c`.
pub open spec fn all_code(fs: Seq<contract::FailureView>, c: u8) -> bool {
    forall|i: int| 0 <= i < fs.len() ==> error_code((#[trigger] fs[i]).source) == c
}

/// Whether a failure has the code `c`.
pub open spec fn some_code(fs: Seq<contract::FailureView>, c: u8) -> bool {
    exists|i: int| 0 <= i < fs.len() && error_code((#[trigger] fs[i]).source) == c
}

/// The exit code for the failure of every provider. If all failed in one way,
/// that is the reason; otherwise a network failure is the one that the user can
/// do something about.
pub open spec fn resolve_code(fs: Seq<contract::FailureView>) -> u8 {
    if fs.len() > 0 && all_code(fs, error_code(fs[0].source)) {
        error_code(fs[0].source)
    } else if some_code(fs, EXIT_NETWORK) {
        EXIT_NETWORK
    } else {
        EXIT_GENERIC
    }
}

impl AppError {
    /// A value that could not be written as JSON.
    pub fn from_json(message: &str) -> (r: AppError)
        ensures
            r@ == (AppErrorView { code: EXIT_GENERIC, source: message@ }),
    {
        AppError { code: EXIT_GENERIC, source: message.to_owned() }
    }

    /// One provider's failure.
    pub fn from_failure(f: &ProviderFailure) -> (r: AppError)
        ensures
            r@ == failed(f@),
    {
        AppError { code: provider_error_code(&f.source), source: f.to_string() }
    }

    /// The failure of every provider.
    pub fn from_resolve(e: &ResolveError) -> (r: AppError)
        ensures
            r@ == unresolved(e.pkg@, model::views(e.attempts@)),
    {
        AppError { code: code_for(&e.attempts), source: e.to_string() }
    }
}

/// One provider's failure.
pub open spec fn failed(f: contract::FailureView) -> AppErrorView {
    AppErrorView { code: error_code(f.source), source: contract::failure_text(f) }
}

/// The failure of every provider.
pub open spec fn unresolved(pkg: Seq<char>, fs: Seq<contract::FailureView>) -> AppErrorView {
    AppErrorView { code: resolve_code(fs), source: contract::resolve_text(pkg, fs) }
}

/// The exit code for the failure of every provider.
fn code_for(attempts: &[ProviderFailure]) -> (r: u8)
    ensures
        r == resolve_code(model::views(attempts@)),
{
    let ghost fs = model::views(attempts@);
    if attempts.len() == 0 {
        return EXIT_GENERIC;
    }
    let first: u8 = provider_error_code(&attempts[0].source);
    let mut same = true;
    let mut network = false;
    let mut i: usize = 0;
    while i < attempts.len()
        invariant
            i <= attempts@.len(),
            fs == model::views(attempts@),
            same == (forall|j: int|
                0 <= j < i ==> error_code((#[trigger] fs[j]).source) == first),
            network == (exists|j: int|
                0 <= j < i && error_code((#[trigger] fs[j]).source) == EXIT_NETWORK),
        decreases attempts@.len() - i,
    {
        let c: u8 = provider_error_code(&attempts[i].source);
        assert(error_code(fs[i as int].source) == c);
        if c != first {
            same = false;
        }
        if c == EXIT_NETWORK {
            network = true;
        }
        i += 1;
    }
    assert(fs[0].source == attempts@[0].source@);
    assert(same == all_code(fs, first));
    assert(network == some_code(fs, EXIT_NETWORK));
    if same {
        first
    } else if network {
        EXIT_NETWORK
    } else {
        EXIT_GENERIC
    }
}

/// A failure never ends the process as if all were well.
pub proof fn lemma_failure_is_not_success(fs: Seq<contract::FailureView>)
    ensures
        resolve_code(fs) != 0,
        forall|i: int| 0 <= i < fs.len() ==> error_code((#[trigger] fs[i]).source) != 0,
{
}

/// With one attempt the message and the exit code are that attempt's.
pub proof fn lemma_single_attempt(pkg: Seq<char>, f: contract::FailureView)
    ensures
        unresolved(pkg, seq![f]) == failed(f),
{
    assert(all_code(seq![f], error_code(f.source)));
}

} // verus!
