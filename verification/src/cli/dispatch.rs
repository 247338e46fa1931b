//! From a command line to the providers that it may use and the job to do.

use crate::cli::args::{Cli, Command, ProvidersCmd};
use crate::common::contract;
use crate::common::contract::{Arch, ProviderId};
use vstd::prelude::*;

verus! {

/// The providers that a list of choices stands for.
pub open spec fn chosen(all: bool, provider: Seq<ProviderId>) -> Seq<ProviderId> {
    if all {
        contract::priority()
    } else if provider.len() == 0 {
        seq![contract::priority()[0]]
    } else {
        provider
    }
}

/// The providers that a command may use, in order.
pub open spec fn selected(cmd: Command) -> Seq<ProviderId> {
    match cmd {
        Command::Search { all, provider, .. } => chosen(all, provider@),
        Command::Versions { all, provider, .. } => chosen(all, provider@),
        Command::Get { provider, priority, .. } => match provider {
            Some(p) => seq![p],
            None => if priority@.len() > 0 {
                priority@
            } else {
                contract::priority()
            },
        },
        Command::Providers { cmd: ProvidersCmd::Check { name: Some(n) } } => seq![n],
        Command::Providers { .. } => contract::priority(),
    }
}

/// A copy of a list of providers.
fn copy(v: &Vec<ProviderId>) -> (r: Vec<ProviderId>)
    ensures
        r@ == v@,
{
    let mut out: Vec<ProviderId> = Vec::new();
    let mut i: usize = 0;
    while i < v.len()
        invariant
            i <= v@.len(),
            out@ == v@.take(i as int),
        decreases v@.len() - i,
    {
        out.push(v[i]);
        i += 1;
    }
    assert(v@.take(v@.len() as int) == v@);
    out
}

/// A list of one provider.
fn only(p: ProviderId) -> (r: Vec<ProviderId>)
    ensures
        r@ == seq![p],
{
    let mut out: Vec<ProviderId> = Vec::new();
    out.push(p);
    assert(out@ == seq![p]);
    out
}

/// The providers that a list of choices stands for.
fn choose_from(all: bool, provider: &Vec<ProviderId>) -> (r: Vec<ProviderId>)
    ensures
        r@ == chosen(all, provider@),
{
    let usual = ProviderId::default_priority();
    if all {
        usual
    } else if provider.len() == 0 {
        only(usual[0])
    } else {
        copy(provider)
    }
}

/// The providers that a command may use, in order.
pub fn selection(cmd: &Command) -> (r: Vec<ProviderId>)
    ensures
        r@ == selected(*cmd),
{
    match cmd {
        Command::Search { all, provider, .. } => choose_from(*all, provider),
        Command::Versions { all, provider, .. } => choose_from(*all, provider),
        Command::Get { provider, priority, .. } => match provider {
            Some(p) => only(*p),
            None => if priority.len() > 0 {
                copy(priority)
            } else {
                ProviderId::default_priority()
            },
        },
        Command::Providers { cmd } => match cmd {
            ProvidersCmd::Check { name: Some(n) } => only(*n),
            _ => ProviderId::default_priority(),
        },
    }
}

/// What to do with the selected providers.
#[derive(Debug)]
pub enum Job {
    /// Search for this.
    Search(String),
    /// List the versions of this package.
    Versions(String),
    /// Download this package: in which version, for which ABIs, and where to.
    Get(String, Option<String>, Arch, String),
    /// List the providers.
    List,
    /// Check the providers.
    Check,
}

/// The job that a command is.
pub open spec fn job(cmd: Command) -> Job {
    match cmd {
        Command::Search { query, .. } => Job::Search(query),
        Command::Versions { package_id, .. } => Job::Versions(package_id),
        Command::Get { package_id, version, arch, output, .. } => Job::Get(
            package_id,
            version,
            arch,
            output,
        ),
        Command::Providers { cmd: ProvidersCmd::List } => Job::List,
        Command::Providers { cmd: ProvidersCmd::Check { .. } } => Job::Check,
    }
}

/// What a command line comes to.
#[derive(Debug)]
pub struct Call {
    /// The providers to use, in order.
    pub order: Vec<ProviderId>,
    /// Machine-readable output.
    pub json: bool,
    pub job: Job,
}

/// Turns a command line into the providers to use and the job to do with them.
pub fn dispatch(cli: Cli) -> (r: Call)
    ensures
        r.order@ == selected(cli.command),
        r.json == cli.json,
        r.job == job(cli.command),
{
    let order = selection(&cli.command);
    let job = match cli.command {
        Command::Search { query, .. } => Job::Search(query),
        Command::Versions { package_id, .. } => Job::Versions(package_id),
        Command::Get { package_id, version, arch, output, .. } => Job::Get(
            package_id,
            version,
            arch,
            output,
        ),
        Command::Providers { cmd } => match cmd {
            ProvidersCmd::List => Job::List,
            ProvidersCmd::Check { .. } => Job::Check,
        },
    };
    Call { order, json: cli.json, job }
}

/// Every command has a provider to use.
pub proof fn lemma_selection_not_empty(cmd: Command)
    ensures
        selected(cmd).len() > 0,
{
}

} // verus!
