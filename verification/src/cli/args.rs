//! What the command line accepts.

use crate::common::contract::{Arch, ProviderId};
use vstd::prelude::*;

verus! {

/// A command line.
#[derive(Debug)]
pub struct Cli {
    /// Machine-readable output.
    pub json: bool,
    pub command: Command,
}

/// A command.
#[allow(inconsistent_fields)]
#[derive(Debug)]
pub enum Command {
    /// Search for an app by name.
    Search {
        query: String,
        /// The providers to search; none stands for the one tried first.
        provider: Vec<ProviderId>,
        /// Search every provider.
        all: bool,
    },
    /// List the published versions of a package.
    Versions {
        package_id: String,
        /// The providers to ask; none stands for the one tried first.
        provider: Vec<ProviderId>,
        /// Ask every provider.
        all: bool,
    },
    /// Resolve and download an APK.
    Get {
        package_id: String,
        version: Option<String>,
        /// Use only this provider.
        provider: Option<ProviderId>,
        /// The providers to try, in order; none stands for the usual order.
        priority: Vec<ProviderId>,
        /// The preferred ABIs.
        arch: Arch,
        /// The directory to save to.
        output: String,
    },
    /// Look at the providers.
    Providers { cmd: ProvidersCmd },
}

/// What to do with the providers.
#[derive(Debug)]
pub enum ProvidersCmd {
    /// List them with their priority.
    List,
    /// See whether they can be reached.
    Check { name: Option<ProviderId> },
}

} // verus!
