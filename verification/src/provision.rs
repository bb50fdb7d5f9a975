//! Creating the execution prefix: whether the runtime's executable is run at
//! all, how it is invoked, and what its end means.

use crate::error::BootstrapError;
use vstd::prelude::*;
use vstd::string::StringExecFns;

verus! {

/// How the runtime is asked to create a fresh prefix. The executable lies at
/// `<runtime root>/<executable_dir>/<executable_name>`; it is run with the
/// environment variable `prefix_variable` set to the prefix directory and with
/// the two arguments, in this order.
#[derive(Debug, Clone, PartialEq, Eq)]
pub struct ProvisionCommand {
    pub executable_dir: String,
    pub executable_name: String,
    pub prefix_variable: String,
    pub first_argument: String,
    pub second_argument: String,
}

/// What is done once the executable has been looked for.
#[derive(Debug, PartialEq, Eq)]
pub enum ProvisionStep {
    /// The executable is there: run it as `command` says.
    Run { command: ProvisionCommand },
    /// The executable is missing: nothing is run, and provisioning has failed
    /// with `error`.
    Fail { error: BootstrapError },
}

/// What came of running the runtime's executable.
#[derive(Debug, Clone, PartialEq, Eq)]
pub enum ProvisionReport {
    /// The executable could not be started or waited for.
    NotStarted { detail: String },
    /// The subprocess ended. `code` is its exit code; there is none where a
    /// signal ended it.
    Exited { code: Option<i32> },
}

/// The one command that creates a fresh prefix: `bin/wine wineboot -u`, with
/// `WINEPREFIX` naming the prefix.
pub open spec fn creates_prefix(command: ProvisionCommand) -> bool {
    &&& command.executable_dir@ == "bin"@
    &&& command.executable_name@ == "wine"@
    &&& command.prefix_variable@ == "WINEPREFIX"@
    &&& command.first_argument@ == "wineboot"@
    &&& command.second_argument@ == "-u"@
}

/// What a report means: the prefix is ready exactly where the subprocess ended
/// with exit code zero.
pub open spec fn outcome_of(report: ProvisionReport) -> Result<(), BootstrapError> {
    match report {
        ProvisionReport::NotStarted { detail } => Err(BootstrapError::Io { detail }),
        ProvisionReport::Exited { code } => if code == Some(0i32) {
            Ok(())
        } else {
            Err(BootstrapError::ProvisioningFailed { code })
        },
    }
}

/// The command that creates a fresh prefix.
pub fn provision_command() -> (command: ProvisionCommand)
    ensures
        creates_prefix(command),
{
    ProvisionCommand {
        executable_dir: String::from_str("bin"),
        executable_name: String::from_str("wine"),
        prefix_variable: String::from_str("WINEPREFIX"),
        first_argument: String::from_str("wineboot"),
        second_argument: String::from_str("-u"),
    }
}

/// Decides what follows the search for the executable. `found` tells whether it
/// exists at `path`. A missing executable ends provisioning before anything is
/// run.
pub fn provision_step(found: bool, path: String) -> (step: ProvisionStep)
    ensures
        found ==> (step matches ProvisionStep::Run { command } && creates_prefix(command)),
        !found ==> step == (ProvisionStep::Fail {
            error: BootstrapError::MissingExecutable { path },
        }),
{
    if found {
        ProvisionStep::Run { command: provision_command() }
    } else {
        ProvisionStep::Fail { error: BootstrapError::MissingExecutable { path } }
    }
}

/// Decides whether provisioning succeeded.
pub fn provision_outcome(report: ProvisionReport) -> (outcome: Result<(), BootstrapError>)
    ensures
        outcome == outcome_of(report),
{
    match report {
        ProvisionReport::NotStarted { detail } => Err(BootstrapError::Io { detail }),
        ProvisionReport::Exited { code } => {
            match code {
                Some(0) => Ok(()),
                _ => Err(BootstrapError::ProvisioningFailed { code }),
            }
        },
    }
}

} // verus!
