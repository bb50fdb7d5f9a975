//! The ways in which bootstrapping can fail.

use crate::text::{decimal, decimal_text};
use vstd::prelude::*;
use vstd::string::StringExecFns;

verus! {

/// A failure of one step of the bootstrap. Every component reports one of these
/// instead of aborting; nothing is retried.
#[derive(Debug, Clone, PartialEq, Eq)]
pub enum BootstrapError {
    /// The artifact could not be retrieved: connection or transfer failed.
    Network { detail: String },
    /// A file or directory could not be created, read, written or removed.
    Io { detail: String },
    /// The compressed archive is malformed, or an entry of it leaves the target
    /// directory.
    Archive { detail: String },
    /// The runtime's executable is not where the unpacked bundle should have it.
    MissingExecutable { path: String },
    /// The runtime's own bootstrap ended with a status other than zero, or with
    /// none at all.
    ProvisioningFailed { code: Option<i32> },
    /// The configuration does not hold the empty placeholder of the field that
    /// was to be filled in.
    ConfigCorrupt { key: String },
}

/// What a failure tells the user.
pub open spec fn message_text(error: BootstrapError) -> Seq<char> {
    match error {
        BootstrapError::Network { detail } => detail@,
        BootstrapError::Io { detail } => detail@,
        BootstrapError::Archive { detail } => detail@,
        BootstrapError::MissingExecutable { path } => "WINE executable not found at: \""@ + path@
            + "\""@,
        BootstrapError::ProvisioningFailed { code: Some(code) } =>
            "Failed to create WINE prefix. Exit code: Some("@ + decimal(code as int) + ")"@,
        BootstrapError::ProvisioningFailed { code: None } =>
            "Failed to create WINE prefix. Exit code: None"@,
        BootstrapError::ConfigCorrupt { key } => "Config field has no empty placeholder: "@ + key@,
    }
}

impl BootstrapError {
    /// The failure as one line of text, as it is shown to the user.
    pub fn message(&self) -> (text: String)
        ensures
            text@ == message_text(*self),
    {
        match self {
            BootstrapError::Network { detail } => detail.clone(),
            BootstrapError::Io { detail } => detail.clone(),
            BootstrapError::Archive { detail } => detail.clone(),
            BootstrapError::MissingExecutable { path } => {
                let mut text = String::from_str("WINE executable not found at: \"");
                text.append(path.as_str());
                text.append("\"");
                text
            },
            BootstrapError::ProvisioningFailed { code: Some(code) } => {
                let mut text = String::from_str("Failed to create WINE prefix. Exit code: Some(");
                let number = decimal_text(*code);
                text.append(number.as_str());
                text.append(")");
                text
            },
            BootstrapError::ProvisioningFailed { code: None } => String::from_str(
                "Failed to create WINE prefix. Exit code: None",
            ),
            BootstrapError::ConfigCorrupt { key } => {
                let mut text = String::from_str("Config field has no empty placeholder: ");
                text.append(key.as_str());
                text
            },
        }
    }
}

} // verus!
