//! First-run bootstrap of a desktop launcher: deciding whether the machine is
//! provisioned, gating on the host platform, sequencing the download, unpack and
//! prefix creation of the runtime, and keeping the launcher's configuration text.
//!
//! Nothing here touches the file system, the network or a process. Every function
//! works on plain values and states what it returns; the caller performs the
//! effects that the returned values ask for.

pub mod bundle;
pub mod config;
pub mod config_laws;
pub mod error;
pub mod extract;
pub mod orchestrator;
pub mod pipeline;
pub mod platform;
pub mod provision;
pub mod text;
pub mod text_laws;
