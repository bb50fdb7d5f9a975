//! What the launcher decides at startup: whether this is a first run, whether
//! the host is supported, and what is written into the configuration.

use crate::config::{
    config_text, field_set, initial_config_text, missing_file_text, placeholder_text, plain,
    ConfigStore,
};
use crate::config_laws::{
    lemma_initial_config_awaits_prefix, lemma_prefix_is_recorded,
    lemma_recorded_config_awaits_nothing,
};
use crate::error::BootstrapError;
use crate::platform::{
    lemma_supported_host_is_normalized, normalized_arch, normalized_os, supported_arch,
    supported_os, PlatformDescriptor,
};
use crate::text::occurs;
use vstd::prelude::*;
use vstd::string::StringExecFns;

verus! {

/// How far the launcher has come on this machine.
#[derive(Debug, Clone, Copy, PartialEq, Eq)]
pub enum LauncherState {
    /// There is no configuration.
    Unconfigured,
    /// There is a configuration, and no execution prefix is recorded in it.
    ConfiguredNotProvisioned,
    /// There is a configuration with an execution prefix recorded in it.
    ConfiguredProvisioned,
    /// The host is not one that the launcher runs on. Nothing is written, so the
    /// question is asked again at every launch.
    Unsupported,
}

/// The state that a configuration file stands for: without a file the launcher
/// is unconfigured, and with one it is provisioned unless the field of the
/// execution prefix is still empty.
pub open spec fn state_of(store: Option<Seq<char>>) -> LauncherState {
    match store {
        None => LauncherState::Unconfigured,
        Some(content) => if occurs(content, placeholder_text("env_dir"@)) {
            LauncherState::ConfiguredNotProvisioned
        } else {
            LauncherState::ConfiguredProvisioned
        },
    }
}

/// The configuration that `initialize` writes for a supported host.
pub open spec fn host_config_text(host: PlatformDescriptor) -> Seq<char> {
    initial_config_text(Some((normalized_arch(host.arch@), normalized_os(host.os@))))
}

/// The state that the configuration stands for.
pub fn launcher_state(store: &ConfigStore) -> (state: LauncherState)
    ensures
        state == state_of(store@),
{
    if !store.is_present() {
        LauncherState::Unconfigured
    } else if store.awaits_field("env_dir") {
        LauncherState::ConfiguredNotProvisioned
    } else {
        LauncherState::ConfiguredProvisioned
    }
}

/// The answer of the first-run check.
#[derive(Debug, Clone, PartialEq, Eq)]
pub struct FirstRunCheck {
    /// Whether the first-run interface is to be shown, rather than the main one.
    pub show_first_run: bool,
    /// The text with which the configuration file is to be created. There is
    /// none where the file exists: an existing file is not written over.
    pub write: Option<String>,
}

/// Tells whether the first-run interface is to be shown, and prepares the
/// configuration for it. Only whether the file exists matters; it is not read.
/// Where there is no configuration, the minimal one is to be written and the
/// answer is yes; where there is one, nothing is written and the answer is no.
pub fn check_and_initialize(present: bool) -> (check: FirstRunCheck)
    ensures
        check.show_first_run == !present,
        present ==> check.write is None,
        !present ==> (check.write matches Some(text) && text@ == initial_config_text(None)),
{
    if present {
        FirstRunCheck { show_first_run: false, write: None }
    } else {
        let mut store = ConfigStore::absent();
        store.write_initial(None);
        FirstRunCheck { show_first_run: true, write: store.content() }
    }
}

/// What the failure says where the path of the prefix is not text.
pub open spec fn path_not_text() -> Seq<char> {
    "Failed to convert prefix path to string"@
}

/// Records the path of the execution prefix in the field `key` of the
/// configuration that was read into `store`. `prefix_path` is the path as text;
/// there is none where the path cannot be written as text.
///
/// A file that does not exist is an I/O failure, whatever the path. With a
/// file, a path that is not text is an I/O failure too and leaves the file as
/// it is. Otherwise the field is filled in as
/// [`ConfigStore::set_field`] says.
pub fn record_prefix(store: &mut ConfigStore, key: &str, prefix_path: Option<&str>) -> (result:
    Result<(), BootstrapError>)
    ensures
        final(store).present() == old(store).present(),
        match (old(store)@, prefix_path) {
            (None, _) => {
                &&& final(store)@ is None
                &&& result matches Err(BootstrapError::Io { detail })
                &&& detail@ == missing_file_text()
            },
            (Some(_), None) => {
                &&& final(store)@ == old(store)@
                &&& result matches Err(BootstrapError::Io { detail })
                &&& detail@ == path_not_text()
            },
            (Some(content), Some(path)) => match field_set(content, key@, path@) {
                Some(updated) => result is Ok && final(store)@ == Some(updated),
                None => {
                    &&& final(store)@ == old(store)@
                    &&& result matches Err(BootstrapError::ConfigCorrupt { key: named })
                    &&& named@ == key@
                },
            },
        },
{
    match prefix_path {
        Some(path) => store.set_field(key, path),
        None => {
            if store.is_present() {
                Err(
                    BootstrapError::Io {
                        detail: String::from_str("Failed to convert prefix path to string"),
                    },
                )
            } else {
                store.set_field(key, "")
            }
        },
    }
}

/// The first-run path, taken where there is no configuration: on a supported
/// host the configuration is written with the host recorded under its normalized
/// names; on any other host nothing is written.
pub fn initialize(store: &mut ConfigStore, host: &PlatformDescriptor) -> (state: LauncherState)
    requires
        old(store)@ is None,
    ensures
        host.supported() ==> {
            &&& state == LauncherState::ConfiguredNotProvisioned
            &&& final(store)@ == Some(host_config_text(*host))
        },
        !host.supported() ==> {
            &&& state == LauncherState::Unsupported
            &&& final(store)@ is None
        },
{
    if !host.is_supported() {
        return LauncherState::Unsupported;
    }
    store.write_initial(Some(host.system_info()));
    LauncherState::ConfiguredNotProvisioned
}

/// Prepares the environment of a configured launcher. Nothing is defined for
/// this step yet: it does nothing and succeeds.
pub fn setup_environment() -> (result: Result<(), BootstrapError>)
    ensures
        result is Ok,
{
    Ok(())
}

/// Retrieves the game data of a configured launcher. Nothing is defined for
/// this step yet: it does nothing and succeeds.
pub fn get_gamedata() -> (result: Result<(), BootstrapError>)
    ensures
        result is Ok,
{
    Ok(())
}

/// What happens once at process start. With a configuration, the two steps of a
/// normal start run and the configuration stays as it is; without one, the
/// first-run path is taken.
pub fn bootstrap(store: &mut ConfigStore, host: &PlatformDescriptor) -> (result: Result<
    LauncherState,
    BootstrapError,
>)
    ensures
        old(store)@ is Some ==> {
            &&& final(store)@ == old(store)@
            &&& result == Ok::<LauncherState, BootstrapError>(state_of(old(store)@))
        },
        old(store)@ is None && host.supported() ==> {
            &&& final(store)@ == Some(host_config_text(*host))
            &&& result == Ok::<LauncherState, BootstrapError>(
                LauncherState::ConfiguredNotProvisioned,
            )
        },
        old(store)@ is None && !host.supported() ==> {
            &&& final(store)@ is None
            &&& result == Ok::<LauncherState, BootstrapError>(LauncherState::Unsupported)
        },
{
    if store.is_present() {
        match setup_environment() {
            Ok(()) => {},
            Err(error) => {
                return Err(error);
            },
        }
        match get_gamedata() {
            Ok(()) => {},
            Err(error) => {
                return Err(error);
            },
        }
        Ok(launcher_state(store))
    } else {
        Ok(initialize(store, host))
    }
}

/// A launcher whose configuration has just been written, with the host recorded
/// or without, is configured and not provisioned.
pub proof fn lemma_written_config_is_not_provisioned(system: Option<(Seq<char>, Seq<char>)>)
    ensures
        state_of(Some(initial_config_text(system))) == LauncherState::ConfiguredNotProvisioned,
{
    lemma_initial_config_awaits_prefix(system);
}

/// The way of a launcher through its states. The minimal configuration, and the
/// one written for a supported host, stand for a launcher that is configured and
/// not provisioned. Recording a prefix in either succeeds, changes nothing but
/// the field of the prefix, and leaves a configuration that stands for a
/// provisioned launcher. The prefix has to be plain and not empty.
pub proof fn lemma_recording_the_prefix_provisions(
    arch: Seq<char>,
    os: Seq<char>,
    prefix: Seq<char>,
)
    requires
        supported_arch(arch),
        supported_os(os),
        prefix.len() > 0,
        plain(prefix),
    ensures
        ({
            let host = Some((normalized_arch(arch), normalized_os(os)));
            &&& state_of(Some(initial_config_text(host)))
                == LauncherState::ConfiguredNotProvisioned
            &&& field_set(initial_config_text(host), "env_dir"@, prefix) == Some(
                config_text(prefix, Seq::empty(), host),
            )
            &&& state_of(Some(config_text(prefix, Seq::empty(), host)))
                == LauncherState::ConfiguredProvisioned
            &&& state_of(Some(initial_config_text(None)))
                == LauncherState::ConfiguredNotProvisioned
            &&& field_set(initial_config_text(None), "env_dir"@, prefix) == Some(
                config_text(prefix, Seq::empty(), None),
            )
            &&& state_of(Some(config_text(prefix, Seq::empty(), None)))
                == LauncherState::ConfiguredProvisioned
        }),
{
    lemma_supported_host_is_normalized(arch, os);
    reveal_strlit("x86");
    reveal_strlit("arm");
    reveal_strlit("Linux");
    reveal_strlit("MacOS");
    let host = Some((normalized_arch(arch), normalized_os(os)));
    assert(plain(normalized_arch(arch)));
    assert(plain(normalized_os(os)));
    lemma_initial_config_awaits_prefix(host);
    lemma_prefix_is_recorded(prefix, host);
    lemma_recorded_config_awaits_nothing(prefix, host);
    lemma_initial_config_awaits_prefix(None);
    lemma_prefix_is_recorded(prefix, None);
    lemma_recorded_config_awaits_nothing(prefix, None);
}

} // verus!
