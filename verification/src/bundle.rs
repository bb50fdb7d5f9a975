//! The runtime bundle: where it is fetched from, and the names under which it
//! and what comes of it lie below the launcher's resource directory.

use vstd::prelude::*;
use vstd::string::StringExecFns;

verus! {

/// What to fetch and under which file name to stage it. It lives for one run of
/// fetch, unpack and provision, and is never stored.
#[derive(Debug, Clone, PartialEq, Eq)]
pub struct RemoteArtifact {
    pub url: String,
    pub file_name: String,
}

/// The bundle's name. The unpacked bundle is a directory of this name.
pub open spec fn bundle_name() -> Seq<char> {
    "wine-osu-winello-fonts-wow64-10.12-1-x86_64"@
}

/// The bundle's file name: its name with the ending of a tar archive compressed
/// with xz.
pub open spec fn bundle_file_name() -> Seq<char> {
    bundle_name() + ".tar.xz"@
}

/// The address of the bundle: one fixed release, fetched whole.
pub open spec fn bundle_url() -> Seq<char> {
    "https://github.com/lbls741/LinuxLuncherWineRelease/releases/download/Release/"@
        + bundle_file_name()
}

/// The name of the directory in which the execution prefix is created.
pub open spec fn prefix_dir() -> Seq<char> {
    "wine_prefix"@
}

/// The key of the configuration field that records the execution prefix.
pub open spec fn prefix_key() -> Seq<char> {
    "env_dir"@
}

/// The bundle of the runtime.
pub fn runtime_bundle() -> (artifact: RemoteArtifact)
    ensures
        artifact.url@ == bundle_url(),
        artifact.file_name@ == bundle_file_name(),
{
    let mut file_name = runtime_dir_name();
    file_name.append(".tar.xz");
    let mut url = String::from_str(
        "https://github.com/lbls741/LinuxLuncherWineRelease/releases/download/Release/",
    );
    url.append(file_name.as_str());
    RemoteArtifact { url, file_name }
}

/// The name of the directory, below the resource directory, that unpacking the
/// bundle yields.
pub fn runtime_dir_name() -> (name: String)
    ensures
        name@ == bundle_name(),
{
    String::from_str("wine-osu-winello-fonts-wow64-10.12-1-x86_64")
}

/// The name of the directory, below the resource directory, in which the
/// execution prefix is created.
pub fn prefix_dir_name() -> (name: String)
    ensures
        name@ == prefix_dir(),
{
    String::from_str("wine_prefix")
}

/// The name of the configuration file in the per-user configuration directory.
pub fn config_file_name() -> (name: String)
    ensures
        name@ == "config.yaml"@,
{
    String::from_str("config.yaml")
}

/// The key of the configuration field that records the execution prefix.
pub fn prefix_field() -> (key: String)
    ensures
        key@ == prefix_key(),
{
    String::from_str("env_dir")
}

} // verus!
