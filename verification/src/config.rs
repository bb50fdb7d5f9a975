//! The launcher's configuration: how its text is laid out, how one empty field is
//! filled in, and the store that stands for the file.

use crate::error::BootstrapError;
use crate::platform::SystemInfo;
use crate::text::{contains, occurs, replace_all, replaced};
use vstd::prelude::*;
use vstd::string::StringExecFns;

verus! {

/// One field as the file holds it: the key, a colon and a space, and the value
/// between double quotes.
pub open spec fn field_text(key: Seq<char>, value: Seq<char>) -> Seq<char> {
    key + ": \""@ + value + "\""@
}

/// A field that has not been filled in yet: nothing stands between its quotes.
pub open spec fn placeholder_text(key: Seq<char>) -> Seq<char> {
    field_text(key, Seq::empty())
}

/// One line of the file: a field, indented by two spaces.
pub open spec fn line_text(key: Seq<char>, value: Seq<char>) -> Seq<char> {
    "  "@ + field_text(key, value) + "\n"@
}

/// The two lines that record the host, where it has been recorded.
pub open spec fn system_lines(system: Option<(Seq<char>, Seq<char>)>) -> Seq<char> {
    match system {
        Some((arch, os)) => line_text("system_arch"@, arch) + line_text("system_os"@, os),
        None => Seq::empty(),
    }
}

/// The whole file: the root key, the two directories, and the host where it has
/// been recorded.
pub open spec fn config_text(
    env_dir: Seq<char>,
    res_dir: Seq<char>,
    system: Option<(Seq<char>, Seq<char>)>,
) -> Seq<char> {
    "luncher:\n"@ + line_text("env_dir"@, env_dir) + line_text("res_dir"@, res_dir) + system_lines(
        system,
    )
}

/// The file as it is first written: both directories empty.
pub open spec fn initial_config_text(system: Option<(Seq<char>, Seq<char>)>) -> Seq<char> {
    config_text(Seq::empty(), Seq::empty(), system)
}

/// The text after the empty field `key` has been given `value`: every
/// placeholder of that key gives way to the filled-in field, and nothing else
/// changes. There is no result where the text holds no such placeholder.
pub open spec fn field_set(content: Seq<char>, key: Seq<char>, value: Seq<char>) -> Option<
    Seq<char>,
> {
    if occurs(content, placeholder_text(key)) {
        Some(replaced(content, placeholder_text(key), field_text(key, value)))
    } else {
        None
    }
}

/// A text that can stand between the quotes of a field without ending the field
/// or its line: it holds neither a double quote nor a line break.
pub open spec fn plain(text: Seq<char>) -> bool {
    forall|i: int| 0 <= i < text.len() ==> text[i] != '"' && text[i] != '\n'
}

/// What the failure says where a file that does not exist was to be read.
pub open spec fn missing_file_text() -> Seq<char> {
    "Config file not found"@
}

/// What is recorded of the host, as plain text.
pub open spec fn system_view(system: Option<SystemInfo>) -> Option<(Seq<char>, Seq<char>)> {
    match system {
        Some(info) => Some((info.arch@, info.os@)),
        None => None,
    }
}

/// The field `key` with `value` between its quotes.
pub fn render_field(key: &str, value: &str) -> (text: String)
    ensures
        text@ == field_text(key@, value@),
{
    let mut text = String::from_str(key);
    text.append(": \"");
    text.append(value);
    text.append("\"");
    text
}

/// Appends the line of the field `key` to `out`.
fn append_line(out: &mut String, key: &str, value: &str)
    ensures
        final(out)@ == old(out)@ + line_text(key@, value@),
{
    let field = render_field(key, value);
    out.append("  ");
    out.append(field.as_str());
    out.append("\n");
    assert(final(out)@ =~= old(out)@ + line_text(key@, value@));
}

/// The persistent state of the launcher.
#[derive(Debug, Clone, PartialEq, Eq)]
pub struct LauncherConfig {
    /// Where the provisioned execution prefix lies; empty until provisioning
    /// has succeeded.
    pub env_dir: String,
    /// Reserved.
    pub res_dir: String,
    /// The host, recorded once, and only for a supported one.
    pub system: Option<SystemInfo>,
}

impl LauncherConfig {
    /// The text of the file that holds this configuration.
    pub open spec fn text(&self) -> Seq<char> {
        config_text(self.env_dir@, self.res_dir@, system_view(self.system))
    }

    /// The configuration of a launcher that has not been provisioned.
    pub fn initial(system: Option<SystemInfo>) -> (config: LauncherConfig)
        ensures
            config.env_dir@ == Seq::<char>::empty(),
            config.res_dir@ == Seq::<char>::empty(),
            config.system == system,
            config.text() == initial_config_text(system_view(system)),
    {
        LauncherConfig { env_dir: String::new(), res_dir: String::new(), system }
    }

    /// Writes the configuration out as text.
    pub fn render(&self) -> (text: String)
        ensures
            text@ == self.text(),
    {
        let mut text = String::from_str("luncher:\n");
        append_line(&mut text, "env_dir", self.env_dir.as_str());
        append_line(&mut text, "res_dir", self.res_dir.as_str());
        match &self.system {
            Some(info) => {
                append_line(&mut text, "system_arch", info.arch.as_str());
                append_line(&mut text, "system_os", info.os.as_str());
                assert(text@ =~= self.text());
            },
            None => {
                assert(text@ =~= self.text());
            },
        }
        text
    }
}

/// Fills in the empty field `key` of `content` with `value`.
///
/// This is a targeted update of a field that still holds its empty placeholder,
/// not a merge: where `content` holds no such placeholder, nothing is produced
/// and the failure names the key.
pub fn set_field(content: &str, key: &str, value: &str) -> (result: Result<String, BootstrapError>)
    ensures
        match result {
            Ok(updated) => field_set(content@, key@, value@) == Some(updated@),
            Err(error) => {
                &&& field_set(content@, key@, value@) is None
                &&& error matches BootstrapError::ConfigCorrupt { key: named }
                &&& named@ == key@
            },
        },
{
    let placeholder = render_field(key, "");
    assert(placeholder@ =~= placeholder_text(key@)) by {
        reveal_strlit("");
        assert(""@ =~= Seq::<char>::empty());
    }
    if !contains(content, placeholder.as_str()) {
        return Err(BootstrapError::ConfigCorrupt { key: String::from_str(key) });
    }
    let filled = render_field(key, value);
    Ok(replace_all(content, placeholder.as_str(), filled.as_str()))
}

/// The configuration file as the launcher sees it: absent, or present with its
/// whole text. The launcher never deletes it.
///
/// The store stands for the file between reading it and writing it back: the
/// caller loads it, the launcher's decisions change it, and the caller persists
/// what has changed.
#[derive(Debug, Clone, PartialEq, Eq)]
pub struct ConfigStore {
    content: Option<String>,
}

impl View for ConfigStore {
    type V = Option<Seq<char>>;

    closed spec fn view(&self) -> Option<Seq<char>> {
        match self.content {
            Some(text) => Some(text@),
            None => None,
        }
    }
}

impl ConfigStore {
    /// The store of a machine on which the file does not exist.
    pub fn absent() -> (store: ConfigStore)
        ensures
            store@ is None,
    {
        ConfigStore { content: None }
    }

    /// The store of a machine on which the file holds `text`.
    pub fn holding(text: String) -> (store: ConfigStore)
        ensures
            store@ == Some(text@),
    {
        ConfigStore { content: Some(text) }
    }

    /// The file exists.
    pub open spec fn present(&self) -> bool {
        self@ is Some
    }

    /// Whether the file exists. The answer depends on nothing but the store, so
    /// it stays the same until something is written.
    pub fn is_present(&self) -> (present: bool)
        ensures
            present == self.present(),
    {
        self.content.is_some()
    }

    /// The text of the file, where it exists.
    pub fn content(&self) -> (text: Option<String>)
        ensures
            match text {
                Some(held) => self@ == Some(held@),
                None => self@ is None,
            },
    {
        match &self.content {
            Some(held) => Some(held.clone()),
            None => None,
        }
    }

    /// Whether the file exists and still holds the empty placeholder of `key`.
    pub fn awaits_field(&self, key: &str) -> (waiting: bool)
        ensures
            waiting == (self@ matches Some(content) && occurs(content, placeholder_text(key@))),
    {
        match &self.content {
            Some(content) => {
                let placeholder = render_field(key, "");
                assert(placeholder@ =~= placeholder_text(key@)) by {
                    reveal_strlit("");
                    assert(""@ =~= Seq::<char>::empty());
                }
                contains(content.as_str(), placeholder.as_str())
            },
            None => false,
        }
    }

    /// Creates the file with both directories empty, and with the host where
    /// `system` records one. The file must not exist yet: an existing file is
    /// never written over.
    pub fn write_initial(&mut self, system: Option<SystemInfo>)
        requires
            old(self)@ is None,
        ensures
            final(self).present(),
            final(self)@ == Some(initial_config_text(system_view(system))),
    {
        let text = LauncherConfig::initial(system).render();
        self.content = Some(text);
    }

    /// Fills in the empty field `key` of the file with `value`.
    ///
    /// Succeeds exactly where the file exists and holds the empty placeholder of
    /// `key`. A file that does not exist cannot be read: that is an I/O failure,
    /// and no file comes of it. A file without the placeholder is corrupt; it
    /// stays as it is and the failure names the key.
    pub fn set_field(&mut self, key: &str, value: &str) -> (result: Result<(), BootstrapError>)
        ensures
            final(self).present() == old(self).present(),
            match old(self)@ {
                None => {
                    &&& final(self)@ is None
                    &&& result matches Err(BootstrapError::Io { detail })
                    &&& detail@ == missing_file_text()
                },
                Some(content) => match field_set(content, key@, value@) {
                    Some(updated) => result is Ok && final(self)@ == Some(updated),
                    None => {
                        &&& final(self)@ == old(self)@
                        &&& result matches Err(BootstrapError::ConfigCorrupt { key: named })
                        &&& named@ == key@
                    },
                },
            },
    {
        let updated = match &self.content {
            Some(content) => set_field(content.as_str(), key, value),
            None => Err(BootstrapError::Io { detail: String::from_str("Config file not found") }),
        };
        match updated {
            Ok(text) => {
                self.content = Some(text);
                Ok(())
            },
            Err(error) => Err(error),
        }
    }
}

} // verus!
