use launcher_bootstrap::config::{render_field, set_field, ConfigStore, LauncherConfig};
use launcher_bootstrap::error::BootstrapError;
use launcher_bootstrap::platform::SystemInfo;

const MINIMAL: &str = "luncher:\n  env_dir: \"\"\n  res_dir: \"\"\n";

fn corrupt(key: &str) -> BootstrapError {
    BootstrapError::ConfigCorrupt { key: key.to_string() }
}

#[test]
fn render_field_quotes_the_value() {
    assert_eq!(render_field("env_dir", ""), "env_dir: \"\"");
    assert_eq!(render_field("env_dir", "/a/b"), "env_dir: \"/a/b\"");
    assert_eq!(render_field("", ""), ": \"\"");
}

#[test]
fn initial_config_without_host_is_the_minimal_schema() {
    let config = LauncherConfig::initial(None);
    assert_eq!(config.env_dir, "");
    assert_eq!(config.res_dir, "");
    assert_eq!(config.system, None);
    assert_eq!(config.render(), MINIMAL);
}

#[test]
fn initial_config_with_host_adds_the_two_host_lines() {
    let system = SystemInfo { arch: "arm".to_string(), os: "MacOS".to_string() };
    let config = LauncherConfig::initial(Some(system.clone()));
    assert_eq!(config.system, Some(system));
    assert_eq!(
        config.render(),
        "luncher:\n  env_dir: \"\"\n  res_dir: \"\"\n  system_arch: \"arm\"\n  system_os: \"MacOS\"\n"
    );
}

#[test]
fn render_writes_every_field_it_is_given() {
    let config = LauncherConfig {
        env_dir: "/opt/prefix".to_string(),
        res_dir: "/opt/res".to_string(),
        system: Some(SystemInfo { arch: "riscv64".to_string(), os: "freebsd".to_string() }),
    };
    assert_eq!(
        config.render(),
        "luncher:\n  env_dir: \"/opt/prefix\"\n  res_dir: \"/opt/res\"\n  system_arch: \"riscv64\"\n  system_os: \"freebsd\"\n"
    );
}

#[test]
fn set_field_fills_in_the_prefix_and_keeps_every_other_line() {
    let content = "luncher:\n  env_dir: \"\"\n  res_dir: \"\"\n  system_arch: \"x86\"\n  system_os: \"Linux\"\n";
    let updated = set_field(content, "env_dir", "/a/b").unwrap();
    assert_eq!(
        updated,
        "luncher:\n  env_dir: \"/a/b\"\n  res_dir: \"\"\n  system_arch: \"x86\"\n  system_os: \"Linux\"\n"
    );
    let before: Vec<&str> = content.split('\n').collect();
    let after: Vec<&str> = updated.split('\n').collect();
    assert_eq!(before.len(), after.len());
    for (i, (old, new)) in before.iter().zip(after.iter()).enumerate() {
        if i == 1 {
            assert_eq!(*new, "  env_dir: \"/a/b\"");
        } else {
            assert_eq!(old.as_bytes(), new.as_bytes());
        }
    }
}

#[test]
fn set_field_leaves_text_outside_the_placeholder_untouched() {
    let content = "# note\r\nluncher:\n\tenv_dir: \"\"   # trailing\n  other: 'x'\n";
    assert_eq!(
        set_field(content, "env_dir", "/p").unwrap(),
        "# note\r\nluncher:\n\tenv_dir: \"/p\"   # trailing\n  other: 'x'\n"
    );
}

#[test]
fn set_field_fails_where_the_placeholder_is_missing() {
    assert_eq!(set_field("luncher:\n  res_dir: \"\"\n", "env_dir", "/a"), Err(corrupt("env_dir")));
    assert_eq!(set_field("", "env_dir", "/a"), Err(corrupt("env_dir")));
    assert_eq!(set_field("  env_dir: \"/old\"\n", "env_dir", "/new"), Err(corrupt("env_dir")));
    assert_eq!(set_field("  env_dir: \"\n", "env_dir", "/new"), Err(corrupt("env_dir")));
    assert_eq!(set_field("  env_dir:\"\"\n", "env_dir", "/new"), Err(corrupt("env_dir")));
}

#[test]
fn set_field_is_applied_once_only() {
    let once = set_field(MINIMAL, "env_dir", "/a/b").unwrap();
    assert_eq!(set_field(&once, "env_dir", "/c"), Err(corrupt("env_dir")));
}

#[test]
fn set_field_fills_in_every_placeholder_of_the_key() {
    let content = "a:\n  env_dir: \"\"\nb:\n  env_dir: \"\"\n";
    assert_eq!(
        set_field(content, "env_dir", "/p").unwrap(),
        "a:\n  env_dir: \"/p\"\nb:\n  env_dir: \"/p\"\n"
    );
}

#[test]
fn set_field_works_on_any_key() {
    assert_eq!(
        set_field(MINIMAL, "res_dir", "/r").unwrap(),
        "luncher:\n  env_dir: \"\"\n  res_dir: \"/r\"\n"
    );
    assert_eq!(set_field(MINIMAL, "system_os", "Linux"), Err(corrupt("system_os")));
}

#[test]
fn set_field_with_an_empty_value_changes_nothing() {
    assert_eq!(set_field(MINIMAL, "env_dir", "").unwrap(), MINIMAL);
}

#[test]
fn set_field_takes_the_value_as_it_is() {
    assert_eq!(
        set_field(MINIMAL, "env_dir", "/my \"dir\"/\u{fc}").unwrap(),
        "luncher:\n  env_dir: \"/my \"dir\"/\u{fc}\"\n  res_dir: \"\"\n"
    );
}

#[test]
fn store_knows_whether_the_file_is_there() {
    assert!(!ConfigStore::absent().is_present());
    assert!(ConfigStore::holding(String::new()).is_present());
    assert!(ConfigStore::holding(MINIMAL.to_string()).is_present());
}

#[test]
fn presence_check_gives_the_same_answer_every_time() {
    let absent = ConfigStore::absent();
    let present = ConfigStore::holding(MINIMAL.to_string());
    for _ in 0..5 {
        assert!(!absent.is_present());
        assert!(present.is_present());
        let _ = present.content();
        let _ = present.awaits_field("env_dir");
    }
    assert_eq!(present, ConfigStore::holding(MINIMAL.to_string()));
}

#[test]
fn store_hands_out_its_text() {
    assert_eq!(ConfigStore::absent().content(), None);
    assert_eq!(ConfigStore::holding("x".to_string()).content(), Some("x".to_string()));
}

#[test]
fn store_tells_whether_a_field_is_still_empty() {
    let store = ConfigStore::holding(MINIMAL.to_string());
    assert!(store.awaits_field("env_dir"));
    assert!(store.awaits_field("res_dir"));
    assert!(!store.awaits_field("system_arch"));
    assert!(!ConfigStore::absent().awaits_field("env_dir"));
    assert!(!ConfigStore::holding("env_dir: \"/p\"".to_string()).awaits_field("env_dir"));
}

#[test]
fn write_initial_creates_the_minimal_file() {
    let mut store = ConfigStore::absent();
    store.write_initial(None);
    assert_eq!(store.content(), Some(MINIMAL.to_string()));
}

#[test]
fn write_initial_records_the_host_it_is_given() {
    let mut store = ConfigStore::absent();
    store.write_initial(Some(SystemInfo { arch: "x86".to_string(), os: "Linux".to_string() }));
    assert_eq!(
        store.content(),
        Some(
            "luncher:\n  env_dir: \"\"\n  res_dir: \"\"\n  system_arch: \"x86\"\n  system_os: \"Linux\"\n"
                .to_string()
        )
    );
}

#[test]
fn store_set_field_updates_the_file_in_place() {
    let mut store = ConfigStore::absent();
    store.write_initial(None);
    assert_eq!(store.set_field("env_dir", "/a/b"), Ok(()));
    assert_eq!(
        store.content(),
        Some("luncher:\n  env_dir: \"/a/b\"\n  res_dir: \"\"\n".to_string())
    );
    assert!(store.is_present());
}

#[test]
fn store_set_field_fails_without_a_placeholder() {
    let mut empty = ConfigStore::holding(String::new());
    assert_eq!(empty.set_field("env_dir", "/a"), Err(corrupt("env_dir")));
    assert_eq!(empty, ConfigStore::holding(String::new()));

    let mut filled = ConfigStore::holding("luncher:\n  env_dir: \"/old\"\n".to_string());
    assert_eq!(filled.set_field("env_dir", "/new"), Err(corrupt("env_dir")));
    assert_eq!(filled.content(), Some("luncher:\n  env_dir: \"/old\"\n".to_string()));
}

#[test]
fn store_set_field_without_a_file_is_an_io_failure_and_creates_none() {
    let mut absent = ConfigStore::absent();
    assert_eq!(
        absent.set_field("env_dir", "/a"),
        Err(BootstrapError::Io { detail: "Config file not found".to_string() })
    );
    assert!(!absent.is_present());
    assert_eq!(absent, ConfigStore::absent());
    assert_eq!(
        absent.set_field("", ""),
        Err(BootstrapError::Io { detail: "Config file not found".to_string() })
    );
}
