use maestro::settings::{
    default_profiles_root_from, default_settings_from, maestro_data_dir_from, settings_path_from,
    default_profiles_root, default_settings, maestro_data_dir, prepare_settings_update, profiles_root_candidate,
    settings_file_path, validate_profiles_root_path, ApplicationSettings, LogVerbosity, ProfilesRootValidationError,
    RootProbe, SettingsError, SettingsFile, SettingsManager, SettingsStore, UiTheme, CURRENT_SCHEMA_VERSION,
};
use std::path::Path;

fn probe() -> RootProbe {
    RootProbe {
        exists: false,
        is_dir: false,
        writable: false,
        has_parent: true,
        parent_exists: true,
        parent_is_dir: true,
        parent_writable: true,
    }
}

fn settings(version: u32) -> ApplicationSettings {
    ApplicationSettings {
        schema_version: version,
        profiles_root: "/tmp/p".into(),
        logging_verbosity: LogVerbosity::Warn,
        theme: UiTheme::Dark,
    }
}

#[test]
fn default_settings_use_current_schema_version() {
    let settings = default_settings().expect("defaults");
    assert_eq!(settings.schema_version, CURRENT_SCHEMA_VERSION);
}

#[test]
fn default_profiles_root_lives_under_maestro_data_dir() {
    let data_dir = maestro_data_dir().expect("data dir");
    let profiles = default_profiles_root().expect("profiles root");
    assert_eq!(Path::new(&profiles), Path::new(&data_dir).join("profiles"));
}

#[test]
fn default_settings_profiles_root_is_absolute() {
    let settings = default_settings().expect("defaults");
    let path = settings.profiles_root_path();
    assert!(Path::new(&path).is_absolute());
    assert!(settings.profiles_root.ends_with("maestro/profiles"));
}

#[test]
fn default_settings_are_info_and_system_theme() {
    let s = default_settings().expect("defaults");
    assert_eq!(s.logging_verbosity, LogVerbosity::Info);
    assert_eq!(s.theme, UiTheme::System);
    assert!(settings_file_path().expect("path").ends_with("maestro/settings.json"));
}

#[test]
fn rejects_empty_path() {
    let err = validate_profiles_root_path("  ", &probe()).unwrap_err();
    assert_eq!(err, ProfilesRootValidationError::Empty);
}

#[test]
fn root_checks_follow_what_the_disk_says() {
    let existing_dir = RootProbe { exists: true, is_dir: true, writable: true, ..probe() };
    assert_eq!(validate_profiles_root_path("/data/profiles", &existing_dir), Ok(()));
    assert_eq!(validate_profiles_root_path("/data/new", &probe()), Ok(()));
    let file = RootProbe { exists: true, is_dir: false, ..probe() };
    assert_eq!(validate_profiles_root_path("/data/file", &file), Err(ProfilesRootValidationError::NotADirectory));
    let read_only = RootProbe { exists: true, is_dir: true, writable: false, ..probe() };
    assert_eq!(validate_profiles_root_path("/data/ro", &read_only), Err(ProfilesRootValidationError::NotWritable));
    let no_parent = RootProbe { parent_writable: false, ..probe() };
    assert_eq!(
        validate_profiles_root_path("/ro/new", &no_parent),
        Err(ProfilesRootValidationError::ParentNotWritable)
    );
    assert_eq!(profiles_root_candidate("  /data/p  "), "/data/p");
    assert_eq!(ProfilesRootValidationError::Empty.message(), "profiles path cannot be empty");
}

#[test]
fn load_from_missing_file_gives_defaults() {
    let store = SettingsStore::new("/nonexistent/settings.json".into());
    let s = store.load_from(SettingsFile::Missing).expect("defaults");
    assert_eq!(s.schema_version, CURRENT_SCHEMA_VERSION);
    assert_eq!(store.path(), "/nonexistent/settings.json");
}

#[test]
fn load_from_rejects_unsupported_schema() {
    let store = SettingsStore::new("/x/settings.json".into());
    let err = store.load_from(SettingsFile::Parsed(settings(99))).unwrap_err();
    assert!(matches!(err, SettingsError::UnsupportedSchemaVersion { found: 99, .. }));
    assert_eq!(store.load_from(SettingsFile::Parsed(settings(1))), Ok(settings(1)));
    assert_eq!(
        store.load_from(SettingsFile::Invalid("eof".into())),
        Err(SettingsError::InvalidJson("eof".into()))
    );
    assert_eq!(
        store.load_from(SettingsFile::Unreadable("permission denied".into())),
        Err(SettingsError::Io("permission denied".into()))
    );
}

#[test]
fn save_if_absent_writes_once() {
    let store = SettingsStore::new("/x/settings.json".into());
    assert_eq!(store.save_if_absent(&settings(1), false), Ok(true));
    assert_eq!(store.save_if_absent(&settings(1), true), Ok(false));
    assert!(store.save_if_absent(&settings(5), false).is_err());
    assert_eq!(store.check_save(&settings(1)), Ok(()));
}

#[test]
fn manager_keeps_and_replaces_settings() {
    let mut m = SettingsManager::new(SettingsStore::new("/x/settings.json".into()), settings(1));
    assert_eq!(m.get(), settings(1));
    assert_eq!(m.persist_if_absent(false), Ok(true));
    assert_eq!(m.persist_if_absent(true), Ok(false));
    let updated = prepare_settings_update(settings(0)).expect("update");
    assert_eq!(updated.schema_version, CURRENT_SCHEMA_VERSION);
    m.replace(updated.clone());
    assert_eq!(m.get(), updated);
}

#[test]
fn manager_open_default_reports_load_errors_and_keeps_parsed_settings() {
    match SettingsManager::open_default(SettingsFile::Invalid("bad json".into())) {
        Err(SettingsError::InvalidJson(m)) => assert_eq!(m, "bad json"),
        Err(SettingsError::DataDirUnavailable(_)) => {},
        other => panic!("unexpected: {:?}", other.map(|m| m.get())),
    }
    match SettingsManager::open_default(SettingsFile::Parsed(settings(CURRENT_SCHEMA_VERSION))) {
        Ok(m) => assert_eq!(m.get(), settings(CURRENT_SCHEMA_VERSION)),
        Err(SettingsError::DataDirUnavailable(_)) => {},
        Err(e) => panic!("unexpected error: {e:?}"),
    }
    match SettingsManager::open_default(SettingsFile::Parsed(settings(CURRENT_SCHEMA_VERSION + 5))) {
        Err(SettingsError::UnsupportedSchemaVersion { found, .. }) => assert_eq!(found, CURRENT_SCHEMA_VERSION + 5),
        Err(SettingsError::DataDirUnavailable(_)) => {},
        other => panic!("unexpected: {:?}", other.map(|m| m.get())),
    }
}

#[test]
fn defaults_from_a_data_directory_are_exact() {
    let base = Some("/home/u/.local/share".to_string());
    assert_eq!(maestro_data_dir_from(base.clone()), Ok("/home/u/.local/share/maestro".to_string()));
    assert_eq!(default_profiles_root_from(base.clone()), Ok("/home/u/.local/share/maestro/profiles".to_string()));
    let s = default_settings_from(base).expect("defaults");
    assert_eq!(s.schema_version, CURRENT_SCHEMA_VERSION);
    assert_eq!(s.profiles_root, "/home/u/.local/share/maestro/profiles");
    assert_eq!(s.logging_verbosity, LogVerbosity::Info);
    assert_eq!(s.theme, UiTheme::System);
    assert_eq!(default_profiles_root_from(Some("/data/".to_string())), Ok("/data/maestro/profiles".to_string()));
}

#[test]
fn defaults_without_a_data_directory_are_the_data_dir_error() {
    assert!(matches!(maestro_data_dir_from(None), Err(SettingsError::DataDirUnavailable(_))));
    assert!(matches!(default_profiles_root_from(None), Err(SettingsError::DataDirUnavailable(_))));
    assert!(matches!(default_settings_from(None), Err(SettingsError::DataDirUnavailable(_))));
}

#[test]
fn settings_path_from_a_config_directory() {
    assert_eq!(settings_path_from(Some("/home/u/.config".to_string())), Ok("/home/u/.config/maestro/settings.json".to_string()));
    match settings_path_from(None) {
        Err(SettingsError::DataDirUnavailable(m)) => assert!(m.contains("config directory")),
        other => panic!("unexpected: {other:?}"),
    }
}

#[test]
fn store_and_manager_from_given_answers() {
    let store = SettingsStore::open_from(Some("/etc/xdg".to_string())).expect("store");
    assert_eq!(store.path(), "/etc/xdg/maestro/settings.json");
    let loaded = store.load_given(SettingsFile::Missing, Some("/srv/data".to_string())).expect("defaults");
    assert_eq!(loaded.profiles_root, "/srv/data/maestro/profiles");
    assert!(matches!(
        store.load_given(SettingsFile::Missing, None),
        Err(SettingsError::DataDirUnavailable(_))
    ));
    let m = SettingsManager::open_given(SettingsFile::Missing, Some("/etc/xdg".to_string()), Some("/srv/data".to_string()))
        .expect("manager");
    assert_eq!(m.get().profiles_root, "/srv/data/maestro/profiles");
    assert!(SettingsManager::open_given(SettingsFile::Parsed(settings(1)), None, None).is_err());
    assert_eq!(
        SettingsManager::open_given(SettingsFile::Parsed(settings(1)), Some("/c".to_string()), None).expect("ok").get(),
        settings(1)
    );
}
