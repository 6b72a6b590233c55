use maestro::profiles::{
    duplicate_profile, duplicate_profile_with_display_name, import_profile, prepare_save, ApplicationBrowserSettings,
    ApplicationLaunchEntry, CatalogFile, ProfileBrowserBlock, ProfileDirectory, ProfileError, ProfileFile,
    SessionProfile,
};
use maestro::settings::BrowserFamily;

fn entry(executable: &str) -> ApplicationLaunchEntry {
    ApplicationLaunchEntry { executable: executable.into(), args: vec![], cwd: None, skip_if_running: None, browser: None }
}

fn profile(applications: Vec<ApplicationLaunchEntry>) -> SessionProfile {
    SessionProfile {
        schema_version: 1,
        session_id: "id".into(),
        name: "n".into(),
        applications,
        browser: None,
        cleanup: None,
    }
}

#[test]
fn rejects_empty_application_executable() {
    let p = profile(vec![entry(" ")]);
    assert!(p.validate("/p.json").is_err());
}

#[test]
fn validation_messages_follow_the_order_of_checks() {
    let mut p = profile(vec![entry("/bin/true")]);
    p.schema_version = 0;
    assert_eq!(
        p.validate("/p.json"),
        Err(ProfileError::Validation {
            path: "/p.json".into(),
            message: "schema_version must be a positive integer".into()
        })
    );
    p.schema_version = 2;
    assert_eq!(
        p.validate("/p.json"),
        Err(ProfileError::UnsupportedSchema { path: "/p.json".into(), found: 2, supported: 1 })
    );
    p.schema_version = 1;
    p.session_id = "  ".into();
    assert_eq!(
        p.validate("/p.json"),
        Err(ProfileError::Validation { path: "/p.json".into(), message: "session_id must not be empty".into() })
    );
    p.session_id = "id".into();
    p.name = "".into();
    assert_eq!(
        p.validate("/p.json"),
        Err(ProfileError::Validation { path: "/p.json".into(), message: "name must not be empty".into() })
    );
    p.name = "n".into();
    p.applications.push(entry(""));
    assert_eq!(
        p.validate("/p.json"),
        Err(ProfileError::Validation {
            path: "/p.json".into(),
            message: "applications[1].executable must not be empty".into()
        })
    );
    p.applications.pop();
    p.browser = Some(ProfileBrowserBlock {
        family: BrowserFamily::Firefox,
        executable: " ".into(),
        user_data_dir: None,
        firefox_profile: None,
        firefox_no_remote: None,
        urls: vec![],
    });
    assert_eq!(
        p.validate("/p.json"),
        Err(ProfileError::Validation {
            path: "/p.json".into(),
            message: "browser.executable must not be empty when browser block is set".into()
        })
    );
    p.browser = None;
    assert_eq!(p.validate("/p.json"), Ok(()));
}

#[test]
fn error_messages_render() {
    let e = ProfileError::UnsupportedSchema { path: "/z.json".into(), found: 7, supported: 1 };
    assert_eq!(e.message(), "profile /z.json: unsupported schema_version 7 (supported up to 1)");
    assert_eq!(ProfileError::PathOutsideRoot.message(), "path outside profiles root");
}

#[test]
fn blank_profile_is_valid_with_a_fresh_id() {
    let a = SessionProfile::new_blank();
    let b = SessionProfile::new_blank();
    assert!(a.validate("/x.json").is_ok());
    assert_eq!(a.session_id.len(), 36);
    assert_ne!(a.session_id, b.session_id);
}

#[test]
fn catalog_marks_invalid_json() {
    let dir = ProfileDirectory::new("/profiles".into());
    let files = vec![CatalogFile {
        path: "/profiles/bad.json".into(),
        is_file: true,
        content: ProfileFile::Invalid("key must be a string at line 1 column 3".into()),
    }];
    let cat = dir.catalog_from(true, true, files).unwrap();
    assert_eq!(cat.len(), 1);
    assert!(!cat[0].valid);
    assert!(cat[0].error.as_ref().unwrap().contains("bad.json"));
}

#[test]
fn catalog_lists_json_files_sorted_by_name() {
    let dir = ProfileDirectory::new("/profiles".into());
    let mut good = profile(vec![]);
    good.browser = Some(ProfileBrowserBlock {
        family: BrowserFamily::Firefox,
        executable: "/usr/bin/firefox".into(),
        user_data_dir: None,
        firefox_profile: None,
        firefox_no_remote: None,
        urls: vec![],
    });
    let files = vec![
        CatalogFile { path: "/profiles/b.json".into(), is_file: true, content: ProfileFile::Parsed(good) },
        CatalogFile { path: "/profiles/notes.txt".into(), is_file: true, content: ProfileFile::Invalid("x".into()) },
        CatalogFile {
            path: "/profiles/a.json".into(),
            is_file: true,
            content: ProfileFile::Parsed(profile(vec![entry("/bin/true")])),
        },
    ];
    let cat = dir.catalog_from(true, true, files).unwrap();
    assert_eq!(cat.iter().map(|e| e.file_name.clone()).collect::<Vec<_>>(), vec!["a.json", "b.json"]);
    assert_eq!(cat[0].applications_count, Some(1));
    assert_eq!(cat[0].browser_only, Some(false));
    assert_eq!(cat[1].browser_only, Some(true));
    assert!(dir.catalog_from(false, false, vec![]).unwrap().is_empty());
    assert!(dir.catalog_from(true, false, vec![]).is_err());
}

#[test]
fn import_profile_json_assigns_new_id() {
    let created = SessionProfile::new_blank();
    let imported = import_profile(Ok(created.clone()), "Imported name").unwrap();
    assert_ne!(imported.session_id, created.session_id);
    assert_eq!(imported.name, "Imported name");
    assert!(import_profile(Ok(created), "   ").is_err());
    assert_eq!(
        import_profile(Err("expected value at line 1 column 1".into()), "x").unwrap_err(),
        ProfileError::InvalidJson {
            path: "import.json".into(),
            message: "expected value at line 1 column 1".into()
        }
    );
    assert_eq!(
        import_profile(Err("bad".into()), " ").unwrap_err(),
        ProfileError::Validation { path: "import".into(), message: "display name must not be empty".into() }
    );
}

#[test]
fn duplicate_creates_new_id_and_file() {
    let dir = ProfileDirectory::new("/profiles".into());
    let created = SessionProfile::new_blank();
    let created_path = dir.profile_path_for(&created.session_id);
    let dup = duplicate_profile(created.clone());
    assert_ne!(dup.session_id, created.session_id);
    assert!(dup.name.ends_with("(copy)"));
    assert_ne!(created_path, dir.profile_path_for(&dup.session_id));
    let named = duplicate_profile_with_display_name("/profiles/x.json", Ok(created), " Work ").unwrap();
    assert_eq!(named.name, "Work");
    assert_eq!(
        duplicate_profile_with_display_name("/profiles/x.json", Err(ProfileError::PathOutsideRoot), ""),
        Err(ProfileError::Validation {
            path: "/profiles/x.json".into(),
            message: "display name must not be empty".into()
        })
    );
}

#[test]
fn rejects_save_with_empty_executable() {
    let dir = ProfileDirectory::new("/profiles".into());
    let mut p = SessionProfile::new_blank();
    p.applications.push(entry(""));
    let err = dir.save_file("/profiles/test.json", p, "/profiles", None).unwrap_err();
    assert!(matches!(err, ProfileError::Validation { .. }));
}

#[test]
fn save_file_resolves_under_root_and_stamps_schema() {
    let dir = ProfileDirectory::new("/profiles".into());
    let p = profile(vec![entry("/bin/true")]);
    let (path, saved) = dir.save_file("sub/../test.json", p.clone(), "/profiles", None).unwrap();
    assert_eq!(path, "/profiles/test.json");
    assert_eq!(saved.schema_version, 1);
    assert_eq!(
        dir.save_file("../elsewhere.json", p.clone(), "/profiles", None).unwrap_err(),
        ProfileError::PathOutsideRoot
    );
    assert_eq!(
        dir.save_file("x.json", p, "/profiles", Some("/etc/x.json".into())).unwrap_err(),
        ProfileError::PathOutsideRoot
    );
}

#[test]
fn resolve_missing_file_is_an_error_unless_allowed() {
    let dir = ProfileDirectory::new("/profiles".into());
    assert_eq!(
        dir.resolve_under_root_with("gone.json", false, "/profiles", None),
        Err(ProfileError::Io("profile file not found: /profiles/gone.json".into()))
    );
    assert_eq!(dir.candidate_path(" /abs/p.json "), "/abs/p.json");
    assert!(prepare_save("/p.json", profile(vec![entry("/bin/true")])).is_ok());
}

#[test]
fn application_browser_settings_make_a_browser_block() {
    let e = ApplicationLaunchEntry {
        executable: "/usr/bin/chromium".into(),
        args: vec![],
        cwd: None,
        skip_if_running: None,
        browser: Some(ApplicationBrowserSettings {
            family: BrowserFamily::ChromiumLike,
            user_data_dir: Some("/tmp/ud".into()),
            firefox_profile: None,
            firefox_no_remote: None,
            urls: vec!["https://a".into()],
        }),
    };
    let block = e.to_profile_browser_block().expect("block");
    assert_eq!(block.executable, "/usr/bin/chromium");
    assert_eq!(block.user_data_dir.as_deref(), Some("/tmp/ud"));
    assert_eq!(block.urls, vec!["https://a".to_string()]);
    assert!(entry("/bin/true").to_profile_browser_block().is_none());
}
