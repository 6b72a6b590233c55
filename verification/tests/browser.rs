use maestro::browser::{
    BrowserError, build_browser_launch, build_chromium_like_command, build_firefox_command, detect_browser_family,
    detect_system_default_browser, infer_family_from_desktop_id, infer_family_from_executable,
    parse_desktop_exec,
};
use maestro::profiles::ProfileBrowserBlock;
use maestro::settings::BrowserFamily;

fn chrome_block(exe: &str, user_data: Option<&str>, urls: Vec<&str>) -> ProfileBrowserBlock {
    ProfileBrowserBlock {
        family: BrowserFamily::ChromiumLike,
        executable: exe.into(),
        user_data_dir: user_data.map(String::from),
        firefox_profile: None,
        firefox_no_remote: None,
        urls: urls.iter().map(|s| (*s).to_string()).collect(),
    }
}

fn firefox_block(profile: Option<&str>, no_remote: Option<bool>, urls: Vec<&str>) -> ProfileBrowserBlock {
    ProfileBrowserBlock {
        family: BrowserFamily::Firefox,
        executable: "/usr/bin/firefox".into(),
        user_data_dir: None,
        firefox_profile: profile.map(String::from),
        firefox_no_remote: no_remote,
        urls: urls.iter().map(|s| (*s).to_string()).collect(),
    }
}

#[test]
fn chromium_new_window_user_data_dir_then_urls() {
    let b = chrome_block("chromium", Some("/tmp/iso"), vec!["https://a.example", "https://b.example"]);
    let cmd = build_chromium_like_command(&b).unwrap();
    assert_eq!(cmd.program, "chromium");
    assert_eq!(
        cmd.args,
        vec![
            "--new-window".to_string(),
            "--user-data-dir=/tmp/iso".to_string(),
            "https://a.example".into(),
            "https://b.example".into(),
        ]
    );
}

#[test]
fn chromium_skips_empty_user_data_segment_but_preserves_new_window() {
    let b = chrome_block("google-chrome", Some("   "), vec!["https://x"]);
    let cmd = build_chromium_like_command(&b).unwrap();
    assert_eq!(cmd.args, vec!["--new-window".to_string(), "https://x".to_string()]);
}

#[test]
fn chromium_builder_refuses_blank_executable_and_firefox_family() {
    assert_eq!(
        build_chromium_like_command(&chrome_block("  ", None, vec![])).unwrap_err(),
        BrowserError::Message("browser executable must not be empty".into())
    );
    assert_eq!(
        build_chromium_like_command(&firefox_block(None, None, vec![])).unwrap_err(),
        BrowserError::Message("expected chromium_like browser family, got Firefox".into())
    );
    let err = build_browser_launch(&chrome_block("", None, vec![])).unwrap_err();
    assert_eq!(err.message(), "browser launch error: browser executable must not be empty");
}

#[test]
fn firefox_builder_refuses_chromium_family() {
    assert_eq!(
        build_firefox_command(&chrome_block("chromium", None, vec![])).unwrap_err(),
        BrowserError::Message("expected firefox browser family, got ChromiumLike".into())
    );
}

#[test]
fn firefox_command_keeps_program_and_urls() {
    let cmd = build_firefox_command(&firefox_block(None, None, vec!["https://a.example"])).unwrap();
    assert_eq!(cmd.program, "/usr/bin/firefox");
    assert_eq!(cmd.args, vec!["--new-window".to_string(), "https://a.example".to_string()]);
    let cmd = build_firefox_command(&firefox_block(Some(" /p "), Some(true), vec!["https://a"])).unwrap();
    assert_eq!(
        cmd.args,
        vec![
            "-no-remote".to_string(),
            "-profile".to_string(),
            "/p".to_string(),
            "--new-window".to_string(),
            "https://a".to_string(),
        ]
    );
}

#[test]
fn browser_launch_warns_without_isolation() {
    let shared = build_browser_launch(&chrome_block("chromium", None, vec![])).unwrap();
    assert_eq!(
        shared.warnings,
        vec!["no user_data_dir set: the browser shares the default profile and may open in an existing session"
            .to_string()]
    );
    let isolated = build_browser_launch(&chrome_block("chromium", Some("/tmp/iso"), vec![])).unwrap();
    assert!(isolated.warnings.is_empty());
}

#[test]
fn browser_launch_dispatches_on_family() {
    let chromium = build_browser_launch(&chrome_block("chromium", None, vec!["https://x"])).unwrap();
    assert_eq!(chromium.args, vec!["--new-window".to_string(), "https://x".to_string()]);
    let ff = build_browser_launch(&firefox_block(None, None, vec![])).unwrap();
    assert_eq!(ff.program, "/usr/bin/firefox");
}

#[test]
fn detects_vivaldi_as_chromium_like() {
    assert_eq!(detect_browser_family("/usr/bin/vivaldi-bin"), Some(BrowserFamily::ChromiumLike));
}

#[test]
fn detects_firefox() {
    assert_eq!(detect_browser_family("/usr/lib/firefox/firefox"), Some(BrowserFamily::Firefox));
}

#[test]
fn ignores_non_browser() {
    assert!(detect_browser_family("/usr/bin/code").is_none());
}

#[test]
fn parse_desktop_exec_simple() {
    let s = "[Desktop Entry]\nExec=/usr/bin/google-chrome-stable %U\n";
    assert_eq!(parse_desktop_exec(s).as_deref(), Some("/usr/bin/google-chrome-stable"));
}

#[test]
fn parse_desktop_exec_env_prefix() {
    let s = "Exec=env MOZ_APP_REMOTING=1 /usr/lib/firefox/firefox %u\n";
    assert_eq!(parse_desktop_exec(s).as_deref(), Some("/usr/lib/firefox/firefox"));
}

#[test]
fn hint_family_agrees_with_detect_on_known_executables() {
    for exe in [
        "/usr/bin/firefox",
        "/usr/bin/google-chrome-stable",
        "/usr/bin/vivaldi-bin",
        "/usr/bin/code",
    ] {
        assert_eq!(infer_family_from_executable(exe), detect_browser_family(exe), "mismatch for {exe}");
    }
}

#[test]
fn hint_desktop_id_does_not_default_unknown_to_chromium() {
    assert_eq!(infer_family_from_desktop_id("code.desktop"), None);
    assert_eq!(infer_family_from_desktop_id("firefox.desktop"), Some(BrowserFamily::Firefox));
    assert_eq!(infer_family_from_desktop_id("google-chrome.desktop"), Some(BrowserFamily::ChromiumLike));
}

#[test]
fn default_browser_hint_prefers_desktop_file_exec_then_which() {
    let hint = detect_system_default_browser(
        Some("firefox.desktop".into()),
        Some("[Desktop Entry]\nExec=/usr/lib/firefox/firefox %u\n".into()),
        Some("/usr/bin/x-www-browser".into()),
    );
    assert_eq!(hint.executable.as_deref(), Some("/usr/lib/firefox/firefox"));
    assert_eq!(hint.family, Some(BrowserFamily::Firefox));
    assert_eq!(hint.desktop_entry.as_deref(), Some("firefox.desktop"));

    let hint = detect_system_default_browser(None, None, Some("/usr/bin/vivaldi-bin".into()));
    assert_eq!(hint.executable.as_deref(), Some("/usr/bin/vivaldi-bin"));
    assert_eq!(hint.family, Some(BrowserFamily::ChromiumLike));

    let hint = detect_system_default_browser(None, None, None);
    assert!(hint.executable.is_none() && hint.family.is_none() && hint.desktop_entry.is_none());
}
