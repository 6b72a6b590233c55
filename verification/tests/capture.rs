use maestro::assistant::{
    assistant_background_noise, assistant_chromium_subprocess_cmd, decode_file_uri, editor_path_from_arg,
    folder_from_workspace_json, strip_editor_app_suffix, workspace_display_name_from_title, CandidateKind,
    ClassificationConfidence, RunningAppCandidate,
};
use maestro::classifier::{classify, ScoreInput, APP_THRESHOLD, EXCLUDED_SCORE, SCORE_FLATPAK_SNAP};
use maestro::desktop_index::{exec_first_token, exec_match_keys, parse_desktop_file, DesktopEntry, DesktopIndex};
use maestro::desktop_index::humanize_basename;
use maestro::editor_cwd::{
    cwd_hint_for_editor, editor_workspace_storage_root, pick_best_folder, pick_storage_folder, storage_root_for,
    PathFact,
};
use maestro::platform::ProcessInfo;
use maestro::window_discovery::{
    candidate_dedupe_key, dedupe_candidates, discover_running_app_candidates, is_wm_noise_title, DiscoveryInputs,
};
use maestro::workspace::{merge_window_sources, WindowRecord, WindowSource};

#[test]
fn editor_path_from_folder_uri() {
    assert_eq!(editor_path_from_arg("--folder-uri=file:///home/user/proj"), Some("/home/user/proj".into()));
}

#[test]
fn decode_file_uri_percent_encoding() {
    assert_eq!(decode_file_uri("file:///home/user/My%20Project"), Some("/home/user/My Project".into()));
}

#[test]
fn strip_cursor_window_suffix() {
    assert_eq!(
        strip_editor_app_suffix("next.config.js: turbopack | Next.js - Cursor", "cursor"),
        Some("next.config.js: turbopack | Next.js".into())
    );
}

#[test]
fn workspace_display_name_from_vscode_title() {
    assert_eq!(
        workspace_display_name_from_title("vite.config.ts - openspectutorial - Cursor", "cursor"),
        Some("openspectutorial".into())
    );
    assert_eq!(
        workspace_display_name_from_title("Browser Tab - sekai-site - Cursor", "cursor"),
        Some("sekai-site".into())
    );
}

#[test]
fn editor_storage_root_exists_for_cursor() {
    let expected = match dirs::home_dir() {
        Some(h) => h.join(".config/Cursor/User/workspaceStorage"),
        None => return,
    };
    if !expected.is_dir() {
        return;
    }
    assert_eq!(editor_workspace_storage_root("cursor"), Some(expected.to_string_lossy().into_owned()));
}

#[test]
fn workspace_json_folder_is_decoded() {
    assert_eq!(
        folder_from_workspace_json(r#"{"folder":"file:///tmp/maestro-demo-openspectutorial"}"#).as_deref(),
        Some("/tmp/maestro-demo-openspectutorial")
    );
    assert_eq!(folder_from_workspace_json(r#"{"workspace":"x"}"#), None);
}

#[test]
fn storage_folder_picks_the_json_named_like_the_workspace() {
    let jsons = vec![
        r#"{"folder":"file:///home/u/other"}"#.to_string(),
        r#"{"folder":"file:///home/u/openspectutorial"}"#.to_string(),
    ];
    let dirs = vec![true, true];
    assert_eq!(
        pick_storage_folder(&jsons, &dirs, "openspectutorial").as_deref(),
        Some("/home/u/openspectutorial")
    );
    assert_eq!(pick_storage_folder(&jsons, &vec![true, false], "openspectutorial"), None);
}

#[test]
fn cwd_hint_uses_cmdline_folder_before_proc_cwd() {
    let cmd = vec!["/usr/bin/cursor".to_string(), "/tmp".to_string()];
    let hint = cwd_hint_for_editor("cursor", &cmd, &None, &vec![], &Some("/".to_string()));
    assert_eq!(hint.as_deref(), Some("/tmp"));
}

#[test]
fn chromium_subprocess_cmd_detects_common_types() {
    assert!(assistant_chromium_subprocess_cmd("--type=renderer"));
    assert!(!assistant_chromium_subprocess_cmd("/opt/TickTick/ticktick --user-data-dir=/x"));
}

#[test]
fn background_noise_node_npm_run_tauri_dev() {
    assert!(assistant_background_noise(
        "/home/greedisland/.local/share/fnm/node-versions/v24.18.0/installation/bin/node",
        "npm run tauri dev"
    ));
}

#[test]
fn background_noise_obexd() {
    assert!(assistant_background_noise("/usr/lib/bluetooth/obexd", "/usr/lib/bluetooth/obexd"));
}

#[test]
fn background_keeps_normal_app() {
    assert!(!assistant_background_noise("/opt/TickTick/ticktick", "/opt/TickTick/ticktick --foo"));
}

#[test]
fn window_only_meets_app_threshold() {
    let input = ScoreInput { has_window: true, user_session: true, ..Default::default() };
    let (kind, conf, score) = classify(&input);
    assert!(score >= APP_THRESHOLD);
    assert_eq!(kind, CandidateKind::App);
    assert_eq!(conf, ClassificationConfidence::Medium);
}

#[test]
fn desktop_without_window_becomes_process_when_windows_enumerable() {
    let input = ScoreInput {
        desktop_match: true,
        user_session: true,
        window_list_available: true,
        ..Default::default()
    };
    let (kind, _, score) = classify(&input);
    assert!(score < APP_THRESHOLD);
    assert_eq!(kind, CandidateKind::Process);
}

#[test]
fn strong_desktop_match_on_wayland_without_window_list_is_app() {
    let input = ScoreInput {
        desktop_match: true,
        user_session: true,
        window_list_available: false,
        ..Default::default()
    };
    let (kind, _, score) = classify(&input);
    assert!(
        score >= APP_THRESHOLD,
        "expected desktop+session to meet app threshold without no-window penalty, got {score}"
    );
    assert_eq!(kind, CandidateKind::App);
}

#[test]
fn window_and_desktop_high_confidence() {
    let input = ScoreInput { has_window: true, desktop_match: true, user_session: true, ..Default::default() };
    let (_, conf, _) = classify(&input);
    assert_eq!(conf, ClassificationConfidence::High);
}

#[test]
fn flatpak_path_adds_points_with_window() {
    let input = ScoreInput {
        has_window: true,
        flatpak_snap_hint: true,
        user_session: true,
        ..Default::default()
    };
    let (_, _, score) = classify(&input);
    assert!(score >= APP_THRESHOLD + SCORE_FLATPAK_SNAP);
}

#[test]
fn excluded_always_process() {
    let input = ScoreInput { excluded: true, has_window: true, desktop_match: true, ..Default::default() };
    let (kind, _, score) = classify(&input);
    assert_eq!(score, EXCLUDED_SCORE);
    assert_eq!(kind, CandidateKind::Process);
}

#[test]
fn score_sums_the_signals() {
    let all = ScoreInput {
        has_window: true,
        desktop_match: true,
        startup_wm_class_match: true,
        flatpak_snap_hint: true,
        user_session: true,
        ..Default::default()
    };
    assert_eq!(classify(&all).2, 100 + 80 + 60 + 20 + 10);
    let listed = ScoreInput { desktop_match: true, window_list_available: true, ..Default::default() };
    assert_eq!(classify(&listed).2, 80 - 50);
    let nothing = ScoreInput { window_list_available: true, ..Default::default() };
    let (kind, conf, score) = classify(&nothing);
    assert_eq!(score, 0);
    assert_eq!(kind, CandidateKind::Process);
    assert_eq!(conf, ClassificationConfidence::Low);
}

#[test]
fn exec_first_token_strips_field_codes() {
    assert_eq!(exec_first_token("firefox %u https://example.com"), Some("firefox".into()));
}

#[test]
fn exec_match_keys_flatpak_bwrap() {
    let keys = exec_match_keys("bwrap --args 42 -- /app/obsidian --ozone-platform=x11");
    assert!(keys.contains(&"obsidian".to_string()));
    assert!(keys.contains(&"/app/obsidian".to_string()));
}

#[test]
fn exec_match_keys_snap_path() {
    let keys = exec_match_keys("/snap/bin/firefox %U");
    assert!(keys.contains(&"firefox".to_string()));
}

#[test]
fn parse_desktop_file_basic() {
    let content = r#"
[Desktop Entry]
Type=Application
Name=Obsidian
Exec=obsidian %U
Icon=obsidian
StartupWMClass=obsidian
"#;
    let entry = parse_desktop_file(content).expect("parsed");
    assert_eq!(entry.name, "Obsidian");
    assert_eq!(entry.startup_wm_class.as_deref(), Some("obsidian"));
    assert!(entry.app_id.is_none());
}

#[test]
fn parse_desktop_pwa_app_id_uses_isolated_key() {
    let content = r#"
[Desktop Entry]
Type=Application
Name=Odysseus
Exec=/opt/vivaldi/vivaldi --profile-directory=Default --app-id=gjblgeihjnnclmidiiaomicjniinpook
Icon=vivaldi-pwa
StartupWMClass=crx_gjblgeihjnnclmidiiaomicjniinpook
"#;
    let entry = parse_desktop_file(content).expect("parsed");
    assert_eq!(entry.name, "Odysseus");
    assert_eq!(entry.app_id.as_deref(), Some("gjblgeihjnnclmidiiaomicjniinpook"));
    assert_eq!(entry.exec_keys, vec!["app-id:gjblgeihjnnclmidiiaomicjniinpook".to_string()]);
    assert!(!entry.exec_keys.contains(&"vivaldi".to_string()));
}

#[test]
fn pwa_does_not_steal_vivaldi_browser_match() {
    let mut index = DesktopIndex::new();
    index.register_entry(DesktopEntry {
        name: "Vivaldi".into(),
        icon: Some("vivaldi".into()),
        exec_keys: vec!["vivaldi-stable".into(), "vivaldi-bin".into()],
        startup_wm_class: Some("vivaldi".into()),
        app_id: None,
    });
    index.register_entry(DesktopEntry {
        name: "Odysseus".into(),
        icon: Some("odysseus".into()),
        exec_keys: vec!["app-id:gjblgeihjnnclmidiiaomicjniinpook".into()],
        startup_wm_class: Some("crx_gjblgeihjnnclmidiiaomicjniinpook".into()),
        app_id: Some("gjblgeihjnnclmidiiaomicjniinpook".into()),
    });

    let browser = index
        .match_process(
            "/opt/vivaldi/vivaldi-bin",
            "vivaldi-bin",
            Some("/opt/vivaldi/vivaldi-bin --new-window https://youtube.com"),
        )
        .expect("browser match");
    assert_eq!(browser.name, "Vivaldi");

    let pwa = index
        .match_process(
            "/opt/vivaldi/vivaldi-bin",
            "vivaldi-bin",
            Some("/opt/vivaldi/vivaldi --app-id=gjblgeihjnnclmidiiaomicjniinpook"),
        )
        .expect("pwa match");
    assert_eq!(pwa.name, "Odysseus");
}

#[test]
fn parse_desktop_try_exec_only() {
    let content = r#"
[Desktop Entry]
Type=Application
Name=Helper
TryExec=my-helper
"#;
    let entry = parse_desktop_file(content).expect("parsed");
    assert!(entry.exec_keys.contains(&"my-helper".to_string()));
}

#[test]
fn parse_skips_hidden() {
    let content = r#"
[Desktop Entry]
Type=Application
Name=Hidden App
Exec=hidden-app
Hidden=true
"#;
    assert!(parse_desktop_file(content).is_none());
}

#[test]
fn index_matches_obsidian_flatpak_path() {
    let mut index = DesktopIndex::new();
    let entry = DesktopEntry {
        name: "Obsidian".into(),
        icon: Some("obsidian".into()),
        exec_keys: vec!["obsidian".into(), "/app/obsidian".into()],
        startup_wm_class: Some("obsidian".into()),
        app_id: None,
    };
    index.register_entry(entry);
    let matched = index.match_process("/app/obsidian", "obsidian", None);
    assert!(matched.is_some());
}

#[test]
fn match_window_title_by_wm_class() {
    let mut index = DesktopIndex::new();
    index.register_entry(DesktopEntry {
        name: "Obsidian".into(),
        icon: None,
        exec_keys: vec!["obsidian".into()],
        startup_wm_class: Some("obsidian".into()),
        app_id: None,
    });
    assert!(index.match_window_title("Project - Obsidian 1.12").is_some());
}

#[test]
fn first_registered_entry_keeps_a_shared_key() {
    let mut index = DesktopIndex::new();
    index.register_entry(DesktopEntry {
        name: "First".into(),
        icon: None,
        exec_keys: vec!["tool".into()],
        startup_wm_class: None,
        app_id: None,
    });
    index.register_entry(DesktopEntry {
        name: "Second".into(),
        icon: None,
        exec_keys: vec!["tool".into()],
        startup_wm_class: None,
        app_id: None,
    });
    assert_eq!(index.match_process("/usr/bin/tool", "tool", None).map(|e| e.name.clone()), Some("First".into()));
}

#[test]
fn load_registers_desktop_files_only() {
    let files = vec![
        (
            "/usr/share/applications/obsidian.desktop".to_string(),
            "[Desktop Entry]\nType=Application\nName=Obsidian\nExec=obsidian %U\n".to_string(),
        ),
        (
            "/usr/share/applications/notes.txt".to_string(),
            "[Desktop Entry]\nType=Application\nName=Notes\nExec=notes\n".to_string(),
        ),
    ];
    let index = DesktopIndex::load(&files);
    assert!(index.match_process("/usr/bin/obsidian", "obsidian", None).is_some());
    assert!(index.match_process("/usr/bin/notes", "notes", None).is_none());
}

fn candidate(desktop: Option<u32>, title: &str) -> RunningAppCandidate {
    RunningAppCandidate {
        pid: 1,
        executable: "/usr/bin/vivaldi".into(),
        label: "vivaldi".into(),
        cmd_preview: String::new(),
        cwd_hint: None,
        kind: CandidateKind::App,
        display_name: "Vivaldi".into(),
        icon_name: None,
        desktop_workspace: desktop,
        window_title: Some(title.into()),
        classification_confidence: Some(ClassificationConfidence::High),
    }
}

#[test]
fn dedupe_key_splits_same_exe_by_workspace_and_title() {
    let a = candidate(Some(1), "Tab A");
    let b = candidate(Some(3), "Tab B");
    assert_ne!(candidate_dedupe_key(&a), candidate_dedupe_key(&b));
}

#[test]
fn wm_noise_title_skipped() {
    assert!(is_wm_noise_title("@!1920,0;BDHF"));
    assert!(!is_wm_noise_title("TickTick"));
}

#[test]
fn humanized_basename_capitalises_the_first_letter() {
    assert_eq!(humanize_basename("ticktick"), "Ticktick");
    assert_eq!(humanize_basename(""), "");
    assert_eq!(humanize_basename("1password"), "1password");
}

#[test]
fn best_folder_takes_the_parent_of_a_file_argument() {
    let cmd = vec!["/usr/bin/code".to_string(), "/home/u/proj/main.rs".to_string()];
    let facts = vec![PathFact { exists: false, is_dir: false }, PathFact { exists: true, is_dir: false }];
    assert_eq!(pick_best_folder(&cmd, &facts, &None).as_deref(), Some("/home/u/proj"));
    let facts = vec![PathFact { exists: false, is_dir: false }, PathFact { exists: true, is_dir: true }];
    assert_eq!(pick_best_folder(&cmd, &facts, &None).as_deref(), Some("/home/u/proj/main.rs"));
}

#[test]
fn same_key_candidates_merge_into_one() {
    let mut a = candidate(Some(1), "Tab A");
    a.kind = CandidateKind::Process;
    a.classification_confidence = Some(ClassificationConfidence::Low);
    let b = candidate(Some(1), "Tab A");
    let c = candidate(Some(2), "Tab A");
    let out = dedupe_candidates(vec![a, b, c]);
    assert_eq!(out.len(), 2);
    assert_eq!(out[0].kind, CandidateKind::App);
    assert_eq!(out[0].classification_confidence, Some(ClassificationConfidence::High));
    assert_eq!(out[1].desktop_workspace, Some(2));
}

#[test]
fn storage_root_needs_a_home_a_known_editor_and_a_directory() {
    let home = Some("/home/u".to_string());
    assert_eq!(storage_root_for("code", &home, true), Some("/home/u/.config/Code/User/workspaceStorage".to_string()));
    assert_eq!(storage_root_for("cursor", &home, true), Some("/home/u/.config/Cursor/User/workspaceStorage".to_string()));
    assert_eq!(storage_root_for("code", &home, false), None);
    assert_eq!(storage_root_for("vim", &home, true), None);
    assert_eq!(storage_root_for("code", &None, true), None);
}

fn discovery_process(pid: u32, name: &str, exe: &str) -> ProcessInfo {
    ProcessInfo { pid, name: name.into(), exe: Some(exe.into()), parent: Some(1), cmd: vec![exe.into()] }
}

fn discovery_inputs() -> DiscoveryInputs {
    let window = WindowRecord { pid: 4242, desktop: Some(1), title: "notes.md - Obsidian".into(), app_id: None };
    DiscoveryInputs {
        desktop: DesktopIndex::new(),
        workspace: merge_window_sources(vec![WindowSource::Wmctrl(vec![window])]),
        user_session: true,
        editor_storage: vec![],
        proc_cwds: vec![],
    }
}

#[test]
fn x11_discovery_starts_from_windows_and_wayland_from_processes() {
    let inp = discovery_inputs();
    let procs = vec![
        discovery_process(4242, "obsidian", "/opt/Obsidian/obsidian"),
        discovery_process(5000, "gimp", "/opt/gimp/bin/gimp"),
    ];
    let from_windows = discover_running_app_candidates(&inp, &procs, 77, "x11");
    assert_eq!(from_windows.len(), 1);
    assert_eq!(from_windows[0].pid, 4242);
    assert_eq!(from_windows[0].desktop_workspace, Some(1));
    let from_processes = discover_running_app_candidates(&inp, &procs, 77, "wayland");
    assert!(from_processes.iter().any(|c| c.pid == 5000));
}
