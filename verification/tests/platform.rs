use maestro::adapters::{
    compositor_family_from, gnome_workspace_enrichment_available, hyprland_workspace_enrichment_available,
    kwin_workspace_enrichment_available, workspace_enrichment_expected, CompositorFamily,
};
use maestro::platform::{
    denylisted_basename, executable_on_path_given, launch_executable_given, process_executable_given,
    resolve_launch_executable, strip_deleted_exe_suffix, ProcessInfo,
};
use maestro::wayland_windows::{
    enrich_should_stop, handle_info_to_record, resolve_workspace_index, workspace_handle_index_map, HandleInfo,
    SnapshotState, ToplevelEvent,
};
use maestro::workspace::{
    merge_window_sources, parse_wmctrl_lp, pid_desktop, uses_window_first_discovery, WindowRecord, WindowSource,
    WorkspaceIndex,
};
use std::collections::HashMap;
use std::path::Path;

fn record(pid: u32, desktop: Option<u32>, title: &str, app_id: Option<&str>) -> WindowRecord {
    WindowRecord { pid, desktop, title: title.into(), app_id: app_id.map(String::from) }
}

#[test]
fn portable_window_record_has_no_cosmic_protocol_fields() {
    let r = WindowRecord { pid: 42, desktop: None, title: "Example".into(), app_id: Some("org.example.App".into()) };
    assert!(r.desktop.is_none());
    assert_eq!(r.app_id.as_deref(), Some("org.example.App"));
    let _ = format!("{r:?}");
}

#[test]
fn gnome_and_tilers_do_not_claim_workspace_enrichment() {
    assert!(!gnome_workspace_enrichment_available());
    assert!(!kwin_workspace_enrichment_available());
    assert!(!hyprland_workspace_enrichment_available());
    assert!(!workspace_enrichment_expected(CompositorFamily::Gnome));
    assert!(!workspace_enrichment_expected(CompositorFamily::Kwin));
    assert!(!workspace_enrichment_expected(CompositorFamily::Hyprland));
    assert!(workspace_enrichment_expected(CompositorFamily::Cosmic));
}

#[test]
fn workspace_index_accepts_records_without_desktop() {
    let index = merge_window_sources(vec![WindowSource::WaylandForeignToplevel(vec![record(
        100,
        None,
        "No WS",
        Some("app"),
    )])]);
    assert_eq!(index.windows().len(), 1);
    assert!(index.workspace_for_pid(100).is_none());
}

#[test]
fn compositor_family_from_desktop_names() {
    assert_eq!(compositor_family_from("COSMIC", "wayland"), CompositorFamily::Cosmic);
    assert_eq!(compositor_family_from("ubuntu:GNOME", "wayland"), CompositorFamily::Gnome);
    assert_eq!(compositor_family_from("KDE", "wayland"), CompositorFamily::Kwin);
    assert_eq!(compositor_family_from("Hyprland", "wayland"), CompositorFamily::Hyprland);
}

#[test]
fn denylist_hits_system_basenames() {
    assert!(denylisted_basename("systemd"));
    assert!(denylisted_basename("kworker/0:0H"));
    assert!(denylisted_basename("packagekitd"));
    assert!(denylisted_basename("gvfsd-metadata"));
    assert!(denylisted_basename("gsd-color"));
    assert!(denylisted_basename("xdg-desktop-portal-hyprland"));
    assert!(denylisted_basename("chrome_crashpad_handler"));
    assert!(denylisted_basename("webkitwebprocess"));
    assert!(!denylisted_basename("cursor"));
}

#[test]
fn strip_deleted_exe_suffix_removes_kernel_marker() {
    assert_eq!(
        strip_deleted_exe_suffix("/home/u/.local/share/cursor-editor/usr/share/cursor/cursor (deleted)"),
        "/home/u/.local/share/cursor-editor/usr/share/cursor/cursor"
    );
    assert_eq!(strip_deleted_exe_suffix("/usr/bin/cursor"), "/usr/bin/cursor");
}

#[test]
fn resolve_launch_executable_finds_cursor_on_path_when_old_install_gone() {
    let bin = tempfile::tempdir().expect("bin dir");
    let _cursor = tempfile::Builder::new()
        .prefix("cursor")
        .rand_bytes(0)
        .tempfile_in(bin.path())
        .expect("cursor file");
    let dirs = vec![bin.path().to_string_lossy().into_owned()];

    let gone = "/home/u/.local/share/cursor-editor/usr/share/cursor/cursor (deleted)";
    let resolved = resolve_launch_executable(gone, &dirs);
    assert!(Path::new(&resolved).is_file(), "expected PATH fallback for cursor, got {resolved}");
    assert!(!resolved.contains("(deleted)"), "must not keep deleted marker: {resolved}");
    let base = Path::new(&resolved).file_name().and_then(|s| s.to_str()).unwrap_or("");
    assert_eq!(base, "cursor");
}

#[test]
fn handle_info_prefers_title_over_app_id() {
    let info = HandleInfo {
        title: Some("Today - TickTick".into()),
        app_id: Some("ticktick".into()),
        desktop: Some(2),
        done: true,
    };
    let record = handle_info_to_record(&info).expect("record");
    assert_eq!(record.title, "Today - TickTick");
    assert_eq!(record.pid, 0);
    assert_eq!(record.desktop, Some(2));
}

#[test]
fn handle_info_falls_back_to_app_id_without_faking_workspace_zero() {
    let info = HandleInfo { title: None, app_id: Some("cursor".into()), desktop: None, done: true };
    let record = handle_info_to_record(&info).expect("record");
    assert_eq!(record.title, "cursor");
    assert_eq!(record.desktop, None);
}

#[test]
fn handle_info_skips_empty() {
    let info = HandleInfo::default();
    assert!(handle_info_to_record(&info).is_none());
}

#[test]
fn workspace_handle_index_map_assigns_stable_zero_based_order() {
    let map = workspace_handle_index_map(&vec![10, 20, 10, 30]);
    assert_eq!(map.get(&10), Some(&0));
    assert_eq!(map.get(&20), Some(&1));
    assert_eq!(map.get(&30), Some(&2));
    assert_eq!(map.len(), 3);
}

#[test]
fn resolve_workspace_index_prefers_lowest_when_multi() {
    let map = workspace_handle_index_map(&vec![10, 20, 30]);
    assert_eq!(resolve_workspace_index(&map, &vec![30, 10]), Some(0));
    assert_eq!(resolve_workspace_index(&map, &vec![20]), Some(1));
    assert_eq!(resolve_workspace_index(&map, &vec![99]), None);
    assert_eq!(resolve_workspace_index(&map, &vec![]), None);
}

#[test]
fn wayland_fixture_records_merge_into_window_first_path() {
    let wayland = vec![
        record(0, None, "Today - TickTick", Some("ticktick")),
        record(0, Some(1), "Slack", Some("Slack")),
    ];
    let merged = merge_window_sources(vec![WindowSource::WaylandForeignToplevel(wayland)]);
    assert!(uses_window_first_discovery(&merged));
    assert_eq!(merged.windows().len(), 2);
}

#[test]
fn snapshot_events_build_records_with_workspace_indices() {
    let mut st = SnapshotState::new();
    st.apply_event(ToplevelEvent::Workspace(7));
    st.apply_event(ToplevelEvent::Workspace(9));
    st.apply_event(ToplevelEvent::WorkspacesDone);
    st.apply_event(ToplevelEvent::Toplevel(1));
    st.apply_event(ToplevelEvent::Title(1, "Editor".into()));
    st.apply_event(ToplevelEvent::AppId(1, "code".into()));
    st.apply_event(ToplevelEvent::Done(1));
    st.track_toplevel(1);
    st.apply_event(ToplevelEvent::WorkspaceEnter(1, 9));
    st.apply_event(ToplevelEvent::Toplevel(2));
    st.apply_event(ToplevelEvent::Closed(2));
    let records = st.records();
    assert_eq!(records.len(), 1);
    assert_eq!(records[0].title, "Editor");
    assert_eq!(records[0].app_id.as_deref(), Some("code"));
    assert_eq!(records[0].desktop, Some(1));
    assert!(enrich_should_stop(1, 1, true, false));
    assert!(!enrich_should_stop(0, 1, false, false));
}

#[test]
fn parse_wmctrl_sample_lines() {
    let sample = "\
0x02800004  0 41573  pop-os  Obsidian
0x03a00007  1 34702  pop-os  LibreOffice Calc
0x03c00004  0 9086   pop-os TickTick
0x01200003  -1 0  pop-os  Sticky
0x05c00004  5 2      pop-os Project structure - Obsidian 1.12.7
";
    let mut windows = Vec::new();
    let mut map = HashMap::new();
    parse_wmctrl_lp(sample, &mut windows, &mut map);
    assert_eq!(map.get(&41573), Some(&0));
    assert_eq!(map.get(&34702), Some(&1));
    assert_eq!(map.get(&9086), Some(&0));
    assert!(map.get(&0).is_none());
    assert_eq!(pid_desktop(&map, 41573), Some(0));
    assert_eq!(windows.len(), 4);
}

#[test]
fn workspace_for_title_hint_obsidian() {
    let mut index = WorkspaceIndex::new();
    index.push_window(record(2, Some(5), "Project structure - noteTaking - Obsidian 1.12.7", None));
    assert_eq!(index.workspace_for_title_hint("Obsidian"), Some(5));
}

#[test]
fn workspace_for_title_hint_ambiguous_multi_window_returns_none() {
    let mut index = WorkspaceIndex::new();
    index.push_window(record(0, Some(1), "(3) WhatsApp - Vivaldi", Some("vivaldi-stable")));
    index.push_window(record(
        0,
        Some(3),
        "Cursor Grok 4.5: Uso Pro - Google Gemini - Vivaldi",
        Some("vivaldi-stable"),
    ));
    assert_eq!(index.workspace_for_title_hint("Vivaldi"), None);
    assert_eq!(index.workspace_for_executable("/opt/vivaldi/vivaldi", "Vivaldi"), None);
}

#[test]
fn title_hint_refuses_when_sibling_lacks_desktop() {
    let mut index = WorkspaceIndex::new();
    index.push_window(record(0, Some(1), "(3) WhatsApp - Vivaldi", Some("vivaldi-stable")));
    index.push_window(record(0, None, "Cursor Grok 4.5: Uso Pro - Google Gemini - Vivaldi", Some("vivaldi-stable")));
    assert_eq!(index.workspace_for_title_hint("Vivaldi"), None);
    assert_eq!(index.workspace_for_executable("/opt/vivaldi/vivaldi", "Vivaldi"), None);
    let gemini = index.windows().iter().find(|w| w.title.contains("Gemini")).expect("gemini");
    assert_eq!(gemini.desktop, None);
}

#[test]
fn workspace_for_title_hint_agrees_when_same_desktop() {
    let mut index = WorkspaceIndex::new();
    index.push_window(record(0, Some(2), "Tab A - Vivaldi", None));
    index.push_window(record(0, Some(2), "Tab B - Vivaldi", None));
    assert_eq!(index.workspace_for_title_hint("Vivaldi"), Some(2));
}

#[test]
fn workspace_for_pid_miss() {
    let index = WorkspaceIndex::new();
    assert!(index.workspace_for_pid(999_999).is_none());
}

#[test]
fn workspace_for_pid_follows_parents() {
    let mut index = merge_window_sources(vec![WindowSource::Wmctrl(vec![record(100, Some(4), "Main", None)])]);
    index.set_process_parents(HashMap::from([(101, 100), (102, 101), (9, 100), (50, 50)]));
    assert_eq!(index.workspace_for_pid(102), Some(4));
    assert_eq!(index.workspace_for_pid(9), None);
    assert_eq!(index.workspace_for_pid(50), None);
    assert!(index.has_window_for_pid(100));
    assert!(!index.has_window_for_pid(102));
}

#[test]
fn merge_window_sources_combines_records_and_pid_map() {
    let wmctrl = vec![record(100, Some(0), "Slack", None)];
    let wayland = vec![record(200, Some(2), "Firefox", Some("firefox"))];
    let merged = merge_window_sources(vec![WindowSource::Wmctrl(wmctrl), WindowSource::WaylandForeignToplevel(wayland)]);
    assert_eq!(merged.windows().len(), 2);
    assert_eq!(merged.workspace_for_pid(100), Some(0));
    assert_eq!(merged.workspace_for_pid(200), Some(2));
    assert!(merged.windows().iter().any(|w| w.title == "Slack"));
    assert!(merged.windows().iter().any(|w| w.title == "Firefox"));
}

#[test]
fn merge_empty_sources_yields_empty_index() {
    let merged = merge_window_sources(vec![WindowSource::Wmctrl(vec![]), WindowSource::WaylandForeignToplevel(vec![])]);
    assert!(merged.windows().is_empty());
    assert!(!uses_window_first_discovery(&merged));
}

#[test]
fn non_empty_merged_index_selects_window_first() {
    let merged = merge_window_sources(vec![WindowSource::Wmctrl(vec![record(42, Some(1), "App", None)])]);
    assert!(uses_window_first_discovery(&merged));
}

#[test]
fn merge_dedupes_same_title_preferring_wayland_app_id() {
    let merged = merge_window_sources(vec![
        WindowSource::Wmctrl(vec![record(4, Some(0), "novo-website - Slack", None)]),
        WindowSource::WaylandForeignToplevel(vec![record(0, None, "novo-website - Slack", Some("Slack"))]),
    ]);
    assert_eq!(merged.windows().len(), 1);
    assert_eq!(merged.windows()[0].app_id.as_deref(), Some("Slack"));
    assert_eq!(merged.windows()[0].desktop, Some(0));
}

#[test]
fn merge_prefers_known_wayland_desktop_over_none() {
    let merged = merge_window_sources(vec![
        WindowSource::Wmctrl(vec![record(4, Some(1), "Firefox", None)]),
        WindowSource::WaylandForeignToplevel(vec![record(0, Some(2), "Firefox", Some("firefox"))]),
    ]);
    assert_eq!(merged.windows().len(), 1);
    assert_eq!(merged.windows()[0].desktop, Some(2));
}

#[test]
fn first_workspace_seen_for_a_pid_wins() {
    let merged = merge_window_sources(vec![WindowSource::Wmctrl(vec![
        record(300, Some(1), "A", None),
        record(300, Some(4), "B", None),
    ])]);
    assert_eq!(merged.workspace_for_pid(300), Some(1));
}

#[test]
fn snapshot_without_workspaces_invents_none() {
    let mut st = SnapshotState::new();
    st.apply_event(ToplevelEvent::Toplevel(5));
    st.apply_event(ToplevelEvent::Title(5, "Notes".into()));
    st.track_toplevel(5);
    st.apply_event(ToplevelEvent::WorkspaceEnter(5, 77));
    let records = st.records();
    assert_eq!(records.len(), 1);
    assert_eq!(records[0].desktop, None);
    assert_eq!(st.handle_ids(), vec![5]);
}

#[test]
fn blank_title_windows_are_kept_by_the_merge() {
    let merged = merge_window_sources(vec![WindowSource::Wmctrl(vec![
        record(100, Some(0), "", None),
        record(200, Some(1), "Slack", None),
        record(300, Some(2), "  ", None),
    ])]);
    assert_eq!(merged.windows().len(), 3);
    assert_eq!(merged.windows()[0].pid, 100);
    assert_eq!(merged.windows()[1].pid, 300);
    assert_eq!(merged.windows()[2].title, "Slack");
    assert_eq!(merged.workspace_for_pid(100), Some(0));
}

fn strings(v: &[&str]) -> Vec<String> {
    v.iter().map(|s| s.to_string()).collect()
}

#[test]
fn path_lookup_takes_the_first_directory_the_disk_confirms() {
    let dirs = strings(&["/opt/a", "/usr/bin/", "/bin"]);
    assert_eq!(executable_on_path_given(" code ", &dirs, &vec![false, true, true]), Some("/usr/bin/code".to_string()));
    assert_eq!(executable_on_path_given("code", &dirs, &vec![true, true, false]), Some("/opt/a/code".to_string()));
    assert_eq!(executable_on_path_given("code", &dirs, &vec![false, false, false]), None);
}

#[test]
fn path_lookup_refuses_unusable_basenames() {
    let dirs = strings(&["/usr/bin"]);
    assert_eq!(executable_on_path_given("  ", &dirs, &vec![true]), None);
    assert_eq!(executable_on_path_given("bin/code", &dirs, &vec![true]), None);
}

#[test]
fn launch_given_prefers_the_cleaned_path_then_the_search_path() {
    let dirs = strings(&["/usr/bin"]);
    let saved = "/old/cursor/cursor (deleted)";
    assert_eq!(launch_executable_given(saved, &dirs, true, &vec![true]), "/old/cursor/cursor");
    assert_eq!(launch_executable_given(saved, &dirs, false, &vec![true]), "/usr/bin/cursor");
    assert_eq!(launch_executable_given(saved, &dirs, false, &vec![false]), "/old/cursor/cursor");
}

fn process(exe: Option<&str>, cmd: &[&str]) -> ProcessInfo {
    ProcessInfo { pid: 4242, name: "code".into(), exe: exe.map(String::from), parent: None, cmd: strings(cmd) }
}

#[test]
fn process_executable_follows_the_preference_order() {
    let dirs = strings(&["/opt/bin"]);
    let p = process(Some("/usr/share/code/code (deleted)"), &["/usr/bin/code-wrapper", "--flag"]);
    assert_eq!(process_executable_given(&p, &dirs, true, true, &vec![true]), "/usr/share/code/code");
    assert_eq!(process_executable_given(&p, &dirs, false, true, &vec![true]), "/usr/bin/code-wrapper");
    assert_eq!(process_executable_given(&p, &dirs, false, false, &vec![true]), "/opt/bin/code");
    assert_eq!(process_executable_given(&p, &dirs, false, false, &vec![false]), "/usr/share/code/code");
}

#[test]
fn process_executable_falls_back_to_argv0_then_the_name() {
    let dirs = strings(&["/opt/bin"]);
    let self_exe = process(None, &["/proc/self/exe"]);
    assert_eq!(process_executable_given(&self_exe, &dirs, false, false, &vec![false]), "code");
    let argv_only = process(None, &["/usr/lib/slack/slack"]);
    assert_eq!(process_executable_given(&argv_only, &dirs, false, false, &vec![true]), "/opt/bin/slack");
    assert_eq!(process_executable_given(&argv_only, &dirs, false, false, &vec![false]), "/usr/lib/slack/slack");
}

#[test]
fn merge_fills_workspace_app_id_and_pid_from_duplicates() {
    let merged = merge_window_sources(vec![
        WindowSource::Wmctrl(vec![record(0, Some(3), "Slack", None), record(120, Some(1), "Editor", None)]),
        WindowSource::WaylandForeignToplevel(vec![
            record(450, None, " slack ", Some("com.slack.Slack")),
            record(7, None, "Terminal", None),
        ]),
    ]);
    let ws = merged.windows();
    assert_eq!(ws.len(), 3);
    let slack = ws.iter().find(|w| w.title.trim().to_lowercase() == "slack").expect("slack kept");
    assert_eq!(slack.pid, 450);
    assert_eq!(slack.desktop, Some(3));
    assert_eq!(slack.app_id.as_deref(), Some("com.slack.Slack"));
    assert!(ws.iter().any(|w| w.title == "Editor"));
    assert!(ws.iter().any(|w| w.title == "Terminal"));
    assert!(merged.has_window_for_pid(450));
    assert!(merged.has_window_for_pid(120));
    assert!(!merged.has_window_for_pid(7));
    assert!(!merged.has_window_for_pid(999));
}

#[test]
fn merged_pid_table_keeps_the_first_workspace() {
    let merged = merge_window_sources(vec![WindowSource::Wmctrl(vec![
        record(300, Some(2), "First", None),
        record(300, Some(5), "Second", None),
        record(8, Some(1), "Low pid", None),
    ])]);
    assert_eq!(merged.workspace_for_pid(300), Some(2));
    assert!(merged.has_window_for_pid(300));
    assert!(!merged.has_window_for_pid(8));
}

#[test]
fn denylist_ignores_surrounding_space() {
    for name in ["pipewire", "kworker/0:1", "firefox", "code", "chrome_crashpad_handler"] {
        assert_eq!(denylisted_basename(name), denylisted_basename(&format!("  {name}\t")));
    }
    assert!(denylisted_basename(" \n "));
}
