use maestro::activation::ActivationStepStatus;
use maestro::process_launcher::{
    flatpak_host_launch_given, map_application_spawn_results, resolved_spawn_argv, should_delay_after,
    spawn_argv_for, try_flatpak_host_launch, LaunchSpec, SpawnOutcome,
};
use maestro::profiles::ApplicationLaunchEntry;

fn spec(executable: &str, args: Vec<&str>) -> LaunchSpec {
    LaunchSpec { executable: executable.into(), args: args.into_iter().map(String::from).collect(), cwd: None }
}

#[test]
fn flatpak_host_maps_obsidian_sandbox_path() {
    let spec = spec("/app/obsidian", vec!["--foo"]);
    let (prog, argv) = resolved_spawn_argv(&spec, &vec!["/usr/bin".to_string()]);
    assert_eq!(prog, "flatpak");
    assert_eq!(argv, vec!["run", "md.obsidian.Obsidian", "--foo"]);
}

#[test]
fn maps_started_and_failed() {
    let specs = vec![spec("/bin/true", vec![]), spec("/bad/exec", vec![])];
    let outcomes = vec![SpawnOutcome::Started { pid: 42 }, SpawnOutcome::Failed { message: "nope".into() }];
    let rows = map_application_spawn_results(&specs, &outcomes);
    assert_eq!(rows.len(), 2);
    assert_eq!(rows[0].status, ActivationStepStatus::Success);
    assert_eq!(rows[0].pid, Some(42));
    assert_eq!(rows[1].status, ActivationStepStatus::Failure);
    assert_eq!(rows[1].detail.as_deref(), Some("nope"));
}

#[test]
fn other_sandbox_paths_are_not_rewritten() {
    assert!(try_flatpak_host_launch(&spec("/app/unknown-tool", vec![])).is_none());
    assert!(try_flatpak_host_launch(&spec("/usr/bin/obsidian", vec![])).is_none());
    let (prog, argv) = resolved_spawn_argv(&spec("/bin/true", vec!["-x"]), &vec![]);
    assert_eq!(prog, "/bin/true");
    assert_eq!(argv, vec!["-x".to_string()]);
}

#[test]
fn launch_spec_from_entry_copies_fields() {
    let entry = ApplicationLaunchEntry {
        executable: "/bin/true".into(),
        args: vec!["a".into()],
        cwd: Some("/tmp".into()),
        skip_if_running: Some(true),
        browser: None,
    };
    let s = LaunchSpec::from_entry(&entry);
    assert_eq!(s, LaunchSpec { executable: "/bin/true".into(), args: vec!["a".into()], cwd: Some("/tmp".into()) });
}

#[test]
fn delay_only_after_success_with_more_to_come() {
    assert!(should_delay_after(0, 3, true, 80));
    assert!(should_delay_after(1, 3, true, 80));
    assert!(!should_delay_after(2, 3, true, 80));
    assert!(!should_delay_after(0, 3, false, 80));
    assert!(!should_delay_after(0, 3, true, 0));
}

#[test]
fn flatpak_rewrite_applies_only_when_no_file_is_at_the_sandbox_path() {
    let s = spec(" /app/Obsidian ", vec!["--vault", "notes"]);
    let (prog, argv) = flatpak_host_launch_given(&s, false).expect("rewrite");
    assert_eq!(prog, "flatpak");
    assert_eq!(argv, vec!["run", "md.obsidian.Obsidian", "--vault", "notes"]);
    assert!(flatpak_host_launch_given(&s, true).is_none());
    assert!(flatpak_host_launch_given(&spec("/app/unknown-tool", vec![]), false).is_none());
}

#[test]
fn spawn_argv_for_uses_the_search_path_when_the_saved_path_is_gone() {
    let dirs = vec!["/usr/local/bin".to_string(), "/usr/bin".to_string()];
    let s = spec("/gone/install/tool (deleted)", vec!["a"]);
    let (prog, argv) = spawn_argv_for(&s, &dirs, false, false, &vec![false, true]);
    assert_eq!(prog, "/usr/bin/tool");
    assert_eq!(argv, vec!["a".to_string()]);
    let (prog, _) = spawn_argv_for(&s, &dirs, false, true, &vec![false, true]);
    assert_eq!(prog, "/gone/install/tool");
    let (prog, _) = spawn_argv_for(&s, &dirs, false, false, &vec![false, false]);
    assert_eq!(prog, "/gone/install/tool");
    let (prog, argv) = spawn_argv_for(&spec("/app/obsidian", vec![]), &dirs, false, false, &vec![true, true]);
    assert_eq!(prog, "flatpak");
    assert_eq!(argv, vec!["run", "md.obsidian.Obsidian"]);
}
