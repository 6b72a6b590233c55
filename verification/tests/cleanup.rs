use maestro::cleanup::{
    allowed_executable_basenames, compute_divergences, kill_detail, process_not_found_message, sigterm_result,
    terminate_result_row, validate_user_cleanup_pid, CleanupDivergenceRow, KillAttempt, ProcessCandidate,
};
use maestro::profiles::{ApplicationLaunchEntry, ProfileBrowserBlock, ProfileCleanupRules, SessionProfile};
use maestro::settings::BrowserFamily;

fn sample_profile() -> SessionProfile {
    SessionProfile {
        schema_version: 1,
        session_id: "s".into(),
        name: "N".into(),
        applications: vec![ApplicationLaunchEntry {
            executable: "/usr/bin/gedit".into(),
            args: vec![],
            cwd: None,
            skip_if_running: None,
            browser: None,
        }],
        browser: Some(ProfileBrowserBlock {
            family: BrowserFamily::ChromiumLike,
            executable: "/snap/bin/chromium".into(),
            user_data_dir: None,
            firefox_profile: None,
            firefox_no_remote: None,
            urls: vec![],
        }),
        cleanup: Some(ProfileCleanupRules { allow_extra_basenames: vec!["dockerd".into()] }),
    }
}

fn candidate(pid: u32, basename: &str) -> ProcessCandidate {
    ProcessCandidate { pid, executable_basename: basename.into(), cmd_preview: basename.into() }
}

#[test]
fn allowed_contains_app_browser_and_cleanup_extras() {
    let p = sample_profile();
    let a = allowed_executable_basenames(&p);
    assert!(a.contains(&"gedit".to_string()));
    assert!(a.contains(&"chromium".to_string()));
    assert!(a.contains(&"dockerd".to_string()));
}

#[test]
fn divergences_exclude_allowed_basenames() {
    let p = sample_profile();
    let allowed = allowed_executable_basenames(&p);
    let candidates = vec![candidate(10, "random-app"), candidate(11, "gedit")];
    let div = compute_divergences(&candidates, &allowed);
    assert_eq!(div.len(), 1);
    assert_eq!(div[0].pid, 10);
}

#[test]
fn allowed_set_lists_each_basename_once_and_drops_blank_extras() {
    let mut p = sample_profile();
    p.applications.push(ApplicationLaunchEntry {
        executable: "/opt/GEDIT".into(),
        args: vec![],
        cwd: None,
        skip_if_running: None,
        browser: None,
    });
    p.cleanup = Some(ProfileCleanupRules { allow_extra_basenames: vec!["  ".into(), " Docker ".into()] });
    let a = allowed_executable_basenames(&p);
    assert_eq!(a.len(), 3);
    assert!(a.contains(&"docker".to_string()));
    assert!(!a.contains(&"".to_string()));
}

#[test]
fn divergences_keep_candidate_order() {
    let allowed = vec!["b".to_string()];
    let div = compute_divergences(&vec![candidate(3, "c"), candidate(2, "b"), candidate(1, "a")], &allowed);
    assert_eq!(div.iter().map(|c| c.pid).collect::<Vec<_>>(), vec![3, 1]);
    let row = CleanupDivergenceRow::from_candidate(&div[0]);
    assert_eq!(row.pid, 3);
    assert_eq!(row.executable_basename, "c");
}

#[test]
fn refuses_pid_zero_one_and_self() {
    assert_eq!(validate_user_cleanup_pid(0, 500), Err("refusing signals for pid 0 or 1".to_string()));
    assert_eq!(validate_user_cleanup_pid(1, 500), Err("refusing signals for pid 0 or 1".to_string()));
    assert_eq!(
        validate_user_cleanup_pid(500, 500),
        Err("refusing to signal the Maestro process itself".to_string())
    );
    assert_eq!(validate_user_cleanup_pid(501, 500), Ok(()));
}

#[test]
fn termination_messages() {
    assert_eq!(process_not_found_message(42), "process 42 not found");
    assert_eq!(sigterm_result(42, None), Err("SIGTERM is not supported on this platform".to_string()));
    assert_eq!(sigterm_result(42, Some(false)), Err("failed to send SIGTERM to pid 42".to_string()));
    assert_eq!(sigterm_result(42, Some(true)), Ok("SIGTERM sent to pid 42".to_string()));
    let d = "SIGTERM sent to pid 42";
    assert_eq!(kill_detail(d, 500, KillAttempt::Exited), "SIGTERM sent to pid 42; exited before SIGKILL after 500 ms");
    assert_eq!(kill_detail(d, 500, KillAttempt::Unsupported), "SIGTERM sent to pid 42; SIGKILL unsupported on this platform");
    assert_eq!(kill_detail(d, 500, KillAttempt::Failed), "SIGTERM sent to pid 42; SIGKILL failed");
    assert_eq!(
        kill_detail(d, 500, KillAttempt::Sent),
        "SIGTERM sent to pid 42; SIGKILL sent after 500 ms (still running)"
    );
    let row = terminate_result_row(42, Err("x".into()));
    assert!(!row.ok);
    assert_eq!(row.message, "x");
    assert!(terminate_result_row(42, Ok("y".into())).ok);
}
