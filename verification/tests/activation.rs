use maestro::activation::{
    build_planned_activation, entry_skip_detail, preview_session_activation, preview_steps_from_plan,
    start_activation, validate_before_activation, ActivationError, ActivationRun, ActivationStepKind,
    ActivationStepStatus, PlannedActivationItem, RunAction,
};
use maestro::platform::executable_basename;
use maestro::process_launcher::{resolved_spawn_argv, LaunchSpec, SpawnOutcome};
use maestro::profiles::{
    ApplicationBrowserSettings, ApplicationLaunchEntry, ProfileBrowserBlock, SessionProfile,
};
use maestro::settings::BrowserFamily;

fn search_dirs() -> Vec<String> {
    vec!["/usr/local/bin".to_string(), "/usr/bin".to_string(), "/bin".to_string()]
}

fn app(executable: &str, args: Vec<&str>) -> ApplicationLaunchEntry {
    ApplicationLaunchEntry {
        executable: executable.into(),
        args: args.into_iter().map(String::from).collect(),
        cwd: None,
        skip_if_running: None,
        browser: None,
    }
}

fn profile_with(applications: Vec<ApplicationLaunchEntry>) -> SessionProfile {
    SessionProfile {
        schema_version: 1,
        session_id: "sid".into(),
        name: "N".into(),
        applications,
        browser: None,
        cleanup: None,
    }
}

#[test]
fn preview_argv_matches_resolved_spawn_for_single_app() {
    let p = SessionProfile {
        schema_version: 1,
        session_id: "sid".into(),
        name: "N".into(),
        applications: vec![ApplicationLaunchEntry {
            executable: "/bin/true".into(),
            args: vec!["--foo".into()],
            cwd: Some("/tmp".into()),
            skip_if_running: None,
            browser: None,
        }],
        browser: None,
        cleanup: None,
    };
    let dirs = search_dirs();
    let plan = build_planned_activation(&p, "/x.json", &vec![]).expect("plan");
    let preview = preview_steps_from_plan(&plan, &dirs);
    assert_eq!(preview.len(), 1);
    let spec = LaunchSpec::from_entry(&p.applications[0]);
    let (prog, args) = resolved_spawn_argv(&spec, &dirs);
    let mut expected = vec![prog];
    expected.extend(args);
    assert_eq!(preview[0].argv, expected);
}

#[test]
fn flatpak_rewrite_preview_matches_resolved_spawn() {
    let p = SessionProfile {
        schema_version: 1,
        session_id: "sid".into(),
        name: "N".into(),
        applications: vec![ApplicationLaunchEntry {
            executable: "/app/obsidian".into(),
            args: vec!["--verbose".into()],
            cwd: None,
            skip_if_running: None,
            browser: None,
        }],
        browser: None,
        cleanup: None,
    };
    let dirs = search_dirs();
    let plan = build_planned_activation(&p, "/x.json", &vec![]).expect("plan");
    let preview = preview_steps_from_plan(&plan, &dirs);
    let spec = LaunchSpec::from_entry(&p.applications[0]);
    let (prog, args) = resolved_spawn_argv(&spec, &dirs);
    let mut expected = vec![prog];
    expected.extend(args);
    assert_eq!(preview[0].argv, expected);
    assert_eq!(preview[0].argv[0], "flatpak");
}

#[test]
fn browser_preview_includes_program_in_argv() {
    let p = SessionProfile {
        schema_version: 1,
        session_id: "sid".into(),
        name: "N".into(),
        applications: vec![ApplicationLaunchEntry {
            executable: "/bin/true".into(),
            args: vec![],
            cwd: None,
            skip_if_running: None,
            browser: Some(ApplicationBrowserSettings {
                family: BrowserFamily::ChromiumLike,
                user_data_dir: Some("/tmp/ud".into()),
                firefox_profile: None,
                firefox_no_remote: None,
                urls: vec!["https://a.example".into()],
            }),
        }],
        browser: None,
        cleanup: None,
    };
    let plan = build_planned_activation(&p, "/x.json", &vec![]).expect("plan");
    let preview = preview_steps_from_plan(&plan, &search_dirs());
    let browser_steps: Vec<_> = preview.iter().filter(|s| s.step_type == "browser").collect();
    assert_eq!(browser_steps.len(), 1);
    assert_eq!(browser_steps[0].argv[0], "/bin/true");
    assert!(browser_steps[0].argv.contains(&"--new-window".to_string()));
}

#[test]
fn basename_from_path_is_file_component_lower() {
    assert_eq!(executable_basename("/usr/bin/Foo"), "foo");
}

#[test]
fn basename_plain_name_lower() {
    assert_eq!(executable_basename("Cursor"), "cursor");
}

#[test]
fn skip_detail_when_policy_and_match() {
    let entry = ApplicationLaunchEntry {
        executable: "/bin/sh".into(),
        args: vec![],
        cwd: None,
        skip_if_running: Some(true),
        browser: None,
    };
    let set = vec!["sh".to_string()];
    let d = entry_skip_detail(&entry, &set).expect("skip");
    assert!(d.contains("sh"));
}

#[test]
fn no_skip_editor_with_folder_target_when_running() {
    let entry = ApplicationLaunchEntry {
        executable: "/usr/share/cursor/cursor".into(),
        args: vec!["--reuse-window".into(), "/home/user/openspectutorial".into()],
        cwd: Some("/home/user/openspectutorial".into()),
        skip_if_running: Some(true),
        browser: None,
    };
    let set = vec!["cursor".to_string()];
    assert!(entry_skip_detail(&entry, &set).is_none());
}

#[test]
fn no_skip_when_policy_off() {
    let entry = ApplicationLaunchEntry {
        executable: "/bin/sh".into(),
        args: vec![],
        cwd: None,
        skip_if_running: None,
        browser: None,
    };
    let set = vec!["sh".to_string()];
    assert!(entry_skip_detail(&entry, &set).is_none());
}

#[test]
fn rejects_profile_before_spawn_semantics() {
    let p = SessionProfile {
        schema_version: 1,
        session_id: "id".into(),
        name: "n".into(),
        applications: vec![ApplicationLaunchEntry {
            executable: "".into(),
            args: vec![],
            cwd: None,
            skip_if_running: None,
            browser: None,
        }],
        browser: None,
        cleanup: None,
    };
    assert!(validate_before_activation(&p, "/x.json").is_err());
}

#[test]
fn accepts_valid_minimal_profile() {
    let p = SessionProfile {
        schema_version: 1,
        session_id: "sid".into(),
        name: "N".into(),
        applications: vec![ApplicationLaunchEntry {
            executable: "/bin/true".into(),
            args: vec![],
            cwd: None,
            skip_if_running: None,
            browser: None,
        }],
        browser: None,
        cleanup: None,
    };
    validate_before_activation(&p, "/ok.json").expect("valid");
}

#[test]
fn skip_detail_names_the_running_basename() {
    let entry = ApplicationLaunchEntry {
        executable: "/usr/bin/Slack".into(),
        args: vec![],
        cwd: None,
        skip_if_running: Some(true),
        browser: None,
    };
    assert_eq!(
        entry_skip_detail(&entry, &vec!["slack".to_string()]),
        Some("skipped: executable basename `slack` is already running".to_string())
    );
    assert!(entry_skip_detail(&entry, &vec!["other".to_string()]).is_none());
}

#[test]
fn plan_puts_top_level_browser_first_then_applications_in_order() {
    let mut p = profile_with(vec![app("/bin/true", vec![]), app("/bin/false", vec!["-x"])]);
    p.browser = Some(ProfileBrowserBlock {
        family: BrowserFamily::ChromiumLike,
        executable: "chromium".into(),
        user_data_dir: None,
        firefox_profile: None,
        firefox_no_remote: None,
        urls: vec!["https://a.example".into()],
    });
    let plan = build_planned_activation(&p, "/x.json", &vec![]).expect("plan");
    assert_eq!(plan.len(), 4);
    assert!(matches!(&plan[0], PlannedActivationItem::BrowserWarning(_)));
    match &plan[1] {
        PlannedActivationItem::BrowserLaunch { program, args } => {
            assert_eq!(program, "chromium");
            assert_eq!(args, &vec!["--new-window".to_string(), "https://a.example".to_string()]);
        }
        other => panic!("unexpected first item {other:?}"),
    }
    match &plan[3] {
        PlannedActivationItem::Application { spec, skip_detail } => {
            assert_eq!(spec.executable, "/bin/false");
            assert_eq!(spec.args, vec!["-x".to_string()]);
            assert!(skip_detail.is_none());
        }
        other => panic!("unexpected last item {other:?}"),
    }
}

#[test]
fn invalid_profile_has_no_plan_and_no_preview() {
    let p = profile_with(vec![app("   ", vec![])]);
    assert!(matches!(
        build_planned_activation(&p, "/x.json", &vec![]),
        Err(ActivationError::Profile(_))
    ));
    assert!(preview_session_activation(&p, "/x.json", &vec![], &search_dirs()).is_err());
    assert!(start_activation(&p, "/x.json", &vec![]).is_err());
}

#[test]
fn preview_marks_running_entry_as_skipped() {
    let mut e = app("/bin/sh", vec![]);
    e.skip_if_running = Some(true);
    let p = profile_with(vec![e]);
    let steps = preview_session_activation(&p, "/x.json", &vec!["sh".to_string()], &search_dirs())
        .expect("preview");
    assert_eq!(steps.len(), 1);
    assert_eq!(steps[0].step_type, "application");
    assert_eq!(steps[0].would_skip, Some(true));
    assert_eq!(steps[0].skip_detail.as_deref(), Some("skipped: executable basename `sh` is already running"));
}

#[test]
fn activation_run_spawns_each_application_and_reports_rows() {
    let p = profile_with(vec![app("/bin/true", vec![]), app("/bad/exec", vec![])]);
    let mut run = start_activation(&p, "/x.json", &vec![]).expect("run");
    let mut spawned = 0;
    loop {
        match run.next_action() {
            RunAction::SpawnApplication(_) => {
                spawned += 1;
                let outcome = if spawned == 1 {
                    SpawnOutcome::Started { pid: 7 }
                } else {
                    SpawnOutcome::Failed { message: "nope".into() }
                };
                run.record_outcome(outcome);
            }
            RunAction::SpawnBrowser { .. } => panic!("no browser in this profile"),
            RunAction::Finished => break,
        }
    }
    assert_eq!(spawned, 2);
    let result = run.finish(None);
    assert_eq!(result.steps.len(), 2);
    assert_eq!(result.steps[0].kind, ActivationStepKind::Application);
    assert_eq!(result.steps[0].status, ActivationStepStatus::Success);
    assert_eq!(result.steps[0].pid, Some(7));
    assert_eq!(result.steps[1].status, ActivationStepStatus::Failure);
    assert_eq!(result.steps[1].detail.as_deref(), Some("nope"));
    let mut empty = ActivationRun::new(vec![]);
    assert!(matches!(empty.next_action(), RunAction::Finished));
}

#[test]
fn activation_run_launches_browser_then_application() {
    let mut p = profile_with(vec![app("/bin/true", vec![])]);
    p.browser = Some(ProfileBrowserBlock {
        family: BrowserFamily::Firefox,
        executable: "/usr/bin/firefox".into(),
        user_data_dir: None,
        firefox_profile: None,
        firefox_no_remote: None,
        urls: vec![],
    });
    let mut run = start_activation(&p, "/x.json", &vec![]).expect("run");
    match run.next_action() {
        RunAction::SpawnBrowser { program, args } => {
            assert_eq!(program, "/usr/bin/firefox");
            assert_eq!(args, vec!["--new-window".to_string()]);
        }
        _ => panic!("browser first"),
    }
    run.record_outcome(SpawnOutcome::Started { pid: 10 });
    match run.next_action() {
        RunAction::SpawnApplication(spec) => assert_eq!(spec.executable, "/bin/true"),
        _ => panic!("application second"),
    }
    run.record_outcome(SpawnOutcome::Started { pid: 11 });
    assert!(matches!(run.next_action(), RunAction::Finished));
    let result = run.finish(Some("/tmp/log.txt".into()));
    assert_eq!(result.steps.len(), 3);
    assert_eq!(result.steps[0].kind, ActivationStepKind::Browser);
    assert_eq!(result.steps[0].status, ActivationStepStatus::Warning);
    assert_eq!(result.steps[1].kind, ActivationStepKind::Browser);
    assert_eq!(result.steps[1].label, "Browser");
    assert_eq!(result.steps[1].pid, Some(10));
    assert_eq!(result.steps[2].kind, ActivationStepKind::Application);
    assert_eq!(result.steps[2].pid, Some(11));
    assert_eq!(result.activation_log_path.as_deref(), Some("/tmp/log.txt"));
}

#[test]
fn activation_run_records_skips_without_spawning() {
    let mut e = app("/bin/sh", vec![]);
    e.skip_if_running = Some(true);
    let p = profile_with(vec![e]);
    let mut run = start_activation(&p, "/x.json", &vec!["sh".to_string()]).expect("run");
    assert!(matches!(run.next_action(), RunAction::Finished));
    let result = run.finish(None);
    assert_eq!(result.steps.len(), 1);
    assert_eq!(result.steps[0].status, ActivationStepStatus::Skipped);
}

fn drive(run: &mut ActivationRun, pid: u32) {
    loop {
        match run.next_action() {
            RunAction::SpawnBrowser { .. } | RunAction::SpawnApplication(_) => {
                run.record_outcome(SpawnOutcome::Started { pid })
            }
            RunAction::Finished => break,
        }
    }
}

#[test]
fn invalid_profile_errors_before_spawn() {
    let p = profile_with(vec![app("", vec![])]);
    assert!(matches!(start_activation(&p, "/x.json", &vec![]), Err(ActivationError::Profile(_))));
}

#[test]
fn launches_one_application_without_browser() {
    let p = profile_with(vec![app("/bin/true", vec![])]);
    let mut run = start_activation(&p, "/ok.json", &vec![]).expect("ok");
    drive(&mut run, 4242);
    let out = run.finish(None);
    assert_eq!(out.steps.len(), 1);
    assert_eq!(out.steps[0].kind, ActivationStepKind::Application);
    assert_eq!(out.steps[0].status, ActivationStepStatus::Success);
    assert!(out.steps[0].pid.is_some());
}

#[test]
fn browser_then_app_two_steps() {
    let mut p = profile_with(vec![app("/bin/true", vec![])]);
    p.browser = Some(ProfileBrowserBlock {
        family: BrowserFamily::ChromiumLike,
        executable: "/bin/true".into(),
        user_data_dir: Some("/tmp/maestro-test-ud".into()),
        firefox_profile: None,
        firefox_no_remote: None,
        urls: vec![],
    });
    let mut run = start_activation(&p, "/ok.json", &vec![]).expect("ok");
    drive(&mut run, 7);
    let out = run.finish(None);
    let steps = &out.steps;
    assert!(steps.len() >= 2, "expected browser row + app row, got {steps:?}");
    assert_eq!(steps[0].kind, ActivationStepKind::Browser);
    assert_eq!(steps[steps.len() - 1].kind, ActivationStepKind::Application);
}

#[test]
fn preview_argv_matches_post_validation_plan() {
    let p = SessionProfile {
        schema_version: 1,
        session_id: "sid".into(),
        name: "N".into(),
        applications: vec![ApplicationLaunchEntry {
            executable: "/bin/sh".into(),
            args: vec!["-c".into(), "exit 0".into()],
            cwd: Some("/".into()),
            skip_if_running: None,
            browser: None,
        }],
        browser: None,
        cleanup: None,
    };
    let dirs = search_dirs();
    let prev = preview_session_activation(&p, "/ok.json", &vec![], &dirs).expect("preview");
    let mut run = start_activation(&p, "/ok.json", &vec![]).expect("ok");
    drive(&mut run, 9);
    let out = run.finish(None);
    assert_eq!(prev.len(), out.steps.len());
    let spec = LaunchSpec::from_entry(&p.applications[0]);
    let (prog, args) = resolved_spawn_argv(&spec, &dirs);
    let mut expected_argv = vec![prog];
    expected_argv.extend(args);
    assert_eq!(prev[0].argv, expected_argv);
}

#[test]
fn preview_without_browsers_has_one_application_row_per_entry() {
    let mut second = app("/usr/bin/env", vec!["true"]);
    second.cwd = Some("/tmp".into());
    let p = profile_with(vec![app("/bin/true", vec![]), second]);
    let dirs = search_dirs();
    let rows = preview_session_activation(&p, "/x.json", &vec![], &dirs).expect("preview");
    assert_eq!(rows.len(), 2);
    for (row, entry) in rows.iter().zip(p.applications.iter()) {
        assert_eq!(row.step_type, "application");
        assert_eq!(row.label, entry.executable);
        assert_eq!(row.cwd, entry.cwd);
        let (prog, args) = resolved_spawn_argv(&LaunchSpec::from_entry(entry), &dirs);
        let mut expected = vec![prog];
        expected.extend(args);
        assert_eq!(row.argv, expected);
    }
}

#[test]
fn preview_rows_agree_with_run_rows() {
    let mut skipped = app("/bin/sh", vec![]);
    skipped.skip_if_running = Some(true);
    let mut p = profile_with(vec![skipped, app("/bin/true", vec![])]);
    p.browser = Some(ProfileBrowserBlock {
        family: BrowserFamily::ChromiumLike,
        executable: "/bin/true".into(),
        user_data_dir: None,
        firefox_profile: None,
        firefox_no_remote: None,
        urls: vec!["https://example.org".into()],
    });
    let running = vec!["sh".to_string()];
    let preview = preview_session_activation(&p, "/ok.json", &running, &search_dirs()).expect("preview");
    let mut run = start_activation(&p, "/ok.json", &running).expect("ok");
    drive(&mut run, 31);
    let out = run.finish(None);
    assert_eq!(preview.len(), out.steps.len());
    assert!(preview.len() >= 3);
    for (row, step) in preview.iter().zip(out.steps.iter()) {
        assert_eq!(step.kind == ActivationStepKind::Browser, row.step_type != "application");
        assert_eq!(step.status == ActivationStepStatus::Skipped, row.would_skip == Some(true));
        assert_eq!(step.status == ActivationStepStatus::Warning, row.step_type == "browser_warning");
    }
}
