//! Launch specs for applications, the program and arguments a spec is
//! spawned with (including the Flatpak host rewrite), and the summary rows
//! of spawn outcomes. Spawning itself is done by the caller.

use vstd::prelude::*;

use crate::activation::{ActivationStepKind, ActivationStepStatus, ActivationStepSummary};
use crate::host::path_is_file;
use crate::platform::{
    base_name_of, launch_executable_given, launch_given, path_answers,
    strip_deleted_exe_suffix, unasked,
};
use crate::profiles::{append, launch_view, ApplicationLaunchEntry, LaunchView};
use crate::text::{
    chars_of, clone_opt_string, clone_string, clone_strings, file_name, file_name_chars, lower_chars,
    lowercase, opt_view, seqs_of, starts_with, string_of, trim, trim_str,
};

verus! {

/// One application launch.
#[derive(Debug, Clone, PartialEq, Eq)]
pub struct LaunchSpec {
    pub executable: String,
    pub args: Vec<String>,
    pub cwd: Option<String>,
}

pub struct LaunchSpecView {
    pub executable: Seq<char>,
    pub args: Seq<Seq<char>>,
    pub cwd: Option<Seq<char>>,
}

impl View for LaunchSpec {
    type V = LaunchSpecView;

    open spec fn view(&self) -> LaunchSpecView {
        LaunchSpecView { executable: self.executable@, args: seqs_of(self.args@), cwd: opt_view(self.cwd) }
    }
}

/// The launch spec of an entry: its executable, arguments and directory.
pub open spec fn spec_of(l: LaunchView) -> LaunchSpecView {
    LaunchSpecView { executable: l.executable, args: l.args, cwd: l.cwd }
}

impl LaunchSpec {
    pub fn from_entry(entry: &ApplicationLaunchEntry) -> (r: LaunchSpec)
        ensures
            r@ == spec_of(launch_view(*entry)),
    {
        LaunchSpec {
            executable: clone_string(&entry.executable),
            args: clone_strings(&entry.args),
            cwd: clone_opt_string(&entry.cwd),
        }
    }

    pub fn duplicate(&self) -> (r: LaunchSpec)
        ensures
            r@ == self@,
    {
        LaunchSpec {
            executable: clone_string(&self.executable),
            args: clone_strings(&self.args),
            cwd: clone_opt_string(&self.cwd),
        }
    }
}

/// The result of trying to start a detached child process.
#[derive(Debug, Clone, PartialEq, Eq)]
pub enum SpawnOutcome {
    Started { pid: u32 },
    Failed { message: String },
}

/// Flatpak apps know themselves as `/app/<name>`, which does not exist on
/// the host: a known name is started as `flatpak run <app id>` followed by
/// the profile's arguments, when no file is at that path.
pub open spec fn flatpak_rewrite(s: LaunchSpecView, is_file: bool) -> Option<(Seq<char>, Seq<Seq<char>>)> {
    let exe = trim(s.executable);
    if !starts_with(exe, "/app/"@) || is_file {
        None
    } else {
        match file_name(exe) {
            Some(n) => if lowercase(n) == "obsidian"@ {
                Some(("flatpak"@, seq!["run"@, "md.obsidian.Obsidian"@] + s.args))
            } else {
                None
            },
            None => None,
        }
    }
}

pub open spec fn argv_view(r: (String, Vec<String>)) -> (Seq<char>, Seq<Seq<char>>) {
    (r.0@, seqs_of(r.1@))
}

pub open spec fn opt_argv_view(r: Option<(String, Vec<String>)>) -> Option<(Seq<char>, Seq<Seq<char>>)> {
    match r {
        Some(x) => Some(argv_view(x)),
        None => None,
    }
}

/// The Flatpak host rewrite, where `is_file` is what the disk said of the
/// trimmed executable path.
pub fn flatpak_host_launch_given(spec: &LaunchSpec, is_file: bool) -> (r: Option<(String, Vec<String>)>)
    ensures
        opt_argv_view(r) == flatpak_rewrite(spec@, is_file),
{
    let exe = string_of(trim_str(spec.executable.as_str()).as_slice());
    let ev = chars_of(exe.as_str());
    if !crate::text::starts_lit(ev.as_slice(), "/app/") || is_file {
        return None;
    }
    let base = match file_name_chars(ev.as_slice()) {
        Some(n) => lower_chars(n.as_slice()),
        None => {
            return None;
        },
    };
    if !crate::text::is_lit(base.as_slice(), "obsidian") {
        return None;
    }
    let mut argv: Vec<String> = Vec::new();
    argv.push(String::from_str("run"));
    argv.push(String::from_str("md.obsidian.Obsidian"));
    let ghost head = seqs_of(argv@);
    assert(head =~= seq!["run"@, "md.obsidian.Obsidian"@]);
    let n = spec.args.len();
    for i in 0..n
        invariant
            n == spec.args@.len(),
            seqs_of(argv@) == head + seqs_of(spec.args@).take(i as int),
    {
        let ghost before = seqs_of(argv@);
        argv.push(clone_string(&spec.args[i]));
        assert(seqs_of(argv@) =~= before.push(spec.args@[i as int]@));
        assert(head + seqs_of(spec.args@).take(i + 1) =~= (head + seqs_of(spec.args@).take(i as int)).push(
            spec.args@[i as int]@,
        ));
    }
    assert(seqs_of(spec.args@).take(n as int) =~= seqs_of(spec.args@));
    Some((String::from_str("flatpak"), argv))
}

/// Asks the disk whether a regular file is at the trimmed executable path,
/// only when that path starts with `/app/`; otherwise nothing is asked and
/// the answer is no.
fn flatpak_path_answer(spec: &LaunchSpec) -> (r: bool)
    ensures
        !starts_with(trim(spec@.executable), "/app/"@) ==> !r,
{
    let exe = string_of(trim_str(spec.executable.as_str()).as_slice());
    let ev = chars_of(exe.as_str());
    if crate::text::starts_lit(ev.as_slice(), "/app/") {
        path_is_file(exe.as_str())
    } else {
        false
    }
}

/// The Flatpak host rewrite, asking the disk (see `flatpak_path_answer`)
/// whether a file is at the sandbox path.
pub fn try_flatpak_host_launch(spec: &LaunchSpec) -> (r: Option<(String, Vec<String>)>)
    ensures
        exists|is_file: bool| opt_argv_view(r) == #[trigger] flatpak_rewrite(spec@, is_file),
{
    let is_file = flatpak_path_answer(spec);
    flatpak_host_launch_given(spec, is_file)
}

/// What a spec is spawned with, given the disk's answers: `flat_is_file`
/// for the trimmed sandbox path, `cleaned_is_file` for the cleaned
/// executable path and `answers` for each search directory joined with its
/// basename. The Flatpak rewrite when it applies, else the executable as
/// `launch_given` resolves it, with the spec's arguments.
pub open spec fn spawn_argv_given(
    s: LaunchSpecView,
    dirs: Seq<Seq<char>>,
    flat_is_file: bool,
    cleaned_is_file: bool,
    answers: Seq<bool>,
) -> (Seq<char>, Seq<Seq<char>>) {
    match flatpak_rewrite(s, flat_is_file) {
        Some(x) => x,
        None => (launch_given(s.executable, dirs, cleaned_is_file, answers), s.args),
    }
}

/// Program and arguments a launch spec is spawned with, where the disk's
/// answers are given (see `spawn_argv_given`).
pub fn spawn_argv_for(
    spec: &LaunchSpec,
    dirs: &Vec<String>,
    flat_is_file: bool,
    cleaned_is_file: bool,
    is_file: &Vec<bool>,
) -> (r: (String, Vec<String>))
    requires
        is_file@.len() == dirs@.len(),
    ensures
        argv_view(r) == spawn_argv_given(spec@, seqs_of(dirs@), flat_is_file, cleaned_is_file, is_file@),
{
    match flatpak_host_launch_given(spec, flat_is_file) {
        Some(x) => x,
        None => {
            let program = launch_executable_given(spec.executable.as_str(), dirs, cleaned_is_file, is_file);
            (program, clone_strings(&spec.args))
        },
    }
}

/// Program and arguments a launch spec is spawned with; `dirs` is the
/// executable search path. The disk is asked, in this order and only as far
/// as needed: whether a file is at the trimmed path when it starts with
/// `/app/` (see `flatpak_path_answer`); when no Flatpak rewrite applies,
/// whether a file is at the cleaned path; when not, each search directory
/// joined with its basename in turn. The result is `spawn_argv_given` over
/// those answers.
pub fn resolved_spawn_argv(spec: &LaunchSpec, dirs: &Vec<String>) -> (r: (String, Vec<String>))
    ensures
        exists|flat_is_file: bool, cleaned_is_file: bool, a: Seq<bool>|
            a.len() == dirs@.len() && argv_view(r) == #[trigger] spawn_argv_given(
                spec@,
                seqs_of(dirs@),
                flat_is_file,
                cleaned_is_file,
                a,
            ),
{
    let flat_is_file = flatpak_path_answer(spec);
    match flatpak_host_launch_given(spec, flat_is_file) {
        Some(x) => {
            let ghost a = Seq::new(dirs@.len(), |i: int| false);
            assert(argv_view(x) == spawn_argv_given(spec@, seqs_of(dirs@), flat_is_file, false, a));
            x
        },
        None => {
            let cleaned = strip_deleted_exe_suffix(spec.executable.as_str());
            let cleaned_is_file = path_is_file(cleaned.as_str());
            let answers = if cleaned_is_file {
                unasked(dirs.len())
            } else {
                let base = base_name_of(cleaned.as_str());
                path_answers(base.as_str(), dirs)
            };
            spawn_argv_for(spec, dirs, flat_is_file, cleaned_is_file, &answers)
        },
    }
}

/// The summary row of an application spawn.
pub open spec fn app_row_ok(s: LaunchSpecView, o: SpawnOutcome, row: ActivationStepSummary) -> bool {
    &&& row.kind == ActivationStepKind::Application
    &&& row.label@ == s.executable
    &&& match o {
        SpawnOutcome::Started { pid } => row.status == ActivationStepStatus::Success && row.detail is None
            && row.pid == Some(pid),
        SpawnOutcome::Failed { message } => row.status == ActivationStepStatus::Failure && opt_view(
            row.detail,
        ) == Some(message@) && row.pid is None,
    }
}

/// The summary row of one application spawn outcome.
pub fn application_row(spec: &LaunchSpec, outcome: &SpawnOutcome) -> (r: ActivationStepSummary)
    ensures
        app_row_ok(spec@, *outcome, r),
{
    match outcome {
        SpawnOutcome::Started { pid } => ActivationStepSummary {
            kind: ActivationStepKind::Application,
            label: clone_string(&spec.executable),
            status: ActivationStepStatus::Success,
            detail: None,
            pid: Some(*pid),
        },
        SpawnOutcome::Failed { message } => ActivationStepSummary {
            kind: ActivationStepKind::Application,
            label: clone_string(&spec.executable),
            status: ActivationStepStatus::Failure,
            detail: Some(clone_string(message)),
            pid: None,
        },
    }
}

/// Zips launch specs with their spawn outcomes into summary rows, in order.
pub fn map_application_spawn_results(specs: &Vec<LaunchSpec>, outcomes: &Vec<SpawnOutcome>) -> (r: Vec<
    ActivationStepSummary,
>)
    requires
        specs@.len() == outcomes@.len(),
    ensures
        r@.len() == specs@.len(),
        forall|i: int| 0 <= i < specs@.len() ==> app_row_ok(specs@[i]@, outcomes@[i], #[trigger] r@[i]),
{
    let mut rows: Vec<ActivationStepSummary> = Vec::new();
    let n = specs.len();
    for i in 0..n
        invariant
            n == specs@.len(),
            n == outcomes@.len(),
            rows@.len() == i,
            forall|k: int| 0 <= k < i ==> app_row_ok(specs@[k]@, outcomes@[k], #[trigger] rows@[k]),
    {
        rows.push(application_row(&specs[i], &outcomes[i]));
    }
    rows
}

/// Whether to wait before the next launch: only after a successful start
/// with more launches to come and a positive delay.
pub fn should_delay_after(index: usize, total: usize, success: bool, delay_ms: u64) -> (r: bool)
    ensures
        r == (index + 1 < total && success && delay_ms > 0),
{
    index < total && total - index > 1 && success && delay_ms > 0
}

} // verus!
