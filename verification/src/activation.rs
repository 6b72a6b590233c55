//! Session activation: validation before any spawn, the single activation
//! plan that both the preview and the run follow, skip-if-running, and
//! the run itself as a state machine whose spawns are carried out by the
//! caller.

use vstd::prelude::*;

use crate::browser::{browser_args, build_browser_launch, isolation_warnings, BrowserError};
use crate::editors::{is_known_editor_basename, known_editor};
use crate::platform::{exe_basename, executable_basename, strip_deleted, strip_deleted_exe_suffix, ProcessInfo};
use crate::process_launcher::{
    app_row_ok, argv_view, application_row, resolved_spawn_argv, spawn_argv_given, spec_of, LaunchSpec,
    LaunchSpecView, SpawnOutcome,
};
use crate::profiles::{
    append, block_launch_view, block_view, launch_block, launch_view, normalized_launches, violation,
    violation_error, ApplicationBrowserSettings, ApplicationLaunchEntry, BlockView, LaunchView,
    ProfileBrowserBlock, ProfileError, ProfileErrorView, SessionProfile, first_blank_executable,
};
use crate::text::{
    chars_of, clone_opt_string, clone_string, clone_strings, file_name, file_name_chars, is_absolute,
    lower_chars, lowercase, opt_view, seqs_of, starts_with, string_of, trim, trim_str,
};

verus! {

#[derive(Debug, Clone, Copy, PartialEq, Eq, Structural)]
pub enum ActivationStepKind {
    Application,
    Browser,
}

#[derive(Debug, Clone, Copy, PartialEq, Eq, Structural)]
pub enum ActivationStepStatus {
    Success,
    Failure,
    Warning,
    Skipped,
}

/// One step of an activation, as reported to the user.
#[derive(Debug, Clone, PartialEq, Eq)]
pub struct ActivationStepSummary {
    pub kind: ActivationStepKind,
    pub label: String,
    pub status: ActivationStepStatus,
    pub detail: Option<String>,
    pub pid: Option<u32>,
}

/// The steps of an activation, and the transcript file when one was kept.
#[derive(Debug, Clone, PartialEq, Eq)]
pub struct ActivateSessionResult {
    pub steps: Vec<ActivationStepSummary>,
    pub activation_log_path: Option<String>,
}

/// Why an activation did not start.
#[derive(Debug, Clone, PartialEq, Eq)]
pub enum ActivationError {
    Profile(ProfileError),
    Browser(BrowserError),
}

impl ActivationError {
    pub fn message(&self) -> (r: String)
        ensures
            self matches ActivationError::Profile(e) ==> r@ == crate::profiles::error_text(e@),
    {
        match self {
            ActivationError::Profile(e) => e.message(),
            ActivationError::Browser(e) => e.message(),
        }
    }
}

/// Validates a profile before any browser or application is spawned.
pub fn validate_before_activation(profile: &SessionProfile, path_label: &str) -> (r: Result<(), ActivationError>)
    ensures
        match r {
            Ok(()) => violation(*profile) is None,
            Err(e) => violation(*profile) matches Some(v) && e matches ActivationError::Profile(pe) && pe@
                == violation_error(v, path_label@, profile.schema_version),
        },
{
    match profile.validate(path_label) {
        Ok(()) => Ok(()),
        Err(e) => Err(ActivationError::Profile(e)),
    }
}

// ---------------------------------------------------------------------------
// Skip if running
// ---------------------------------------------------------------------------

/// An editor entry with a folder or file argument is launched even when
/// the editor runs, so that the target opens.
pub open spec fn relaunch_for(executable: Seq<char>, args: Seq<Seq<char>>) -> bool {
    known_editor(exe_basename(executable)) && exists|i: int|
        0 <= i < args.len() && !starts_with(trim(#[trigger] args[i]), "-"@) && is_absolute(trim(args[i]))
}

pub open spec fn relaunch_with_target(l: LaunchView) -> bool {
    relaunch_for(l.executable, l.args)
}

/// The skip note of an entry: only with `skip_if_running` set, not for an
/// editor opening a target, and only when its basename runs.
pub open spec fn skip_detail_for(
    executable: Seq<char>,
    args: Seq<Seq<char>>,
    skip_if_running: Option<bool>,
    running: Seq<Seq<char>>,
) -> Option<Seq<char>> {
    let b = exe_basename(executable);
    if skip_if_running != Some(true) || relaunch_for(executable, args) {
        None
    } else if running.contains(b) {
        Some("skipped: executable basename `"@ + b + "` is already running"@)
    } else {
        None
    }
}

pub open spec fn skip_detail_spec(l: LaunchView, running: Seq<Seq<char>>) -> Option<Seq<char>> {
    skip_detail_for(l.executable, l.args, l.skip_if_running, running)
}

/// Skipping is opt-in: an entry whose `skip_if_running` is not `Some(true)`
/// (unset or explicitly off) is never skipped, whatever runs. A skipped
/// entry's executable basename is among the running ones, and its note
/// names that basename; with the option on, an entry that is not an editor
/// opening a target is skipped exactly when its basename runs, and an
/// editor opening a target is never skipped.
pub proof fn law_skip_only_when_asked(l: LaunchView, running: Seq<Seq<char>>)
    ensures
        l.skip_if_running != Some(true) ==> skip_detail_spec(l, running) is None,
        skip_detail_spec(l, running) matches Some(note) ==> running.contains(exe_basename(l.executable))
            && note == "skipped: executable basename `"@ + exe_basename(l.executable) + "` is already running"@,
        l.skip_if_running == Some(true) && !relaunch_for(l.executable, l.args) ==> (skip_detail_spec(l, running)
            is Some <==> running.contains(exe_basename(l.executable))),
        relaunch_for(l.executable, l.args) ==> skip_detail_spec(l, running) is None,
{
}

fn has_target_arg(args: &Vec<String>) -> (r: bool)
    ensures
        r == exists|i: int|
            0 <= i < seqs_of(args@).len() && !starts_with(trim(#[trigger] seqs_of(args@)[i]), "-"@)
                && is_absolute(trim(seqs_of(args@)[i])),
{
    let n = args.len();
    for i in 0..n
        invariant
            n == args@.len(),
            forall|k: int|
                0 <= k < i ==> !(!starts_with(trim(#[trigger] seqs_of(args@)[k]), "-"@) && is_absolute(
                    trim(seqs_of(args@)[k]),
                )),
    {
        let t = trim_str(args[i].as_str());
        assert(seqs_of(args@)[i as int] == args@[i as int]@);
        if !crate::text::starts_lit(t.as_slice(), "-") && t.len() > 0 && t[0] == '/' {
            return true;
        }
    }
    false
}

fn contains_string(v: &Vec<String>, s: &String) -> (r: bool)
    ensures
        r == seqs_of(v@).contains(s@),
{
    let sv = chars_of(s.as_str());
    let n = v.len();
    for i in 0..n
        invariant
            n == v@.len(),
            sv@ == s@,
            forall|k: int| 0 <= k < i ==> #[trigger] seqs_of(v@)[k] != s@,
    {
        if crate::text::chars_eq(chars_of(v[i].as_str()).as_slice(), sv.as_slice()) {
            assert(seqs_of(v@)[i as int] == s@);
            return true;
        }
    }
    false
}

fn skip_detail_of(executable: &String, args: &Vec<String>, skip_if_running: Option<bool>, running: &Vec<String>) -> (r:
    Option<String>)
    ensures
        opt_view(r) == skip_detail_for(executable@, seqs_of(args@), skip_if_running, seqs_of(running@)),
{
    match skip_if_running {
        Some(true) => {},
        _ => {
            return None;
        },
    }
    let b = executable_basename(executable.as_str());
    if is_known_editor_basename(b.as_str()) && has_target_arg(args) {
        return None;
    }
    if contains_string(running, &b) {
        let mut o: Vec<char> = Vec::new();
        append(&mut o, "skipped: executable basename `");
        append(&mut o, b.as_str());
        append(&mut o, "` is already running");
        Some(string_of(o.as_slice()))
    } else {
        None
    }
}

/// The skip note of an application entry (see `skip_detail_spec`).
pub fn entry_skip_detail(entry: &ApplicationLaunchEntry, running: &Vec<String>) -> (r: Option<String>)
    ensures
        opt_view(r) == skip_detail_spec(launch_view(*entry), seqs_of(running@)),
{
    skip_detail_of(&entry.executable, &entry.args, entry.skip_if_running, running)
}

/// Whether an editor entry should be launched to open its target.
pub fn editor_should_relaunch_with_target(entry: &ApplicationLaunchEntry) -> (r: bool)
    ensures
        r == relaunch_with_target(launch_view(*entry)),
{
    let b = executable_basename(entry.executable.as_str());
    is_known_editor_basename(b.as_str()) && has_target_arg(&entry.args)
}

/// The running-basename key of a process: the lower-cased file name of
/// its cleaned `/proc` path, else its lower-cased name.
pub open spec fn running_key(p: ProcessInfo) -> Seq<char> {
    let from_exe = match p.exe {
        Some(e) => match file_name(strip_deleted(e@)) {
            Some(n) => Some(lowercase(n)),
            None => None,
        },
        None => None,
    };
    match from_exe {
        Some(k) => k,
        None => lowercase(p.name@),
    }
}

fn running_key_of(p: &ProcessInfo) -> (r: String)
    ensures
        r@ == running_key(*p),
{
    match &p.exe {
        Some(e) => {
            let cleaned = strip_deleted_exe_suffix(e.as_str());
            match file_name_chars(chars_of(cleaned.as_str()).as_slice()) {
                Some(n) => {
                    return string_of(lower_chars(n.as_slice()).as_slice());
                },
                None => {},
            }
        },
        None => {},
    }
    string_of(lower_chars(chars_of(p.name.as_str()).as_slice()).as_slice())
}

/// The set of executable basenames running: each non-empty process key,
/// once.
pub fn running_executable_basenames(procs: &Vec<ProcessInfo>) -> (r: Vec<String>)
    ensures
        forall|x: Seq<char>|
            seqs_of(r@).contains(x) <==> (x.len() > 0 && exists|i: int|
                0 <= i < procs@.len() && #[trigger] running_key(procs@[i]) == x),
        forall|a: int, b: int| 0 <= a < b < r@.len() ==> r@[a]@ != r@[b]@,
{
    let mut set: Vec<String> = Vec::new();
    let n = procs.len();
    for i in 0..n
        invariant
            n == procs@.len(),
            forall|x: Seq<char>|
                seqs_of(set@).contains(x) <==> (x.len() > 0 && exists|k: int|
                    0 <= k < i && #[trigger] running_key(procs@[k]) == x),
            forall|a: int, b: int| 0 <= a < b < set@.len() ==> set@[a]@ != set@[b]@,
    {
        let key = running_key_of(&procs[i]);
        let present = contains_string(&set, &key);
        let ghost before = seqs_of(set@);
        let ghost kv = running_key(procs@[i as int]);
        if key.as_str().unicode_len() > 0 && !present {
            set.push(key);
            proof {
                assert(seqs_of(set@) =~= before.push(kv));
                assert forall|x: Seq<char>|
                    seqs_of(set@).contains(x) <==> (x.len() > 0 && exists|k: int|
                        0 <= k < i + 1 && #[trigger] running_key(procs@[k]) == x) by {
                    if seqs_of(set@).contains(x) {
                        let j = choose|j: int| 0 <= j < seqs_of(set@).len() && seqs_of(set@)[j] == x;
                        if j < before.len() {
                            assert(before[j] == x);
                            assert(before.contains(x));
                        } else {
                            assert(running_key(procs@[i as int]) == x);
                        }
                    }
                    if x.len() > 0 && exists|k: int| 0 <= k < i + 1 && #[trigger] running_key(procs@[k]) == x {
                        let k = choose|k: int| 0 <= k < i + 1 && #[trigger] running_key(procs@[k]) == x;
                        if k < i {
                            assert(before.contains(x));
                            let j = choose|j: int| 0 <= j < before.len() && before[j] == x;
                            assert(seqs_of(set@)[j] == x);
                        } else {
                            assert(seqs_of(set@)[before.len() as int] == x);
                        }
                    }
                }
                assert forall|a: int, b: int| 0 <= a < b < set@.len() implies set@[a]@ != set@[b]@ by {
                    if b == set@.len() - 1 {
                        assert(before[a] == set@[a]@);
                        assert(before.contains(set@[a]@));
                    } else {
                        assert(before[a] == set@[a]@ && before[b] == set@[b]@);
                    }
                }
            }
        } else {
            proof {
                assert forall|x: Seq<char>|
                    seqs_of(set@).contains(x) <==> (x.len() > 0 && exists|k: int|
                        0 <= k < i + 1 && #[trigger] running_key(procs@[k]) == x) by {
                    if x.len() > 0 && exists|k: int| 0 <= k < i + 1 && #[trigger] running_key(procs@[k]) == x {
                        let k = choose|k: int| 0 <= k < i + 1 && #[trigger] running_key(procs@[k]) == x;
                        if k == i {
                            assert(x == kv);
                        }
                    }
                }
            }
        }
    }
    set
}

// ---------------------------------------------------------------------------
// The plan
// ---------------------------------------------------------------------------

/// One step of the activation plan.
#[derive(Debug, Clone)]
pub enum PlannedActivationItem {
    BrowserWarning(String),
    BrowserLaunch { program: String, args: Vec<String> },
    Application { spec: LaunchSpec, skip_detail: Option<String> },
}

pub enum ItemView {
    Warning(Seq<char>),
    BrowserLaunch { program: Seq<char>, args: Seq<Seq<char>> },
    Application { spec: LaunchSpecView, skip_detail: Option<Seq<char>> },
}

pub open spec fn item_view(i: PlannedActivationItem) -> ItemView {
    match i {
        PlannedActivationItem::BrowserWarning(w) => ItemView::Warning(w@),
        PlannedActivationItem::BrowserLaunch { program, args } => ItemView::BrowserLaunch {
            program: program@,
            args: seqs_of(args@),
        },
        PlannedActivationItem::Application { spec, skip_detail } => ItemView::Application {
            spec: spec@,
            skip_detail: opt_view(skip_detail),
        },
    }
}

pub open spec fn items_view(v: Seq<PlannedActivationItem>) -> Seq<ItemView> {
    v.map_values(|i: PlannedActivationItem| item_view(i))
}

pub open spec fn warning_items(ws: Seq<Seq<char>>) -> Seq<ItemView> {
    ws.map_values(|w: Seq<char>| ItemView::Warning(w))
}

/// The steps of one entry: a browser entry that is not skipped gives its
/// isolation warnings and its launch; any other entry (or a skipped
/// browser entry) gives one application step with its skip note.
pub open spec fn launch_items(l: LaunchView, running: Seq<Seq<char>>) -> Seq<ItemView> {
    let skip = skip_detail_spec(l, running);
    match launch_block(l) {
        Some(b) => if skip is Some {
            seq![ItemView::Application { spec: spec_of(l), skip_detail: skip }]
        } else {
            warning_items(isolation_warnings(b)).push(
                ItemView::BrowserLaunch { program: l.executable, args: browser_args(b) },
            )
        },
        None => seq![ItemView::Application { spec: spec_of(l), skip_detail: skip }],
    }
}

/// The steps of the first `n` entries, in order.
pub open spec fn plan_items(ls: Seq<LaunchView>, running: Seq<Seq<char>>, n: int) -> Seq<ItemView>
    decreases n,
{
    if n <= 0 {
        Seq::empty()
    } else {
        plan_items(ls, running, n - 1) + launch_items(ls[n - 1], running)
    }
}

/// The plan of a valid profile.
pub open spec fn plan_of(p: SessionProfile, running: Seq<Seq<char>>) -> Seq<ItemView> {
    plan_items(normalized_launches(p), running, normalized_launches(p).len() as int)
}

proof fn lemma_no_blank_executable(apps: Seq<ApplicationLaunchEntry>, i: int)
    requires
        0 <= i,
        first_blank_executable(apps, i) is None,
    ensures
        forall|k: int| i <= k < apps.len() ==> trim(#[trigger] apps[k].executable@).len() > 0,
    decreases apps.len() - i,
{
    if i < apps.len() {
        lemma_no_blank_executable(apps, i + 1);
    }
}

fn copy_block(b: &ProfileBrowserBlock) -> (r: ProfileBrowserBlock)
    ensures
        block_view(r) == block_view(*b),
{
    ProfileBrowserBlock {
        family: b.family,
        executable: clone_string(&b.executable),
        user_data_dir: clone_opt_string(&b.user_data_dir),
        firefox_profile: clone_opt_string(&b.firefox_profile),
        firefox_no_remote: b.firefox_no_remote,
        urls: clone_strings(&b.urls),
    }
}

fn push_entry_items(
    items: &mut Vec<PlannedActivationItem>,
    spec: LaunchSpec,
    skip_detail: Option<String>,
    block: Option<ProfileBrowserBlock>,
    Ghost(l): Ghost<LaunchView>,
    Ghost(running): Ghost<Seq<Seq<char>>>,
)
    requires
        spec@ == spec_of(l),
        opt_view(skip_detail) == skip_detail_spec(l, running),
        match block {
            Some(b) => launch_block(l) == Some(block_view(b)),
            None => launch_block(l) is None,
        },
        trim(l.executable).len() > 0,
    ensures
        items_view(final(items)@) == items_view(old(items)@) + launch_items(l, running),
{
    let ghost before = items_view(items@);
    match block {
        Some(b) => {
            if skip_detail.is_some() {
                let item = PlannedActivationItem::Application { spec, skip_detail };
                items.push(item);
                assert(items_view(items@) =~= before + launch_items(l, running));
                return;
            }
            let built = match build_browser_launch(&b) {
                Ok(c) => c,
                Err(_) => {
                    assert(false);
                    return;
                },
            };
            let ghost ws = seqs_of(built.warnings@);
            let n = built.warnings.len();
            for i in 0..n
                invariant
                    n == built.warnings@.len(),
                    ws == seqs_of(built.warnings@),
                    items_view(items@) == before + warning_items(ws.take(i as int)),
            {
                let ghost b2 = items_view(items@);
                items.push(PlannedActivationItem::BrowserWarning(clone_string(&built.warnings[i])));
                assert(items_view(items@) =~= b2.push(ItemView::Warning(ws[i as int])));
                assert(warning_items(ws.take(i + 1)) =~= warning_items(ws.take(i as int)).push(
                    ItemView::Warning(ws[i as int]),
                ));
            }
            assert(ws.take(n as int) =~= ws);
            let ghost b3 = items_view(items@);
            let (program, args) = built.argv_for_spawn();
            items.push(
                PlannedActivationItem::BrowserLaunch { program: clone_string(program), args: clone_strings(args) },
            );
            assert(items_view(items@) =~= b3.push(
                ItemView::BrowserLaunch { program: l.executable, args: browser_args(block_view(b)) },
            ));
            assert(items_view(items@) =~= before + launch_items(l, running));
        },
        None => {
            items.push(PlannedActivationItem::Application { spec, skip_detail });
            assert(items_view(items@) =~= before + launch_items(l, running));
        },
    }
}

/// The activation plan of a profile: validation first (an invalid profile
/// plans nothing), then the steps of each entry of its normal form (a
/// top-level browser block first). `running` holds the executable
/// basenames running now.
pub fn build_planned_activation(profile: &SessionProfile, path_label: &str, running: &Vec<String>) -> (r:
    Result<Vec<PlannedActivationItem>, ActivationError>)
    ensures
        match r {
            Ok(items) => violation(*profile) is None && items_view(items@) == plan_of(
                *profile,
                seqs_of(running@),
            ),
            Err(e) => violation(*profile) matches Some(v) && e matches ActivationError::Profile(pe) && pe@
                == violation_error(v, path_label@, profile.schema_version),
        },
{
    validate_before_activation(profile, path_label)?;
    let ghost ls = normalized_launches(*profile);
    let ghost rn = seqs_of(running@);
    proof {
        lemma_no_blank_executable(profile.applications@, 0);
    }
    let mut items: Vec<PlannedActivationItem> = Vec::new();
    let mut offset: usize = 0;
    match &profile.browser {
        Some(b) => {
            let spec = LaunchSpec { executable: clone_string(&b.executable), args: Vec::new(), cwd: None };
            assert(spec@ == spec_of(ls[0])) by {
                assert(seqs_of(spec.args@) =~= Seq::<Seq<char>>::empty());
            }
            let skip = skip_detail_of(&b.executable, &Vec::new(), None, running);
            proof {
                assert(launch_block(ls[0]) == Some(block_view(*b)));
                assert(opt_view(skip) == skip_detail_spec(ls[0], rn));
                assert(items_view(items@) =~= plan_items(ls, rn, 0));
            }
            push_entry_items(&mut items, spec, skip, Some(copy_block(b)), Ghost(ls[0]), Ghost(rn));
            offset = 1;
        },
        None => {
            assert(items_view(items@) =~= plan_items(ls, rn, 0));
        },
    }
    let n = profile.applications.len();
    for i in 0..n
        invariant
            n == profile.applications@.len(),
            ls == normalized_launches(*profile),
            rn == seqs_of(running@),
            offset == (if profile.browser is Some { 1usize } else { 0usize }),
            ls.len() == n + offset,
            forall|k: int| 0 <= k < n ==> ls[k + offset] == launch_view(#[trigger] profile.applications@[k]),
            forall|k: int| 0 <= k < n ==> trim(#[trigger] profile.applications@[k].executable@).len() > 0,
            items_view(items@) == plan_items(ls, rn, i + offset),
    {
        let entry = &profile.applications[i];
        let spec = LaunchSpec::from_entry(entry);
        let skip = entry_skip_detail(entry, running);
        let block = entry.to_profile_browser_block();
        assert(ls[i + offset] == launch_view(*entry));
        push_entry_items(&mut items, spec, skip, block, Ghost(ls[i + offset as int]), Ghost(rn));
    }
    Ok(items)
}

// ---------------------------------------------------------------------------
// Preview
// ---------------------------------------------------------------------------

/// One preview row.
#[derive(Debug, Clone, PartialEq, Eq)]
pub struct ActivationPreviewStep {
    pub step_type: String,
    pub label: String,
    pub argv: Vec<String>,
    pub cwd: Option<String>,
    pub would_skip: Option<bool>,
    pub skip_detail: Option<String>,
}

/// `argv` is the program and arguments a launch spec is spawned with (see
/// `spawn_argv_given`) for some answers of the disk, the same answers
/// `spawn_argv_for` would be handed.
pub open spec fn spawned_with(spec: LaunchSpecView, dirs: Seq<Seq<char>>, argv: Seq<Seq<char>>) -> bool {
    exists|flat_is_file: bool, cleaned_is_file: bool, a: Seq<bool>|
        a.len() == dirs.len() && (argv[0], argv.drop_first()) == #[trigger] spawn_argv_given(
            spec,
            dirs,
            flat_is_file,
            cleaned_is_file,
            a,
        )
}

/// The preview row of a plan step: an application row shows the argv its
/// launch spec is spawned with, for some answers of the disk.
pub open spec fn preview_row_ok(item: ItemView, step: ActivationPreviewStep, dirs: Seq<Seq<char>>) -> bool {
    match item {
        ItemView::Warning(m) => step.step_type@ == "browser_warning"@ && step.label@ == "Warning"@
            && step.argv@.len() == 0 && step.cwd is None && step.would_skip is None && opt_view(
            step.skip_detail,
        ) == Some(m),
        ItemView::BrowserLaunch { program, args } => step.step_type@ == "browser"@ && step.label@
            == "Browser"@ && seqs_of(step.argv@) == seq![program] + args && step.cwd is None
            && step.would_skip is None && step.skip_detail is None,
        ItemView::Application { spec, skip_detail } => step.step_type@ == "application"@ && step.label@
            == spec.executable && step.argv@.len() > 0 && spawned_with(spec, dirs, seqs_of(step.argv@))
            && opt_view(step.cwd) == spec.cwd && step.would_skip == Some(skip_detail is Some)
            && opt_view(step.skip_detail) == skip_detail,
    }
}

/// Preview rows for a plan, one per step in order; an application row
/// shows the argv it would be spawned with.
pub fn preview_steps_from_plan(items: &Vec<PlannedActivationItem>, dirs: &Vec<String>) -> (r: Vec<
    ActivationPreviewStep,
>)
    ensures
        r@.len() == items@.len(),
        forall|i: int|
            0 <= i < items@.len() ==> preview_row_ok(item_view(items@[i]), #[trigger] r@[i], seqs_of(dirs@)),
{
    let mut out: Vec<ActivationPreviewStep> = Vec::new();
    let n = items.len();
    for i in 0..n
        invariant
            n == items@.len(),
            out@.len() == i,
            forall|k: int| 0 <= k < i ==> preview_row_ok(item_view(items@[k]), #[trigger] out@[k], seqs_of(dirs@)),
    {
        let step = match &items[i] {
            PlannedActivationItem::BrowserWarning(message) => ActivationPreviewStep {
                step_type: String::from_str("browser_warning"),
                label: String::from_str("Warning"),
                argv: Vec::new(),
                cwd: None,
                would_skip: None,
                skip_detail: Some(clone_string(message)),
            },
            PlannedActivationItem::BrowserLaunch { program, args } => {
                let mut argv: Vec<String> = Vec::new();
                argv.push(clone_string(program));
                for j in 0..args.len()
                    invariant
                        argv@.len() == j + 1,
                        seqs_of(argv@) == seq![program@] + seqs_of(args@).take(j as int),
                {
                    let ghost before = seqs_of(argv@);
                    argv.push(clone_string(&args[j]));
                    assert(seqs_of(argv@) =~= before.push(args@[j as int]@));
                    assert(seq![program@] + seqs_of(args@).take(j + 1) =~= (seq![program@] + seqs_of(args@).take(j as int)).push(
                        args@[j as int]@,
                    ));
                }
                assert(seqs_of(args@).take(args@.len() as int) =~= seqs_of(args@));
                ActivationPreviewStep {
                    step_type: String::from_str("browser"),
                    label: String::from_str("Browser"),
                    argv,
                    cwd: None,
                    would_skip: None,
                    skip_detail: None,
                }
            },
            PlannedActivationItem::Application { spec, skip_detail } => {
                let (prog, args) = resolved_spawn_argv(spec, dirs);
                let ghost rv = argv_view((prog, args));
                let mut argv: Vec<String> = Vec::new();
                argv.push(prog);
                let ghost head = seqs_of(argv@);
                for j in 0..args.len()
                    invariant
                        argv@.len() == j + 1,
                        head == seq![rv.0],
                        rv.1 == seqs_of(args@),
                        seqs_of(argv@) == head + seqs_of(args@).take(j as int),
                {
                    let ghost before = seqs_of(argv@);
                    argv.push(clone_string(&args[j]));
                    assert(seqs_of(argv@) =~= before.push(args@[j as int]@));
                    assert(head + seqs_of(args@).take(j + 1) =~= (head + seqs_of(args@).take(j as int)).push(
                        args@[j as int]@,
                    ));
                }
                assert(seqs_of(args@).take(args@.len() as int) =~= seqs_of(args@));
                assert(seqs_of(argv@)[0] == rv.0);
                assert(seqs_of(argv@).drop_first() =~= rv.1);
                ActivationPreviewStep {
                    step_type: String::from_str("application"),
                    label: clone_string(&spec.executable),
                    argv,
                    cwd: clone_opt_string(&spec.cwd),
                    would_skip: Some(skip_detail.is_some()),
                    skip_detail: clone_opt_string(skip_detail),
                }
            },
        };
        out.push(step);
    }
    out
}

/// Builds the plan of a profile and its preview rows; no spawns.
pub fn preview_session_activation(
    profile: &SessionProfile,
    path_label: &str,
    running: &Vec<String>,
    dirs: &Vec<String>,
) -> (r: Result<Vec<ActivationPreviewStep>, ActivationError>)
    ensures
        match r {
            Ok(steps) => violation(*profile) is None && steps@.len() == plan_of(*profile, seqs_of(running@)).len()
                && forall|i: int|
                0 <= i < steps@.len() ==> preview_row_ok(
                    plan_of(*profile, seqs_of(running@))[i],
                    #[trigger] steps@[i],
                    seqs_of(dirs@),
                ),
            Err(e) => violation(*profile) matches Some(v) && e matches ActivationError::Profile(pe) && pe@
                == violation_error(v, path_label@, profile.schema_version),
        },
{
    let plan = build_planned_activation(profile, path_label, running)?;
    let steps = preview_steps_from_plan(&plan, dirs);
    proof {
        assert forall|i: int| 0 <= i < steps@.len() implies preview_row_ok(
            plan_of(*profile, seqs_of(running@))[i],
            #[trigger] steps@[i],
            seqs_of(dirs@),
        ) by {
            assert(items_view(plan@)[i] == item_view(plan@[i]));
        }
    }
    Ok(steps)
}

/// The application step of one entry.
pub open spec fn app_item(l: LaunchView, running: Seq<Seq<char>>) -> ItemView {
    ItemView::Application { spec: spec_of(l), skip_detail: skip_detail_spec(l, running) }
}

proof fn lemma_plan_items_without_browsers(ls: Seq<LaunchView>, running: Seq<Seq<char>>, n: int)
    requires
        0 <= n <= ls.len(),
        forall|k: int| 0 <= k < n ==> launch_block(#[trigger] ls[k]) is None,
    ensures
        plan_items(ls, running, n).len() == n,
        forall|i: int| 0 <= i < n ==> #[trigger] plan_items(ls, running, n)[i] == app_item(ls[i], running),
    decreases n,
{
    if n > 0 {
        lemma_plan_items_without_browsers(ls, running, n - 1);
        assert(launch_block(ls[n - 1]) is None);
        let prev = plan_items(ls, running, n - 1);
        assert(plan_items(ls, running, n) == prev + seq![app_item(ls[n - 1], running)]);
    }
}

/// A profile without browser blocks (neither top-level nor on an entry)
/// plans one application step per entry, in order, each with the entry's
/// launch spec and skip note. So, where its preview succeeds, the preview
/// has one "application" row per entry, in order, labelled with the
/// entry's executable, with its working directory, and with the argv that
/// `resolved_spawn_argv` gives for the entry's launch spec, as
/// `spawn_argv_given` states it over the disk's answers.
pub proof fn law_preview_without_browsers(
    p: SessionProfile,
    running: Seq<Seq<char>>,
    dirs: Seq<Seq<char>>,
    steps: Seq<ActivationPreviewStep>,
)
    requires
        p.browser is None,
        forall|k: int| 0 <= k < p.applications@.len() ==> (#[trigger] p.applications@[k]).browser is None,
        steps.len() == plan_of(p, running).len(),
        forall|i: int| 0 <= i < steps.len() ==> preview_row_ok(plan_of(p, running)[i], #[trigger] steps[i], dirs),
    ensures
        plan_of(p, running).len() == p.applications@.len(),
        forall|i: int|
            0 <= i < p.applications@.len() ==> #[trigger] plan_of(p, running)[i] == app_item(
                launch_view(p.applications@[i]),
                running,
            ),
        steps.len() == p.applications@.len(),
        forall|i: int|
            0 <= i < steps.len() ==> {
                let e = p.applications@[i];
                &&& (#[trigger] steps[i]).step_type@ == "application"@
                &&& steps[i].label@ == e.executable@
                &&& opt_view(steps[i].cwd) == opt_view(e.cwd)
                &&& steps[i].argv@.len() > 0
                &&& spawned_with(spec_of(launch_view(e)), dirs, seqs_of(steps[i].argv@))
            },
{
    let ls = normalized_launches(p);
    assert(ls == p.applications@.map_values(|e: ApplicationLaunchEntry| launch_view(e)));
    assert forall|k: int| 0 <= k < ls.len() implies launch_block(#[trigger] ls[k]) is None by {
        assert(ls[k] == launch_view(p.applications@[k]));
    }
    lemma_plan_items_without_browsers(ls, running, ls.len() as int);
    assert forall|i: int| 0 <= i < steps.len() implies {
        let e = p.applications@[i];
        &&& (#[trigger] steps[i]).step_type@ == "application"@
        &&& steps[i].label@ == e.executable@
        &&& opt_view(steps[i].cwd) == opt_view(e.cwd)
        &&& steps[i].argv@.len() > 0
        &&& spawned_with(spec_of(launch_view(e)), dirs, seqs_of(steps[i].argv@))
    } by {
        assert(ls[i] == launch_view(p.applications@[i]));
        assert(plan_of(p, running)[i] == app_item(ls[i], running));
        assert(preview_row_ok(plan_of(p, running)[i], steps[i], dirs));
    }
}

// ---------------------------------------------------------------------------
// The run
// ---------------------------------------------------------------------------

pub struct StepView {
    pub kind: ActivationStepKind,
    pub label: Seq<char>,
    pub status: ActivationStepStatus,
    pub detail: Option<Seq<char>>,
    pub pid: Option<u32>,
}

pub open spec fn step_view(s: ActivationStepSummary) -> StepView {
    StepView { kind: s.kind, label: s.label@, status: s.status, detail: opt_view(s.detail), pid: s.pid }
}

pub open spec fn steps_view(v: Seq<ActivationStepSummary>) -> Seq<StepView> {
    v.map_values(|s: ActivationStepSummary| step_view(s))
}

/// A plan step that needs a spawn: a browser launch, or an application
/// that is not skipped.
pub open spec fn needs_spawn(i: ItemView) -> bool {
    match i {
        ItemView::BrowserLaunch { .. } => true,
        ItemView::Application { skip_detail, .. } => skip_detail is None,
        ItemView::Warning(_) => false,
    }
}

/// The row of a spawn outcome of a plan step.
pub open spec fn outcome_step(i: ItemView, o: SpawnOutcome) -> StepView {
    let (kind, label) = match i {
        ItemView::Application { spec, .. } => (ActivationStepKind::Application, spec.executable),
        _ => (ActivationStepKind::Browser, "Browser"@),
    };
    match o {
        SpawnOutcome::Started { pid } => StepView {
            kind,
            label,
            status: ActivationStepStatus::Success,
            detail: None,
            pid: Some(pid),
        },
        SpawnOutcome::Failed { message } => StepView {
            kind,
            label,
            status: ActivationStepStatus::Failure,
            detail: Some(message@),
            pid: None,
        },
    }
}

/// The row of a plan step that needs no spawn: a warning, or a skipped
/// application.
pub open spec fn direct_step(i: ItemView) -> StepView {
    match i {
        ItemView::Warning(m) => StepView {
            kind: ActivationStepKind::Browser,
            label: "Browser"@,
            status: ActivationStepStatus::Warning,
            detail: Some(m),
            pid: None,
        },
        ItemView::Application { spec, skip_detail } => StepView {
            kind: ActivationStepKind::Application,
            label: spec.executable,
            status: ActivationStepStatus::Skipped,
            detail: skip_detail,
            pid: None,
        },
        ItemView::BrowserLaunch { .. } => StepView {
            kind: ActivationStepKind::Browser,
            label: "Browser"@,
            status: ActivationStepStatus::Warning,
            detail: None,
            pid: None,
        },
    }
}

/// How many of the first `n` plan steps need a spawn.
pub open spec fn spawn_count(items: Seq<ItemView>, n: int) -> nat
    decreases n,
{
    if n <= 0 {
        0
    } else {
        spawn_count(items, n - 1) + if needs_spawn(items[n - 1]) {
            1nat
        } else {
            0nat
        }
    }
}

/// The rows of the first `n` plan steps, spawned steps taking their
/// outcomes in order.
pub open spec fn run_steps(items: Seq<ItemView>, outs: Seq<SpawnOutcome>, n: int) -> Seq<StepView>
    decreases n,
{
    if n <= 0 {
        Seq::empty()
    } else {
        let prev = run_steps(items, outs, n - 1);
        if needs_spawn(items[n - 1]) {
            prev.push(outcome_step(items[n - 1], outs[spawn_count(items, n - 1) as int]))
        } else {
            prev.push(direct_step(items[n - 1]))
        }
    }
}

/// What the caller is to do next.
pub enum RunAction {
    SpawnBrowser { program: String, args: Vec<String> },
    SpawnApplication(LaunchSpec),
    Finished,
}

/// An activation in progress: it walks the plan, records warnings and
/// skips itself, and hands each spawn to the caller, whose outcome it
/// records before going on.
pub struct ActivationRun {
    items: Vec<PlannedActivationItem>,
    next: usize,
    awaiting: bool,
    steps: Vec<ActivationStepSummary>,
    outs: Ghost<Seq<SpawnOutcome>>,
}

impl ActivationRun {
    pub closed spec fn plan(&self) -> Seq<ItemView> {
        items_view(self.items@)
    }

    /// The outcomes recorded so far, in order.
    pub closed spec fn outcomes(&self) -> Seq<SpawnOutcome> {
        self.outs@
    }

    /// How many plan steps were taken (a step awaiting its outcome counts).
    pub closed spec fn taken(&self) -> int {
        self.next as int
    }

    /// Whether a spawn was handed out and its outcome not yet recorded.
    pub closed spec fn awaiting(&self) -> bool {
        self.awaiting
    }

    pub closed spec fn rows(&self) -> Seq<StepView> {
        steps_view(self.steps@)
    }

    /// The run is consistent: the rows are those of the finished steps.
    pub closed spec fn wf(&self) -> bool {
        let done = if self.awaiting {
            self.next - 1
        } else {
            self.next as int
        };
        &&& self.next <= self.items@.len()
        &&& (self.awaiting ==> self.next > 0 && needs_spawn(items_view(self.items@)[self.next - 1]))
        &&& self.outs@.len() == spawn_count(items_view(self.items@), done)
        &&& steps_view(self.steps@) == run_steps(items_view(self.items@), self.outs@, done)
    }

    pub fn new(items: Vec<PlannedActivationItem>) -> (r: Self)
        ensures
            r.wf(),
            r.plan() == items_view(items@),
            r.taken() == 0,
            !r.awaiting(),
            r.outcomes() == Seq::<SpawnOutcome>::empty(),
    {
        let r = ActivationRun { items, next: 0, awaiting: false, steps: Vec::new(), outs: Ghost(Seq::empty()) };
        assert(steps_view(r.steps@) =~= Seq::<StepView>::empty());
        r
    }

    /// Records the steps that need no spawn and hands out the next spawn,
    /// or says that the plan is done.
    pub fn next_action(&mut self) -> (r: RunAction)
        requires
            old(self).wf(),
            !old(self).awaiting(),
        ensures
            final(self).wf(),
            final(self).plan() == old(self).plan(),
            final(self).outcomes() == old(self).outcomes(),
            match r {
                RunAction::Finished => !final(self).awaiting() && final(self).taken() == final(self).plan().len(),
                RunAction::SpawnBrowser { program, args } => final(self).awaiting() && final(self).plan()[final(self).taken() - 1]
                    == (ItemView::BrowserLaunch { program: program@, args: seqs_of(args@) }),
                RunAction::SpawnApplication(spec) => final(self).awaiting() && (final(self).plan()[final(self).taken() - 1]
                    matches ItemView::Application { spec: s, skip_detail: None } && s == spec@),
            },
    {
        let ghost iv = items_view(self.items@);
        while self.next < self.items.len()
            invariant
                self.wf(),
                !self.awaiting,
                iv == items_view(self.items@),
                self.items@ == old(self).items@,
                self.outs@ == old(self).outs@,
            decreases self.items@.len() - self.next,
        {
            let i = self.next;
            assert(iv[i as int] == item_view(self.items@[i as int]));
            let ghost before = steps_view(self.steps@);
            match &self.items[i] {
                PlannedActivationItem::BrowserWarning(message) => {
                    self.steps.push(
                        ActivationStepSummary {
                            kind: ActivationStepKind::Browser,
                            label: String::from_str("Browser"),
                            status: ActivationStepStatus::Warning,
                            detail: Some(clone_string(message)),
                            pid: None,
                        },
                    );
                    self.next = i + 1;
                    assert(steps_view(self.steps@) =~= before.push(direct_step(iv[i as int])));
                },
                PlannedActivationItem::BrowserLaunch { program, args } => {
                    let action = RunAction::SpawnBrowser { program: clone_string(program), args: clone_strings(args) };
                    self.next = i + 1;
                    self.awaiting = true;
                    return action;
                },
                PlannedActivationItem::Application { spec, skip_detail } => {
                    match skip_detail {
                        Some(d) => {
                            let row = ActivationStepSummary {
                                kind: ActivationStepKind::Application,
                                label: clone_string(&spec.executable),
                                status: ActivationStepStatus::Skipped,
                                detail: Some(clone_string(d)),
                                pid: None,
                            };
                            self.steps.push(row);
                            self.next = i + 1;
                            assert(steps_view(self.steps@) =~= before.push(direct_step(iv[i as int])));
                        },
                        None => {
                            let action = RunAction::SpawnApplication(spec.duplicate());
                            self.next = i + 1;
                            self.awaiting = true;
                            return action;
                        },
                    }
                },
            }
        }
        RunAction::Finished
    }

    /// Records the outcome of the spawn handed out last.
    pub fn record_outcome(&mut self, outcome: SpawnOutcome)
        requires
            old(self).wf(),
            old(self).awaiting(),
        ensures
            final(self).wf(),
            !final(self).awaiting(),
            final(self).plan() == old(self).plan(),
            final(self).taken() == old(self).taken(),
            final(self).outcomes() == old(self).outcomes().push(outcome),
    {
        let ghost iv = items_view(self.items@);
        let i = self.next - 1;
        assert(iv[i as int] == item_view(self.items@[i as int]));
        let ghost before = steps_view(self.steps@);
        let row = match &self.items[i] {
            PlannedActivationItem::Application { spec, .. } => application_row(spec, &outcome),
            _ => browser_row(&outcome),
        };
        self.steps.push(row);
        self.outs = Ghost(self.outs@.push(outcome));
        self.awaiting = false;
        proof {
            assert(steps_view(self.steps@) =~= before.push(outcome_step(iv[i as int], outcome)));
            assert(self.outs@[spawn_count(iv, i as int) as int] == outcome);
            lemma_run_steps_prefix(iv, old(self).outs@, outcome, i as int);
        }
    }

    /// The result of the run: its rows, in plan order, and the transcript
    /// path.
    pub fn finish(self, activation_log_path: Option<String>) -> (r: ActivateSessionResult)
        requires
            self.wf(),
            !self.awaiting(),
            self.taken() == self.plan().len(),
        ensures
            steps_view(r.steps@) == run_steps(self.plan(), self.outcomes(), self.plan().len() as int),
            opt_view(r.activation_log_path) == opt_view(activation_log_path),
    {
        ActivateSessionResult { steps: self.steps, activation_log_path }
    }
}

proof fn lemma_run_steps_prefix(items: Seq<ItemView>, outs: Seq<SpawnOutcome>, o: SpawnOutcome, n: int)
    requires
        0 <= n,
        outs.len() >= spawn_count(items, n),
    ensures
        run_steps(items, outs.push(o), n) == run_steps(items, outs, n),
    decreases n,
{
    if n > 0 {
        lemma_run_steps_prefix(items, outs, o, n - 1);
        lemma_spawn_count_mono(items, n - 1);
        if needs_spawn(items[n - 1]) {
            assert(outs.push(o)[spawn_count(items, n - 1) as int] == outs[spawn_count(items, n - 1) as int]);
        }
    }
}

proof fn lemma_spawn_count_mono(items: Seq<ItemView>, n: int)
    requires
        0 <= n,
    ensures
        spawn_count(items, n) <= spawn_count(items, n + 1),
{
}

/// An activation reports exactly one row per plan step, in plan order:
/// a spawned step carries the outcome of its own spawn, a warning or a
/// skip its own row, whatever the other spawns gave (a failed launch does
/// not stop the steps after it).
pub proof fn lemma_run_rows_follow_plan(items: Seq<ItemView>, outs: Seq<SpawnOutcome>, n: int)
    requires
        0 <= n <= items.len(),
        outs.len() >= spawn_count(items, n),
    ensures
        run_steps(items, outs, n).len() == n,
        spawn_count(items, n) <= n,
        forall|i: int|
            0 <= i < n ==> #[trigger] run_steps(items, outs, n)[i] == if needs_spawn(items[i]) {
                outcome_step(items[i], outs[spawn_count(items, i) as int])
            } else {
                direct_step(items[i])
            },
    decreases n,
{
    if n > 0 {
        lemma_spawn_count_mono(items, n - 1);
        lemma_run_rows_follow_plan(items, outs, n - 1);
        let prev = run_steps(items, outs, n - 1);
        assert forall|i: int|
            0 <= i < n implies #[trigger] run_steps(items, outs, n)[i] == if needs_spawn(items[i]) {
                outcome_step(items[i], outs[spawn_count(items, i) as int])
            } else {
                direct_step(items[i])
            } by {
            if i < n - 1 {
                assert(run_steps(items, outs, n)[i] == prev[i]);
            }
        }
    }
}

/// The preview and the run of one plan agree row by row: as many rows; a
/// row of the run is a browser row exactly when its preview row is not an
/// "application" row, skipped exactly when the preview marks it as one that
/// would be skipped, and a warning exactly when the preview row is a
/// "browser_warning" row.
pub proof fn law_preview_matches_run(
    items: Seq<ItemView>,
    preview: Seq<ActivationPreviewStep>,
    dirs: Seq<Seq<char>>,
    outs: Seq<SpawnOutcome>,
)
    requires
        preview.len() == items.len(),
        forall|i: int| 0 <= i < items.len() ==> preview_row_ok(items[i], #[trigger] preview[i], dirs),
        outs.len() >= spawn_count(items, items.len() as int),
    ensures
        run_steps(items, outs, items.len() as int).len() == preview.len(),
        forall|i: int|
            0 <= i < preview.len() ==> {
                let r = #[trigger] run_steps(items, outs, items.len() as int)[i];
                &&& (r.kind == ActivationStepKind::Browser <==> preview[i].step_type@ != "application"@)
                &&& (r.status == ActivationStepStatus::Skipped <==> preview[i].would_skip == Some(true))
                &&& (r.status == ActivationStepStatus::Warning <==> preview[i].step_type@ == "browser_warning"@)
            },
{
    reveal_strlit("application");
    reveal_strlit("browser");
    reveal_strlit("browser_warning");
    let n = items.len() as int;
    lemma_run_rows_follow_plan(items, outs, n);
    assert forall|i: int| 0 <= i < preview.len() implies {
        let r = #[trigger] run_steps(items, outs, n)[i];
        &&& (r.kind == ActivationStepKind::Browser <==> preview[i].step_type@ != "application"@)
        &&& (r.status == ActivationStepStatus::Skipped <==> preview[i].would_skip == Some(true))
        &&& (r.status == ActivationStepStatus::Warning <==> preview[i].step_type@ == "browser_warning"@)
    } by {
        assert(preview_row_ok(items[i], preview[i], dirs));
        assert("application"@.len() == 11 && "browser"@.len() == 7 && "browser_warning"@.len() == 15);
    }
}

/// The row of a browser spawn outcome.
pub fn browser_row(outcome: &SpawnOutcome) -> (r: ActivationStepSummary)
    ensures
        step_view(r) == outcome_step(
            ItemView::BrowserLaunch { program: Seq::empty(), args: Seq::empty() },
            *outcome,
        ),
{
    match outcome {
        SpawnOutcome::Started { pid } => ActivationStepSummary {
            kind: ActivationStepKind::Browser,
            label: String::from_str("Browser"),
            status: ActivationStepStatus::Success,
            detail: None,
            pid: Some(*pid),
        },
        SpawnOutcome::Failed { message } => ActivationStepSummary {
            kind: ActivationStepKind::Browser,
            label: String::from_str("Browser"),
            status: ActivationStepStatus::Failure,
            detail: Some(clone_string(message)),
            pid: None,
        },
    }
}

/// Validates a profile, plans it and starts the run; an invalid profile
/// starts nothing.
pub fn start_activation(profile: &SessionProfile, path_label: &str, running: &Vec<String>) -> (r: Result<
    ActivationRun,
    ActivationError,
>)
    ensures
        match r {
            Ok(run) => violation(*profile) is None && run.wf() && run.plan() == plan_of(
                *profile,
                seqs_of(running@),
            ) && run.taken() == 0 && !run.awaiting() && run.outcomes() == Seq::<SpawnOutcome>::empty(),
            Err(e) => violation(*profile) matches Some(v) && e matches ActivationError::Profile(pe) && pe@
                == violation_error(v, path_label@, profile.schema_version),
        },
{
    let plan = build_planned_activation(profile, path_label, running)?;
    Ok(ActivationRun::new(plan))
}

} // verus!
