//! Running-application discovery for the profile editor's assistant:
//! window-first where windows can be listed, process-based otherwise, each
//! candidate scored and classified, duplicates merged, and the list sorted
//! by display name.

use vstd::prelude::*;

use crate::assistant::{
    assistant_background_noise, assistant_basename_skip_for_capture,
    assistant_chromium_subprocess_cmd, background_noise, chromium_subprocess, join,
    process_cmdline_full, skip_for_capture, CandidateKind, ClassificationConfidence,
    RunningAppCandidate,
};
use crate::classifier::{classification, classify, flatpak_snap_hint, flatpak_snap_path_hint, score_of, ScoreInput};
use crate::desktop_index::{
    entry_ref_view, humanize_basename, humanized, process_match, title_match, DesktopEntry,
    DesktopIndex, EntryView,
};
use crate::editor_cwd::{cwd_hint_for_editor, cwd_hint_spec, CwdFacts};
use crate::order::{lemma_lex_asym, lex_less, lex_lt};
use crate::platform::{denylisted, denylisted_basename, has_resolved_executable, resolved_executable, ProcessInfo};
use crate::text::{
    chars_of, clone_string, contains, file_name, file_name_chars, lower_chars, lowercase, opt_view,
    seqs_of, string_of, trim, trim_str, starts_with,
};
use crate::workspace::{
    executable_workspace, pid_lookup, resolve_pid, windows_view, WindowRecord, WindowView,
    WorkspaceIndex,
};

verus! {

/// At most this many candidates are offered.
pub const MAX_CANDIDATES: usize = 200;

pub struct CandidateView {
    pub pid: u32,
    pub executable: Seq<char>,
    pub label: Seq<char>,
    pub cmd_preview: Seq<char>,
    pub cwd_hint: Option<Seq<char>>,
    pub kind: CandidateKind,
    pub display_name: Seq<char>,
    pub icon_name: Option<Seq<char>>,
    pub desktop_workspace: Option<u32>,
    pub window_title: Option<Seq<char>>,
    pub classification_confidence: Option<ClassificationConfidence>,
}

impl View for RunningAppCandidate {
    type V = CandidateView;

    open spec fn view(&self) -> CandidateView {
        CandidateView {
            pid: self.pid,
            executable: self.executable@,
            label: self.label@,
            cmd_preview: self.cmd_preview@,
            cwd_hint: opt_view(self.cwd_hint),
            kind: self.kind,
            display_name: self.display_name@,
            icon_name: opt_view(self.icon_name),
            desktop_workspace: self.desktop_workspace,
            window_title: opt_view(self.window_title),
            classification_confidence: self.classification_confidence,
        }
    }
}

pub open spec fn cands_view(v: Seq<RunningAppCandidate>) -> Seq<CandidateView> {
    v.map_values(|c: RunningAppCandidate| c@)
}

fn clone_opt(o: &Option<String>) -> (r: Option<String>)
    ensures
        opt_view(r) == opt_view(*o),
{
    match o {
        Some(s) => Some(clone_string(s)),
        None => None,
    }
}

// ---------------------------------------------------------------------------
// What a process shows
// ---------------------------------------------------------------------------

/// The executable of a process: its `/proc` path when non-empty, else its
/// first argument, else its name.
pub open spec fn proc_executable(p: ProcessInfo) -> Seq<char> {
    if p.exe matches Some(e) && e@.len() > 0 {
        p.exe->0@
    } else if p.cmd@.len() > 0 {
        p.cmd@[0]@
    } else {
        p.name@
    }
}

/// The lower-cased basename of a process: of its `/proc` path when that
/// gives a non-empty one, else of its executable, else its name.
pub open spec fn proc_basename(p: ProcessInfo) -> Seq<char> {
    let from_exe = match p.exe {
        Some(e) => match file_name(e@) {
            Some(n) => Some(lowercase(n)),
            None => None,
        },
        None => None,
    };
    if from_exe matches Some(b) && b.len() > 0 {
        from_exe->0
    } else {
        match file_name(proc_executable(p)) {
            Some(n) => lowercase(n),
            None => lowercase(p.name@),
        }
    }
}

/// The label of a process: the file name of its `/proc` path, else its name.
pub open spec fn proc_label(p: ProcessInfo) -> Seq<char> {
    match p.exe {
        Some(e) => match file_name(e@) {
            Some(n) => n,
            None => p.name@,
        },
        None => p.name@,
    }
}

pub open spec fn proc_cmdline(p: ProcessInfo) -> Seq<char> {
    join(seqs_of(p.cmd@), " "@)
}

/// The command line shown for a process: the first 200 characters of its
/// arguments joined by spaces, else its name.
pub open spec fn proc_preview(p: ProcessInfo) -> Seq<char> {
    if p.cmd@.len() > 0 {
        let j = proc_cmdline(p);
        if j.len() > 200 {
            j.take(200)
        } else {
            j
        }
    } else {
        p.name@
    }
}

/// A process that is not offered: a kernel thread (`[name]`), one without
/// a resolved executable, an infrastructure daemon, a browser helper,
/// background tooling or the compiler.
pub open spec fn proc_rejected(p: ProcessInfo) -> bool {
    let exe = proc_executable(p);
    let cmd = proc_cmdline(p);
    ||| (p.name@.len() > 0 && p.name@[0] == '[')
    ||| !resolved_executable(p)
    ||| denylisted(proc_basename(p))
    ||| chromium_subprocess(cmd)
    ||| background_noise(exe, cmd)
    ||| skip_for_capture(exe)
}

fn executable_of(p: &ProcessInfo) -> (r: String)
    ensures
        r@ == proc_executable(*p),
{
    match &p.exe {
        Some(e) => {
            if e.as_str().unicode_len() > 0 {
                return clone_string(e);
            }
        },
        None => {},
    }
    if p.cmd.len() > 0 {
        clone_string(&p.cmd[0])
    } else {
        clone_string(&p.name)
    }
}

fn basename_of(p: &ProcessInfo, executable: &String) -> (r: String)
    requires
        executable@ == proc_executable(*p),
    ensures
        r@ == proc_basename(*p),
{
    match &p.exe {
        Some(e) => match file_name_chars(chars_of(e.as_str()).as_slice()) {
            Some(n) => {
                let l = lower_chars(n.as_slice());
                if l.len() > 0 {
                    return string_of(l.as_slice());
                }
            },
            None => {},
        },
        None => {},
    }
    match file_name_chars(chars_of(executable.as_str()).as_slice()) {
        Some(n) => string_of(lower_chars(n.as_slice()).as_slice()),
        None => string_of(lower_chars(chars_of(p.name.as_str()).as_slice()).as_slice()),
    }
}

fn label_of(p: &ProcessInfo) -> (r: String)
    ensures
        r@ == proc_label(*p),
{
    match &p.exe {
        Some(e) => match file_name_chars(chars_of(e.as_str()).as_slice()) {
            Some(n) => string_of(n.as_slice()),
            None => clone_string(&p.name),
        },
        None => clone_string(&p.name),
    }
}

fn preview_of(p: &ProcessInfo) -> (r: String)
    ensures
        r@ == proc_preview(*p),
{
    if p.cmd.len() > 0 {
        let j = process_cmdline_full(&p.cmd);
        let jv = chars_of(j.as_str());
        if jv.len() > 200 {
            let mut out: Vec<char> = Vec::new();
            for i in 0..200
                invariant
                    jv@.len() > 200,
                    out@ == jv@.take(i as int),
            {
                out.push(jv[i]);
                assert(jv@.take(i + 1) =~= jv@.take(i as int).push(jv@[i as int]));
            }
            string_of(out.as_slice())
        } else {
            j
        }
    } else {
        clone_string(&p.name)
    }
}

/// Whether a process is left out of the assistant (see `proc_rejected`).
pub fn process_rejected(p: &ProcessInfo) -> (r: bool)
    ensures
        r == proc_rejected(*p),
{
    let name = chars_of(p.name.as_str());
    if name.len() > 0 && name[0] == '[' {
        return true;
    }
    if !has_resolved_executable(p) {
        return true;
    }
    let executable = executable_of(p);
    let basename = basename_of(p, &executable);
    if denylisted_basename(basename.as_str()) {
        return true;
    }
    let cmd_full = process_cmdline_full(&p.cmd);
    assistant_chromium_subprocess_cmd(cmd_full.as_str()) || assistant_background_noise(
        executable.as_str(),
        cmd_full.as_str(),
    ) || assistant_basename_skip_for_capture(executable.as_str())
}

// ---------------------------------------------------------------------------
// One candidate
// ---------------------------------------------------------------------------

/// What the discovery reads besides the process list: the desktop index,
/// the window index, whether a graphical session runs, and, for editors,
/// the contents of their workspace storage and the working directories of
/// processes.
pub struct DiscoveryInputs {
    pub desktop: DesktopIndex,
    pub workspace: WorkspaceIndex,
    pub user_session: bool,
    /// Editor basename → contents of the `workspace.json` files of its
    /// workspace storage, in listing order.
    pub editor_storage: Vec<(String, Vec<String>)>,
    /// Pid → working directory.
    pub proc_cwds: Vec<(u32, String)>,
}

pub open spec fn storage_of_from(v: Seq<(String, Vec<String>)>, base: Seq<char>, i: int) -> Seq<Seq<char>>
    decreases v.len() - i,
{
    if i < 0 || i >= v.len() {
        Seq::empty()
    } else if v[i].0@ == base {
        seqs_of(v[i].1@)
    } else {
        storage_of_from(v, base, i + 1)
    }
}

/// The storage contents listed for an editor basename (first row wins).
pub open spec fn storage_of(v: Seq<(String, Vec<String>)>, base: Seq<char>) -> Seq<Seq<char>> {
    storage_of_from(v, base, 0)
}

pub open spec fn cwd_of_from(v: Seq<(u32, String)>, pid: u32, i: int) -> Option<Seq<char>>
    decreases v.len() - i,
{
    if i < 0 || i >= v.len() {
        None
    } else if v[i].0 == pid {
        Some(v[i].1@)
    } else {
        cwd_of_from(v, pid, i + 1)
    }
}

/// The working directory listed for a pid (first row wins).
pub open spec fn cwd_of(v: Seq<(u32, String)>, pid: u32) -> Option<Seq<char>> {
    cwd_of_from(v, pid, 0)
}

/// The score input of a process candidate.
pub open spec fn candidate_score_input(
    inp: DiscoveryInputs,
    p: ProcessInfo,
    pid: u32,
    window: Option<WindowView>,
    has_window: bool,
) -> ScoreInput {
    let exe = proc_executable(p);
    let entry = process_match(inp.desktop.keys(), exe, proc_basename(p), Some(proc_cmdline(p)));
    let wm_match = match window {
        Some(w) => title_match(inp.desktop.keys(), inp.desktop.wm_classes(), w.title) is Some,
        None => false,
    };
    ScoreInput {
        excluded: false,
        has_window: has_window || window is Some || (pid > 10 && pid_lookup(
            inp.workspace.pid_map(),
            pid,
        ) is Some) || resolve_pid(inp.workspace.pid_map(), inp.workspace.parent_map(), pid, 12) is Some,
        desktop_match: entry is Some,
        startup_wm_class_match: wm_match,
        flatpak_snap_hint: flatpak_snap_hint(exe),
        user_session: inp.user_session,
        window_list_available: inp.workspace.windows_seq().len() > 0,
    }
}

/// Display name and icon: from the process's desktop entry, else from the
/// entry of its window's title, else the humanised label without icon.
pub open spec fn candidate_name_icon(
    inp: DiscoveryInputs,
    p: ProcessInfo,
    window: Option<WindowView>,
) -> (Seq<char>, Option<Seq<char>>) {
    let entry = process_match(
        inp.desktop.keys(),
        proc_executable(p),
        proc_basename(p),
        Some(proc_cmdline(p)),
    );
    match entry {
        Some(e) => (e.name, e.icon),
        None => match window {
            Some(w) => match title_match(inp.desktop.keys(), inp.desktop.wm_classes(), w.title) {
                Some(e) => (e.name, e.icon),
                None => (humanized(proc_label(p)), None),
            },
            None => (humanized(proc_label(p)), None),
        },
    }
}

/// The candidate of an accepted process, but for its working-directory
/// hint.
pub open spec fn candidate_core(
    inp: DiscoveryInputs,
    p: ProcessInfo,
    pid: u32,
    window: Option<WindowView>,
    has_window: bool,
) -> CandidateView {
    let si = candidate_score_input(inp, p, pid, window, has_window);
    let cls = classification(si, score_of(si));
    let (display, icon) = candidate_name_icon(inp, p, window);
    let exe = proc_executable(p);
    CandidateView {
        pid,
        executable: exe,
        label: proc_label(p),
        cmd_preview: proc_preview(p),
        cwd_hint: None,
        kind: cls.0,
        display_name: display,
        icon_name: icon,
        desktop_workspace: if window matches Some(w) && w.desktop is Some {
            window->0.desktop
        } else {
            match resolve_pid(inp.workspace.pid_map(), inp.workspace.parent_map(), pid, 12) {
                Some(d) => Some(d),
                None => executable_workspace(inp.workspace.windows_seq(), exe, display),
            }
        },
        window_title: match window {
            Some(w) => Some(w.title),
            None => None,
        },
        classification_confidence: Some(cls.1),
    }
}

pub open spec fn title_of(window: Option<WindowView>) -> Option<Seq<char>> {
    match window {
        Some(w) => Some(w.title),
        None => None,
    }
}

/// The hint an editor candidate gets, for some answers of the disk.
pub open spec fn candidate_hint_ok(
    inp: DiscoveryInputs,
    p: ProcessInfo,
    pid: u32,
    window: Option<WindowView>,
    hint: Option<Seq<char>>,
) -> bool {
    exists|f: CwdFacts|
        #[trigger] cwd_hint_spec(
            proc_basename(p),
            seqs_of(p.cmd@),
            title_of(window),
            storage_of(inp.editor_storage@, proc_basename(p)),
            cwd_of(inp.proc_cwds@, pid),
            f,
        ) == hint
}

fn storage_for(v: &Vec<(String, Vec<String>)>, base: &String) -> (r: Vec<String>)
    ensures
        seqs_of(r@) == storage_of(v@, base@),
{
    let b = chars_of(base.as_str());
    let mut i: usize = 0;
    while i < v.len()
        invariant
            i <= v@.len(),
            b@ == base@,
            storage_of(v@, base@) == storage_of_from(v@, base@, i as int),
        decreases v@.len() - i,
    {
        if crate::text::chars_eq(chars_of(v[i].0.as_str()).as_slice(), b.as_slice()) {
            let mut out: Vec<String> = Vec::new();
            let m = v[i].1.len();
            for j in 0..m
                invariant
                    i < v@.len(),
                    m == v@[i as int].1@.len(),
                    out@.len() == j,
                    forall|q: int| 0 <= q < j ==> out@[q]@ == v@[i as int].1@[q]@,
            {
                out.push(clone_string(&v[i].1[j]));
            }
            assert(seqs_of(out@) =~= seqs_of(v@[i as int].1@));
            return out;
        }
        i += 1;
    }
    let out: Vec<String> = Vec::new();
    assert(seqs_of(out@) =~= Seq::<Seq<char>>::empty());
    out
}

fn cwd_for(v: &Vec<(u32, String)>, pid: u32) -> (r: Option<String>)
    ensures
        opt_view(r) == cwd_of(v@, pid),
{
    let mut i: usize = 0;
    while i < v.len()
        invariant
            i <= v@.len(),
            cwd_of(v@, pid) == cwd_of_from(v@, pid, i as int),
        decreases v@.len() - i,
    {
        if v[i].0 == pid {
            return Some(clone_string(&v[i].1));
        }
        i += 1;
    }
    None
}

pub open spec fn window_opt_view(w: Option<&WindowRecord>) -> Option<WindowView> {
    match w {
        Some(x) => Some(x@),
        None => None,
    }
}

pub open spec fn cand_opt_view(r: Option<RunningAppCandidate>) -> Option<CandidateView> {
    match r {
        Some(c) => Some(c@),
        None => None,
    }
}

/// `a` is `b` but for the working-directory hint.
pub open spec fn same_but_hint(a: CandidateView, b: CandidateView) -> bool {
    a == CandidateView { cwd_hint: a.cwd_hint, ..b }
}

/// `r` is what `build_candidate` gives for a process: nothing for a
/// process that is not offered, else its candidate with a hint for some
/// answers of the disk.
pub open spec fn built_as(
    inp: DiscoveryInputs,
    p: ProcessInfo,
    pid: u32,
    window: Option<WindowView>,
    has_window: bool,
    r: Option<CandidateView>,
) -> bool {
    match r {
        None => proc_rejected(p),
        Some(c) => !proc_rejected(p) && same_but_hint(c, candidate_core(inp, p, pid, window, has_window))
            && candidate_hint_ok(inp, p, pid, window, c.cwd_hint),
    }
}

/// Builds the candidate of a running process, or nothing for a process
/// that is not offered (see `proc_rejected`).
pub fn build_candidate(
    pid: u32,
    p: &ProcessInfo,
    window: Option<&WindowRecord>,
    inp: &DiscoveryInputs,
    has_window: bool,
) -> (r: Option<RunningAppCandidate>)
    ensures
        built_as(*inp, *p, pid, window_opt_view(window), has_window, cand_opt_view(r)),
{
    if process_rejected(p) {
        return None;
    }
    let ghost wv = window_opt_view(window);
    let executable = executable_of(p);
    let basename = basename_of(p, &executable);
    let cmd_full = process_cmdline_full(&p.cmd);
    let label = label_of(p);
    let cmd_preview = preview_of(p);
    let desktop_entry = inp.desktop.match_process(executable.as_str(), basename.as_str(), Some(cmd_full.as_str()));
    let wm_entry = match window {
        Some(w) => inp.desktop.match_window_title(w.title.as_str()),
        None => None,
    };
    let wm_match = wm_entry.is_some();
    let window_mapped = has_window || window.is_some() || inp.workspace.has_window_for_pid(pid)
        || inp.workspace.workspace_for_pid(pid).is_some();
    let score_input = ScoreInput {
        excluded: false,
        has_window: window_mapped,
        desktop_match: desktop_entry.is_some(),
        startup_wm_class_match: wm_match,
        flatpak_snap_hint: flatpak_snap_path_hint(executable.as_str()),
        user_session: inp.user_session,
        window_list_available: inp.workspace.windows().len() > 0,
    };
    assert(score_input == candidate_score_input(*inp, *p, pid, wv, has_window));
    let (kind, confidence, _) = classify(&score_input);
    let (display_name, icon_name) = match desktop_entry {
        Some(entry) => (clone_string(&entry.name), clone_opt(&entry.icon)),
        None => match wm_entry {
            Some(entry) => (clone_string(&entry.name), clone_opt(&entry.icon)),
            None => (humanize_basename(label.as_str()), None),
        },
    };
    assert((display_name@, opt_view(icon_name)) == candidate_name_icon(*inp, *p, wv));
    let desktop_workspace = match window {
        Some(w) if w.desktop.is_some() => w.desktop,
        _ => match inp.workspace.workspace_for_pid(pid) {
            Some(d) => Some(d),
            None => inp.workspace.workspace_for_executable(executable.as_str(), display_name.as_str()),
        },
    };
    let window_title = match window {
        Some(w) => Some(clone_string(&w.title)),
        None => None,
    };
    let storage = storage_for(&inp.editor_storage, &basename);
    let proc_cwd = cwd_for(&inp.proc_cwds, pid);
    let cwd_hint = cwd_hint_for_editor(basename.as_str(), &p.cmd, &window_title, &storage, &proc_cwd);
    Some(
        RunningAppCandidate {
            pid,
            executable,
            label,
            cmd_preview,
            cwd_hint,
            kind,
            display_name,
            icon_name,
            desktop_workspace,
            window_title,
            classification_confidence: Some(confidence),
        },
    )
}

// ---------------------------------------------------------------------------
// Window-first discovery
// ---------------------------------------------------------------------------

/// Window-manager rows that are not application windows: blank titles and
/// `@!…` placeholders.
pub open spec fn noise_title(t: Seq<char>) -> bool {
    trim(t).len() == 0 || starts_with(trim(t), "@!"@)
}

pub fn is_wm_noise_title(title: &str) -> (r: bool)
    ensures
        r == noise_title(title@),
{
    let t = trim_str(title);
    t.len() == 0 || crate::text::starts_lit(t.as_slice(), "@!")
}

pub open spec fn proc_index_from(procs: Seq<ProcessInfo>, pid: u32, i: int) -> Option<int>
    decreases procs.len() - i,
{
    if i < 0 || i >= procs.len() {
        None
    } else if procs[i].pid == pid {
        Some(i)
    } else {
        proc_index_from(procs, pid, i + 1)
    }
}

/// A process that a titled window may belong to: a user process that is
/// offered, whose desktop entry is the title's entry (or whose entry name
/// is in the title), or, when the title has no entry, whose basename is in
/// the title or which has an entry of its own.
pub open spec fn title_proc_ok(inp: DiscoveryInputs, w: WindowView, p: ProcessInfo, my_pid: u32) -> bool {
    let keys = inp.desktop.keys();
    let entry = title_match(keys, inp.desktop.wm_classes(), w.title);
    let exe = proc_executable(p);
    let base = proc_basename(p);
    let cmd = proc_cmdline(p);
    let own = process_match(keys, exe, base, Some(cmd));
    &&& p.pid > 1
    &&& p.pid != my_pid
    &&& resolved_executable(p)
    &&& !denylisted(base)
    &&& !chromium_subprocess(cmd)
    &&& !background_noise(exe, cmd)
    &&& match entry {
        Some(e) => own == Some(e) || contains(lowercase(w.title), lowercase(e.name)),
        None => contains(lowercase(w.title), base) || own is Some,
    }
}

pub open spec fn first_title_proc_from(
    inp: DiscoveryInputs,
    w: WindowView,
    procs: Seq<ProcessInfo>,
    my_pid: u32,
    i: int,
) -> Option<int>
    decreases procs.len() - i,
{
    if i < 0 || i >= procs.len() {
        None
    } else if title_proc_ok(inp, w, procs[i], my_pid) {
        Some(i)
    } else {
        first_title_proc_from(inp, w, procs, my_pid, i + 1)
    }
}

/// `Path::new(path).file_name()`, else the path.
pub open spec fn basename_from(path: Seq<char>) -> Seq<char> {
    match file_name(path) {
        Some(n) => n,
        None => path,
    }
}

/// The candidate of a window whose process is unknown: from the title's
/// desktop entry, when that classifies as an application and names an
/// executable.
pub open spec fn title_fallback(inp: DiscoveryInputs, w: WindowView) -> Option<CandidateView> {
    match title_match(inp.desktop.keys(), inp.desktop.wm_classes(), w.title) {
        None => None,
        Some(e) => {
            let si = ScoreInput {
                excluded: false,
                has_window: true,
                desktop_match: true,
                startup_wm_class_match: e.startup_wm_class is Some,
                flatpak_snap_hint: false,
                user_session: inp.user_session,
                window_list_available: false,
            };
            let cls = classification(si, score_of(si));
            if cls.0 != CandidateKind::App || e.exec_keys.len() == 0 {
                None
            } else {
                Some(
                    CandidateView {
                        pid: if w.pid > 11 {
                            w.pid
                        } else {
                            11
                        },
                        executable: e.exec_keys[0],
                        label: basename_from(e.exec_keys[0]),
                        cmd_preview: w.title,
                        cwd_hint: None,
                        kind: cls.0,
                        display_name: e.name,
                        icon_name: e.icon,
                        desktop_workspace: w.desktop,
                        window_title: Some(w.title),
                        classification_confidence: Some(cls.1),
                    },
                )
            }
        },
    }
}

/// `r` is the candidate of a window: that of its own process when the pid
/// is real and running, else that of the first process it may belong to,
/// else the title fallback.
pub open spec fn window_candidate_rel(
    inp: DiscoveryInputs,
    procs: Seq<ProcessInfo>,
    my_pid: u32,
    w: WindowView,
    r: Option<CandidateView>,
) -> bool {
    if w.pid > 10 && proc_index_from(procs, w.pid, 0) is Some {
        built_as(inp, procs[proc_index_from(procs, w.pid, 0)->0], w.pid, Some(w), true, r)
    } else {
        match first_title_proc_from(inp, w, procs, my_pid, 0) {
            Some(k) => built_as(inp, procs[k], procs[k].pid, Some(w), true, r),
            None => r == title_fallback(inp, w),
        }
    }
}

fn find_proc(procs: &Vec<ProcessInfo>, pid: u32) -> (r: Option<usize>)
    ensures
        match r {
            Some(k) => proc_index_from(procs@, pid, 0) == Some(k as int) && k < procs@.len(),
            None => proc_index_from(procs@, pid, 0) is None,
        },
{
    let mut i: usize = 0;
    while i < procs.len()
        invariant
            i <= procs@.len(),
            proc_index_from(procs@, pid, 0) == proc_index_from(procs@, pid, i as int),
        decreases procs@.len() - i,
    {
        if procs[i].pid == pid {
            return Some(i);
        }
        i += 1;
    }
    None
}

fn same_entry(a: &DesktopEntry, b: &DesktopEntry) -> (r: bool)
    ensures
        r == (a@ == b@),
{
    let same_opt = |x: &Option<String>, y: &Option<String>| -> (q: bool)
        ensures
            q == (opt_view(*x) == opt_view(*y)),
        {
            match (x, y) {
                (Some(u), Some(v)) => crate::text::chars_eq(chars_of(u.as_str()).as_slice(), chars_of(v.as_str()).as_slice()),
                (None, None) => true,
                _ => false,
            }
        };
    if !crate::text::chars_eq(chars_of(a.name.as_str()).as_slice(), chars_of(b.name.as_str()).as_slice()) {
        return false;
    }
    if !same_opt(&a.icon, &b.icon) || !same_opt(&a.startup_wm_class, &b.startup_wm_class)
        || !same_opt(&a.app_id, &b.app_id) {
        return false;
    }
    if a.exec_keys.len() != b.exec_keys.len() {
        assert(seqs_of(a.exec_keys@).len() != seqs_of(b.exec_keys@).len());
        return false;
    }
    let n = a.exec_keys.len();
    for i in 0..n
        invariant
            n == a.exec_keys@.len(),
            n == b.exec_keys@.len(),
            forall|k: int| 0 <= k < i ==> a.exec_keys@[k]@ == b.exec_keys@[k]@,
    {
        if !crate::text::chars_eq(chars_of(a.exec_keys[i].as_str()).as_slice(), chars_of(b.exec_keys[i].as_str()).as_slice()) {
            assert(seqs_of(a.exec_keys@)[i as int] != seqs_of(b.exec_keys@)[i as int]);
            return false;
        }
    }
    assert(seqs_of(a.exec_keys@) =~= seqs_of(b.exec_keys@));
    true
}

fn title_proc_matches(inp: &DiscoveryInputs, w: &WindowRecord, p: &ProcessInfo, my_pid: u32) -> (r: bool)
    ensures
        r == title_proc_ok(*inp, w@, *p, my_pid),
{
    if p.pid <= 1 || p.pid == my_pid {
        return false;
    }
    if !has_resolved_executable(p) {
        return false;
    }
    let executable = executable_of(p);
    let basename = basename_of(p, &executable);
    if denylisted_basename(basename.as_str()) {
        return false;
    }
    let cmd_full = process_cmdline_full(&p.cmd);
    if assistant_chromium_subprocess_cmd(cmd_full.as_str()) || assistant_background_noise(
        executable.as_str(),
        cmd_full.as_str(),
    ) {
        return false;
    }
    let own = inp.desktop.match_process(executable.as_str(), basename.as_str(), Some(cmd_full.as_str()));
    let title_lower = lower_chars(chars_of(w.title.as_str()).as_slice());
    match inp.desktop.match_window_title(w.title.as_str()) {
        Some(e) => {
            let same = match own {
                Some(o) => same_entry(o, e),
                None => false,
            };
            same || crate::text::contains_chars(
                title_lower.as_slice(),
                lower_chars(chars_of(e.name.as_str()).as_slice()).as_slice(),
            )
        },
        None => {
            crate::text::contains_chars(title_lower.as_slice(), chars_of(basename.as_str()).as_slice())
                || own.is_some()
        },
    }
}

fn title_fallback_candidate(inp: &DiscoveryInputs, w: &WindowRecord) -> (r: Option<RunningAppCandidate>)
    ensures
        cand_opt_view(r) == title_fallback(*inp, w@),
{
    let entry = match inp.desktop.match_window_title(w.title.as_str()) {
        Some(e) => e,
        None => {
            return None;
        },
    };
    let score_input = ScoreInput {
        excluded: false,
        has_window: true,
        desktop_match: true,
        startup_wm_class_match: entry.startup_wm_class.is_some(),
        flatpak_snap_hint: false,
        user_session: inp.user_session,
        window_list_available: false,
    };
    let (kind, confidence, _) = classify(&score_input);
    match kind {
        CandidateKind::App => {},
        CandidateKind::Process => {
            return None;
        },
    }
    if entry.exec_keys.len() == 0 {
        return None;
    }
    assert(seqs_of(entry.exec_keys@)[0] == entry.exec_keys@[0]@);
    let exe = clone_string(&entry.exec_keys[0]);
    let label = match file_name_chars(chars_of(exe.as_str()).as_slice()) {
        Some(n) => string_of(n.as_slice()),
        None => clone_string(&exe),
    };
    Some(
        RunningAppCandidate {
            pid: if w.pid > 11 {
                w.pid
            } else {
                11
            },
            executable: exe,
            label,
            cmd_preview: clone_string(&w.title),
            cwd_hint: None,
            kind,
            display_name: clone_string(&entry.name),
            icon_name: clone_opt(&entry.icon),
            desktop_workspace: w.desktop,
            window_title: Some(clone_string(&w.title)),
            classification_confidence: Some(confidence),
        },
    )
}

/// The candidate of a titled window whose own process is not known: that of
/// the first process it may belong to (see `title_proc_ok`), else the
/// title fallback.
pub fn build_candidate_from_title(
    window: &WindowRecord,
    inp: &DiscoveryInputs,
    procs: &Vec<ProcessInfo>,
    my_pid: u32,
) -> (r: Option<RunningAppCandidate>)
    ensures
        match first_title_proc_from(*inp, window@, procs@, my_pid, 0) {
            Some(k) => built_as(*inp, procs@[k], procs@[k].pid, Some(window@), true, cand_opt_view(r)),
            None => cand_opt_view(r) == title_fallback(*inp, window@),
        },
{
    let mut i: usize = 0;
    while i < procs.len()
        invariant
            i <= procs@.len(),
            first_title_proc_from(*inp, window@, procs@, my_pid, 0) == first_title_proc_from(
                *inp,
                window@,
                procs@,
                my_pid,
                i as int,
            ),
        decreases procs@.len() - i,
    {
        if title_proc_matches(inp, window, &procs[i], my_pid) {
            return build_candidate(procs[i].pid, &procs[i], Some(window), inp, true);
        }
        i += 1;
    }
    title_fallback_candidate(inp, window)
}

fn candidate_from_window(
    window: &WindowRecord,
    inp: &DiscoveryInputs,
    procs: &Vec<ProcessInfo>,
    my_pid: u32,
) -> (r: Option<RunningAppCandidate>)
    ensures
        window_candidate_rel(*inp, procs@, my_pid, window@, cand_opt_view(r)),
{
    if window.pid > 10 {
        match find_proc(procs, window.pid) {
            Some(k) => {
                return build_candidate(window.pid, &procs[k], Some(window), inp, true);
            },
            None => {},
        }
    }
    build_candidate_from_title(window, inp, procs, my_pid)
}

/// Whether a window yields a candidate (independent of the disk).
pub open spec fn window_yields(inp: DiscoveryInputs, procs: Seq<ProcessInfo>, my_pid: u32, w: WindowView) -> bool {
    if w.pid > 10 && proc_index_from(procs, w.pid, 0) is Some {
        !proc_rejected(procs[proc_index_from(procs, w.pid, 0)->0])
    } else {
        match first_title_proc_from(inp, w, procs, my_pid, 0) {
            Some(k) => !proc_rejected(procs[k]),
            None => title_fallback(inp, w) is Some,
        }
    }
}

proof fn lemma_window_rel_yields(
    inp: DiscoveryInputs,
    procs: Seq<ProcessInfo>,
    my_pid: u32,
    w: WindowView,
    r: Option<CandidateView>,
)
    requires
        window_candidate_rel(inp, procs, my_pid, w, r),
    ensures
        r is Some <==> window_yields(inp, procs, my_pid, w),
{
}

/// The raw candidates of the listed windows, in order: one for each
/// window that is not noise and yields one.
pub open spec fn windows_raw_ok(
    inp: DiscoveryInputs,
    procs: Seq<ProcessInfo>,
    my_pid: u32,
    ws: Seq<WindowView>,
    raw: Seq<CandidateView>,
) -> bool
    decreases ws.len(),
{
    if ws.len() == 0 {
        raw.len() == 0
    } else {
        let w = ws.last();
        if !noise_title(w.title) && window_yields(inp, procs, my_pid, w) {
            raw.len() > 0 && windows_raw_ok(inp, procs, my_pid, ws.drop_last(), raw.drop_last())
                && window_candidate_rel(inp, procs, my_pid, w, Some(raw.last()))
        } else {
            windows_raw_ok(inp, procs, my_pid, ws.drop_last(), raw)
        }
    }
}

/// Window-first discovery: a candidate per application window, merged by
/// `candidate_dedupe_key`.
pub fn discover_from_windows(inp: &DiscoveryInputs, procs: &Vec<ProcessInfo>, my_pid: u32) -> (r: Vec<
    RunningAppCandidate,
>)
    ensures
        exists|raw: Seq<CandidateView>|
            windows_raw_ok(*inp, procs@, my_pid, inp.workspace.windows_seq(), raw) && cands_view(r@)
                == #[trigger] dedupe_spec(raw),
{
    let windows = inp.workspace.windows();
    let ghost ws = windows_view(windows@);
    let mut out: Vec<RunningAppCandidate> = Vec::new();
    let n = windows.len();
    for i in 0..n
        invariant
            n == windows@.len(),
            ws == windows_view(windows@),
            ws == inp.workspace.windows_seq(),
            windows_raw_ok(*inp, procs@, my_pid, ws.take(i as int), cands_view(out@)),
    {
        let w = &windows[i];
        assert(ws[i as int] == w@);
        assert(ws.take(i + 1).drop_last() =~= ws.take(i as int));
        assert(ws.take(i + 1).last() == w@);
        if !is_wm_noise_title(w.title.as_str()) {
            let c = candidate_from_window(w, inp, procs, my_pid);
            proof {
                lemma_window_rel_yields(*inp, procs@, my_pid, w@, cand_opt_view(c));
            }
            match c {
                Some(c) => {
                    let ghost before = cands_view(out@);
                    out.push(c);
                    assert(cands_view(out@) =~= before.push(c@));
                    assert(cands_view(out@).drop_last() =~= before);
                },
                None => {},
            }
        }
    }
    assert(ws.take(n as int) =~= ws);
    let ghost raw = cands_view(out@);
    let r = dedupe_candidates(out);
    assert(cands_view(r@) == dedupe_spec(raw));
    r
}

// ---------------------------------------------------------------------------
// Merging duplicates
// ---------------------------------------------------------------------------

/// The key under which candidates are merged: executable, workspace (or
/// `none`) and window title, separated by U+001F; for editors also the
/// working-directory hint, so that two projects stay apart.
pub open spec fn dedupe_key(c: CandidateView) -> Seq<char> {
    let sep = seq!['\u{1f}'];
    let base = match file_name(c.executable) {
        Some(n) => lowercase(n),
        None => Seq::empty(),
    };
    let ws = match c.desktop_workspace {
        Some(w) => crate::text::decimal(w as nat),
        None => "none"@,
    };
    let title = match c.window_title {
        Some(t) => t,
        None => Seq::empty(),
    };
    if crate::editors::known_editor(base) {
        let folder = match c.cwd_hint {
            Some(f) => f,
            None => Seq::empty(),
        };
        c.executable + sep + folder + sep + ws + sep + title
    } else {
        c.executable + sep + ws + sep + title
    }
}

fn push_all(out: &mut Vec<char>, s: &[char])
    ensures
        final(out)@ == old(out)@ + s@,
{
    let ghost start = out@;
    for i in 0..s.len()
        invariant
            out@ == start + s@.take(i as int),
    {
        out.push(s[i]);
        assert(start + s@.take(i + 1) =~= (start + s@.take(i as int)).push(s@[i as int]));
    }
    assert(s@.take(s@.len() as int) =~= s@);
}

pub fn candidate_dedupe_key(c: &RunningAppCandidate) -> (r: String)
    ensures
        r@ == dedupe_key(c@),
{
    let exe = chars_of(c.executable.as_str());
    let base = match file_name_chars(exe.as_slice()) {
        Some(n) => lower_chars(n.as_slice()),
        None => Vec::new(),
    };
    let ws = match c.desktop_workspace {
        Some(w) => crate::text::decimal_chars(w as u64),
        None => chars_of("none"),
    };
    let title = match &c.window_title {
        Some(t) => chars_of(t.as_str()),
        None => Vec::new(),
    };
    let sep = ['\u{1f}'];
    let mut out = crate::text::clone_chars(&exe);
    let base_s = string_of(base.as_slice());
    if crate::editors::is_known_editor_basename(base_s.as_str()) {
        let folder = match &c.cwd_hint {
            Some(f) => chars_of(f.as_str()),
            None => Vec::new(),
        };
        push_all(&mut out, &sep);
        push_all(&mut out, folder.as_slice());
    }
    push_all(&mut out, &sep);
    push_all(&mut out, ws.as_slice());
    push_all(&mut out, &sep);
    push_all(&mut out, title.as_slice());
    assert(sep@ =~= seq!['\u{1f}']);
    string_of(out.as_slice())
}

/// `best` completed by a duplicate: a known workspace and a window title
/// where it lacks them, a better confidence than low, and, when only the
/// duplicate is an application, its kind, display name and icon.
pub open spec fn merged(best: CandidateView, incoming: CandidateView) -> CandidateView {
    let upgrade = best.kind == CandidateKind::Process && incoming.kind == CandidateKind::App;
    CandidateView {
        desktop_workspace: if incoming.desktop_workspace is Some && best.desktop_workspace is None {
            incoming.desktop_workspace
        } else {
            best.desktop_workspace
        },
        window_title: if best.window_title is None {
            incoming.window_title
        } else {
            best.window_title
        },
        classification_confidence: if best.classification_confidence == Some(ClassificationConfidence::Low)
            && incoming.classification_confidence != Some(ClassificationConfidence::Low) {
            incoming.classification_confidence
        } else {
            best.classification_confidence
        },
        kind: if upgrade {
            CandidateKind::App
        } else {
            best.kind
        },
        display_name: if upgrade {
            incoming.display_name
        } else {
            best.display_name
        },
        icon_name: if upgrade {
            incoming.icon_name
        } else {
            best.icon_name
        },
        ..best
    }
}

fn is_low(c: Option<ClassificationConfidence>) -> (r: bool)
    ensures
        r == (c == Some(ClassificationConfidence::Low)),
{
    match c {
        Some(ClassificationConfidence::Low) => true,
        _ => false,
    }
}

pub fn merge_candidate(best: &mut RunningAppCandidate, incoming: &RunningAppCandidate)
    ensures
        final(best)@ == merged(old(best)@, incoming@),
{
    if incoming.desktop_workspace.is_some() && best.desktop_workspace.is_none() {
        best.desktop_workspace = incoming.desktop_workspace;
    }
    if best.window_title.is_none() {
        best.window_title = clone_opt(&incoming.window_title);
    }
    if is_low(best.classification_confidence) && !is_low(incoming.classification_confidence) {
        best.classification_confidence = incoming.classification_confidence;
    }
    let upgrade = match (best.kind, incoming.kind) {
        (CandidateKind::Process, CandidateKind::App) => true,
        _ => false,
    };
    if upgrade {
        best.kind = CandidateKind::App;
        best.display_name = clone_string(&incoming.display_name);
        best.icon_name = clone_opt(&incoming.icon_name);
    }
}

pub open spec fn group_of_from(gs: Seq<(Seq<char>, CandidateView)>, key: Seq<char>, i: int) -> Option<int>
    decreases gs.len() - i,
{
    if i < 0 || i >= gs.len() {
        None
    } else if gs[i].0 == key {
        Some(i)
    } else {
        group_of_from(gs, key, i + 1)
    }
}

/// Candidates grouped by key in order of first appearance, each group
/// holding the first candidate completed by the later ones in order.
pub open spec fn dedupe_groups(cs: Seq<CandidateView>, n: int) -> Seq<(Seq<char>, CandidateView)>
    decreases n,
{
    if n <= 0 {
        Seq::empty()
    } else {
        let gs = dedupe_groups(cs, n - 1);
        let c = cs[n - 1];
        let key = dedupe_key(c);
        match group_of_from(gs, key, 0) {
            Some(g) => gs.update(g, (key, merged(gs[g].1, c))),
            None => gs.push((key, c)),
        }
    }
}

pub open spec fn dedupe_spec(cs: Seq<CandidateView>) -> Seq<CandidateView> {
    dedupe_groups(cs, cs.len() as int).map_values(|g: (Seq<char>, CandidateView)| g.1)
}

pub open spec fn cgroups_view(v: Seq<(String, RunningAppCandidate)>) -> Seq<(Seq<char>, CandidateView)> {
    v.map_values(|p: (String, RunningAppCandidate)| (p.0@, p.1@))
}

fn find_cgroup(gs: &Vec<(String, RunningAppCandidate)>, key: &String) -> (r: Option<usize>)
    ensures
        match r {
            Some(g) => group_of_from(cgroups_view(gs@), key@, 0) == Some(g as int) && g < gs@.len(),
            None => group_of_from(cgroups_view(gs@), key@, 0) is None,
        },
{
    let ghost v = cgroups_view(gs@);
    let kv = chars_of(key.as_str());
    let mut i: usize = 0;
    while i < gs.len()
        invariant
            v == cgroups_view(gs@),
            kv@ == key@,
            i <= gs@.len(),
            group_of_from(v, key@, 0) == group_of_from(v, key@, i as int),
        decreases gs@.len() - i,
    {
        assert(v[i as int].0 == gs@[i as int].0@);
        if crate::text::chars_eq(chars_of(gs[i].0.as_str()).as_slice(), kv.as_slice()) {
            return Some(i);
        }
        i += 1;
    }
    None
}

proof fn lemma_group_of(gs: Seq<(Seq<char>, CandidateView)>, key: Seq<char>, i: int)
    requires
        0 <= i <= gs.len(),
    ensures
        group_of_from(gs, key, i) matches Some(g) ==> i <= g < gs.len() && gs[g].0 == key,
    decreases gs.len() - i,
{
    if i < gs.len() {
        lemma_group_of(gs, key, i + 1);
    }
}

/// Candidates are merged by key: the groups have pairwise distinct keys,
/// each the key of the first candidate that opened the group, so no key
/// is offered twice.
pub proof fn lemma_dedupe_groups_distinct(cs: Seq<CandidateView>, n: int)
    requires
        0 <= n <= cs.len(),
    ensures
        forall|i: int, j: int|
            0 <= i < j < dedupe_groups(cs, n).len() ==> dedupe_groups(cs, n)[i].0 != dedupe_groups(cs, n)[j].0,
        forall|g: int|
            0 <= g < dedupe_groups(cs, n).len() ==> exists|k: int|
                0 <= k < n && dedupe_key(#[trigger] cs[k]) == (#[trigger] dedupe_groups(cs, n)[g]).0,
        dedupe_groups(cs, n).len() <= n,
    decreases n,
{
    if n > 0 {
        lemma_dedupe_groups_distinct(cs, n - 1);
        let gs = dedupe_groups(cs, n - 1);
        let key = dedupe_key(cs[n - 1]);
        lemma_group_of(gs, key, 0);
        let out = dedupe_groups(cs, n);
        assert forall|g: int| 0 <= g < out.len() implies exists|k: int|
            0 <= k < n && dedupe_key(#[trigger] cs[k]) == (#[trigger] out[g]).0 by {
            if g < gs.len() {
                let k = choose|k: int| 0 <= k < n - 1 && dedupe_key(#[trigger] cs[k]) == (#[trigger] gs[g]).0;
                assert(dedupe_key(cs[k]) == out[g].0);
            } else {
                assert(dedupe_key(cs[n - 1]) == out[g].0);
            }
        }
        if group_of_from(gs, key, 0) is None {
            assert forall|i: int| 0 <= i < gs.len() implies gs[i].0 != key by {
                lemma_group_of_absent(gs, key, 0, i);
            }
        }
    }
}

proof fn lemma_group_of_absent(gs: Seq<(Seq<char>, CandidateView)>, key: Seq<char>, i: int, j: int)
    requires
        0 <= i <= j < gs.len(),
        group_of_from(gs, key, i) is None,
    ensures
        gs[j].0 != key,
    decreases j - i,
{
    if i < j {
        lemma_group_of_absent(gs, key, i + 1, j);
    }
}

/// Merges candidates with the same key (see `dedupe_key`, `merged`).
pub fn dedupe_candidates(candidates: Vec<RunningAppCandidate>) -> (r: Vec<RunningAppCandidate>)
    ensures
        cands_view(r@) == dedupe_spec(cands_view(candidates@)),
{
    let ghost cs = cands_view(candidates@);
    let mut groups: Vec<(String, RunningAppCandidate)> = Vec::new();
    let mut candidates = candidates;
    let n = candidates.len();
    let mut i: usize = 0;
    while i < n
        invariant
            n == cs.len(),
            i <= n,
            candidates@.len() == n - i,
            forall|k: int| 0 <= k < n - i ==> #[trigger] candidates@[k]@ == cs[k + i],
            cgroups_view(groups@) == dedupe_groups(cs, i as int),
        decreases n - i,
    {
        let c = candidates.remove(0);
        assert(c@ == cs[i as int]);
        let key = candidate_dedupe_key(&c);
        let ghost before = cgroups_view(groups@);
        match find_cgroup(&groups, &key) {
            Some(g) => {
                proof {
                    lemma_group_of(before, key@, 0);
                }
                let ghost old_groups = groups@;
                let (k0, mut best) = groups.remove(g);
                assert(k0@ == key@);
                merge_candidate(&mut best, &c);
                groups.insert(g, (k0, best));
                assert(cgroups_view(groups@) =~= before.update(g as int, (key@, merged(before[g as int].1, c@))));
            },
            None => {
                groups.push((key, c));
                assert(cgroups_view(groups@) =~= before.push((dedupe_key(cs[i as int]), cs[i as int])));
            },
        }
        i += 1;
    }
    let mut out: Vec<RunningAppCandidate> = Vec::new();
    let ghost gv = cgroups_view(groups@);
    let m = groups.len();
    let mut groups = groups;
    let mut j: usize = 0;
    while j < m
        invariant
            m == gv.len(),
            j <= m,
            groups@.len() == m - j,
            forall|k: int| 0 <= k < m - j ==> #[trigger] groups@[k].1@ == gv[k + j].1,
            cands_view(out@) == gv.take(j as int).map_values(|g: (Seq<char>, CandidateView)| g.1),
        decreases m - j,
    {
        let (_, c) = groups.remove(0);
        let ghost before = cands_view(out@);
        out.push(c);
        assert(cands_view(out@) =~= before.push(gv[j as int].1));
        assert(gv.take(j + 1).map_values(|g: (Seq<char>, CandidateView)| g.1) =~= gv.take(j as int).map_values(
            |g: (Seq<char>, CandidateView)| g.1,
        ).push(gv[j as int].1));
        j += 1;
    }
    assert(gv.take(m as int) =~= gv);
    out
}

// ---------------------------------------------------------------------------
// Process-based discovery
// ---------------------------------------------------------------------------

/// Whether a pid has a mapped window, directly or through its parents.
pub open spec fn pid_has_window(inp: DiscoveryInputs, pid: u32) -> bool {
    (pid > 10 && pid_lookup(inp.workspace.pid_map(), pid) is Some) || resolve_pid(
        inp.workspace.pid_map(),
        inp.workspace.parent_map(),
        pid,
        12,
    ) is Some
}

/// The raw candidates of the first `n` processes, in order: one for each
/// offered process other than init and this program.
pub open spec fn procs_raw_ok(
    inp: DiscoveryInputs,
    procs: Seq<ProcessInfo>,
    my_pid: u32,
    n: int,
    raw: Seq<CandidateView>,
) -> bool
    decreases n,
{
    if n <= 0 {
        raw.len() == 0
    } else {
        let p = procs[n - 1];
        if p.pid > 1 && p.pid != my_pid && !proc_rejected(p) {
            raw.len() > 0 && procs_raw_ok(inp, procs, my_pid, n - 1, raw.drop_last()) && built_as(
                inp,
                p,
                p.pid,
                None,
                pid_has_window(inp, p.pid),
                Some(raw.last()),
            )
        } else {
            procs_raw_ok(inp, procs, my_pid, n - 1, raw)
        }
    }
}

/// A candidate without workspace gets that of its pid (or parents), else
/// the one its executable and display name match in window titles.
pub open spec fn filled(inp: DiscoveryInputs, c: CandidateView) -> CandidateView {
    if c.desktop_workspace is None {
        CandidateView {
            desktop_workspace: match resolve_pid(
                inp.workspace.pid_map(),
                inp.workspace.parent_map(),
                c.pid,
                12,
            ) {
                Some(d) => Some(d),
                None => executable_workspace(inp.workspace.windows_seq(), c.executable, c.display_name),
            },
            ..c
        }
    } else {
        c
    }
}

pub open spec fn filled_all(inp: DiscoveryInputs, cs: Seq<CandidateView>) -> Seq<CandidateView> {
    cs.map_values(|c: CandidateView| filled(inp, c))
}

/// Process-based discovery: a candidate per offered process, merged by
/// `candidate_dedupe_key`, workspaces filled in where missing.
pub fn discover_from_processes(inp: &DiscoveryInputs, procs: &Vec<ProcessInfo>, my_pid: u32) -> (r: Vec<
    RunningAppCandidate,
>)
    ensures
        exists|raw: Seq<CandidateView>|
            procs_raw_ok(*inp, procs@, my_pid, procs@.len() as int, raw) && cands_view(r@)
                == #[trigger] filled_all(*inp, dedupe_spec(raw)),
{
    let mut out: Vec<RunningAppCandidate> = Vec::new();
    let n = procs.len();
    for i in 0..n
        invariant
            n == procs@.len(),
            procs_raw_ok(*inp, procs@, my_pid, i as int, cands_view(out@)),
    {
        let p = &procs[i];
        let pid = p.pid;
        if pid > 1 && pid != my_pid {
            let has = inp.workspace.has_window_for_pid(pid) || inp.workspace.workspace_for_pid(pid).is_some();
            assert(has == pid_has_window(*inp, pid));
            match build_candidate(pid, p, None, inp, has) {
                Some(c) => {
                    let ghost before = cands_view(out@);
                    out.push(c);
                    assert(cands_view(out@) =~= before.push(c@));
                    assert(cands_view(out@).drop_last() =~= before);
                },
                None => {},
            }
        }
    }
    let ghost raw = cands_view(out@);
    let deduped = dedupe_candidates(out);
    let ghost dv = cands_view(deduped@);
    let mut result: Vec<RunningAppCandidate> = Vec::new();
    let mut rest = deduped;
    let m = rest.len();
    let mut j: usize = 0;
    while j < m
        invariant
            m == dv.len(),
            j <= m,
            rest@.len() == m - j,
            forall|k: int| 0 <= k < m - j ==> #[trigger] rest@[k]@ == dv[k + j],
            cands_view(result@) == filled_all(*inp, dv.take(j as int)),
        decreases m - j,
    {
        let mut c = rest.remove(0);
        assert(c@ == dv[j as int]);
        if c.desktop_workspace.is_none() {
            c.desktop_workspace = match inp.workspace.workspace_for_pid(c.pid) {
                Some(d) => Some(d),
                None => inp.workspace.workspace_for_executable(c.executable.as_str(), c.display_name.as_str()),
            };
        }
        let ghost before = cands_view(result@);
        result.push(c);
        assert(cands_view(result@) =~= before.push(filled(*inp, dv[j as int])));
        assert(filled_all(*inp, dv.take(j + 1)) =~= filled_all(*inp, dv.take(j as int)).push(
            filled(*inp, dv[j as int]),
        ));
        j += 1;
    }
    assert(dv.take(m as int) =~= dv);
    result
}

// ---------------------------------------------------------------------------
// The list
// ---------------------------------------------------------------------------

/// Sorted by display name (code-point order), ties in any order.
pub open spec fn sorted_by_name(cs: Seq<CandidateView>) -> bool {
    forall|i: int| 0 <= i < cs.len() - 1 ==> !#[trigger] lex_lt(cs[i + 1].display_name, cs[i].display_name)
}

/// Sorts candidates by display name; the same candidates come out.
pub fn sort_by_display_name(v: Vec<RunningAppCandidate>) -> (r: Vec<RunningAppCandidate>)
    ensures
        sorted_by_name(cands_view(r@)),
        cands_view(r@).to_multiset() == cands_view(v@).to_multiset(),
{
    broadcast use vstd::multiset::group_multiset_axioms;
    let ghost orig = cands_view(v@).to_multiset();
    let mut v = v;
    let mut r: Vec<RunningAppCandidate> = Vec::new();
    proof {
        assert(cands_view(r@) =~= Seq::<CandidateView>::empty());
        assert(cands_view(r@).to_multiset() =~= vstd::multiset::Multiset::<CandidateView>::empty()) by {
            broadcast use vstd::seq_lib::group_to_multiset_ensures;
        }
        assert(cands_view(v@).to_multiset().add(cands_view(r@).to_multiset()) =~= orig);
    }
    while v.len() > 0
        invariant
            sorted_by_name(cands_view(r@)),
            cands_view(v@).to_multiset().add(cands_view(r@).to_multiset()) == orig,
        decreases v@.len(),
    {
        let ghost v0 = cands_view(v@);
        let x = v.pop().unwrap();
        proof {
            assert(v0 =~= cands_view(v@).push(x@));
            vstd::seq_lib::to_multiset_build(cands_view(v@), x@);
        }
        let xn = chars_of(x.display_name.as_str());
        let mut j: usize = 0;
        let ghost rv = cands_view(r@);
        while j < r.len()
            invariant
                rv == cands_view(r@),
                j <= r@.len(),
                xn@ == x@.display_name,
                forall|k: int| 0 <= k < j ==> lex_lt(#[trigger] rv[k].display_name, x@.display_name),
            ensures
                rv == cands_view(r@),
                j <= r@.len(),
                forall|k: int| 0 <= k < j ==> lex_lt(#[trigger] rv[k].display_name, x@.display_name),
                j < r@.len() ==> !lex_lt(rv[j as int].display_name, x@.display_name),
            decreases r@.len() - j,
        {
            assert(rv[j as int] == r@[j as int]@);
            if !lex_less(chars_of(r[j].display_name.as_str()).as_slice(), xn.as_slice()) {
                break;
            }
            j += 1;
        }
        let ghost xv = x@;
        r.insert(j, x);
        proof {
            let r1 = cands_view(r@);
            assert(r1 =~= rv.insert(j as int, xv));
            vstd::seq_lib::to_multiset_insert(rv, j as int, xv);
            assert forall|i: int| 0 <= i < r1.len() - 1 implies !#[trigger] lex_lt(r1[i + 1].display_name, r1[i].display_name) by {
                if i < j - 1 {
                    assert(r1[i] == rv[i] && r1[i + 1] == rv[i + 1]);
                    assert(!lex_lt(rv[i + 1].display_name, rv[i].display_name));
                } else if i == j - 1 {
                    assert(r1[i] == rv[i]);
                    lemma_lex_asym(rv[i].display_name, xv.display_name);
                } else if i == j {
                } else {
                    assert(r1[i] == rv[i - 1] && r1[i + 1] == rv[i]);
                    assert(!lex_lt(rv[i - 1 + 1].display_name, rv[i - 1].display_name));
                }
            }
            assert(cands_view(v@).to_multiset().add(r1.to_multiset()) =~= orig);
        }
    }
    proof {
        assert(cands_view(v@) =~= Seq::<CandidateView>::empty());
        assert(cands_view(v@).to_multiset() =~= vstd::multiset::Multiset::<CandidateView>::empty()) by {
            broadcast use vstd::seq_lib::group_to_multiset_ensures;
        }
        assert(cands_view(r@).to_multiset() =~= orig);
    }
    r
}

/// What window-first discovery can give for some answers of the disk.
pub open spec fn windows_result(inp: DiscoveryInputs, procs: Seq<ProcessInfo>, my_pid: u32, cs: Seq<CandidateView>) -> bool {
    exists|raw: Seq<CandidateView>|
        windows_raw_ok(inp, procs, my_pid, inp.workspace.windows_seq(), raw) && cs == #[trigger] dedupe_spec(raw)
}

/// What process-based discovery can give for some answers of the disk.
pub open spec fn processes_result(inp: DiscoveryInputs, procs: Seq<ProcessInfo>, my_pid: u32, cs: Seq<CandidateView>) -> bool {
    exists|raw: Seq<CandidateView>|
        procs_raw_ok(inp, procs, my_pid, procs.len() as int, raw) && cs == #[trigger] filled_all(
            inp,
            dedupe_spec(raw),
        )
}

/// A window that window-first discovery turns into a candidate.
pub open spec fn window_counts(inp: DiscoveryInputs, procs: Seq<ProcessInfo>, my_pid: u32, w: WindowView) -> bool {
    !noise_title(w.title) && window_yields(inp, procs, my_pid, w)
}

proof fn lemma_windows_raw_empty(
    inp: DiscoveryInputs,
    procs: Seq<ProcessInfo>,
    my_pid: u32,
    ws: Seq<WindowView>,
    raw: Seq<CandidateView>,
)
    requires
        windows_raw_ok(inp, procs, my_pid, ws, raw),
    ensures
        raw.len() == 0 <==> forall|i: int| 0 <= i < ws.len() ==> !window_counts(inp, procs, my_pid, #[trigger] ws[i]),
    decreases ws.len(),
{
    if ws.len() > 0 {
        let last = ws.last();
        let rest = ws.drop_last();
        if window_counts(inp, procs, my_pid, last) {
            lemma_windows_raw_empty(inp, procs, my_pid, rest, raw.drop_last());
            assert(ws[ws.len() - 1] == last);
        } else {
            lemma_windows_raw_empty(inp, procs, my_pid, rest, raw);
            assert((forall|i: int| 0 <= i < ws.len() ==> !window_counts(inp, procs, my_pid, #[trigger] ws[i]))
                <==> (forall|i: int| 0 <= i < rest.len() ==> !window_counts(inp, procs, my_pid, #[trigger] rest[i])))
                by {
                if forall|i: int| 0 <= i < rest.len() ==> !window_counts(inp, procs, my_pid, #[trigger] rest[i]) {
                    assert forall|i: int| 0 <= i < ws.len() implies !window_counts(inp, procs, my_pid, #[trigger] ws[i]) by {
                        if i < rest.len() {
                            assert(rest[i] == ws[i]);
                        }
                    }
                }
                if forall|i: int| 0 <= i < ws.len() ==> !window_counts(inp, procs, my_pid, #[trigger] ws[i]) {
                    assert forall|i: int| 0 <= i < rest.len() implies !window_counts(inp, procs, my_pid, #[trigger] rest[i]) by {
                        assert(rest[i] == ws[i]);
                    }
                }
            }
        }
    }
}

proof fn lemma_dedupe_groups_nonempty(cs: Seq<CandidateView>, n: int)
    requires
        0 <= n <= cs.len(),
    ensures
        dedupe_groups(cs, n).len() == 0 <==> n == 0,
    decreases n,
{
    if n > 0 {
        lemma_dedupe_groups_nonempty(cs, n - 1);
        let gs = dedupe_groups(cs, n - 1);
        let key = dedupe_key(cs[n - 1]);
        if let Some(g) = group_of_from(gs, key, 0) {
            lemma_group_of_in_range(gs, key, 0);
        }
    }
}

proof fn lemma_group_of_in_range(gs: Seq<(Seq<char>, CandidateView)>, key: Seq<char>, i: int)
    ensures
        group_of_from(gs, key, i) matches Some(g) ==> 0 <= g < gs.len(),
    decreases gs.len() - i,
{
    if 0 <= i < gs.len() {
        lemma_group_of_in_range(gs, key, i + 1);
    }
}

/// Whether window-first discovery finds anything does not depend on the
/// disk: two of its possible results are both empty or both not, and they
/// are empty exactly when no listed window that is not noise yields a
/// candidate.
pub proof fn law_window_first_emptiness_is_determined(
    inp: DiscoveryInputs,
    procs: Seq<ProcessInfo>,
    my_pid: u32,
    a: Seq<CandidateView>,
    b: Seq<CandidateView>,
)
    requires
        windows_result(inp, procs, my_pid, a),
        windows_result(inp, procs, my_pid, b),
    ensures
        a.len() == 0 <==> b.len() == 0,
        a.len() == 0 <==> forall|i: int|
            0 <= i < inp.workspace.windows_seq().len() ==> !window_counts(
                inp,
                procs,
                my_pid,
                #[trigger] inp.workspace.windows_seq()[i],
            ),
{
    let ws = inp.workspace.windows_seq();
    let ra = choose|raw: Seq<CandidateView>|
        windows_raw_ok(inp, procs, my_pid, ws, raw) && a == #[trigger] dedupe_spec(raw);
    let rb = choose|raw: Seq<CandidateView>|
        windows_raw_ok(inp, procs, my_pid, ws, raw) && b == #[trigger] dedupe_spec(raw);
    lemma_windows_raw_empty(inp, procs, my_pid, ws, ra);
    lemma_windows_raw_empty(inp, procs, my_pid, ws, rb);
    lemma_dedupe_groups_nonempty(ra, ra.len() as int);
    lemma_dedupe_groups_nonempty(rb, rb.len() as int);
}

/// Window-first discovery applies: on X11 or from a TTY, with windows listed.
pub open spec fn window_first(inp: DiscoveryInputs, session_type: Seq<char>) -> bool {
    (session_type == "x11"@ || session_type == "tty"@) && inp.workspace.windows_seq().len() > 0
}

/// Where discovery's unsorted list comes from: when window-first applies,
/// its result if that holds anything, else (window-first gave nothing) the
/// process-based result; otherwise the process-based result.
pub open spec fn discovery_source(
    inp: DiscoveryInputs,
    procs: Seq<ProcessInfo>,
    my_pid: u32,
    session_type: Seq<char>,
    pre: Seq<CandidateView>,
) -> bool {
    if window_first(inp, session_type) {
        ||| pre.len() > 0 && windows_result(inp, procs, my_pid, pre)
        ||| windows_result(inp, procs, my_pid, Seq::empty()) && processes_result(inp, procs, my_pid, pre)
    } else {
        processes_result(inp, procs, my_pid, pre)
    }
}

/// What discovery gives: the list of `discovery_source`, sorted by display
/// name and capped at `MAX_CANDIDATES`.
pub open spec fn discovered(
    inp: DiscoveryInputs,
    procs: Seq<ProcessInfo>,
    my_pid: u32,
    session_type: Seq<char>,
    rv: Seq<CandidateView>,
) -> bool {
    exists|pre: Seq<CandidateView>, all: Seq<CandidateView>|
        #![trigger all.to_multiset(), pre.to_multiset()]
        {
            &&& discovery_source(inp, procs, my_pid, session_type, pre)
            &&& sorted_by_name(all)
            &&& all.to_multiset() == pre.to_multiset()
            &&& rv == if all.len() > MAX_CANDIDATES {
                all.take(MAX_CANDIDATES as int)
            } else {
                all
            }
        }
}

/// The running applications offered by the assistant. On X11 (and from a
/// TTY) with listed windows, window-first discovery runs; when that gives
/// nothing (or is not used), process-based discovery. The list is sorted by
/// display name and cut at `MAX_CANDIDATES`.
pub fn discover_running_app_candidates(
    inp: &DiscoveryInputs,
    procs: &Vec<ProcessInfo>,
    my_pid: u32,
    session_type: &str,
) -> (r: Vec<RunningAppCandidate>)
    ensures
        discovered(*inp, procs@, my_pid, session_type@, cands_view(r@)),
{
    let st = chars_of(session_type);
    let use_windows = (crate::text::is_lit(st.as_slice(), "x11") || crate::text::is_lit(st.as_slice(), "tty"))
        && inp.workspace.windows().len() > 0;
    let mut out: Vec<RunningAppCandidate> = Vec::new();
    if use_windows {
        out = discover_from_windows(inp, procs, my_pid);
    }
    let ghost from_windows = cands_view(out@);
    if out.len() == 0 {
        out = discover_from_processes(inp, procs, my_pid);
        proof {
            if use_windows {
                assert(from_windows =~= Seq::<CandidateView>::empty());
            }
        }
    }
    let ghost pre = cands_view(out@);
    assert(discovery_source(*inp, procs@, my_pid, session_type@, pre));
    let mut sorted = sort_by_display_name(out);
    let ghost all = cands_view(sorted@);
    if sorted.len() > MAX_CANDIDATES {
        sorted.truncate(MAX_CANDIDATES);
        assert(cands_view(sorted@) =~= all.take(MAX_CANDIDATES as int));
    }
    sorted
}

} // verus!
