//! Context cleanup: which running processes diverge from a profile, and
//! the decisions and messages of a confirmed termination (the signals are
//! sent by the caller).

use vstd::prelude::*;

use crate::platform::{exe_basename, executable_basename};
use crate::profiles::{append, SessionProfile};
use crate::text::{
    chars_of, clone_string, decimal, decimal_chars, lower_chars, lowercase, seqs_of, string_of, trim,
    trim_str,
};

verus! {

/// A running process offered for cleanup.
#[derive(Debug, Clone, PartialEq, Eq)]
pub struct ProcessCandidate {
    pub pid: u32,
    pub executable_basename: String,
    pub cmd_preview: String,
}

pub struct CandidateRowView {
    pub pid: u32,
    pub executable_basename: Seq<char>,
    pub cmd_preview: Seq<char>,
}

impl View for ProcessCandidate {
    type V = CandidateRowView;

    open spec fn view(&self) -> CandidateRowView {
        CandidateRowView {
            pid: self.pid,
            executable_basename: self.executable_basename@,
            cmd_preview: self.cmd_preview@,
        }
    }
}

pub open spec fn candidates_view(v: Seq<ProcessCandidate>) -> Seq<CandidateRowView> {
    v.map_values(|c: ProcessCandidate| c@)
}

/// A divergence row for the user.
#[derive(Debug, Clone, PartialEq, Eq)]
pub struct CleanupDivergenceRow {
    pub pid: u32,
    pub executable_basename: String,
    pub cmd_preview: String,
}

impl CleanupDivergenceRow {
    pub fn from_candidate(c: &ProcessCandidate) -> (r: Self)
        ensures
            r.pid == c.pid,
            r.executable_basename@ == c.executable_basename@,
            r.cmd_preview@ == c.cmd_preview@,
    {
        CleanupDivergenceRow {
            pid: c.pid,
            executable_basename: clone_string(&c.executable_basename),
            cmd_preview: clone_string(&c.cmd_preview),
        }
    }
}

/// The outcome of one termination request.
#[derive(Debug, Clone, PartialEq, Eq)]
pub struct CleanupTerminateResult {
    pub pid: u32,
    pub ok: bool,
    pub message: String,
}

pub open spec fn apps_allow(p: SessionProfile, x: Seq<char>, n: int) -> bool {
    exists|k: int| 0 <= k < n && k < p.applications@.len() && #[trigger] exe_basename(p.applications@[k].executable@) == x
}

pub open spec fn browser_allow(p: SessionProfile, x: Seq<char>) -> bool {
    p.browser matches Some(b) && exe_basename(b.executable@) == x
}

pub open spec fn extra_allow(extras: Seq<String>, x: Seq<char>, n: int) -> bool {
    exists|k: int|
        0 <= k < n && k < extras.len() && trim(#[trigger] extras[k]@).len() > 0 && lowercase(trim(extras[k]@)) == x
}

/// The basenames a profile allows: those of its applications and of its
/// browser, and its non-blank extra basenames (trimmed, lower-cased).
pub open spec fn allowed(p: SessionProfile, x: Seq<char>) -> bool {
    ||| apps_allow(p, x, p.applications@.len() as int)
    ||| browser_allow(p, x)
    ||| (p.cleanup matches Some(c) && extra_allow(c.allow_extra_basenames@, x, c.allow_extra_basenames@.len() as int))
}

/// A profile allows the executable basename of each of its applications
/// and of its browser, and each non-blank extra basename of its cleanup
/// rules (trimmed, lower-cased); it allows nothing else.
pub proof fn law_allowed_basenames(p: SessionProfile, x: Seq<char>)
    ensures
        forall|k: int|
            0 <= k < p.applications@.len() ==> allowed(p, exe_basename((#[trigger] p.applications@[k]).executable@)),
        p.browser matches Some(b) ==> allowed(p, exe_basename(b.executable@)),
        p.cleanup matches Some(c) ==> forall|k: int|
            0 <= k < c.allow_extra_basenames@.len() && trim((#[trigger] c.allow_extra_basenames@[k])@).len() > 0
                ==> allowed(p, lowercase(trim(c.allow_extra_basenames@[k]@))),
        allowed(p, x) ==> (exists|k: int|
            0 <= k < p.applications@.len() && exe_basename((#[trigger] p.applications@[k]).executable@) == x) || (
        p.browser matches Some(b) && exe_basename(b.executable@) == x) || (p.cleanup matches Some(c) && exists|k: int|
            0 <= k < c.allow_extra_basenames@.len() && trim((#[trigger] c.allow_extra_basenames@[k])@).len() > 0
                && lowercase(trim(c.allow_extra_basenames@[k]@)) == x),
{
    assert forall|k: int|
        0 <= k < p.applications@.len() implies allowed(p, exe_basename((#[trigger] p.applications@[k]).executable@)) by {
        assert(apps_allow(p, exe_basename(p.applications@[k].executable@), p.applications@.len() as int));
    }
    if let Some(c) = p.cleanup {
        let ex = c.allow_extra_basenames@;
        assert forall|k: int|
            0 <= k < ex.len() && trim((#[trigger] ex[k])@).len() > 0 implies allowed(p, lowercase(trim(ex[k]@))) by {
            assert(extra_allow(ex, lowercase(trim(ex[k]@)), ex.len() as int));
        }
    }
}

proof fn lemma_apps_allow_step(p: SessionProfile, x: Seq<char>, i: int)
    requires
        0 <= i < p.applications@.len(),
    ensures
        apps_allow(p, x, i + 1) == (apps_allow(p, x, i) || exe_basename(p.applications@[i].executable@) == x),
{
    if apps_allow(p, x, i + 1) {
        let k = choose|k: int|
            0 <= k < i + 1 && k < p.applications@.len() && #[trigger] exe_basename(p.applications@[k].executable@) == x;
        if k < i {
            assert(apps_allow(p, x, i));
        }
    }
    if apps_allow(p, x, i) {
        let k = choose|k: int|
            0 <= k < i && k < p.applications@.len() && #[trigger] exe_basename(p.applications@[k].executable@) == x;
        assert(apps_allow(p, x, i + 1));
    }
}

proof fn lemma_extra_allow_step(extras: Seq<String>, x: Seq<char>, i: int)
    requires
        0 <= i < extras.len(),
    ensures
        extra_allow(extras, x, i + 1) == (extra_allow(extras, x, i) || (trim(extras[i]@).len() > 0 && lowercase(
            trim(extras[i]@),
        ) == x)),
{
    if extra_allow(extras, x, i + 1) {
        let k = choose|k: int|
            0 <= k < i + 1 && k < extras.len() && trim(#[trigger] extras[k]@).len() > 0 && lowercase(trim(extras[k]@)) == x;
        if k < i {
            assert(extra_allow(extras, x, i));
        }
    }
    if extra_allow(extras, x, i) {
        let k = choose|k: int|
            0 <= k < i && k < extras.len() && trim(#[trigger] extras[k]@).len() > 0 && lowercase(trim(extras[k]@)) == x;
        assert(extra_allow(extras, x, i + 1));
    }
}

/// `x` is the text of one of the strings of `v`.
pub open spec fn in_strings(v: Seq<String>, x: Seq<char>) -> bool {
    exists|k: int| 0 <= k < v.len() && (#[trigger] v[k])@ == x
}

proof fn lemma_in_strings_seqs(v: Seq<String>, x: Seq<char>)
    ensures
        in_strings(v, x) == seqs_of(v).contains(x),
{
    if in_strings(v, x) {
        let k = choose|k: int| 0 <= k < v.len() && (#[trigger] v[k])@ == x;
        assert(seqs_of(v)[k] == x);
    }
    if seqs_of(v).contains(x) {
        let k = choose|k: int| 0 <= k < seqs_of(v).len() && seqs_of(v)[k] == x;
        assert(v[k]@ == x);
    }
}

fn insert_unique(set: &mut Vec<String>, s: String)
    requires
        forall|a: int, b: int| 0 <= a < b < old(set)@.len() ==> old(set)@[a]@ != old(set)@[b]@,
    ensures
        forall|x: Seq<char>| #[trigger] in_strings(final(set)@, x) <==> (in_strings(old(set)@, x) || x == s@),
        forall|a: int, b: int| 0 <= a < b < final(set)@.len() ==> final(set)@[a]@ != final(set)@[b]@,
{
    let sv = chars_of(s.as_str());
    let n = set.len();
    for i in 0..n
        invariant
            n == set@.len(),
            sv@ == s@,
            set@ == old(set)@,
            forall|a: int, b: int| 0 <= a < b < set@.len() ==> set@[a]@ != set@[b]@,
            forall|k: int| 0 <= k < i ==> (#[trigger] set@[k])@ != s@,
    {
        if crate::text::chars_eq(chars_of(set[i].as_str()).as_slice(), sv.as_slice()) {
            assert(set@[i as int]@ == s@);
            return;
        }
    }
    let ghost before = set@;
    set.push(s);
    proof {
        assert forall|x: Seq<char>| #[trigger] in_strings(set@, x) <==> (in_strings(before, x) || x == s@) by {
            if in_strings(set@, x) {
                let j = choose|j: int| 0 <= j < set@.len() && (#[trigger] set@[j])@ == x;
                if j < before.len() {
                    assert(before[j]@ == x);
                }
            }
            if in_strings(before, x) {
                let j = choose|j: int| 0 <= j < before.len() && (#[trigger] before[j])@ == x;
                assert(set@[j]@ == x);
            }
            if x == s@ {
                assert(set@[before.len() as int]@ == x);
            }
        }
        assert forall|a: int, b: int| 0 <= a < b < set@.len() implies set@[a]@ != set@[b]@ by {
            if b == set@.len() - 1 {
                assert(set@[a] == before[a]);
            }
        }
    }
}

/// Lower-cased basenames implied by a profile (see `allowed`), each once.
pub fn allowed_executable_basenames(profile: &SessionProfile) -> (r: Vec<String>)
    ensures
        forall|x: Seq<char>| #[trigger] seqs_of(r@).contains(x) <==> allowed(*profile, x),
        forall|a: int, b: int| 0 <= a < b < r@.len() ==> r@[a]@ != r@[b]@,
{
    let mut set: Vec<String> = Vec::new();
    let n = profile.applications.len();
    for i in 0..n
        invariant
            n == profile.applications@.len(),
            forall|x: Seq<char>| #[trigger] in_strings(set@, x) <==> apps_allow(*profile, x, i as int),
            forall|a: int, b: int| 0 <= a < b < set@.len() ==> set@[a]@ != set@[b]@,
    {
        let b = executable_basename(profile.applications[i].executable.as_str());
        let ghost before = set@;
        let ghost bv = b@;
        insert_unique(&mut set, b);
        proof {
            assert forall|x: Seq<char>| #[trigger] in_strings(set@, x) <==> apps_allow(*profile, x, i + 1) by {
                lemma_apps_allow_step(*profile, x, i as int);
                assert(in_strings(before, x) == apps_allow(*profile, x, i as int));
                assert(in_strings(set@, x) == (in_strings(before, x) || x == bv));
            }
        }
    }
    let ghost after_apps = set@;
    match &profile.browser {
        Some(b) => {
            let bb = executable_basename(b.executable.as_str());
            let ghost bv = bb@;
            insert_unique(&mut set, bb);
            assert forall|x: Seq<char>|
                #[trigger] in_strings(set@, x) <==> (apps_allow(*profile, x, n as int) || browser_allow(*profile, x)) by {
                assert(in_strings(after_apps, x) == apps_allow(*profile, x, n as int));
                assert(in_strings(set@, x) == (in_strings(after_apps, x) || x == bv));
            }
        },
        None => {
            assert forall|x: Seq<char>|
                #[trigger] in_strings(set@, x) <==> (apps_allow(*profile, x, n as int) || browser_allow(*profile, x)) by {
                assert(in_strings(after_apps, x) == apps_allow(*profile, x, n as int));
            }
        },
    }
    match &profile.cleanup {
        Some(c) => {
            let m = c.allow_extra_basenames.len();
            for j in 0..m
                invariant
                    m == c.allow_extra_basenames@.len(),
                    n == profile.applications@.len(),
                    profile.cleanup == Some(*c),
                    forall|x: Seq<char>|
                        #[trigger] in_strings(set@, x) <==> (apps_allow(*profile, x, n as int) || browser_allow(*profile, x)
                            || extra_allow(c.allow_extra_basenames@, x, j as int)),
                    forall|a: int, b: int| 0 <= a < b < set@.len() ==> set@[a]@ != set@[b]@,
            {
                let t = trim_str(c.allow_extra_basenames[j].as_str());
                let ghost before = set@;
                let ghost added = lowercase(t@);
                if t.len() > 0 {
                    insert_unique(&mut set, string_of(lower_chars(t.as_slice()).as_slice()));
                }
                proof {
                    assert forall|x: Seq<char>|
                        #[trigger] in_strings(set@, x) <==> (apps_allow(*profile, x, n as int) || browser_allow(*profile, x)
                            || extra_allow(c.allow_extra_basenames@, x, j + 1)) by {
                        lemma_extra_allow_step(c.allow_extra_basenames@, x, j as int);
                        assert(in_strings(before, x) == (apps_allow(*profile, x, n as int) || browser_allow(*profile, x)
                            || extra_allow(c.allow_extra_basenames@, x, j as int)));
                        if t@.len() > 0 {
                            assert(in_strings(set@, x) == (in_strings(before, x) || x == added));
                        }
                    }
                }
            }
        },
        None => {},
    }
    assert forall|x: Seq<char>| #[trigger] seqs_of(set@).contains(x) <==> allowed(*profile, x) by {
        lemma_in_strings_seqs(set@, x);
        assert(in_strings(set@, x) == (apps_allow(*profile, x, n as int) || browser_allow(*profile, x)
            || (profile.cleanup matches Some(c) && extra_allow(c.allow_extra_basenames@, x, c.allow_extra_basenames@.len() as int))));
    }
    set
}

fn contains_string(v: &Vec<String>, s: &String) -> (r: bool)
    ensures
        r == seqs_of(v@).contains(s@),
{
    let sv = chars_of(s.as_str());
    let n = v.len();
    for i in 0..n
        invariant
            n == v@.len(),
            sv@ == s@,
            forall|k: int| 0 <= k < i ==> #[trigger] seqs_of(v@)[k] != s@,
    {
        if crate::text::chars_eq(chars_of(v[i].as_str()).as_slice(), sv.as_slice()) {
            assert(seqs_of(v@)[i as int] == s@);
            return true;
        }
    }
    false
}

pub open spec fn not_allowed(allowed: Seq<Seq<char>>) -> spec_fn(CandidateRowView) -> bool {
    |c: CandidateRowView| !allowed.contains(c.executable_basename)
}

/// The running processes whose basename the profile does not allow, in
/// order.
pub fn compute_divergences(candidates: &Vec<ProcessCandidate>, allowed: &Vec<String>) -> (r: Vec<ProcessCandidate>)
    ensures
        candidates_view(r@) == candidates_view(candidates@).filter(not_allowed(seqs_of(allowed@))),
{
    let ghost cv = candidates_view(candidates@);
    let ghost pred = not_allowed(seqs_of(allowed@));
    let mut out: Vec<ProcessCandidate> = Vec::new();
    let n = candidates.len();
    for i in 0..n
        invariant
            n == candidates@.len(),
            cv == candidates_view(candidates@),
            pred == not_allowed(seqs_of(allowed@)),
            candidates_view(out@) == cv.take(i as int).filter(pred),
    {
        let c = &candidates[i];
        proof {
            assert(cv[i as int] == c@);
            assert(cv.take(i + 1).drop_last() =~= cv.take(i as int));
            assert(cv.take(i + 1).last() == cv[i as int]);
            reveal(Seq::filter);
        }
        if !contains_string(allowed, &c.executable_basename) {
            let ghost before = candidates_view(out@);
            let copy = ProcessCandidate {
                pid: c.pid,
                executable_basename: clone_string(&c.executable_basename),
                cmd_preview: clone_string(&c.cmd_preview),
            };
            out.push(copy);
            assert(candidates_view(out@) =~= before.push(cv[i as int]));
        }
    }
    assert(cv.take(n as int) =~= cv);
    out
}

/// With the allowed basenames of a profile, the divergences are exactly the
/// candidates whose basename the profile does not allow: an allowed
/// process is never offered for cleanup, and every other one is.
pub proof fn lemma_divergences_are_the_disallowed(
    profile: SessionProfile,
    allowed_list: Seq<Seq<char>>,
    cands: Seq<CandidateRowView>,
)
    requires
        forall|x: Seq<char>| #[trigger] allowed_list.contains(x) <==> allowed(profile, x),
    ensures
        forall|c: CandidateRowView|
            #[trigger] cands.filter(not_allowed(allowed_list)).contains(c) <==> (cands.contains(c) && !allowed(
                profile,
                c.executable_basename,
            )),
{
    let pred = not_allowed(allowed_list);
    let out = cands.filter(pred);
    assert forall|c: CandidateRowView|
        #[trigger] out.contains(c) <==> (cands.contains(c) && !allowed(profile, c.executable_basename)) by {
        if out.contains(c) {
            cands.lemma_filter_contains_rev(pred, c);
            let k = choose|k: int| 0 <= k < out.len() && out[k] == c;
            cands.lemma_filter_pred(pred, k);
            assert(!allowed_list.contains(c.executable_basename));
        }
        if cands.contains(c) && !allowed(profile, c.executable_basename) {
            let k = choose|k: int| 0 <= k < cands.len() && cands[k] == c;
            assert(pred(cands[k]));
            cands.lemma_filter_contains(pred, k);
        }
    }
}

// ---------------------------------------------------------------------------
// Termination
// ---------------------------------------------------------------------------

/// Refuses obviously unsafe targets: pid 0 or 1, and this program.
pub fn validate_user_cleanup_pid(pid: u32, my_pid: u32) -> (r: Result<(), String>)
    ensures
        pid <= 1 ==> (r matches Err(m) && m@ == "refusing signals for pid 0 or 1"@),
        pid > 1 && pid == my_pid ==> (r matches Err(m) && m@ == "refusing to signal the Maestro process itself"@),
        pid > 1 && pid != my_pid ==> r is Ok,
{
    if pid <= 1 {
        return Err(String::from_str("refusing signals for pid 0 or 1"));
    }
    if pid == my_pid {
        return Err(String::from_str("refusing to signal the Maestro process itself"));
    }
    Ok(())
}

pub fn process_not_found_message(pid: u32) -> (r: String)
    ensures
        r@ == "process "@ + decimal(pid as nat) + " not found"@,
{
    let mut o: Vec<char> = Vec::new();
    append(&mut o, "process ");
    let d = decimal_chars(pid as u64);
    let ds = string_of(d.as_slice());
    append(&mut o, ds.as_str());
    append(&mut o, " not found");
    string_of(o.as_slice())
}

/// What sending SIGTERM gave: `None` when the platform cannot send it.
pub fn sigterm_result(pid: u32, sent: Option<bool>) -> (r: Result<String, String>)
    ensures
        sent is None ==> (r matches Err(m) && m@ == "SIGTERM is not supported on this platform"@),
        sent == Some(false) ==> (r matches Err(m) && m@ == "failed to send SIGTERM to pid "@ + decimal(pid as nat)),
        sent == Some(true) ==> (r matches Ok(m) && m@ == "SIGTERM sent to pid "@ + decimal(pid as nat)),
{
    let ds = string_of(decimal_chars(pid as u64).as_slice());
    match sent {
        None => Err(String::from_str("SIGTERM is not supported on this platform")),
        Some(false) => {
            let mut o: Vec<char> = Vec::new();
            append(&mut o, "failed to send SIGTERM to pid ");
            append(&mut o, ds.as_str());
            Err(string_of(o.as_slice()))
        },
        Some(true) => {
            let mut o: Vec<char> = Vec::new();
            append(&mut o, "SIGTERM sent to pid ");
            append(&mut o, ds.as_str());
            Ok(string_of(o.as_slice()))
        },
    }
}

/// What became of a process after the grace period.
#[derive(Debug, Clone, Copy, PartialEq, Eq, Structural)]
pub enum KillAttempt {
    /// It exited on its own.
    Exited,
    /// It still ran; SIGKILL is not supported here.
    Unsupported,
    /// It still ran; SIGKILL could not be sent.
    Failed,
    /// It still ran; SIGKILL was sent.
    Sent,
}

/// The termination detail after the grace period.
pub fn kill_detail(detail: &str, ms: u64, attempt: KillAttempt) -> (r: String)
    ensures
        r@ == detail@ + match attempt {
            KillAttempt::Exited => "; exited before SIGKILL after "@ + decimal(ms as nat) + " ms"@,
            KillAttempt::Unsupported => "; SIGKILL unsupported on this platform"@,
            KillAttempt::Failed => "; SIGKILL failed"@,
            KillAttempt::Sent => "; SIGKILL sent after "@ + decimal(ms as nat) + " ms (still running)"@,
        },
{
    let mut o: Vec<char> = Vec::new();
    append(&mut o, detail);
    let ds = string_of(decimal_chars(ms).as_slice());
    match attempt {
        KillAttempt::Exited => {
            append(&mut o, "; exited before SIGKILL after ");
            append(&mut o, ds.as_str());
            append(&mut o, " ms");
        },
        KillAttempt::Unsupported => {
            append(&mut o, "; SIGKILL unsupported on this platform");
        },
        KillAttempt::Failed => {
            append(&mut o, "; SIGKILL failed");
        },
        KillAttempt::Sent => {
            append(&mut o, "; SIGKILL sent after ");
            append(&mut o, ds.as_str());
            append(&mut o, " ms (still running)");
        },
    }
    string_of(o.as_slice())
}

/// The result row of a termination request.
pub fn terminate_result_row(pid: u32, result: Result<String, String>) -> (r: CleanupTerminateResult)
    ensures
        r.pid == pid,
        match result {
            Ok(m) => r.ok && r.message@ == m@,
            Err(m) => !r.ok && r.message@ == m@,
        },
{
    match result {
        Ok(m) => CleanupTerminateResult { pid, ok: true, message: m },
        Err(m) => CleanupTerminateResult { pid, ok: false, message: m },
    }
}

} // verus!
