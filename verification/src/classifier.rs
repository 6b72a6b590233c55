//! Scored classification of running programs into applications and plain
//! processes. Evidence (a mapped window, a matching `.desktop` entry, a
//! matching `StartupWMClass`, a Flatpak/Snap path, a graphical session) adds
//! to a score; a score at or above the threshold makes an application.

use vstd::prelude::*;

use crate::assistant::{CandidateKind, ClassificationConfidence};
use crate::text::{contains, has_lit, lower_str, lowercase};

verus! {

pub const SCORE_WINDOW: i32 = 100;
pub const SCORE_DESKTOP_EXEC: i32 = 80;
pub const SCORE_STARTUP_WM_CLASS: i32 = 60;
pub const SCORE_FLATPAK_SNAP: i32 = 20;
pub const SCORE_USER_SESSION: i32 = 10;
pub const SCORE_NO_WINDOW_PENALTY: i32 = -50;
pub const APP_THRESHOLD: i32 = 80;
pub const EXCLUDED_SCORE: i32 = -1000;

/// The evidence gathered about one running program.
#[derive(Debug, Clone, Copy, PartialEq, Eq, Structural)]
pub struct ScoreInput {
    pub excluded: bool,
    pub has_window: bool,
    pub desktop_match: bool,
    pub startup_wm_class_match: bool,
    pub flatpak_snap_hint: bool,
    pub user_session: bool,
    /// A window source returned a non-empty list of mapped windows for this
    /// session. Without one (pure Wayland without protocol access) a strong
    /// `.desktop` match is not penalised for lacking a window.
    pub window_list_available: bool,
}

impl Default for ScoreInput {
    fn default() -> (r: Self)
        ensures
            !r.excluded && !r.has_window && !r.desktop_match && !r.startup_wm_class_match
                && !r.flatpak_snap_hint && !r.user_session && !r.window_list_available,
    {
        ScoreInput {
            excluded: false,
            has_window: false,
            desktop_match: false,
            startup_wm_class_match: false,
            flatpak_snap_hint: false,
            user_session: false,
            window_list_available: false,
        }
    }
}

pub open spec fn bonus(flag: bool, points: int) -> int {
    if flag { points } else { 0 }
}

/// The score of the evidence: the excluded score for an excluded program,
/// else the sum of the points of each piece of evidence, with a penalty for
/// a desktop match without a window where windows can be listed.
pub open spec fn score_of(i: ScoreInput) -> int {
    if i.excluded {
        EXCLUDED_SCORE as int
    } else {
        bonus(i.has_window, SCORE_WINDOW as int) + bonus(i.desktop_match, SCORE_DESKTOP_EXEC as int)
            + bonus(i.startup_wm_class_match, SCORE_STARTUP_WM_CLASS as int)
            + bonus(i.flatpak_snap_hint, SCORE_FLATPAK_SNAP as int)
            + bonus(i.user_session, SCORE_USER_SESSION as int)
            + bonus(
            i.desktop_match && !i.has_window && i.window_list_available,
            SCORE_NO_WINDOW_PENALTY as int,
        )
    }
}

pub fn compute_score(input: &ScoreInput) -> (r: i32)
    ensures
        r == score_of(*input),
{
    if input.excluded {
        return EXCLUDED_SCORE;
    }
    let mut score: i32 = 0;
    if input.has_window {
        score += SCORE_WINDOW;
    }
    if input.desktop_match {
        score += SCORE_DESKTOP_EXEC;
    }
    if input.startup_wm_class_match {
        score += SCORE_STARTUP_WM_CLASS;
    }
    if input.flatpak_snap_hint {
        score += SCORE_FLATPAK_SNAP;
    }
    if input.user_session {
        score += SCORE_USER_SESSION;
    }
    if input.desktop_match && !input.has_window && input.window_list_available {
        score += SCORE_NO_WINDOW_PENALTY;
    }
    score
}

/// How sure an application classification is: high with both a window and
/// a desktop match, medium with one strong piece of evidence, else low.
pub open spec fn app_confidence(i: ScoreInput) -> ClassificationConfidence {
    if i.has_window && i.desktop_match {
        ClassificationConfidence::High
    } else if i.has_window || i.desktop_match || i.startup_wm_class_match {
        ClassificationConfidence::Medium
    } else {
        ClassificationConfidence::Low
    }
}

pub open spec fn classification(i: ScoreInput, score: int) -> (
    CandidateKind,
    ClassificationConfidence,
) {
    if score < APP_THRESHOLD as int {
        (CandidateKind::Process, ClassificationConfidence::Low)
    } else {
        (CandidateKind::App, app_confidence(i))
    }
}

pub fn classify_from_score(input: &ScoreInput, score: i32) -> (r: (
    CandidateKind,
    ClassificationConfidence,
))
    ensures
        r == classification(*input, score as int),
{
    if score < APP_THRESHOLD {
        return (CandidateKind::Process, ClassificationConfidence::Low);
    }
    let confidence = if input.has_window && input.desktop_match {
        ClassificationConfidence::High
    } else if input.has_window || input.desktop_match || input.startup_wm_class_match {
        ClassificationConfidence::Medium
    } else {
        ClassificationConfidence::Low
    };
    (CandidateKind::App, confidence)
}

pub fn classify(input: &ScoreInput) -> (r: (CandidateKind, ClassificationConfidence, i32))
    ensures
        r.2 == score_of(*input),
        (r.0, r.1) == classification(*input, score_of(*input)),
{
    let score = compute_score(input);
    let (kind, confidence) = classify_from_score(input, score);
    (kind, confidence, score)
}

/// An excluded program is never an application, and a program is an
/// application exactly when its score reaches the threshold.
pub proof fn lemma_classification_follows_score(input: ScoreInput)
    ensures
        input.excluded ==> classification(input, score_of(input)).0 == CandidateKind::Process,
        (classification(input, score_of(input)).0 == CandidateKind::App) <==> score_of(input)
            >= APP_THRESHOLD as int,
        classification(input, score_of(input)).0 == CandidateKind::Process
            ==> classification(input, score_of(input)).1 == ClassificationConfidence::Low,
{
}

/// A mapped window alone, in a graphical session, is enough for an
/// application; a desktop match alone, in a graphical session where
/// windows can be listed, is not.
pub proof fn lemma_window_suffices_desktop_alone_does_not(input: ScoreInput)
    requires
        !input.excluded,
    ensures
        input.has_window && input.user_session ==> classification(input, score_of(input)).0
            == CandidateKind::App,
        input.desktop_match && !input.has_window && !input.startup_wm_class_match
            && !input.flatpak_snap_hint && input.window_list_available
            ==> classification(input, score_of(input)).0 == CandidateKind::Process,
{
}

/// More evidence never lowers the score: with the same window-list
/// situation, a program that has every piece of evidence another has (and
/// neither is excluded) scores at least as high, and is an application
/// whenever the other is. An excluded program scores below every program
/// that is not.
pub proof fn law_more_evidence_never_lowers_score(a: ScoreInput, b: ScoreInput)
    ensures
        !a.excluded && !b.excluded && a.window_list_available == b.window_list_available && (a.has_window
            ==> b.has_window) && (a.desktop_match ==> b.desktop_match) && (a.startup_wm_class_match
            ==> b.startup_wm_class_match) && (a.flatpak_snap_hint ==> b.flatpak_snap_hint) && (a.user_session
            ==> b.user_session) ==> score_of(a) <= score_of(b) && (classification(a, score_of(a)).0
            == CandidateKind::App ==> classification(b, score_of(b)).0 == CandidateKind::App),
        a.excluded && !b.excluded ==> score_of(a) < score_of(b),
{
}

/// Lower-cased path under a Flatpak (`/app/`) or Snap (`/snap/`) tree.
pub open spec fn flatpak_snap_hint(executable: Seq<char>) -> bool {
    let el = lowercase(executable);
    contains(el, "/app/"@) || contains(el, "/snap/"@)
}

pub fn flatpak_snap_path_hint(executable: &str) -> (r: bool)
    ensures
        r == flatpak_snap_hint(executable@),
{
    let el = lower_str(executable);
    has_lit(el.as_slice(), "/app/") || has_lit(el.as_slice(), "/snap/")
}

} // verus!
