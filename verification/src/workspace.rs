//! Which desktop workspace a window or process is on, from the window lists
//! that `wmctrl` and Wayland foreign-toplevel report. Nothing here moves a
//! window.

use std::collections::HashMap;
use vstd::prelude::*;

use crate::assistant::{join, process_cmdline_full};
use crate::desktop_index::byte_len;
use crate::text::{
    chars_of, clone_string, contains, contains_chars, file_name, file_name_chars, lines, lines_of,
    lower_chars, lowercase, opt_view, seqs_of_vecs, split_words, string_of, strings_of, trim,
    trim_chars, words,
};

verus! {

/// One mapped top-level window from a window source.
#[derive(Debug, Clone, PartialEq, Eq)]
pub struct WindowRecord {
    pub pid: u32,
    /// 0-based workspace index when known (`wmctrl` always sets it; Wayland
    /// may leave it unset when the workspace protocols are not offered).
    pub desktop: Option<u32>,
    pub title: String,
    /// Wayland `app_id` when known; unused for `wmctrl` rows.
    pub app_id: Option<String>,
}

pub struct WindowView {
    pub pid: u32,
    pub desktop: Option<u32>,
    pub title: Seq<char>,
    pub app_id: Option<Seq<char>>,
}

impl View for WindowRecord {
    type V = WindowView;

    open spec fn view(&self) -> WindowView {
        WindowView {
            pid: self.pid,
            desktop: self.desktop,
            title: self.title@,
            app_id: opt_view(self.app_id),
        }
    }
}

pub open spec fn windows_view(v: Seq<WindowRecord>) -> Seq<WindowView> {
    v.map_values(|w: WindowRecord| w@)
}

fn clone_opt(o: &Option<String>) -> (r: Option<String>)
    ensures
        opt_view(r) == opt_view(*o),
{
    match o {
        Some(s) => Some(clone_string(s)),
        None => None,
    }
}

impl WindowRecord {
    /// A copy with the same contents.
    pub fn duplicate(&self) -> (r: WindowRecord)
        ensures
            r@ == self@,
    {
        WindowRecord {
            pid: self.pid,
            desktop: self.desktop,
            title: clone_string(&self.title),
            app_id: clone_opt(&self.app_id),
        }
    }
}

/// Origin of a batch of window records.
#[derive(Debug, Clone)]
pub enum WindowSource {
    /// EWMH listing via `wmctrl -l -p` (X11 or XWayland clients).
    Wmctrl(Vec<WindowRecord>),
    /// Wayland foreign-toplevel snapshot.
    WaylandForeignToplevel(Vec<WindowRecord>),
}

impl WindowSource {
    pub open spec fn records_view(&self) -> Seq<WindowView> {
        match self {
            WindowSource::Wmctrl(v) => windows_view(v@),
            WindowSource::WaylandForeignToplevel(v) => windows_view(v@),
        }
    }

    pub fn into_records(self) -> (r: Vec<WindowRecord>)
        ensures
            windows_view(r@) == self.records_view(),
    {
        match self {
            WindowSource::Wmctrl(v) => v,
            WindowSource::WaylandForeignToplevel(v) => v,
        }
    }
}

// ---------------------------------------------------------------------------
// pid tables
// ---------------------------------------------------------------------------

/// The value a pid table holds for `pid`.
pub open spec fn pid_lookup(m: Map<u32, u32>, pid: u32) -> Option<u32> {
    if m.contains_key(pid) {
        Some(m[pid])
    } else {
        None
    }
}

/// `pid` with `v`, unless `pid` has a value already (the first one wins).
pub open spec fn pid_insert(m: Map<u32, u32>, pid: u32, v: u32) -> Map<u32, u32> {
    if m.contains_key(pid) {
        m
    } else {
        m.insert(pid, v)
    }
}

/// The value recorded for `pid` in a pid table.
pub fn pid_desktop(m: &HashMap<u32, u32>, pid: u32) -> (r: Option<u32>)
    ensures
        r == pid_lookup(m@, pid),
{
    broadcast use vstd::std_specs::hash::group_hash_axioms;

    match m.get(&pid) {
        Some(v) => Some(*v),
        None => None,
    }
}

pub(crate) fn pid_insert_first(m: &mut HashMap<u32, u32>, pid: u32, v: u32)
    ensures
        final(m)@ == pid_insert(old(m)@, pid, v),
{
    broadcast use vstd::std_specs::hash::group_hash_axioms;

    if !m.contains_key(&pid) {
        m.insert(pid, v);
    }
}

/// Inserting into a pid table never changes the value of a pid that had
/// one: the first mapping wins.
pub proof fn lemma_pid_insert_first_wins(m: Map<u32, u32>, pid: u32, v: u32, q: u32)
    ensures
        pid_lookup(pid_insert(m, pid, v), q) == match pid_lookup(m, q) {
            Some(x) => Some(x),
            None => if q == pid {
                Some(v)
            } else {
                None
            },
        },
{
}

/// The pid table that a list of windows gives: each window with a real
/// pid (above 10) and a known workspace maps its pid, first one wins.
pub open spec fn pid_map_of(m: Map<u32, u32>, ws: Seq<WindowView>, n: int) -> Map<u32, u32>
    decreases n,
{
    if n <= 0 {
        m
    } else {
        let prev = pid_map_of(m, ws, n - 1);
        let w = ws[n - 1];
        if w.pid > 10 && w.desktop is Some {
            pid_insert(prev, w.pid, w.desktop->0)
        } else {
            prev
        }
    }
}

// ---------------------------------------------------------------------------
// Merging duplicate windows
// ---------------------------------------------------------------------------

/// A record is better with a non-empty app id (10) and a real pid (3).
pub open spec fn quality(w: WindowView) -> int {
    (if w.app_id matches Some(id) && id.len() > 0 {
        10int
    } else {
        0int
    }) + (if w.pid > 10 {
        3int
    } else {
        0int
    })
}

/// `primary` completed by `other`: a real pid, a known workspace and an
/// app id are taken from `other` where `primary` lacks them.
pub open spec fn merged_fields(primary: WindowView, other: WindowView) -> WindowView {
    WindowView {
        pid: if primary.pid > 10 {
            primary.pid
        } else if other.pid > 10 {
            other.pid
        } else {
            primary.pid
        },
        desktop: if primary.desktop is Some {
            primary.desktop
        } else {
            other.desktop
        },
        title: primary.title,
        app_id: if primary.app_id is Some {
            primary.app_id
        } else {
            other.app_id
        },
    }
}

/// The better of two records for the same window, completed by the other.
pub open spec fn preferred(a: WindowView, b: WindowView) -> WindowView {
    if quality(b) > quality(a) {
        merged_fields(b, a)
    } else {
        merged_fields(a, b)
    }
}

pub fn window_record_quality(w: &WindowRecord) -> (r: i32)
    ensures
        r == quality(w@),
{
    let mut score: i32 = 0;
    match &w.app_id {
        Some(id) => {
            if !id.as_str().is_empty() {
                score += 10;
            }
        },
        None => {},
    }
    if w.pid > 10 {
        score += 3;
    }
    score
}

pub fn merge_window_record_fields(primary: &WindowRecord, other: &WindowRecord) -> (r:
    WindowRecord)
    ensures
        r@ == merged_fields(primary@, other@),
{
    WindowRecord {
        pid: if primary.pid > 10 {
            primary.pid
        } else if other.pid > 10 {
            other.pid
        } else {
            primary.pid
        },
        desktop: match primary.desktop {
            Some(d) => Some(d),
            None => other.desktop,
        },
        title: clone_string(&primary.title),
        app_id: match &primary.app_id {
            Some(id) => Some(clone_string(id)),
            None => clone_opt(&other.app_id),
        },
    }
}

pub fn prefer_window_record(a: &WindowRecord, b: &WindowRecord) -> (r: WindowRecord)
    ensures
        r@ == preferred(a@, b@),
{
    if window_record_quality(b) > window_record_quality(a) {
        merge_window_record_fields(b, a)
    } else {
        merge_window_record_fields(a, b)
    }
}

/// The title under which duplicates collapse: trimmed and lower-cased.
pub open spec fn title_key(w: WindowView) -> Seq<char> {
    lowercase(trim(w.title))
}

/// The group of `key` among the groups formed so far.
pub open spec fn group_index_from(gs: Seq<(Seq<char>, WindowView)>, key: Seq<char>, i: int) -> Option<
    int,
>
    decreases gs.len() - i,
{
    if i < 0 || i >= gs.len() {
        None
    } else if gs[i].0 == key {
        Some(i)
    } else {
        group_index_from(gs, key, i + 1)
    }
}

/// A window whose title is blank (nothing left after trimming).
pub open spec fn blank_title() -> spec_fn(WindowView) -> bool {
    |w: WindowView| title_key(w).len() == 0
}

/// The windows after collapsing duplicate titles: the blank-title windows
/// as they are, in input order, then one preferred record per title key
/// in order of first appearance.
pub open spec fn deduped_windows(ws: Seq<WindowView>) -> Seq<WindowView> {
    ws.filter(blank_title()) + title_groups(ws, ws.len() as int).map_values(|g: (Seq<char>, WindowView)| g.1)
}

/// Windows grouped by title key in order of first appearance (blank
/// titles form no group and are kept apart, see `deduped_windows`); each
/// group holds the preferred merge of its windows in order.
pub open spec fn title_groups(ws: Seq<WindowView>, n: int) -> Seq<(Seq<char>, WindowView)>
    decreases n,
{
    if n <= 0 {
        Seq::empty()
    } else {
        let gs = title_groups(ws, n - 1);
        let w = ws[n - 1];
        let key = title_key(w);
        if key.len() == 0 {
            gs
        } else {
            match group_index_from(gs, key, 0) {
                Some(g) => gs.update(g, (key, preferred(gs[g].1, w))),
                None => gs.push((key, w)),
            }
        }
    }
}

pub open spec fn distinct_keys(gs: Seq<(Seq<char>, WindowView)>) -> bool {
    forall|i: int, j: int| 0 <= i < j < gs.len() ==> gs[i].0 != gs[j].0
}

proof fn lemma_group_index(gs: Seq<(Seq<char>, WindowView)>, key: Seq<char>, i: int)
    requires
        0 <= i <= gs.len(),
    ensures
        match group_index_from(gs, key, i) {
            Some(g) => i <= g < gs.len() && gs[g].0 == key,
            None => forall|k: int| i <= k < gs.len() ==> gs[k].0 != key,
        },
    decreases gs.len() - i,
{
    if i < gs.len() {
        lemma_group_index(gs, key, i + 1);
    }
}

/// Each group holds its key, and no two groups share a key: after
/// collapsing, no two windows have the same title.
pub proof fn lemma_title_groups_distinct(ws: Seq<WindowView>, n: int)
    requires
        0 <= n <= ws.len(),
    ensures
        distinct_keys(title_groups(ws, n)),
        forall|g: int| 0 <= g < title_groups(ws, n).len() ==> #[trigger] title_groups(ws, n)[g].0.len() > 0,
    decreases n,
{
    if n > 0 {
        lemma_title_groups_distinct(ws, n - 1);
        let gs = title_groups(ws, n - 1);
        let key = title_key(ws[n - 1]);
        lemma_group_index(gs, key, 0);
    }
}

// ---------------------------------------------------------------------------
// What collapsing keeps
// ---------------------------------------------------------------------------

/// Some window among the first `n` has title key `key`.
pub open spec fn key_in(ws: Seq<WindowView>, n: int, key: Seq<char>) -> bool {
    exists|i: int| 0 <= i < n && #[trigger] title_key(ws[i]) == key
}

/// Some window among the first `n` with title key `key` has a known workspace.
pub open spec fn key_with_desktop(ws: Seq<WindowView>, n: int, key: Seq<char>) -> bool {
    exists|i: int| 0 <= i < n && #[trigger] title_key(ws[i]) == key && ws[i].desktop is Some
}

/// Some window among the first `n` with title key `key` has an app id.
pub open spec fn key_with_app_id(ws: Seq<WindowView>, n: int, key: Seq<char>) -> bool {
    exists|i: int| 0 <= i < n && #[trigger] title_key(ws[i]) == key && ws[i].app_id is Some
}

/// Some window among the first `n` with title key `key` has a real pid.
pub open spec fn key_with_real_pid(ws: Seq<WindowView>, n: int, key: Seq<char>) -> bool {
    exists|i: int| 0 <= i < n && #[trigger] title_key(ws[i]) == key && ws[i].pid > 10
}

/// A group formed from the first `n` windows: a non-blank key, carried by
/// its record, and the record has a workspace, an app id or a real pid
/// exactly when some window with that key has one.
pub open spec fn group_ok(ws: Seq<WindowView>, n: int, grp: (Seq<char>, WindowView)) -> bool {
    &&& grp.0.len() > 0
    &&& title_key(grp.1) == grp.0
    &&& key_in(ws, n, grp.0)
    &&& (grp.1.desktop is Some <==> key_with_desktop(ws, n, grp.0))
    &&& (grp.1.app_id is Some <==> key_with_app_id(ws, n, grp.0))
    &&& (grp.1.pid > 10 <==> key_with_real_pid(ws, n, grp.0))
}

proof fn lemma_key_step(ws: Seq<WindowView>, n: int, key: Seq<char>)
    requires
        1 <= n <= ws.len(),
    ensures
        key_in(ws, n, key) == (key_in(ws, n - 1, key) || title_key(ws[n - 1]) == key),
        key_with_desktop(ws, n, key) == (key_with_desktop(ws, n - 1, key) || (title_key(ws[n - 1]) == key
            && ws[n - 1].desktop is Some)),
        key_with_app_id(ws, n, key) == (key_with_app_id(ws, n - 1, key) || (title_key(ws[n - 1]) == key
            && ws[n - 1].app_id is Some)),
        key_with_real_pid(ws, n, key) == (key_with_real_pid(ws, n - 1, key) || (title_key(ws[n - 1])
            == key && ws[n - 1].pid > 10)),
{
    let last = n - 1;
    assert(title_key(ws[last]) == title_key(ws[last]));
    if key_in(ws, n, key) && !key_in(ws, n - 1, key) {
        let i = choose|i: int| 0 <= i < n && #[trigger] title_key(ws[i]) == key;
        assert(i == last);
    }
    if key_with_desktop(ws, n, key) && !key_with_desktop(ws, n - 1, key) {
        let i = choose|i: int| 0 <= i < n && #[trigger] title_key(ws[i]) == key && ws[i].desktop is Some;
        assert(i == last);
    }
    if key_with_app_id(ws, n, key) && !key_with_app_id(ws, n - 1, key) {
        let i = choose|i: int| 0 <= i < n && #[trigger] title_key(ws[i]) == key && ws[i].app_id is Some;
        assert(i == last);
    }
    if key_with_real_pid(ws, n, key) && !key_with_real_pid(ws, n - 1, key) {
        let i = choose|i: int| 0 <= i < n && #[trigger] title_key(ws[i]) == key && ws[i].pid > 10;
        assert(i == last);
    }
}

/// Every group of the first `n` windows is `group_ok`, and every window
/// with a non-blank title has a group.
proof fn lemma_title_groups_cover(ws: Seq<WindowView>, n: int)
    requires
        0 <= n <= ws.len(),
    ensures
        forall|g: int| 0 <= g < title_groups(ws, n).len() ==> group_ok(ws, n, #[trigger] title_groups(ws, n)[g]),
        forall|i: int|
            0 <= i < n && title_key(ws[i]).len() > 0 ==> #[trigger] group_index_from(
                title_groups(ws, n),
                title_key(ws[i]),
                0,
            ) is Some,
    decreases n,
{
    if n > 0 {
        lemma_title_groups_cover(ws, n - 1);
        lemma_title_groups_distinct(ws, n - 1);
        let gs = title_groups(ws, n - 1);
        let w = ws[n - 1];
        let key = title_key(w);
        let out = title_groups(ws, n);
        assert forall|g: int| 0 <= g < gs.len() implies group_ok(ws, n, #[trigger] gs[g]) || gs[g].0 == key by {
            assert(group_ok(ws, n - 1, gs[g]));
            lemma_key_step(ws, n, gs[g].0);
        }
        if key.len() == 0 {
            assert(out == gs);
            assert forall|i: int|
                0 <= i < n && title_key(ws[i]).len() > 0 implies #[trigger] group_index_from(
                out,
                title_key(ws[i]),
                0,
            ) is Some by {
                assert(i < n - 1);
            }
        } else {
            lemma_group_index(gs, key, 0);
            match group_index_from(gs, key, 0) {
                Some(g0) => {
                    let merged = preferred(gs[g0].1, w);
                    assert(out == gs.update(g0, (key, merged)));
                    assert(group_ok(ws, n - 1, gs[g0]));
                    lemma_key_step(ws, n, key);
                    assert(group_ok(ws, n, out[g0]));
                    assert forall|g: int| 0 <= g < out.len() implies group_ok(ws, n, #[trigger] out[g]) by {
                        if g != g0 {
                            assert(out[g] == gs[g]);
                            assert(gs[g].0 != gs[g0].0);
                        }
                    }
                    assert forall|i: int|
                        0 <= i < n && title_key(ws[i]).len() > 0 implies #[trigger] group_index_from(
                        out,
                        title_key(ws[i]),
                        0,
                    ) is Some by {
                        let k = title_key(ws[i]);
                        lemma_group_index(out, k, 0);
                        if i < n - 1 {
                            lemma_group_index(gs, k, 0);
                            let g = group_index_from(gs, k, 0)->0;
                            assert(out[g].0 == k);
                        } else {
                            assert(out[g0].0 == k);
                        }
                    }
                },
                None => {
                    assert(out == gs.push((key, w)));
                    lemma_key_step(ws, n, key);
                    assert(!key_in(ws, n - 1, key)) by {
                        if key_in(ws, n - 1, key) {
                            let i = choose|i: int| 0 <= i < n - 1 && #[trigger] title_key(ws[i]) == key;
                            assert(group_index_from(gs, title_key(ws[i]), 0) is Some);
                        }
                    }
                    assert(!key_with_desktop(ws, n - 1, key)) by {
                        if key_with_desktop(ws, n - 1, key) {
                            let i = choose|i: int|
                                0 <= i < n - 1 && #[trigger] title_key(ws[i]) == key && ws[i].desktop is Some;
                            assert(key_in(ws, n - 1, key));
                        }
                    }
                    assert(!key_with_app_id(ws, n - 1, key)) by {
                        if key_with_app_id(ws, n - 1, key) {
                            let i = choose|i: int|
                                0 <= i < n - 1 && #[trigger] title_key(ws[i]) == key && ws[i].app_id is Some;
                            assert(key_in(ws, n - 1, key));
                        }
                    }
                    assert(!key_with_real_pid(ws, n - 1, key)) by {
                        if key_with_real_pid(ws, n - 1, key) {
                            let i = choose|i: int|
                                0 <= i < n - 1 && #[trigger] title_key(ws[i]) == key && ws[i].pid > 10;
                            assert(key_in(ws, n - 1, key));
                        }
                    }
                    assert(group_ok(ws, n, out[gs.len() as int]));
                    assert forall|g: int| 0 <= g < out.len() implies group_ok(ws, n, #[trigger] out[g]) by {
                        if g < gs.len() {
                            assert(out[g] == gs[g]);
                            assert(gs[g].0 != key);
                        }
                    }
                    assert forall|i: int|
                        0 <= i < n && title_key(ws[i]).len() > 0 implies #[trigger] group_index_from(
                        out,
                        title_key(ws[i]),
                        0,
                    ) is Some by {
                        let k = title_key(ws[i]);
                        lemma_group_index(out, k, 0);
                        if i < n - 1 {
                            lemma_group_index(gs, k, 0);
                            let g = group_index_from(gs, k, 0)->0;
                            assert(out[g].0 == k);
                        } else {
                            assert(out[gs.len() as int].0 == k);
                        }
                    }
                },
            }
        }
    }
}

/// Collapsing duplicate titles keeps every title: each non-blank title key
/// of the input is that of an output window, no two output windows share a
/// non-blank key, and each output window's non-blank key comes from the
/// input. That window has a known workspace, an app id, or a real pid
/// exactly when some input window with its key has one.
pub proof fn law_dedupe_keeps_titles_and_fills(ws: Seq<WindowView>)
    ensures
        forall|i: int|
            0 <= i < ws.len() && title_key(ws[i]).len() > 0 ==> exists|j: int|
                0 <= j < deduped_windows(ws).len() && #[trigger] title_key(deduped_windows(ws)[j]) == title_key(
                    ws[i],
                ),
        forall|j: int, k: int|
            0 <= j < k < deduped_windows(ws).len() && title_key(deduped_windows(ws)[j]).len() > 0 ==> title_key(
                #[trigger] deduped_windows(ws)[j],
            ) != title_key(#[trigger] deduped_windows(ws)[k]),
        forall|j: int|
            0 <= j < deduped_windows(ws).len() && title_key(#[trigger] deduped_windows(ws)[j]).len() > 0 ==> {
                let w = deduped_windows(ws)[j];
                &&& key_in(ws, ws.len() as int, title_key(w))
                &&& (w.desktop is Some <==> key_with_desktop(ws, ws.len() as int, title_key(w)))
                &&& (w.app_id is Some <==> key_with_app_id(ws, ws.len() as int, title_key(w)))
                &&& (w.pid > 10 <==> key_with_real_pid(ws, ws.len() as int, title_key(w)))
            },
{
    let n = ws.len() as int;
    let gs = title_groups(ws, n);
    let blanks = ws.filter(blank_title());
    let out = deduped_windows(ws);
    let bl = blanks.len() as int;
    lemma_title_groups_cover(ws, n);
    lemma_title_groups_distinct(ws, n);
    assert(out.len() == bl + gs.len());
    assert forall|j: int| 0 <= j < out.len() implies (if j < bl {
        title_key(#[trigger] out[j]).len() == 0
    } else {
        out[j] == gs[j - bl].1 && group_ok(ws, n, gs[j - bl])
    }) by {
        if j < bl {
            assert(out[j] == blanks[j]);
            ws.lemma_filter_pred(blank_title(), j);
        } else {
            assert(out[j] == gs[j - bl].1);
        }
    }
    assert forall|i: int| 0 <= i < n && title_key(ws[i]).len() > 0 implies exists|j: int|
        0 <= j < out.len() && #[trigger] title_key(out[j]) == title_key(ws[i]) by {
        let k = title_key(ws[i]);
        lemma_group_index(gs, k, 0);
        let g = group_index_from(gs, k, 0)->0;
        assert(title_key(out[bl + g]) == k);
    }
    assert forall|j: int, k: int|
        0 <= j < k < out.len() && title_key(out[j]).len() > 0 implies title_key(#[trigger] out[j]) != title_key(
        #[trigger] out[k],
    ) by {
        if k >= bl {
            assert(gs[j - bl].0 != gs[k - bl].0);
        }
    }
}

/// The workspace of a real pid among the first `n` windows: that of the
/// first of them with that pid and a known workspace.
pub open spec fn first_pid_desktop(ws: Seq<WindowView>, n: int, pid: u32) -> Option<u32>
    decreases n,
{
    if n <= 0 {
        None
    } else {
        match first_pid_desktop(ws, n - 1, pid) {
            Some(d) => Some(d),
            None => if ws[n - 1].pid == pid && ws[n - 1].desktop is Some {
                ws[n - 1].desktop
            } else {
                None
            },
        }
    }
}

/// In the pid table built from a window list (as `merge_window_sources`
/// builds it), a real pid maps to the workspace of the first window with
/// that pid and a known workspace, and has an entry exactly when such a window
/// exists.
pub proof fn law_pid_table_from_windows(ws: Seq<WindowView>, n: int, pid: u32)
    requires
        0 <= n <= ws.len(),
        pid > 10,
    ensures
        pid_lookup(pid_map_of(Map::empty(), ws, n), pid) == first_pid_desktop(ws, n, pid),
        first_pid_desktop(ws, n, pid) is Some <==> exists|i: int|
            0 <= i < n && #[trigger] ws[i].pid == pid && ws[i].desktop is Some,
    decreases n,
{
    if n > 0 {
        law_pid_table_from_windows(ws, n - 1, pid);
        let w = ws[n - 1];
        if w.pid > 10 && w.desktop is Some {
            lemma_pid_insert_first_wins(pid_map_of(Map::empty(), ws, n - 1), w.pid, w.desktop->0, pid);
        }
        if first_pid_desktop(ws, n, pid) is Some && first_pid_desktop(ws, n - 1, pid) is None {
            assert(ws[n - 1].pid == pid && ws[n - 1].desktop is Some);
        }
        if exists|i: int| 0 <= i < n && #[trigger] ws[i].pid == pid && ws[i].desktop is Some {
            let i = choose|i: int| 0 <= i < n && #[trigger] ws[i].pid == pid && ws[i].desktop is Some;
            if i < n - 1 {
                assert(first_pid_desktop(ws, n - 1, pid) is Some);
            }
        }
    }
}

fn find_group(gs: &Vec<(Vec<char>, WindowRecord)>, key: &[char]) -> (r: Option<usize>)
    ensures
        match r {
            Some(g) => group_index_from(groups_view(gs@), key@, 0) == Some(g as int) && g < gs@.len(),
            None => group_index_from(groups_view(gs@), key@, 0) is None,
        },
{
    let ghost v = groups_view(gs@);
    let mut i: usize = 0;
    while i < gs.len()
        invariant
            v == groups_view(gs@),
            i <= gs@.len(),
            group_index_from(v, key@, 0) == group_index_from(v, key@, i as int),
        decreases gs@.len() - i,
    {
        assert(v[i as int].0 == gs@[i as int].0@);
        if crate::text::chars_eq(gs[i].0.as_slice(), key) {
            return Some(i);
        }
        i += 1;
    }
    None
}

pub open spec fn groups_view(v: Seq<(Vec<char>, WindowRecord)>) -> Seq<(Seq<char>, WindowView)> {
    v.map_values(|p: (Vec<char>, WindowRecord)| (p.0@, p.1@))
}

/// PID → workspace (first mapping wins) and the merged window list.
pub struct WorkspaceIndex {
    pid_to_desktop: HashMap<u32, u32>,
    windows: Vec<WindowRecord>,
    parents: HashMap<u32, u32>,
}

/// `title` (trimmed, lower-cased) occurs in the window's lower-cased title.
pub open spec fn title_matches(w: WindowView, lower: Seq<char>) -> bool {
    contains(lowercase(w.title), lower)
}

/// The workspace that every window whose title holds the hint agrees on;
/// none when no window matches, when one of them has no known workspace,
/// or when they disagree.
pub open spec fn title_hint_workspace(ws: Seq<WindowView>, hint: Seq<char>) -> Option<u32> {
    let h = trim(hint);
    let lower = lowercase(h);
    if h.len() == 0 {
        None
    } else if forall|i: int| 0 <= i < ws.len() ==> !#[trigger] title_matches(ws[i], lower) {
        None
    } else if exists|i: int|
        0 <= i < ws.len() && #[trigger] title_matches(ws[i], lower) && ws[i].desktop is None {
        None
    } else {
        let first = choose|i: int| 0 <= i < ws.len() && #[trigger] title_matches(ws[i], lower);
        let d = ws[first].desktop;
        if forall|i: int|
            0 <= i < ws.len() && #[trigger] title_matches(ws[i], lower) ==> ws[i].desktop == d {
            d
        } else {
            None
        }
    }
}

/// Walks from `pid` up the parent chain, at most `depth` steps, to the
/// first process with a mapped workspace. Stops at system pids (10 or
/// below), at an unknown parent and at a process that is its own parent.
pub open spec fn resolve_pid(
    m: Map<u32, u32>,
    parents: Map<u32, u32>,
    current: u32,
    depth: nat,
) -> Option<u32>
    decreases depth,
{
    if depth == 0 || current <= 10 {
        None
    } else if pid_lookup(m, current) is Some {
        pid_lookup(m, current)
    } else {
        match pid_lookup(parents, current) {
            Some(ppid) => if ppid == current {
                None
            } else {
                resolve_pid(m, parents, ppid, (depth - 1) as nat)
            },
            None => None,
        }
    }
}

impl WorkspaceIndex {
    pub closed spec fn pid_map(&self) -> Map<u32, u32> {
        self.pid_to_desktop@
    }

    pub closed spec fn windows_seq(&self) -> Seq<WindowView> {
        windows_view(self.windows@)
    }

    /// Parent pids of the processes running when the index was made.
    pub closed spec fn parent_map(&self) -> Map<u32, u32> {
        self.parents@
    }

    /// An empty index.
    pub fn new() -> (r: WorkspaceIndex)
        ensures
            r.pid_map() == Map::<u32, u32>::empty(),
            r.windows_seq() == Seq::<WindowView>::empty(),
            r.parent_map() == Map::<u32, u32>::empty(),
    {
        let r = WorkspaceIndex { pid_to_desktop: HashMap::new(), windows: Vec::new(), parents: HashMap::new() };
        assert(r.windows_seq() =~= Seq::<WindowView>::empty());
        r
    }

    /// Records the parent of each running process (pid, parent pid), used
    /// to walk from worker processes to the process that owns a window.
    pub fn set_process_parents(&mut self, parents: HashMap<u32, u32>)
        ensures
            final(self).parent_map() == parents@,
            final(self).pid_map() == old(self).pid_map(),
            final(self).windows_seq() == old(self).windows_seq(),
    {
        self.parents = parents;
    }

    /// Appends a window (test and tooling helper); the pid table is left
    /// as it is.
    pub fn push_window(&mut self, w: WindowRecord)
        ensures
            final(self).windows_seq() == old(self).windows_seq().push(w@),
            final(self).pid_map() == old(self).pid_map(),
            final(self).parent_map() == old(self).parent_map(),
    {
        self.windows.push(w);
        assert(windows_view(self.windows@) =~= old(self).windows_seq().push(w@));
    }

    /// Appends records and maps the pid of each one with a real pid and a
    /// known workspace, first mapping wins.
    pub fn ingest_records(&mut self, records: Vec<WindowRecord>)
        ensures
            final(self).windows_seq() == old(self).windows_seq() + windows_view(records@),
            final(self).pid_map() == pid_map_of(
                old(self).pid_map(),
                windows_view(records@),
                records@.len() as int,
            ),
            final(self).parent_map() == old(self).parent_map(),
    {
        let ghost w0 = self.windows_seq();
        let ghost rv = windows_view(records@);
        let n = records.len();
        for i in 0..n
            invariant
                n == records@.len(),
                rv == windows_view(records@),
                windows_view(self.windows@) == w0 + rv.take(i as int),
                self.pid_to_desktop@ == pid_map_of(old(self).pid_map(), rv, i as int),
                self.parents@ == old(self).parent_map(),
        {
            let rec = records[i].duplicate();
            assert(rv[i as int] == rec@);
            if rec.pid > 10 {
                match rec.desktop {
                    Some(d) => pid_insert_first(&mut self.pid_to_desktop, rec.pid, d),
                    None => {},
                }
            }
            let ghost before = windows_view(self.windows@);
            self.windows.push(rec);
            assert(windows_view(self.windows@) =~= before.push(rv[i as int]));
            assert(rv.take(i + 1) =~= rv.take(i as int).push(rv[i as int]));
            assert(windows_view(self.windows@) =~= w0 + rv.take(i + 1));
        }
        assert(rv.take(n as int) =~= rv);
    }

    /// Collapses windows listed by several sources under the same title
    /// (trimmed, lower-cased) into one preferred record each, in order of
    /// first appearance, and rebuilds the pid table from the survivors.
    /// Windows with a blank title are kept as they are, in input order,
    /// ahead of the collapsed ones.
    pub fn dedupe_windows_by_title(&mut self)
        ensures
            final(self).windows_seq() == deduped_windows(old(self).windows_seq()),
            final(self).pid_map() == pid_map_of(Map::empty(), final(self).windows_seq(), final(self).windows_seq().len() as int),
            final(self).parent_map() == old(self).parent_map(),
    {
        let ghost ws = self.windows_seq();
        let ghost pred = blank_title();
        let mut groups: Vec<(Vec<char>, WindowRecord)> = Vec::new();
        let mut out: Vec<WindowRecord> = Vec::new();
        let n = self.windows.len();
        for i in 0..n
            invariant
                n == self.windows@.len(),
                ws == windows_view(self.windows@),
                pred == blank_title(),
                groups_view(groups@) == title_groups(ws, i as int),
                windows_view(out@) == ws.take(i as int).filter(pred),
        {
            let w = &self.windows[i];
            assert(ws[i as int] == w@);
            proof {
                assert(ws.take(i + 1).drop_last() =~= ws.take(i as int));
                assert(ws.take(i + 1).last() == ws[i as int]);
                reveal(Seq::filter);
            }
            let key = lower_chars(trim_chars(chars_of(w.title.as_str()).as_slice()).as_slice());
            if key.len() > 0 {
                match find_group(&groups, key.as_slice()) {
                    Some(g) => {
                        let merged = prefer_window_record(&groups[g].1, w);
                        let ghost before = groups_view(groups@);
                        groups.set(g, (key, merged));
                        assert(groups_view(groups@) =~= before.update(g as int, (key@, merged@)));
                    },
                    None => {
                        let ghost before = groups_view(groups@);
                        let copy = w.duplicate();
                        groups.push((key, copy));
                        assert(groups_view(groups@) =~= before.push((key@, copy@)));
                    },
                }
            } else {
                let ghost before = windows_view(out@);
                let copy = w.duplicate();
                out.push(copy);
                assert(windows_view(out@) =~= before.push(copy@));
            }
        }
        assert(ws.take(n as int) =~= ws);
        let ghost blanks = windows_view(out@);
        let ghost gv = groups_view(groups@);
        let m = groups.len();
        for j in 0..m
            invariant
                m == groups@.len(),
                gv == groups_view(groups@),
                windows_view(out@) == blanks + gv.take(j as int).map_values(|g: (Seq<char>, WindowView)| g.1),
        {
            let rec = groups[j].1.duplicate();
            assert(gv[j as int].1 == rec@);
            let ghost before = windows_view(out@);
            out.push(rec);
            proof {
                assert(windows_view(out@) =~= before.push(rec@));
                assert(gv.take(j + 1).map_values(|g: (Seq<char>, WindowView)| g.1) =~= gv.take(
                    j as int,
                ).map_values(|g: (Seq<char>, WindowView)| g.1).push(gv[j as int].1));
            }
        }
        assert(gv.take(m as int) =~= gv);
        let map = pid_map_for(&out);
        self.windows = out;
        self.pid_to_desktop = map;
    }

    /// The merged window list.
    pub fn windows(&self) -> (r: &Vec<WindowRecord>)
        ensures
            windows_view(r@) == self.windows_seq(),
    {
        &self.windows
    }

    /// Whether a real pid (above 10) has a mapped workspace.
    pub fn has_window_for_pid(&self, pid: u32) -> (r: bool)
        ensures
            r == (pid > 10 && pid_lookup(self.pid_map(), pid) is Some),
    {
        if pid <= 10 {
            return false;
        }
        pid_desktop(&self.pid_to_desktop, pid).is_some()
    }

    /// The workspace of a process or of its nearest ancestor with one,
    /// walking at most 12 steps.
    pub fn workspace_for_pid(&self, pid: u32) -> (r: Option<u32>)
        ensures
            r == resolve_pid(self.pid_map(), self.parent_map(), pid, 12),
    {
        self.resolve_workspace_for_pid(pid, 12)
    }

    fn resolve_workspace_for_pid(&self, pid: u32, max_depth: u32) -> (r: Option<u32>)
        ensures
            r == resolve_pid(self.pid_map(), self.parent_map(), pid, max_depth as nat),
    {
        let mut current = pid;
        let mut left = max_depth;
        while left > 0
            invariant
                resolve_pid(self.pid_map(), self.parent_map(), pid, max_depth as nat)
                    == resolve_pid(self.pid_map(), self.parent_map(), current, left as nat),
            decreases left,
        {
            if current <= 10 {
                return None;
            }
            match pid_desktop(&self.pid_to_desktop, current) {
                Some(ws) => {
                    return Some(ws);
                },
                None => {},
            }
            let ppid = match pid_desktop(&self.parents, current) {
                Some(p) => p,
                None => {
                    return None;
                },
            };
            if ppid == current {
                return None;
            }
            current = ppid;
            left -= 1;
        }
        None
    }

    /// The workspace all windows whose title holds `hint` agree on (see
    /// `title_hint_workspace`).
    pub fn workspace_for_title_hint(&self, hint: &str) -> (r: Option<u32>)
        ensures
            r == title_hint_workspace(self.windows_seq(), hint@),
    {
        let ghost ws = self.windows_seq();
        let h = trim_chars(chars_of(hint).as_slice());
        if h.len() == 0 {
            return None;
        }
        let lower = lower_chars(h.as_slice());
        let mut first: Option<usize> = None;
        let mut agree = true;
        let n = self.windows.len();
        for i in 0..n
            invariant
                n == self.windows@.len(),
                ws == windows_view(self.windows@),
                lower@ == lowercase(trim(hint@)),
                forall|k: int| 0 <= k < i && #[trigger] title_matches(ws[k], lower@) ==> ws[k].desktop is Some,
                match first {
                    Some(f) => f < i && title_matches(ws[f as int], lower@)
                        && (forall|k: int| 0 <= k < f ==> !#[trigger] title_matches(ws[k], lower@))
                        && ws[f as int].desktop is Some
                        && (agree <==> forall|k: int|
                        0 <= k < i && #[trigger] title_matches(ws[k], lower@) ==> ws[k].desktop
                            == ws[f as int].desktop),
                    None => forall|k: int| 0 <= k < i ==> !#[trigger] title_matches(ws[k], lower@),
                },
        {
            let w = &self.windows[i];
            assert(ws[i as int] == w@);
            let tl = lower_chars(chars_of(w.title.as_str()).as_slice());
            if contains_chars(tl.as_slice(), lower.as_slice()) {
                assert(title_matches(ws[i as int], lower@));
                match w.desktop {
                    None => {
                        return None;
                    },
                    Some(d) => match first {
                        None => {
                            first = Some(i);
                            agree = true;
                        },
                        Some(f) => {
                            if self.windows[f].desktop != Some(d) {
                                agree = false;
                            }
                        },
                    },
                }
            }
        }
        match first {
            None => None,
            Some(f) => {
                proof {
                    assert(title_matches(ws[f as int], lower@));
                    let c = choose|i: int| 0 <= i < ws.len() && #[trigger] title_matches(ws[i], lower@);
                    if agree {
                        assert(ws[c].desktop == ws[f as int].desktop);
                    } else {
                        let k = choose|k: int|
                            0 <= k < n && #[trigger] title_matches(ws[k], lower@) && ws[k].desktop
                                != ws[f as int].desktop;
                        if ws[c].desktop == ws[f as int].desktop {
                            assert(ws[k].desktop != ws[c].desktop);
                        } else {
                            assert(ws[f as int].desktop != ws[c].desktop);
                        }
                    }
                }
                if agree {
                    self.windows[f].desktop
                } else {
                    None
                }
            },
        }
    }

    /// The workspace of an application from its display name, else from
    /// its executable's file name when that has at least 3 bytes.
    pub fn workspace_for_executable(&self, executable: &str, display_name: &str) -> (r: Option<u32>)
        ensures
            r == executable_workspace(self.windows_seq(), executable@, display_name@),
    {
        match self.workspace_for_title_hint(display_name) {
            Some(ws) => {
                return Some(ws);
            },
            None => {},
        }
        let base = match file_name_chars(chars_of(executable).as_slice()) {
            Some(b) => string_of(b.as_slice()),
            None => String::new(),
        };
        if base.as_str().len() >= 3 {
            match self.workspace_for_title_hint(base.as_str()) {
                Some(ws) => {
                    return Some(ws);
                },
                None => {},
            }
        }
        None
    }
}

/// The workspace of an application from its display name, else from its
/// executable's file name when that has at least 3 bytes.
pub open spec fn executable_workspace(ws: Seq<WindowView>, executable: Seq<char>, display_name: Seq<char>) -> Option<u32> {
    match title_hint_workspace(ws, display_name) {
        Some(w) => Some(w),
        None => {
            let base = match file_name(executable) {
                Some(b) => b,
                None => Seq::empty(),
            };
            if byte_len(base) >= 3 {
                title_hint_workspace(ws, base)
            } else {
                None
            }
        },
    }
}

/// A title hint's workspace is that of a window whose lower-cased title
/// holds the trimmed, lower-cased (non-empty) hint, and every window whose
/// title holds it is on that workspace; conversely, when some window's
/// title holds the hint and all such windows are on one known workspace,
/// that workspace is the answer.
pub proof fn law_title_hint_workspace_is_a_matching_window(ws: Seq<WindowView>, hint: Seq<char>)
    ensures
        title_hint_workspace(ws, hint) matches Some(w) ==> trim(hint).len() > 0 && (exists|i: int|
            0 <= i < ws.len() && contains(lowercase(ws[i].title), lowercase(trim(hint))) && ws[i].desktop
                == Some(w)) && forall|i: int|
            0 <= i < ws.len() && contains(lowercase(ws[i].title), lowercase(trim(hint))) ==> ws[i].desktop
                == Some(w),
        forall|w: u32, j: int|
            trim(hint).len() > 0 && 0 <= j < ws.len() && contains(lowercase(ws[j].title), lowercase(trim(hint)))
                && (forall|i: int|
                0 <= i < ws.len() && contains(lowercase(ws[i].title), lowercase(trim(hint))) ==> ws[i].desktop
                    == Some(w)) ==> title_hint_workspace(ws, hint) == Some(w),
{
    let lower = lowercase(trim(hint));
    if let Some(w) = title_hint_workspace(ws, hint) {
        let first = choose|i: int| 0 <= i < ws.len() && #[trigger] title_matches(ws[i], lower);
        assert(title_matches(ws[first], lower));
        assert forall|i: int| 0 <= i < ws.len() && contains(lowercase(ws[i].title), lower) implies ws[i].desktop
            == Some(w) by {
            assert(title_matches(ws[i], lower));
        }
    }
    assert forall|w: u32, j: int|
        trim(hint).len() > 0 && 0 <= j < ws.len() && contains(lowercase(ws[j].title), lowercase(trim(hint)))
            && (forall|i: int|
            0 <= i < ws.len() && contains(lowercase(ws[i].title), lowercase(trim(hint))) ==> ws[i].desktop
                == Some(w)) implies title_hint_workspace(ws, hint) == Some(w) by {
        assert(title_matches(ws[j], lower));
        let first = choose|i: int| 0 <= i < ws.len() && #[trigger] title_matches(ws[i], lower);
        assert(title_matches(ws[first], lower));
        assert forall|i: int| 0 <= i < ws.len() && #[trigger] title_matches(ws[i], lower) implies ws[i].desktop
            == Some(w) by {}
    }
}

/// The workspace of an application: that of its display name when the
/// display name gives one; otherwise, when the executable's file name has
/// at least 3 bytes, exactly that of the file name as a title hint; else
/// none. Either way it is the workspace of a window whose title holds the
/// display name or the executable's file name.
pub proof fn law_executable_workspace_falls_back_to_file_name(
    ws: Seq<WindowView>,
    executable: Seq<char>,
    display_name: Seq<char>,
)
    ensures
        title_hint_workspace(ws, display_name) matches Some(w) ==> executable_workspace(ws, executable, display_name)
            == Some(w),
        title_hint_workspace(ws, display_name) is None && (file_name(executable) matches Some(b) && byte_len(b)
            >= 3) ==> executable_workspace(ws, executable, display_name) == title_hint_workspace(
            ws,
            file_name(executable)->0,
        ),
        title_hint_workspace(ws, display_name) is None && !(file_name(executable) matches Some(b) && byte_len(b)
            >= 3) ==> executable_workspace(ws, executable, display_name) is None,
        executable_workspace(ws, executable, display_name) matches Some(w) ==> exists|i: int|
            0 <= i < ws.len() && ws[i].desktop == Some(w) && (contains(
                lowercase(ws[i].title),
                lowercase(trim(display_name)),
            ) || (file_name(executable) matches Some(b) && contains(lowercase(ws[i].title), lowercase(trim(b))))),
{
    law_title_hint_workspace_is_a_matching_window(ws, display_name);
    if let Some(b) = file_name(executable) {
        law_title_hint_workspace_is_a_matching_window(ws, b);
    }
}

/// The pid table of a window list: first mapping wins.
fn pid_map_for(ws: &Vec<WindowRecord>) -> (r: HashMap<u32, u32>)
    ensures
        r@ == pid_map_of(Map::empty(), windows_view(ws@), ws@.len() as int),
{
    let ghost wv = windows_view(ws@);
    let mut map: HashMap<u32, u32> = HashMap::new();
    let n = ws.len();
    for j in 0..n
        invariant
            n == ws@.len(),
            wv == windows_view(ws@),
            map@ == pid_map_of(Map::empty(), wv, j as int),
    {
        let rec = &ws[j];
        assert(wv[j as int] == rec@);
        if rec.pid > 10 {
            match rec.desktop {
                Some(d) => pid_insert_first(&mut map, rec.pid, d),
                None => {},
            }
        }
    }
    map
}

/// Merges window records from several sources into one index: later
/// sources append, the first pid → workspace mapping wins, and windows
/// with the same non-blank title are collapsed into their preferred
/// record; windows with a blank title are all kept.
pub fn merge_window_sources(sources: Vec<WindowSource>) -> (r: WorkspaceIndex)
    ensures
        r.windows_seq() == deduped_windows(all_records(sources@, sources@.len() as int)),
        r.pid_map() == pid_map_of(Map::empty(), r.windows_seq(), r.windows_seq().len() as int),
        r.parent_map() == Map::<u32, u32>::empty(),
{
    let mut index = WorkspaceIndex::new();
    let mut sources = sources;
    let ghost all = sources@;
    let n = sources.len();
    let mut i: usize = 0;
    while i < n
        invariant
            n == all.len(),
            i <= n,
            sources@.len() == n - i,
            forall|k: int| 0 <= k < n - i ==> sources@[k] == all[k + i],
            index.windows_seq() == all_records(all, i as int),
            index.parent_map() == Map::<u32, u32>::empty(),
        decreases n - i,
    {
        let src = sources.remove(0);
        assert(src == all[i as int]);
        let recs = src.into_records();
        index.ingest_records(recs);
        i += 1;
    }
    index.dedupe_windows_by_title();
    index
}

/// The records of the first `n` sources, in order.
pub open spec fn all_records(sources: Seq<WindowSource>, n: int) -> Seq<WindowView>
    decreases n,
{
    if n <= 0 {
        Seq::empty()
    } else {
        all_records(sources, n - 1) + sources[n - 1].records_view()
    }
}

/// Window-first discovery is used when the merged index has windows.
pub fn uses_window_first_discovery(index: &WorkspaceIndex) -> (r: bool)
    ensures
        r == (index.windows_seq().len() > 0),
{
    index.windows().len() > 0
}

// ---------------------------------------------------------------------------
// `wmctrl -l -p`
// ---------------------------------------------------------------------------

pub open spec fn is_digit(c: char) -> bool {
    '0' <= c && c <= '9'
}

/// The value of a run of decimal digits.
pub open spec fn digits_value(s: Seq<char>) -> nat
    decreases s.len(),
{
    if s.len() == 0 {
        0
    } else {
        digits_value(s.drop_last()) * 10 + ((s.last() as u32) - ('0' as u32)) as nat
    }
}

pub open spec fn all_digits(s: Seq<char>) -> bool {
    s.len() > 0 && forall|i: int| 0 <= i < s.len() ==> is_digit(s[i])
}

/// `str::parse::<u32>`: an optional `+` and at least one decimal digit,
/// within range.
pub open spec fn parse_u32(s: Seq<char>) -> Option<u32> {
    let d = if s.len() > 0 && s[0] == '+' {
        s.drop_first()
    } else {
        s
    };
    if all_digits(d) && digits_value(d) <= u32::MAX {
        Some(digits_value(d) as u32)
    } else {
        None
    }
}

/// `str::parse::<i32>`: an optional sign and at least one decimal digit,
/// within range.
pub open spec fn parse_i32(s: Seq<char>) -> Option<i32> {
    let neg = s.len() > 0 && s[0] == '-';
    let d = if s.len() > 0 && (s[0] == '+' || s[0] == '-') {
        s.drop_first()
    } else {
        s
    };
    if !all_digits(d) {
        None
    } else if neg {
        if digits_value(d) <= 0x8000_0000 {
            Some((0 - digits_value(d)) as i32)
        } else {
            None
        }
    } else if digits_value(d) <= 0x7fff_ffff {
        Some(digits_value(d) as i32)
    } else {
        None
    }
}

/// The value of a run of digits, or `None` when it is not one or exceeds
/// `limit`.
fn digits_upto(d: &[char], limit: u64) -> (r: Option<u64>)
    requires
        limit <= 0x1_0000_0000,
    ensures
        match r {
            Some(v) => all_digits(d@) && v == digits_value(d@) && v <= limit,
            None => !all_digits(d@) || digits_value(d@) > limit,
        },
{
    if d.len() == 0 {
        return None;
    }
    let mut v: u64 = 0;
    let mut i: usize = 0;
    while i < d.len()
        invariant
            i <= d@.len(),
            limit <= 0x1_0000_0000,
            v == digits_value(d@.take(i as int)),
            v <= limit,
            forall|k: int| 0 <= k < i ==> is_digit(d@[k]),
        decreases d@.len() - i,
    {
        let c = d[i];
        assert(d@.take(i + 1).drop_last() =~= d@.take(i as int));
        if !('0' <= c && c <= '9') {
            return None;
        }
        let digit = (c as u32 - '0' as u32) as u64;
        let next = v * 10 + digit;
        if next > limit {
            proof {
                lemma_digits_value_grows(d@, i as int + 1);
            }
            return None;
        }
        v = next;
        i += 1;
    }
    assert(d@.take(i as int) =~= d@);
    Some(v)
}

proof fn lemma_digits_value_grows(s: Seq<char>, k: int)
    requires
        0 < k <= s.len(),
    ensures
        digits_value(s) >= digits_value(s.take(k)),
    decreases s.len() - k,
{
    if k < s.len() {
        lemma_digits_value_grows(s, k + 1);
        assert(s.take(k + 1).drop_last() =~= s.take(k));
    } else {
        assert(s.take(k) =~= s);
    }
}

pub fn parse_u32_chars(s: &[char]) -> (r: Option<u32>)
    ensures
        r == parse_u32(s@),
{
    let d = if s.len() > 0 && s[0] == '+' {
        tail(s)
    } else {
        copy_chars(s)
    };
    match digits_upto(d.as_slice(), 0xffff_ffff) {
        Some(v) => Some(v as u32),
        None => None,
    }
}

pub fn parse_i32_chars(s: &[char]) -> (r: Option<i32>)
    ensures
        r == parse_i32(s@),
{
    let neg = s.len() > 0 && s[0] == '-';
    let d = if s.len() > 0 && (s[0] == '+' || s[0] == '-') {
        tail(s)
    } else {
        copy_chars(s)
    };
    if neg {
        match digits_upto(d.as_slice(), 0x8000_0000) {
            Some(v) => Some((0i64 - v as i64) as i32),
            None => None,
        }
    } else {
        match digits_upto(d.as_slice(), 0x7fff_ffff) {
            Some(v) => Some(v as i32),
            None => None,
        }
    }
}

fn tail(s: &[char]) -> (r: Vec<char>)
    requires
        s@.len() > 0,
    ensures
        r@ == s@.drop_first(),
{
    let mut r: Vec<char> = Vec::new();
    let mut i: usize = 1;
    while i < s.len()
        invariant
            1 <= i <= s@.len(),
            r@ == s@.subrange(1, i as int),
        decreases s@.len() - i,
    {
        r.push(s[i]);
        assert(s@.subrange(1, i + 1) =~= s@.subrange(1, i as int).push(s@[i as int]));
        i += 1;
    }
    assert(s@.drop_first() =~= s@.subrange(1, s@.len() as int));
    r
}

fn copy_chars(s: &[char]) -> (r: Vec<char>)
    ensures
        r@ == s@,
{
    let mut r: Vec<char> = Vec::new();
    let mut i: usize = 0;
    while i < s.len()
        invariant
            i <= s@.len(),
            r@ == s@.take(i as int),
        decreases s@.len() - i,
    {
        r.push(s[i]);
        assert(s@.take(i + 1) =~= s@.take(i as int).push(s@[i as int]));
        i += 1;
    }
    assert(s@.take(i as int) =~= s@);
    r
}

/// The record of one `wmctrl -l -p` line (`0xID DESKTOP PID HOST TITLE…`):
/// none for a blank line or a desktop that is not a non-negative number
/// (`-1` marks sticky windows); an unreadable pid reads as 0; the title is
/// the remaining words joined by single spaces.
pub open spec fn wmctrl_line(line: Seq<char>) -> Option<WindowView> {
    let t = trim(line);
    let parts = words(t);
    if t.len() == 0 || parts.len() < 2 {
        None
    } else {
        match parse_i32(parts[1]) {
            Some(d) => if d >= 0 {
                Some(
                    WindowView {
                        pid: if parts.len() > 2 {
                            match parse_u32(parts[2]) {
                                Some(p) => p,
                                None => 0,
                            }
                        } else {
                            0
                        },
                        desktop: Some(d as u32),
                        title: if parts.len() > 4 {
                            join(parts.subrange(4, parts.len() as int), " "@)
                        } else {
                            Seq::empty()
                        },
                        app_id: None,
                    },
                )
            } else {
                None
            },
            None => None,
        }
    }
}

/// The records of the first `n` lines, in order.
pub open spec fn wmctrl_records(ls: Seq<Seq<char>>, n: int) -> Seq<WindowView>
    decreases n,
{
    if n <= 0 {
        Seq::empty()
    } else {
        match wmctrl_line(ls[n - 1]) {
            Some(w) => wmctrl_records(ls, n - 1).push(w),
            None => wmctrl_records(ls, n - 1),
        }
    }
}

fn wmctrl_record(line: &[char]) -> (r: Option<WindowRecord>)
    ensures
        match r {
            Some(w) => wmctrl_line(line@) == Some(w@),
            None => wmctrl_line(line@) is None,
        },
{
    let t = trim_chars(line);
    if t.len() == 0 {
        return None;
    }
    let parts = split_words(t.as_slice());
    let ghost pv = seqs_of_vecs(parts@);
    if parts.len() < 2 {
        return None;
    }
    assert(pv[1] == parts@[1]@);
    let d = match parse_i32_chars(parts[1].as_slice()) {
        Some(d) => d,
        None => {
            return None;
        },
    };
    if d < 0 {
        return None;
    }
    let pid: u32 = if parts.len() > 2 {
        assert(pv[2] == parts@[2]@);
        match parse_u32_chars(parts[2].as_slice()) {
            Some(p) => p,
            None => 0,
        }
    } else {
        0
    };
    let title = if parts.len() > 4 {
        let mut rest: Vec<Vec<char>> = Vec::new();
        let mut k: usize = 4;
        while k < parts.len()
            invariant
                4 <= k <= parts@.len(),
                pv == seqs_of_vecs(parts@),
                seqs_of_vecs(rest@) == pv.subrange(4, k as int),
            decreases parts@.len() - k,
        {
            let ghost before = seqs_of_vecs(rest@);
            let piece = copy_chars(parts[k].as_slice());
            assert(pv[k as int] == parts@[k as int]@);
            rest.push(piece);
            assert(seqs_of_vecs(rest@) =~= before.push(pv[k as int]));
            assert(pv.subrange(4, k + 1) =~= pv.subrange(4, k as int).push(pv[k as int]));
            k += 1;
        }
        let strs = strings_of(&rest);
        process_cmdline_full(&strs)
    } else {
        String::new()
    };
    Some(WindowRecord { pid, desktop: Some(d as u32), title, app_id: None })
}

/// Parses `wmctrl -l -p` output: appends one record per window line and
/// maps each real pid (above 10) to its workspace, first mapping wins.
pub fn parse_wmctrl_lp(text: &str, windows: &mut Vec<WindowRecord>, pid_to_desktop: &mut HashMap<u32, u32>)
    ensures
        windows_view(final(windows)@) == windows_view(old(windows)@) + wmctrl_records(
            lines(text@),
            lines(text@).len() as int,
        ),
        final(pid_to_desktop)@ == pid_map_of(
            old(pid_to_desktop)@,
            wmctrl_records(lines(text@), lines(text@).len() as int),
            wmctrl_records(lines(text@), lines(text@).len() as int).len() as int,
        ),
{
    let ls = lines_of(chars_of(text).as_slice());
    let ghost lv = seqs_of_vecs(ls@);
    let ghost w0 = windows_view(windows@);
    let n = ls.len();
    for i in 0..n
        invariant
            n == ls@.len(),
            lv == seqs_of_vecs(ls@),
            windows_view(windows@) == w0 + wmctrl_records(lv, i as int),
            pid_to_desktop@ == pid_map_of(
                old(pid_to_desktop)@,
                wmctrl_records(lv, i as int),
                wmctrl_records(lv, i as int).len() as int,
            ),
    {
        assert(lv[i as int] == ls@[i as int]@);
        match wmctrl_record(ls[i].as_slice()) {
            Some(rec) => {
                let ghost before = windows_view(windows@);
                let ghost recs = wmctrl_records(lv, i as int);
                proof {
                    lemma_pid_map_extend(old(pid_to_desktop)@, recs, rec@);
                }
                if rec.pid > 10 {
                    match rec.desktop {
                        Some(d) => pid_insert_first(pid_to_desktop, rec.pid, d),
                        None => {},
                    }
                }
                windows.push(rec);
                assert(windows_view(windows@) =~= before.push(rec@));
            },
            None => {},
        }
    }
}

proof fn lemma_pid_map_extend(m: Map<u32, u32>, recs: Seq<WindowView>, w: WindowView)
    ensures
        pid_map_of(m, recs.push(w), recs.len() + 1 as int) == {
            let prev = pid_map_of(m, recs, recs.len() as int);
            if w.pid > 10 && w.desktop is Some {
                pid_insert(prev, w.pid, w.desktop->0)
            } else {
                prev
            }
        },
{
    lemma_pid_map_agree_from(m, recs.push(w), recs, recs.len() as int);
}

proof fn lemma_pid_map_agree_from(m: Map<u32, u32>, a: Seq<WindowView>, b: Seq<WindowView>, j: int)
    requires
        0 <= j <= a.len(),
        j <= b.len(),
        forall|k: int| 0 <= k < j ==> a[k] == b[k],
    ensures
        pid_map_of(m, a, j) == pid_map_of(m, b, j),
    decreases j,
{
    if j > 0 {
        lemma_pid_map_agree_from(m, a, b, j - 1);
    }
}

} // verus!
