//! The bookkeeping of a short Wayland foreign-toplevel snapshot: which
//! top-levels were announced, their titles and app ids, which workspaces
//! the compositor announced and which of them each top-level entered. The
//! protocol traffic itself is driven from outside; it hands each event to
//! [`SnapshotState::apply_event`] and asks [`SnapshotState::records`] for
//! the windows at the end.

use std::collections::HashMap;
use vstd::prelude::*;

use crate::text::{clone_string, opt_view, trim, trim_str};
use crate::workspace::{
    pid_desktop, pid_insert, pid_insert_first, pid_lookup, windows_view, WindowRecord, WindowView,
};

verus! {

/// What the snapshot knows about one top-level.
#[derive(Debug, Clone, PartialEq, Eq)]
pub struct HandleInfo {
    pub title: Option<String>,
    pub app_id: Option<String>,
    pub desktop: Option<u32>,
    pub done: bool,
}

pub struct HandleView {
    pub title: Option<Seq<char>>,
    pub app_id: Option<Seq<char>>,
    pub desktop: Option<u32>,
    pub done: bool,
}

impl View for HandleInfo {
    type V = HandleView;

    open spec fn view(&self) -> HandleView {
        HandleView {
            title: opt_view(self.title),
            app_id: opt_view(self.app_id),
            desktop: self.desktop,
            done: self.done,
        }
    }
}

impl Default for HandleInfo {
    fn default() -> (r: Self)
        ensures
            r@.title is None && r@.app_id is None && r@.desktop is None && !r@.done,
    {
        HandleInfo { title: None, app_id: None, desktop: None, done: false }
    }
}

fn clone_opt(o: &Option<String>) -> (r: Option<String>)
    ensures
        opt_view(r) == opt_view(*o),
{
    match o {
        Some(s) => Some(clone_string(s)),
        None => None,
    }
}

pub open spec fn blank_free(o: Option<Seq<char>>) -> Option<Seq<char>> {
    match o {
        Some(t) => if trim(t).len() > 0 {
            Some(t)
        } else {
            None
        },
        None => None,
    }
}

/// The window of a top-level: titled by its title, else by its app id,
/// whichever is not blank; none when both are. Foreign-toplevel does not
/// expose pids, so the pid is 0; the workspace is whatever was resolved,
/// never a made-up 0.
pub open spec fn handle_record(h: HandleView) -> Option<WindowView> {
    let t = match blank_free(h.title) {
        Some(t) => Some(t),
        None => h.app_id,
    };
    match blank_free(t) {
        Some(title) => Some(WindowView { pid: 0, desktop: h.desktop, title, app_id: h.app_id }),
        None => None,
    }
}

pub fn handle_info_to_record(info: &HandleInfo) -> (r: Option<WindowRecord>)
    ensures
        match r {
            Some(w) => handle_record(info@) == Some(w@),
            None => handle_record(info@) is None,
        },
{
    let from_title = match &info.title {
        Some(t) => if trim_str(t.as_str()).len() > 0 {
            Some(clone_string(t))
        } else {
            None
        },
        None => None,
    };
    let t = match from_title {
        Some(t) => Some(t),
        None => clone_opt(&info.app_id),
    };
    match t {
        Some(title) => {
            if trim_str(title.as_str()).len() > 0 {
                Some(
                    WindowRecord {
                        pid: 0,
                        desktop: info.desktop,
                        title,
                        app_id: clone_opt(&info.app_id),
                    },
                )
            } else {
                None
            }
        },
        None => None,
    }
}

// ---------------------------------------------------------------------------
// Workspace numbering
// ---------------------------------------------------------------------------

/// Workspace handles numbered 0, 1, … in order of first announcement.
pub open spec fn index_map_of(ids: Seq<u32>, n: int) -> Map<u32, u32>
    decreases n,
{
    if n <= 0 {
        Map::empty()
    } else {
        let m = index_map_of(ids, n - 1);
        pid_insert(m, ids[n - 1], m.len() as u32)
    }
}

/// Builds a stable 0-based index from workspace handle ids in announcement
/// order: the first handle gets 0, the next new handle 1, …; a repeated id
/// keeps its first index.
pub fn workspace_handle_index_map(handle_ids_in_order: &Vec<u32>) -> (r: HashMap<u32, u32>)
    requires
        handle_ids_in_order@.len() < u32::MAX,
    ensures
        r@ == index_map_of(handle_ids_in_order@, handle_ids_in_order@.len() as int),
{
    broadcast use vstd::std_specs::hash::group_hash_axioms;

    let mut map: HashMap<u32, u32> = HashMap::new();
    let n = handle_ids_in_order.len();
    for i in 0..n
        invariant
            n == handle_ids_in_order@.len(),
            n < u32::MAX,
            map@ == index_map_of(handle_ids_in_order@, i as int),
    {
        proof {
            lemma_index_map_dense(handle_ids_in_order@, i as int);
        }
        let id = handle_ids_in_order[i];
        let next = map.len() as u32;
        pid_insert_first(&mut map, id, next);
    }
    map
}

/// The numbering is dense and faithful: every announced id has an index,
/// each index is below the number of numbered ids (at most `n`), and no
/// two ids share an index.
pub proof fn lemma_index_map_dense(ids: Seq<u32>, n: int)
    requires
        0 <= n <= ids.len(),
        ids.len() < u32::MAX,
    ensures
        index_map_of(ids, n).dom().finite(),
        index_map_of(ids, n).len() <= n,
        forall|id: u32|
            #[trigger] index_map_of(ids, n).contains_key(id) ==> index_map_of(ids, n)[id] < index_map_of(
                ids,
                n,
            ).len(),
        forall|a: u32, b: u32|
            #[trigger] index_map_of(ids, n).contains_key(a) && #[trigger] index_map_of(ids, n).contains_key(b)
                && a != b ==> index_map_of(ids, n)[a] != index_map_of(ids, n)[b],
        forall|j: int| 0 <= j < n ==> #[trigger] index_map_of(ids, n).contains_key(ids[j]),
    decreases n,
{
    if n > 0 {
        lemma_index_map_dense(ids, n - 1);
        let m = index_map_of(ids, n - 1);
        let id = ids[n - 1];
        if !m.contains_key(id) {
            assert(m.len() < u32::MAX);
            assert((m.len() as u32) as int == m.len());
            assert(m.insert(id, m.len() as u32).dom() =~= m.dom().insert(id));
        }
    }
}

/// The lowest index among the handles a top-level entered (a sticky window
/// is on several); none when no entered handle has an index.
pub open spec fn lowest_index(map: Map<u32, u32>, entered: Seq<u32>, n: int) -> Option<u32>
    decreases n,
{
    if n <= 0 {
        None
    } else {
        let prev = lowest_index(map, entered, n - 1);
        match pid_lookup(map, entered[n - 1]) {
            Some(v) => match prev {
                Some(p) => if v < p {
                    Some(v)
                } else {
                    Some(p)
                },
                None => Some(v),
            },
            None => prev,
        }
    }
}

pub fn resolve_workspace_index(map: &HashMap<u32, u32>, entered_handle_ids: &Vec<u32>) -> (r: Option<
    u32,
>)
    ensures
        r == lowest_index(map@, entered_handle_ids@, entered_handle_ids@.len() as int),
{
    let mut best: Option<u32> = None;
    let n = entered_handle_ids.len();
    for i in 0..n
        invariant
            n == entered_handle_ids@.len(),
            best == lowest_index(map@, entered_handle_ids@, i as int),
    {
        match pid_desktop(map, entered_handle_ids[i]) {
            Some(v) => {
                best = match best {
                    Some(p) => if v < p {
                        Some(v)
                    } else {
                        Some(p)
                    },
                    None => Some(v),
                };
            },
            None => {},
        }
    }
    best
}

/// The lowest index is the index of an entered handle and no entered
/// handle has a lower one; it is missing exactly when no entered handle
/// has an index.
pub proof fn lemma_lowest_index_is_minimum(map: Map<u32, u32>, entered: Seq<u32>, n: int)
    requires
        0 <= n <= entered.len(),
    ensures
        lowest_index(map, entered, n) is None <==> forall|j: int|
            0 <= j < n ==> #[trigger] pid_lookup(map, entered[j]) is None,
        lowest_index(map, entered, n) matches Some(v) ==> (exists|j: int|
            0 <= j < n && #[trigger] pid_lookup(map, entered[j]) == Some(v)) && forall|j: int|
            0 <= j < n && #[trigger] pid_lookup(map, entered[j]) is Some ==> v <= pid_lookup(
                map,
                entered[j],
            )->0,
    decreases n,
{
    if n > 0 {
        lemma_lowest_index_is_minimum(map, entered, n - 1);
        let prev = lowest_index(map, entered, n - 1);
        if let Some(p) = prev {
            let j0 = choose|j: int| 0 <= j < n - 1 && #[trigger] pid_lookup(map, entered[j]) == Some(p);
            assert(pid_lookup(map, entered[j0]) == Some(p));
        }
    }
}

// ---------------------------------------------------------------------------
// The snapshot
// ---------------------------------------------------------------------------

/// An event of the snapshot, as the protocol traffic delivers it.
#[derive(Debug, Clone, PartialEq, Eq)]
pub enum ToplevelEvent {
    /// A new foreign top-level handle (by protocol id).
    Toplevel(u32),
    Title(u32, String),
    AppId(u32, String),
    /// The handle's batch of properties is complete.
    Done(u32),
    /// The top-level went away.
    Closed(u32),
    /// The compositor announced a workspace handle.
    Workspace(u32),
    /// The workspace manager finished announcing.
    WorkspacesDone,
    /// The Cosmic toplevel-info global finished its batch.
    CosmicDone,
    /// Top-level (foreign id) entered a workspace (handle id).
    WorkspaceEnter(u32, u32),
    /// Top-level (foreign id) left a workspace (handle id).
    WorkspaceLeave(u32, u32),
}

/// The state of one snapshot.
pub struct SnapshotState {
    handles: Vec<(u32, HandleInfo)>,
    cosmic_workspaces: Vec<(u32, Vec<u32>)>,
    workspace_order: Vec<u32>,
    workspace_done: bool,
    cosmic_done: bool,
}

pub struct SnapshotView {
    pub handles: Seq<(u32, HandleView)>,
    pub entered: Seq<(u32, Seq<u32>)>,
    pub workspace_order: Seq<u32>,
    pub workspace_done: bool,
    pub cosmic_done: bool,
}

pub open spec fn handles_view(v: Seq<(u32, HandleInfo)>) -> Seq<(u32, HandleView)> {
    v.map_values(|p: (u32, HandleInfo)| (p.0, p.1@))
}

pub open spec fn entered_view(v: Seq<(u32, Vec<u32>)>) -> Seq<(u32, Seq<u32>)> {
    v.map_values(|p: (u32, Vec<u32>)| (p.0, p.1@))
}

impl View for SnapshotState {
    type V = SnapshotView;

    closed spec fn view(&self) -> SnapshotView {
        SnapshotView {
            handles: handles_view(self.handles@),
            entered: entered_view(self.cosmic_workspaces@),
            workspace_order: self.workspace_order@,
            workspace_done: self.workspace_done,
            cosmic_done: self.cosmic_done,
        }
    }
}

pub open spec fn empty_handle() -> HandleView {
    HandleView { title: None, app_id: None, desktop: None, done: false }
}

/// The first row of `id`.
pub open spec fn first_row_from<T>(rows: Seq<(u32, T)>, id: u32, i: int) -> Option<int>
    decreases rows.len() - i,
{
    if i < 0 || i >= rows.len() {
        None
    } else if rows[i].0 == id {
        Some(i)
    } else {
        first_row_from(rows, id, i + 1)
    }
}

pub open spec fn first_row<T>(rows: Seq<(u32, T)>, id: u32) -> Option<int> {
    first_row_from(rows, id, 0)
}

/// What the snapshot knows of `id` (a fresh handle when nothing).
pub open spec fn current(hs: Seq<(u32, HandleView)>, id: u32) -> HandleView {
    match first_row(hs, id) {
        Some(k) => hs[k].1,
        None => empty_handle(),
    }
}

/// `id`'s row replaced by `h`, or `h` added for `id`.
pub open spec fn upsert(hs: Seq<(u32, HandleView)>, id: u32, h: HandleView) -> Seq<(u32, HandleView)> {
    match first_row(hs, id) {
        Some(k) => hs.update(k, (id, h)),
        None => hs.push((id, h)),
    }
}

pub open spec fn other_id(id: u32) -> spec_fn((u32, HandleView)) -> bool {
    |p: (u32, HandleView)| p.0 != id
}

pub open spec fn other_ws(ws: u32) -> spec_fn(u32) -> bool {
    |x: u32| x != ws
}

/// What one event does to the snapshot: handle events update the
/// handle's row (creating it when needed), a closed top-level is dropped,
/// workspace announcements are recorded in order, and entering or leaving
/// a workspace edits the top-level's list of entered handles.
pub open spec fn apply_spec(s: SnapshotView, ev: ToplevelEvent) -> SnapshotView {
    match ev {
        ToplevelEvent::Toplevel(id) => SnapshotView { handles: upsert(s.handles, id, empty_handle()), ..s },
        ToplevelEvent::Title(id, t) => SnapshotView {
            handles: upsert(s.handles, id, HandleView { title: Some(t@), ..current(s.handles, id) }),
            ..s
        },
        ToplevelEvent::AppId(id, a) => SnapshotView {
            handles: upsert(s.handles, id, HandleView { app_id: Some(a@), ..current(s.handles, id) }),
            ..s
        },
        ToplevelEvent::Done(id) => SnapshotView {
            handles: upsert(s.handles, id, HandleView { done: true, ..current(s.handles, id) }),
            ..s
        },
        ToplevelEvent::Closed(id) => SnapshotView { handles: s.handles.filter(other_id(id)), ..s },
        ToplevelEvent::Workspace(ws) => SnapshotView {
            workspace_order: s.workspace_order.push(ws),
            ..s
        },
        ToplevelEvent::WorkspacesDone => SnapshotView { workspace_done: true, ..s },
        ToplevelEvent::CosmicDone => SnapshotView { cosmic_done: true, ..s },
        ToplevelEvent::WorkspaceEnter(f, ws) => SnapshotView {
            entered: match first_row(s.entered, f) {
                Some(k) => s.entered.update(k, (f, s.entered[k].1.push(ws))),
                None => s.entered.push((f, seq![ws])),
            },
            ..s
        },
        ToplevelEvent::WorkspaceLeave(f, ws) => SnapshotView {
            entered: match first_row(s.entered, f) {
                Some(k) => s.entered.update(k, (f, s.entered[k].1.filter(other_ws(ws)))),
                None => s.entered,
            },
            ..s
        },
    }
}

/// The list of workspaces a top-level entered, when it is followed.
pub open spec fn entered_of(s: SnapshotView, id: u32) -> Option<Seq<u32>> {
    match first_row(s.entered, id) {
        Some(k) => Some(s.entered[k].1),
        None => None,
    }
}

/// A handle with its workspace resolved from the entered list.
pub open spec fn resolved(s: SnapshotView, p: (u32, HandleView)) -> HandleView {
    let map = index_map_of(s.workspace_order, s.workspace_order.len() as int);
    match entered_of(s, p.0) {
        Some(ids) => HandleView { desktop: lowest_index(map, ids, ids.len() as int), ..p.1 },
        None => p.1,
    }
}

/// The records of the first `n` handles, in order, skipping untitled ones.
pub open spec fn records_of(s: SnapshotView, n: int) -> Seq<WindowView>
    decreases n,
{
    if n <= 0 {
        Seq::empty()
    } else {
        match handle_record(resolved(s, s.handles[n - 1])) {
            Some(w) => records_of(s, n - 1).push(w),
            None => records_of(s, n - 1),
        }
    }
}

/// No top-level carries a workspace of its own: workspaces come only from
/// the entered handles when the records are made.
pub open spec fn no_stored_desktop(s: SnapshotView) -> bool {
    forall|k: int| 0 <= k < s.handles.len() ==> (#[trigger] s.handles[k]).1.desktop is None
}

proof fn lemma_current_keeps(hs: Seq<(u32, HandleView)>, id: u32)
    requires
        forall|k: int| 0 <= k < hs.len() ==> (#[trigger] hs[k]).1.desktop is None,
    ensures
        current(hs, id).desktop is None,
{
    lemma_first_row_shape(hs, id, 0);
}

proof fn lemma_first_row_shape<T>(rows: Seq<(u32, T)>, id: u32, i: int)
    requires
        0 <= i,
    ensures
        first_row_from(rows, id, i) matches Some(k) ==> i <= k < rows.len() && rows[k].0 == id,
    decreases rows.len() - i,
{
    if i < rows.len() {
        lemma_first_row_shape(rows, id, i + 1);
    }
}

proof fn lemma_upsert_keeps(hs: Seq<(u32, HandleView)>, id: u32, h: HandleView)
    requires
        forall|k: int| 0 <= k < hs.len() ==> (#[trigger] hs[k]).1.desktop is None,
        h.desktop is None,
    ensures
        forall|k: int| 0 <= k < upsert(hs, id, h).len() ==> (#[trigger] upsert(hs, id, h)[k]).1.desktop is None,
{
    lemma_first_row_shape(hs, id, 0);
}

/// Snapshot events never give a top-level a workspace of its own: the
/// property holds of a new snapshot and every event keeps it.
pub proof fn lemma_events_store_no_desktop(s: SnapshotView, ev: ToplevelEvent)
    requires
        no_stored_desktop(s),
    ensures
        no_stored_desktop(apply_spec(s, ev)),
{
    let hs = s.handles;
    match ev {
        ToplevelEvent::Toplevel(id) => {
            lemma_upsert_keeps(hs, id, empty_handle());
        },
        ToplevelEvent::Title(id, t) => {
            lemma_current_keeps(hs, id);
            lemma_upsert_keeps(hs, id, HandleView { title: Some(t@), ..current(hs, id) });
        },
        ToplevelEvent::AppId(id, a) => {
            lemma_current_keeps(hs, id);
            lemma_upsert_keeps(hs, id, HandleView { app_id: Some(a@), ..current(hs, id) });
        },
        ToplevelEvent::Done(id) => {
            lemma_current_keeps(hs, id);
            lemma_upsert_keeps(hs, id, HandleView { done: true, ..current(hs, id) });
        },
        ToplevelEvent::Closed(id) => {
            let f = hs.filter(other_id(id));
            assert forall|k: int| 0 <= k < f.len() implies (#[trigger] f[k]).1.desktop is None by {
                assert(f.contains(f[k]));
                hs.lemma_filter_contains_rev(other_id(id), f[k]);
            }
        },
        _ => {},
    }
}

/// A record's workspace is always the index of a workspace that was
/// announced and that its top-level entered, never an invented one: with
/// no workspace announced, no record has one.
pub proof fn lemma_record_workspaces_announced(s: SnapshotView, n: int)
    requires
        no_stored_desktop(s),
        0 <= n <= s.handles.len(),
        s.workspace_order.len() < u32::MAX,
    ensures
        forall|i: int|
            0 <= i < records_of(s, n).len() ==> ((#[trigger] records_of(s, n)[i]).desktop matches Some(v)
                ==> v < s.workspace_order.len()),
    decreases n,
{
    if n > 0 {
        lemma_record_workspaces_announced(s, n - 1);
        let order = s.workspace_order;
        let map = index_map_of(order, order.len() as int);
        lemma_index_map_dense(order, order.len() as int);
        let p = s.handles[n - 1];
        let h = resolved(s, p);
        assert(p == s.handles[n - 1]);
        match entered_of(s, p.0) {
            Some(ids) => {
                lemma_lowest_index_is_minimum(map, ids, ids.len() as int);
                if let Some(v) = lowest_index(map, ids, ids.len() as int) {
                    let j = choose|j: int| 0 <= j < ids.len() && #[trigger] pid_lookup(map, ids[j]) == Some(v);
                    assert(map.contains_key(ids[j]) && map[ids[j]] == v);
                }
            },
            None => {},
        }
        let prev = records_of(s, n - 1);
        assert forall|i: int|
            0 <= i < records_of(s, n).len() implies ((#[trigger] records_of(s, n)[i]).desktop matches Some(v)
                ==> v < s.workspace_order.len()) by {
            if i < prev.len() {
                assert(records_of(s, n)[i] == prev[i]);
            }
        }
    }
}

fn find_handle(rows: &Vec<(u32, HandleInfo)>, id: u32) -> (r: Option<usize>)
    ensures
        match r {
            Some(k) => first_row(handles_view(rows@), id) == Some(k as int) && k < rows@.len(),
            None => first_row(handles_view(rows@), id) is None,
        },
{
    let ghost v = handles_view(rows@);
    let mut i: usize = 0;
    while i < rows.len()
        invariant
            v == handles_view(rows@),
            i <= rows@.len(),
            first_row(v, id) == first_row_from(v, id, i as int),
        decreases rows@.len() - i,
    {
        assert(v[i as int].0 == rows@[i as int].0);
        if rows[i].0 == id {
            return Some(i);
        }
        i += 1;
    }
    None
}

fn find_entered(rows: &Vec<(u32, Vec<u32>)>, id: u32) -> (r: Option<usize>)
    ensures
        match r {
            Some(k) => first_row(entered_view(rows@), id) == Some(k as int) && k < rows@.len(),
            None => first_row(entered_view(rows@), id) is None,
        },
{
    let ghost v = entered_view(rows@);
    let mut i: usize = 0;
    while i < rows.len()
        invariant
            v == entered_view(rows@),
            i <= rows@.len(),
            first_row(v, id) == first_row_from(v, id, i as int),
        decreases rows@.len() - i,
    {
        assert(v[i as int].0 == rows@[i as int].0);
        if rows[i].0 == id {
            return Some(i);
        }
        i += 1;
    }
    None
}

fn copy_handle(h: &HandleInfo) -> (r: HandleInfo)
    ensures
        r@ == h@,
{
    HandleInfo {
        title: clone_opt(&h.title),
        app_id: clone_opt(&h.app_id),
        desktop: h.desktop,
        done: h.done,
    }
}

fn copy_ids(v: &Vec<u32>) -> (r: Vec<u32>)
    ensures
        r@ == v@,
{
    let mut r: Vec<u32> = Vec::new();
    for i in 0..v.len()
        invariant
            r@ == v@.take(i as int),
    {
        r.push(v[i]);
        assert(v@.take(i + 1) =~= v@.take(i as int).push(v@[i as int]));
    }
    assert(v@.take(v@.len() as int) =~= v@);
    r
}

impl SnapshotState {
    pub fn new() -> (r: SnapshotState)
        ensures
            r@.handles == Seq::<(u32, HandleView)>::empty(),
            r@.entered == Seq::<(u32, Seq<u32>)>::empty(),
            r@.workspace_order == Seq::<u32>::empty(),
            !r@.workspace_done,
            !r@.cosmic_done,
    {
        let r = SnapshotState {
            handles: Vec::new(),
            cosmic_workspaces: Vec::new(),
            workspace_order: Vec::new(),
            workspace_done: false,
            cosmic_done: false,
        };
        assert(r@.handles =~= Seq::<(u32, HandleView)>::empty());
        assert(r@.entered =~= Seq::<(u32, Seq<u32>)>::empty());
        r
    }

    /// Whether the workspace manager finished announcing.
    pub fn workspaces_done(&self) -> (r: bool)
        ensures
            r == self@.workspace_done,
    {
        self.workspace_done
    }

    /// Whether the Cosmic toplevel-info global finished its batch.
    pub fn cosmic_done(&self) -> (r: bool)
        ensures
            r == self@.cosmic_done,
    {
        self.cosmic_done
    }

    /// How many workspace handles were announced.
    pub fn announced_workspaces(&self) -> (r: usize)
        ensures
            r == self@.workspace_order.len(),
    {
        self.workspace_order.len()
    }

    /// The foreign ids of the known top-levels, in announcement order.
    pub fn handle_ids(&self) -> (r: Vec<u32>)
        ensures
            r@ == self@.handles.map_values(|p: (u32, HandleView)| p.0),
    {
        let mut r: Vec<u32> = Vec::new();
        for i in 0..self.handles.len()
            invariant
                r@ == self@.handles.take(i as int).map_values(|p: (u32, HandleView)| p.0),
        {
            r.push(self.handles[i].0);
            assert(self@.handles.take(i + 1).map_values(|p: (u32, HandleView)| p.0) =~= self@.handles.take(
                i as int,
            ).map_values(|p: (u32, HandleView)| p.0).push(self@.handles[i as int].0));
        }
        assert(self@.handles.take(self.handles@.len() as int) =~= self@.handles);
        r
    }

    /// Whether some top-level finished its batch of properties.
    pub fn any_handle_done(&self) -> (r: bool)
        ensures
            r == exists|k: int| 0 <= k < self@.handles.len() && #[trigger] self@.handles[k].1.done,
    {
        let mut i: usize = 0;
        while i < self.handles.len()
            invariant
                i <= self.handles@.len(),
                forall|k: int| 0 <= k < i ==> !#[trigger] self@.handles[k].1.done,
            decreases self.handles@.len() - i,
        {
            assert(self@.handles[i as int].1 == self.handles@[i as int].1@);
            if self.handles[i].1.done {
                assert(self@.handles[i as int].1.done);
                return true;
            }
            i += 1;
        }
        false
    }

    /// How many followed top-levels have entered at least one workspace.
    pub fn assigned_count(&self) -> (r: usize)
        ensures
            r == assigned_upto(self@.entered, self@.entered.len() as int),
    {
        let mut c: usize = 0;
        let n = self.cosmic_workspaces.len();
        for i in 0..n
            invariant
                n == self.cosmic_workspaces@.len(),
                c == assigned_upto(self@.entered, i as int),
                c <= i,
        {
            assert(self@.entered[i as int].1 == self.cosmic_workspaces@[i as int].1@);
            if self.cosmic_workspaces[i].1.len() > 0 {
                c += 1;
            }
        }
        c
    }

    /// Starts following the workspace entries of a top-level (once its
    /// Cosmic handle is requested); an existing list is kept.
    pub fn track_toplevel(&mut self, foreign_id: u32)
        ensures
            final(self)@ == (SnapshotView {
                entered: match first_row(old(self)@.entered, foreign_id) {
                    Some(_) => old(self)@.entered,
                    None => old(self)@.entered.push((foreign_id, Seq::empty())),
                },
                ..old(self)@
            }),
    {
        match find_entered(&self.cosmic_workspaces, foreign_id) {
            Some(_) => {},
            None => {
                let ghost before = entered_view(self.cosmic_workspaces@);
                self.cosmic_workspaces.push((foreign_id, Vec::new()));
                assert(entered_view(self.cosmic_workspaces@) =~= before.push(
                    (foreign_id, Seq::<u32>::empty()),
                ));
            },
        }
    }

    fn current_handle(&self, id: u32) -> (r: HandleInfo)
        ensures
            r@ == current(self@.handles, id),
    {
        match find_handle(&self.handles, id) {
            Some(k) => {
                assert(self@.handles[k as int].1 == self.handles@[k as int].1@);
                copy_handle(&self.handles[k].1)
            },
            None => HandleInfo::default(),
        }
    }

    fn upsert_handle(&mut self, id: u32, h: HandleInfo)
        ensures
            final(self)@ == (SnapshotView { handles: upsert(old(self)@.handles, id, h@), ..old(self)@ }),
    {
        let ghost before = handles_view(self.handles@);
        let ghost hv = h@;
        match find_handle(&self.handles, id) {
            Some(k) => {
                self.handles.set(k, (id, h));
                assert(handles_view(self.handles@) =~= before.update(k as int, (id, hv)));
            },
            None => {
                self.handles.push((id, h));
                assert(handles_view(self.handles@) =~= before.push((id, hv)));
            },
        }
    }

    fn remove_handle(&mut self, id: u32)
        ensures
            final(self)@ == (SnapshotView {
                handles: old(self)@.handles.filter(other_id(id)),
                ..old(self)@
            }),
    {
        let ghost hv = handles_view(self.handles@);
        let ghost pred = other_id(id);
        let mut kept: Vec<(u32, HandleInfo)> = Vec::new();
        let n = self.handles.len();
        for i in 0..n
            invariant
                n == self.handles@.len(),
                hv == handles_view(self.handles@),
                pred == other_id(id),
                handles_view(kept@) == hv.take(i as int).filter(pred),
        {
            proof {
                assert(hv[i as int] == (self.handles@[i as int].0, self.handles@[i as int].1@));
                assert(hv.take(i + 1).drop_last() =~= hv.take(i as int));
                assert(hv.take(i + 1).last() == hv[i as int]);
                reveal(Seq::filter);
            }
            if self.handles[i].0 != id {
                let ghost before = handles_view(kept@);
                let row = (self.handles[i].0, copy_handle(&self.handles[i].1));
                kept.push(row);
                assert(handles_view(kept@) =~= before.push(hv[i as int]));
            }
        }
        assert(hv.take(n as int) =~= hv);
        self.handles = kept;
    }

    fn enter_workspace(&mut self, f: u32, ws: u32)
        ensures
            final(self)@ == apply_spec(old(self)@, ToplevelEvent::WorkspaceEnter(f, ws)),
    {
        let ghost before = entered_view(self.cosmic_workspaces@);
        match find_entered(&self.cosmic_workspaces, f) {
            Some(k) => {
                let mut ids = copy_ids(&self.cosmic_workspaces[k].1);
                assert(before[k as int].1 == ids@);
                ids.push(ws);
                self.cosmic_workspaces.set(k, (f, ids));
                assert(entered_view(self.cosmic_workspaces@) =~= before.update(
                    k as int,
                    (f, before[k as int].1.push(ws)),
                ));
            },
            None => {
                let mut ids: Vec<u32> = Vec::new();
                ids.push(ws);
                self.cosmic_workspaces.push((f, ids));
                assert(entered_view(self.cosmic_workspaces@) =~= before.push((f, seq![ws])));
            },
        }
    }

    fn leave_workspace(&mut self, f: u32, ws: u32)
        ensures
            final(self)@ == apply_spec(old(self)@, ToplevelEvent::WorkspaceLeave(f, ws)),
    {
        let ghost before = entered_view(self.cosmic_workspaces@);
        match find_entered(&self.cosmic_workspaces, f) {
            Some(k) => {
                let old_ids = copy_ids(&self.cosmic_workspaces[k].1);
                assert(before[k as int].1 == old_ids@);
                let ghost pred = other_ws(ws);
                let mut ids: Vec<u32> = Vec::new();
                let n = old_ids.len();
                for i in 0..n
                    invariant
                        n == old_ids@.len(),
                        pred == other_ws(ws),
                        ids@ == old_ids@.take(i as int).filter(pred),
                {
                    proof {
                        assert(old_ids@.take(i + 1).drop_last() =~= old_ids@.take(i as int));
                        assert(old_ids@.take(i + 1).last() == old_ids@[i as int]);
                        reveal(Seq::filter);
                    }
                    if old_ids[i] != ws {
                        ids.push(old_ids[i]);
                    }
                }
                assert(old_ids@.take(n as int) =~= old_ids@);
                self.cosmic_workspaces.set(k, (f, ids));
                assert(entered_view(self.cosmic_workspaces@) =~= before.update(
                    k as int,
                    (f, before[k as int].1.filter(other_ws(ws))),
                ));
            },
            None => {},
        }
    }

    /// Applies one event (see `apply_spec`).
    pub fn apply_event(&mut self, ev: ToplevelEvent)
        ensures
            final(self)@ == apply_spec(old(self)@, ev),
    {
        match ev {
            ToplevelEvent::Toplevel(id) => {
                self.upsert_handle(id, HandleInfo::default());
            },
            ToplevelEvent::Title(id, t) => {
                let mut h = self.current_handle(id);
                h.title = Some(t);
                self.upsert_handle(id, h);
            },
            ToplevelEvent::AppId(id, a) => {
                let mut h = self.current_handle(id);
                h.app_id = Some(a);
                self.upsert_handle(id, h);
            },
            ToplevelEvent::Done(id) => {
                let mut h = self.current_handle(id);
                h.done = true;
                self.upsert_handle(id, h);
            },
            ToplevelEvent::Closed(id) => {
                self.remove_handle(id);
            },
            ToplevelEvent::Workspace(ws) => {
                self.workspace_order.push(ws);
            },
            ToplevelEvent::WorkspacesDone => {
                self.workspace_done = true;
            },
            ToplevelEvent::CosmicDone => {
                self.cosmic_done = true;
            },
            ToplevelEvent::WorkspaceEnter(f, ws) => {
                self.enter_workspace(f, ws);
            },
            ToplevelEvent::WorkspaceLeave(f, ws) => {
                self.leave_workspace(f, ws);
            },
        }
    }

    /// The windows of the snapshot (see `records_of`).
    pub fn records(&self) -> (r: Vec<WindowRecord>)
        requires
            self@.workspace_order.len() < u32::MAX,
        ensures
            windows_view(r@) == records_of(self@, self@.handles.len() as int),
    {
        let map = workspace_handle_index_map(&self.workspace_order);
        let mut out: Vec<WindowRecord> = Vec::new();
        let n = self.handles.len();
        for i in 0..n
            invariant
                n == self.handles@.len(),
                map@ == index_map_of(self@.workspace_order, self@.workspace_order.len() as int),
                windows_view(out@) == records_of(self@, i as int),
        {
            let id = self.handles[i].0;
            let mut h = copy_handle(&self.handles[i].1);
            assert(self@.handles[i as int] == (id, self.handles@[i as int].1@));
            match find_entered(&self.cosmic_workspaces, id) {
                Some(k) => {
                    assert(self@.entered[k as int].1 == self.cosmic_workspaces@[k as int].1@);
                    h.desktop = resolve_workspace_index(&map, &self.cosmic_workspaces[k].1);
                },
                None => {},
            }
            assert(h@ == resolved(self@, self@.handles[i as int]));
            match handle_info_to_record(&h) {
                Some(w) => {
                    let ghost before = windows_view(out@);
                    out.push(w);
                    assert(windows_view(out@) =~= before.push(w@));
                },
                None => {},
            }
        }
        out
    }
}

/// How many of the first `n` followed top-levels entered a workspace.
pub open spec fn assigned_upto(entered: Seq<(u32, Seq<u32>)>, n: int) -> int
    decreases n,
{
    if n <= 0 {
        0
    } else {
        assigned_upto(entered, n - 1) + if entered[n - 1].1.len() > 0 {
            1int
        } else {
            0int
        }
    }
}

/// Whether to stop waiting for workspace entries: every followed
/// top-level entered one (at least one is expected), or the compositor
/// finished its batch and no new entry arrived within the grace period.
pub fn enrich_should_stop(assigned: usize, followed: usize, cosmic_done: bool, grace_elapsed: bool) -> (r:
    bool)
    ensures
        r == (assigned >= (if followed > 1 {
            followed
        } else {
            1
        }) || (cosmic_done && grace_elapsed)),
{
    let expected = if followed > 1 {
        followed
    } else {
        1
    };
    assigned >= expected || (cosmic_done && grace_elapsed)
}

} // verus!
