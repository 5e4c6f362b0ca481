//! Registry of live progress, one snapshot per session.

use vstd::prelude::*;
use crate::text::same_text;

verus! {

broadcast use vstd::string::group_string_axioms;

/// Number of steps shown to pollers.
pub const TOTAL_STEPS: u32 = 9;

/// Progress of one session as pollers see it.
#[derive(Debug)]
pub struct ProgressData {
    pub session_id: String,
    /// `starting`, `in_progress`, `completed` or `error`.
    pub status: String,
    pub current_step: u32,
    pub total_steps: u32,
    pub step_name: String,
    pub details: String,
    pub error: Option<String>,
    pub report_id: Option<i32>,
    /// Set by a terminal transition.
    pub completed: bool,
}

pub struct ProgressView {
    pub session_id: Seq<char>,
    pub status: Seq<char>,
    pub current_step: u32,
    pub total_steps: u32,
    pub step_name: Seq<char>,
    pub details: Seq<char>,
    pub error: Option<Seq<char>>,
    pub report_id: Option<i32>,
    pub completed: bool,
}

impl View for ProgressData {
    type V = ProgressView;

    open spec fn view(&self) -> ProgressView {
        ProgressView {
            session_id: self.session_id@,
            status: self.status@,
            current_step: self.current_step,
            total_steps: self.total_steps,
            step_name: self.step_name@,
            details: self.details@,
            error: self.error.deep_view(),
            report_id: self.report_id,
            completed: self.completed,
        }
    }
}

impl DeepView for ProgressData {
    type V = ProgressView;

    open spec fn deep_view(&self) -> ProgressView {
        self@
    }
}

/// The snapshot a new session starts with.
pub open spec fn fresh_progress(id: Seq<char>) -> ProgressView {
    ProgressView {
        session_id: id,
        status: "starting"@,
        current_step: 0,
        total_steps: TOTAL_STEPS,
        step_name: "Initializing"@,
        details: Seq::empty(),
        error: None,
        report_id: None,
        completed: false,
    }
}

/// A step report; a completed snapshot stays as it is.
pub open spec fn stepped(
    p: ProgressView,
    step: u32,
    name: Seq<char>,
    details: Seq<char>,
) -> ProgressView {
    if p.completed {
        p
    } else {
        ProgressView { current_step: step, step_name: name, details, status: "in_progress"@, ..p }
    }
}

/// The terminal transition to success.
pub open spec fn completed_with(p: ProgressView, report_id: Option<i32>) -> ProgressView {
    ProgressView { completed: true, status: "completed"@, report_id, step_name: "Done"@, ..p }
}

/// The terminal transition to failure.
pub open spec fn failed_with(p: ProgressView, error: Seq<char>) -> ProgressView {
    ProgressView { status: "error"@, error: Some(error), completed: true, ..p }
}

/// The registry after session `id` starts: a tracked session gets a fresh
/// snapshot in its place, a new one is appended.
pub open spec fn started(s: Seq<ProgressView>, id: Seq<char>) -> Seq<ProgressView> {
    match lookup(s, id) {
        Some(_) => s.map_values(
            |p: ProgressView|
                if p.session_id == id {
                    fresh_progress(id)
                } else {
                    p
                },
        ),
        None => s.push(fresh_progress(id)),
    }
}

/// The registry after session `id` completes with `report_id`.
pub open spec fn completed_in(s: Seq<ProgressView>, id: Seq<char>, report_id: Option<i32>) -> Seq<
    ProgressView,
> {
    s.map_values(
        |p: ProgressView|
            if p.session_id == id {
                completed_with(p, report_id)
            } else {
                p
            },
    )
}

/// `s` with the first `n` completed snapshots taken out, the rest in order.
pub open spec fn drop_completed(s: Seq<ProgressView>, n: nat) -> Seq<ProgressView>
    decreases s.len(),
{
    if s.len() == 0 {
        s
    } else if n > 0 && s[0].completed {
        drop_completed(s.drop_first(), (n - 1) as nat)
    } else {
        seq![s[0]] + drop_completed(s.drop_first(), n)
    }
}

/// Number of snapshots not yet completed.
pub open spec fn open_count(s: Seq<ProgressView>) -> nat
    decreases s.len(),
{
    if s.len() == 0 {
        0
    } else {
        (if s[0].completed {
            0nat
        } else {
            1nat
        }) + open_count(s.drop_first())
    }
}

/// The snapshot of session `id`, if it is registered.
pub open spec fn lookup(s: Seq<ProgressView>, id: Seq<char>) -> Option<ProgressView> {
    if exists|i: int| 0 <= i < s.len() && s[i].session_id == id {
        let i = choose|i: int| 0 <= i < s.len() && s[i].session_id == id;
        Some(s[i])
    } else {
        None
    }
}

pub open spec fn ids_unique(s: Seq<ProgressView>) -> bool {
    forall|i: int, j: int|
        0 <= i < s.len() && 0 <= j < s.len() && i != j ==> s[i].session_id != s[j].session_id
}

impl ProgressData {
    /// The snapshot of a session that has just started.
    pub fn new(session_id: &str) -> (r: ProgressData)
        ensures
            r@ == fresh_progress(session_id@),
    {
        let r = ProgressData {
            session_id: session_id.to_string(),
            status: "starting".to_string(),
            current_step: 0,
            total_steps: TOTAL_STEPS,
            step_name: "Initializing".to_string(),
            details: String::new(),
            error: None,
            report_id: None,
            completed: false,
        };
        r
    }

    /// A copy of this snapshot.
    pub fn snapshot(&self) -> (r: ProgressData)
        ensures
            r@ == self@,
    {
        ProgressData {
            session_id: self.session_id.clone(),
            status: self.status.clone(),
            current_step: self.current_step,
            total_steps: self.total_steps,
            step_name: self.step_name.clone(),
            details: self.details.clone(),
            error: match &self.error {
                Some(e) => Some(e.clone()),
                None => None,
            },
            report_id: self.report_id,
            completed: self.completed,
        }
    }
}

/// Progress of every session, in the order the sessions started.
pub struct ProgressTracker {
    sessions: Vec<ProgressData>,
}

impl View for ProgressTracker {
    type V = Seq<ProgressView>;

    closed spec fn view(&self) -> Seq<ProgressView> {
        self.sessions@.map_values(|p: ProgressData| p@)
    }
}

impl ProgressTracker {
    /// Each session appears once.
    #[verifier::type_invariant]
    spec fn inv(self) -> bool {
        ids_unique(self.sessions@.map_values(|p: ProgressData| p@))
    }

    /// An empty registry.
    pub fn new() -> (r: ProgressTracker)
        ensures
            r@ == Seq::<ProgressView>::empty(),
    {
        let r = ProgressTracker { sessions: Vec::new() };
        assert(r@ =~= Seq::<ProgressView>::empty());
        r
    }

    /// Index of session `id`.
    fn position(&self, id: &str) -> (r: Option<usize>)
        ensures
            match r {
                Some(i) => i < self@.len() && self@[i as int].session_id == id@,
                None => forall|i: int| 0 <= i < self@.len() ==> self@[i].session_id != id@,
            },
    {
        let mut i: usize = 0;
        while i < self.sessions.len()
            invariant
                i <= self.sessions.len(),
                forall|j: int| 0 <= j < i ==> self@[j].session_id != id@,
            decreases self.sessions.len() - i,
        {
            if same_text(self.sessions[i].session_id.as_str(), id) {
                return Some(i);
            }
            i = i + 1;
        }
        None
    }

    proof fn lemma_lookup_at(&self, i: int, id: Seq<char>)
        requires
            ids_unique(self@),
            0 <= i < self@.len(),
            self@[i].session_id == id,
        ensures
            lookup(self@, id) == Some(self@[i]),
    {
        let j = choose|j: int| 0 <= j < self@.len() && self@[j].session_id == id;
        assert(i == j);
    }

    /// Replaces the snapshot at `i`, which belongs to session `id`.
    fn put(&mut self, i: usize, p: ProgressData)
        requires
            i < old(self)@.len(),
            old(self)@[i as int].session_id == p@.session_id,
        ensures
            final(self)@ == old(self)@.update(i as int, p@),
    {
        proof {
            use_type_invariant(&*self);
        }
        let mut v: Vec<ProgressData> = Vec::new();
        std::mem::swap(&mut v, &mut self.sessions);
        let ghost before = v@.map_values(|q: ProgressData| q@);
        v.set(i, p);
        assert(v@.map_values(|q: ProgressData| q@) =~= before.update(i as int, p@));
        assert(ids_unique(before.update(i as int, p@))) by {
            let t = before.update(i as int, p@);
            assert forall|a: int, b: int|
                0 <= a < t.len() && 0 <= b < t.len() && a != b implies t[a].session_id
                != t[b].session_id by {
                assert(t[a].session_id == before[a].session_id);
                assert(t[b].session_id == before[b].session_id);
            }
        }
        self.sessions = v;
    }

    /// Starts tracking session `id` afresh; a session already tracked keeps
    /// its place and gets a fresh snapshot.
    pub fn start_progress(&mut self, session_id: &str)
        ensures
            final(self)@ == started(old(self)@, session_id@),
    {
        proof {
            use_type_invariant(&*self);
        }
        let p = ProgressData::new(session_id);
        match self.position(session_id) {
            Some(i) => {
                proof {
                    self.lemma_lookup_at(i as int, session_id@);
                }
                let ghost before = self@;
                self.put(i, p);
                assert(self@ =~= before.map_values(
                    |q: ProgressView|
                        if q.session_id == session_id@ {
                            fresh_progress(session_id@)
                        } else {
                            q
                        },
                ));
            },
            None => {
                let ghost before = self@;
                let mut v: Vec<ProgressData> = Vec::new();
                std::mem::swap(&mut v, &mut self.sessions);
                v.push(p);
                assert(v@.map_values(|q: ProgressData| q@) =~= before.push(fresh_progress(session_id@)));
                assert(ids_unique(before.push(fresh_progress(session_id@)))) by {
                    let t = before.push(fresh_progress(session_id@));
                    assert forall|a: int, b: int|
                        0 <= a < t.len() && 0 <= b < t.len() && a != b implies t[a].session_id
                        != t[b].session_id by {
                        if a < before.len() {
                            assert(t[a] == before[a]);
                        }
                        if b < before.len() {
                            assert(t[b] == before[b]);
                        }
                    }
                }
                self.sessions = v;
                assert(self@ =~= before.push(fresh_progress(session_id@)));
            },
        }
    }

    /// Records step `step` of session `id`; nothing happens for an unknown or
    /// completed session.
    pub fn update_step(&mut self, session_id: &str, step: u32, step_name: &str, details: &str)
        ensures
            final(self)@ == old(self)@.map_values(
                |p: ProgressView|
                    if p.session_id == session_id@ {
                        stepped(p, step, step_name@, details@)
                    } else {
                        p
                    },
            ),
    {
        proof {
            use_type_invariant(&*self);
        }
        let ghost before = self@;
        match self.position(session_id) {
            Some(i) => {
                if !self.sessions[i].completed {
                    let mut p = self.sessions[i].snapshot();
                    p.current_step = step;
                    p.step_name = step_name.to_string();
                    p.details = details.to_string();
                    p.status = "in_progress".to_string();
                    self.put(i, p);
                }
            },
            None => {},
        }
        assert(self@ =~= before.map_values(
            |p: ProgressView|
                if p.session_id == session_id@ {
                    stepped(p, step, step_name@, details@)
                } else {
                    p
                },
        ));
    }

    /// Marks session `id` completed with `report_id`.
    pub fn complete_progress(&mut self, session_id: &str, report_id: Option<i32>)
        ensures
            final(self)@ == completed_in(old(self)@, session_id@, report_id),
    {
        proof {
            use_type_invariant(&*self);
        }
        let ghost before = self@;
        match self.position(session_id) {
            Some(i) => {
                let mut p = self.sessions[i].snapshot();
                p.completed = true;
                p.status = "completed".to_string();
                p.report_id = report_id;
                p.step_name = "Done".to_string();
                self.put(i, p);
            },
            None => {},
        }
        assert(self@ =~= before.map_values(
            |p: ProgressView|
                if p.session_id == session_id@ {
                    completed_with(p, report_id)
                } else {
                    p
                },
        ));
    }

    /// Marks session `id` failed with `error`.
    pub fn error_progress(&mut self, session_id: &str, error: &str)
        ensures
            final(self)@ == old(self)@.map_values(
                |p: ProgressView|
                    if p.session_id == session_id@ {
                        failed_with(p, error@)
                    } else {
                        p
                    },
            ),
    {
        proof {
            use_type_invariant(&*self);
        }
        let ghost before = self@;
        match self.position(session_id) {
            Some(i) => {
                let mut p = self.sessions[i].snapshot();
                p.status = "error".to_string();
                p.error = Some(error.to_string());
                p.completed = true;
                self.put(i, p);
            },
            None => {},
        }
        assert(self@ =~= before.map_values(
            |p: ProgressView|
                if p.session_id == session_id@ {
                    failed_with(p, error@)
                } else {
                    p
                },
        ));
    }

    /// A copy of the snapshot of session `id`, if it is tracked.
    pub fn get_progress(&self, session_id: &str) -> (r: Option<ProgressData>)
        ensures
            r.deep_view() == lookup(self@, session_id@),
    {
        proof {
            use_type_invariant(self);
        }
        match self.position(session_id) {
            Some(i) => {
                proof {
                    self.lemma_lookup_at(i as int, session_id@);
                }
                Some(self.sessions[i].snapshot())
            },
            None => None,
        }
    }

    /// Number of tracked sessions.
    pub fn len(&self) -> (r: usize)
        ensures
            r == self@.len(),
    {
        self.sessions.len()
    }

    /// Once more than `max_sessions` are tracked, takes out completed
    /// sessions, oldest first, until `max_sessions` remain or none completed
    /// is left; sessions still running are never taken out.
    pub fn cleanup_old_sessions(&mut self, max_sessions: usize)
        ensures
            final(self)@ == if old(self)@.len() > max_sessions {
                drop_completed(old(self)@, (old(self)@.len() - max_sessions) as nat)
            } else {
                old(self)@
            },
    {
        proof {
            use_type_invariant(&*self);
        }
        if self.sessions.len() <= max_sessions {
            return;
        }
        let ghost s = self@;
        let n: usize = self.sessions.len() - max_sessions;
        let mut removed: usize = 0;
        let mut kept: Vec<ProgressData> = Vec::new();
        let mut i: usize = 0;
        assert(s.subrange(0, s.len() as int) =~= s);
        assert(kept@.map_values(|p: ProgressData| p@) + drop_completed(s, n as nat) =~= drop_completed(s, n as nat));
        while i < self.sessions.len()
            invariant
                s == self@,
                i <= self.sessions.len(),
                removed <= n,
                kept@.map_values(|p: ProgressData| p@) + drop_completed(
                    s.subrange(i as int, s.len() as int),
                    (n - removed) as nat,
                ) == drop_completed(s, n as nat),
            decreases self.sessions.len() - i,
        {
            let ghost rest = s.subrange(i as int, s.len() as int);
            assert(rest.drop_first() =~= s.subrange(i + 1, s.len() as int));
            assert(rest[0] == self.sessions@[i as int]@);
            if removed < n && self.sessions[i].completed {
                removed = removed + 1;
            } else {
                let ghost before = kept@.map_values(|p: ProgressData| p@);
                kept.push(self.sessions[i].snapshot());
                assert(kept@.map_values(|p: ProgressData| p@) =~= before.push(rest[0]));
                assert(before + (seq![rest[0]] + drop_completed(rest.drop_first(), (n - removed) as nat))
                    =~= before.push(rest[0]) + drop_completed(rest.drop_first(), (n - removed) as nat));
            }
            i = i + 1;
        }
        assert(s.subrange(s.len() as int, s.len() as int) =~= Seq::<ProgressView>::empty());
        let ghost kv = kept@.map_values(|p: ProgressData| p@);
        assert(kv + Seq::<ProgressView>::empty() =~= kv);
        proof {
            lemma_drop_completed_keeps_ids(s, n as nat);
        }
        self.sessions = kept;
    }
}

impl Default for ProgressTracker {
    /// An empty registry.
    fn default() -> (r: ProgressTracker)
        ensures
            r@ == Seq::<ProgressView>::empty(),
    {
        ProgressTracker::new()
    }
}

/// Every snapshot left by `drop_completed` was in `s`, in order: it keeps
/// a subsequence, so ids stay unique.
proof fn lemma_drop_completed_keeps_ids(s: Seq<ProgressView>, n: nat)
    requires
        ids_unique(s),
    ensures
        ids_unique(drop_completed(s, n)),
        forall|i: int|
            0 <= i < drop_completed(s, n).len() ==> exists|j: int|
                0 <= j < s.len() && s[j] == #[trigger] drop_completed(s, n)[i],
    decreases s.len(),
{
    if s.len() == 0 {
    } else {
        let t = s.drop_first();
        assert(ids_unique(t));
        if n > 0 && s[0].completed {
            lemma_drop_completed_keeps_ids(t, (n - 1) as nat);
            let d = drop_completed(t, (n - 1) as nat);
            assert forall|i: int| 0 <= i < d.len() implies exists|j: int|
                0 <= j < s.len() && s[j] == #[trigger] d[i] by {
                let j = choose|j: int| 0 <= j < t.len() && t[j] == d[i];
                assert(s[j + 1] == d[i]);
            }
        } else {
            lemma_drop_completed_keeps_ids(t, n);
            let d = drop_completed(t, n);
            let r = seq![s[0]] + d;
            assert forall|i: int| 0 <= i < r.len() implies exists|j: int|
                0 <= j < s.len() && s[j] == #[trigger] r[i] by {
                if i == 0 {
                    assert(s[0] == r[0]);
                } else {
                    assert(r[i] == d[i - 1]);
                    let j = choose|j: int| 0 <= j < t.len() && t[j] == d[i - 1];
                    assert(s[j + 1] == r[i]);
                }
            }
            assert forall|i: int, k: int|
                0 <= i < r.len() && 0 <= k < r.len() && i != k implies r[i].session_id
                != r[k].session_id by {
                if i == 0 && k > 0 {
                    assert(r[k] == d[k - 1]);
                    let j = choose|j: int| 0 <= j < t.len() && t[j] == d[k - 1];
                    assert(s[j + 1] == r[k]);
                } else if k == 0 && i > 0 {
                    assert(r[i] == d[i - 1]);
                    let j = choose|j: int| 0 <= j < t.len() && t[j] == d[i - 1];
                    assert(s[j + 1] == r[i]);
                } else if i > 0 && k > 0 {
                    assert(r[i] == d[i - 1]);
                    assert(r[k] == d[k - 1]);
                }
            }
        }
    }
}

/// After session `id` starts, looking it up gives status `starting`, step 0
/// of 9; looking up a session that was never started gives nothing.
pub proof fn lemma_start_then_get(s: Seq<ProgressView>, id: Seq<char>, other: Seq<char>)
    requires
        ids_unique(s),
        other != id,
        lookup(s, other) is None,
    ensures
        lookup(started(s, id), id) == Some(fresh_progress(id)),
        lookup(started(s, id), id)->0.status == "starting"@,
        lookup(started(s, id), id)->0.current_step == 0,
        lookup(started(s, id), id)->0.total_steps == 9,
        lookup(started(s, id), id)->0.completed == false,
        lookup(started(s, id), other) is None,
{
    let t = started(s, id);
    match lookup(s, id) {
        Some(_) => {
            let i = choose|i: int| 0 <= i < s.len() && s[i].session_id == id;
            assert(t[i] == fresh_progress(id));
            assert(ids_unique(t)) by {
                assert forall|a: int, b: int|
                    0 <= a < t.len() && 0 <= b < t.len() && a != b implies t[a].session_id
                    != t[b].session_id by {
                    assert(t[a].session_id == s[a].session_id);
                    assert(t[b].session_id == s[b].session_id);
                }
            }
            let j = choose|j: int| 0 <= j < t.len() && t[j].session_id == id;
            assert(t[j].session_id == s[j].session_id);
            assert(j == i);
            if exists|k: int| 0 <= k < t.len() && t[k].session_id == other {
                let k = choose|k: int| 0 <= k < t.len() && t[k].session_id == other;
                assert(t[k].session_id == s[k].session_id);
            }
        },
        None => {
            let n = s.len() as int;
            assert(t[n] == fresh_progress(id));
            assert forall|k: int| 0 <= k < n implies s[k].session_id != id by {
                if s[k].session_id == id {
                    assert(exists|i: int| 0 <= i < s.len() && s[i].session_id == id);
                }
            }
            let j = choose|j: int| 0 <= j < t.len() && t[j].session_id == id;
            if j < n {
                assert(t[j] == s[j]);
            }
            assert(j == n);
            if exists|k: int| 0 <= k < t.len() && t[k].session_id == other {
                let k = choose|k: int| 0 <= k < t.len() && t[k].session_id == other;
                if k < n {
                    assert(t[k] == s[k]);
                }
            }
        },
    }
}

/// After a tracked session completes with a report identifier, looking it up
/// shows it completed with that identifier.
pub proof fn lemma_complete_then_get(s: Seq<ProgressView>, id: Seq<char>, report_id: Option<i32>)
    requires
        ids_unique(s),
        lookup(s, id) is Some,
    ensures
        lookup(completed_in(s, id, report_id), id) is Some,
        lookup(completed_in(s, id, report_id), id)->0.completed,
        lookup(completed_in(s, id, report_id), id)->0.report_id == report_id,
{
    let t = completed_in(s, id, report_id);
    let i = choose|i: int| 0 <= i < s.len() && s[i].session_id == id;
    assert(t[i].session_id == id);
    assert(exists|j: int| 0 <= j < t.len() && t[j].session_id == id);
    let j = choose|j: int| 0 <= j < t.len() && t[j].session_id == id;
    assert(t[j].session_id == s[j].session_id);
    assert(s[j].session_id == id);
    assert(t[j] == completed_with(s[j], report_id));
}

/// Cleanup never takes out a session still running: what is left holds all
/// of them, so it is never smaller than their number.
pub proof fn lemma_cleanup_keeps_open(s: Seq<ProgressView>, n: nat)
    ensures
        open_count(drop_completed(s, n)) == open_count(s),
        drop_completed(s, n).len() >= open_count(s),
    decreases s.len(),
{
    if s.len() > 0 {
        let t = s.drop_first();
        if n > 0 && s[0].completed {
            lemma_cleanup_keeps_open(t, (n - 1) as nat);
        } else {
            lemma_cleanup_keeps_open(t, n);
            let r = seq![s[0]] + drop_completed(t, n);
            assert(r.drop_first() =~= drop_completed(t, n));
        }
    }
    lemma_open_count_le_len(drop_completed(s, n));
}

proof fn lemma_open_count_le_len(s: Seq<ProgressView>)
    ensures
        open_count(s) <= s.len(),
    decreases s.len(),
{
    if s.len() > 0 {
        lemma_open_count_le_len(s.drop_first());
    }
}

} // verus!
