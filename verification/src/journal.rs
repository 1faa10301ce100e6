use vstd::prelude::*;

use crate::capability::EffectView;
use crate::types::{
    ApprovalDecisionView, TaskStatus, apply_all, apply_event, fresh_snapshot, JournalEvent, TaskId, TaskSnapshot, TaskSnapshotView,
};

verus! {

/// Errors from reading the journal.
#[derive(Debug, PartialEq, Eq)]
pub enum JournalError {
    /// No event of the task with this id is in the journal.
    TaskNotFound(String),
}

/// Append-only task journal: the ordered events of a JSONL journal file,
/// one event per line, held in memory.
///
/// Events are only ever appended, never rewritten in place. The file at
/// `path` is read into a journal with [`Journal::load`]; what is appended
/// here is written to the end of that file around this library.
#[derive(Debug)]
pub struct Journal {
    path: String,
    events: Vec<JournalEvent>,
}

impl View for Journal {
    type V = Seq<JournalEvent>;

    /// The events of the journal, in append order.
    closed spec fn view(&self) -> Seq<JournalEvent> {
        self.events@
    }
}

/// The events of one task, in journal order.
pub open spec fn task_events(events: Seq<JournalEvent>, task_id: Seq<char>) -> Seq<JournalEvent>
    decreases events.len(),
{
    if events.len() == 0 {
        Seq::empty()
    } else {
        let earlier = task_events(events.drop_last(), task_id);
        if events.last().task_of() == task_id {
            earlier.push(events.last())
        } else {
            earlier
        }
    }
}

/// The name a replay starts from: the name of the task's first event when
/// that event starts the task, else `"unknown"`.
pub open spec fn start_name(events: Seq<JournalEvent>) -> Seq<char> {
    match events[0] {
        JournalEvent::TaskStarted { name, .. } => name@,
        _ => "unknown"@,
    }
}

/// Deterministic replay: the snapshot that the task's events fold into,
/// or `None` when the journal holds no event of the task.
pub open spec fn replay_events(events: Seq<JournalEvent>, task_id: Seq<char>) -> Option<
    TaskSnapshotView,
> {
    let mine = task_events(events, task_id);
    if mine.len() == 0 {
        None
    } else {
        Some(apply_all(fresh_snapshot(task_id, start_name(mine)), mine))
    }
}

impl Journal {
    /// The text of the path of the journal file.
    pub closed spec fn path_text(&self) -> Seq<char> {
        self.path@
    }

    /// The journal of the file at `path`, holding `events` in append order.
    pub fn load(path: String, events: Vec<JournalEvent>) -> (j: Self)
        ensures
            j@ == events@,
            j.path_text() == path@,
    {
        Journal { path, events }
    }

    pub fn path(&self) -> (p: &str)
        ensures
            p@ == self.path_text(),
    {
        self.path.as_str()
    }

    /// Append a single event at the end.
    pub fn append(&mut self, event: &JournalEvent)
        ensures
            final(self)@ == old(self)@.push(*event),
            final(self).path_text() == old(self).path_text(),
    {
        self.events.push(event.clone());
    }

    /// Every event in append order.
    pub fn read_all(&self) -> (events: &[JournalEvent])
        ensures
            events@ == self@,
    {
        self.events.as_slice()
    }

    /// The events belonging to one task (by id match inside the event), in
    /// journal order.
    pub fn events_for(&self, task_id: &TaskId) -> (events: Vec<JournalEvent>)
        ensures
            events@ == task_events(self@, task_id@),
    {
        let mut mine: Vec<JournalEvent> = Vec::new();
        let mut i: usize = 0;
        while i < self.events.len()
            invariant
                i <= self.events@.len(),
                mine@ == task_events(self.events@.take(i as int), task_id@),
            decreases self.events@.len() - i,
        {
            proof {
                assert(self.events@.take(i + 1).drop_last() =~= self.events@.take(i as int));
            }
            let event = &self.events[i];
            match event_task_id(event) {
                Some(id) => {
                    if id.same_as(task_id) {
                        mine.push(event.clone());
                    }
                },
                None => {},
            }
            i = i + 1;
        }
        proof {
            assert(self.events@.take(i as int) =~= self.events@);
        }
        mine
    }

    /// Deterministically rebuild task state from the journal.
    pub fn replay(&self, task_id: &TaskId) -> (r: Result<TaskSnapshot, JournalError>)
        ensures
            match r {
                Ok(s) => replay_events(self@, task_id@) == Some(s@),
                Err(JournalError::TaskNotFound(id)) => replay_events(self@, task_id@) is None
                    && id@ == task_id@,
            },
    {
        let events = self.events_for(task_id);
        if events.len() == 0 {
            return Err(JournalError::TaskNotFound(task_id.0.clone()));
        }
        let name = match &events[0] {
            JournalEvent::TaskStarted { name, .. } => name.clone(),
            _ => "unknown".to_owned(),
        };
        let ghost start = fresh_snapshot(task_id@, start_name(events@));
        let mut snap = TaskSnapshot::new(task_id.clone(), name);
        let mut i: usize = 0;
        while i < events.len()
            invariant
                i <= events@.len(),
                snap@ == apply_all(start, events@.take(i as int)),
            decreases events@.len() - i,
        {
            proof {
                assert(events@.take(i + 1).drop_last() =~= events@.take(i as int));
            }
            snap.apply(&events[i]);
            i = i + 1;
        }
        proof {
            assert(events@.take(i as int) =~= events@);
        }
        Ok(snap)
    }
}

/// Folding an event into a snapshot never changes whose snapshot it is.
pub proof fn lemma_apply_all_keeps_task(s: TaskSnapshotView, events: Seq<JournalEvent>)
    ensures
        apply_all(s, events).task_id == s.task_id,
    decreases events.len(),
{
    if events.len() > 0 {
        lemma_apply_all_keeps_task(s, events.drop_last());
    }
}

/// A replayed snapshot is the snapshot of the task that was asked for.
pub proof fn lemma_replay_is_of_task(events: Seq<JournalEvent>, task_id: Seq<char>)
    ensures
        replay_events(events, task_id) matches Some(s) ==> s.task_id == task_id,
{
    let mine = task_events(events, task_id);
    lemma_apply_all_keeps_task(fresh_snapshot(task_id, start_name(mine)), mine);
}

/// Replay folds the whole journal: folding only a task's own events gives
/// the same snapshot as folding every event, since events of other tasks
/// change nothing.
pub proof fn lemma_other_tasks_ignored(s: TaskSnapshotView, events: Seq<JournalEvent>)
    ensures
        apply_all(s, task_events(events, s.task_id)) == apply_all(s, events),
    decreases events.len(),
{
    if events.len() > 0 {
        let rest = events.drop_last();
        let e = events.last();
        lemma_other_tasks_ignored(s, rest);
        let earlier = task_events(rest, s.task_id);
        if e.task_of() == s.task_id {
            assert(earlier.push(e).drop_last() =~= earlier);
        } else {
            lemma_apply_all_keeps_task(s, rest);
        }
    }
}

/// What appending one event does to the replay of a task: an event of
/// another task changes nothing; an event of the task is folded into the
/// snapshot replayed before it, or starts the replay when it is the task's
/// first event.
pub proof fn lemma_replay_after_append(events: Seq<JournalEvent>, e: JournalEvent, task_id: Seq<char>)
    ensures
        e.task_of() != task_id ==> replay_events(events.push(e), task_id) == replay_events(
            events,
            task_id,
        ),
        e.task_of() == task_id ==> replay_events(events.push(e), task_id) == Some(
            apply_event(
                match replay_events(events, task_id) {
                    Some(s) => s,
                    None => fresh_snapshot(task_id, start_name(seq![e])),
                },
                e,
            ),
        ),
{
    let mine = task_events(events, task_id);
    assert(events.push(e).drop_last() =~= events);
    if e.task_of() == task_id {
        let after = mine.push(e);
        assert(task_events(events.push(e), task_id) == after);
        assert(after.drop_last() =~= mine);
        let start = fresh_snapshot(task_id, start_name(after));
        assert(apply_all(start, after) == apply_event(apply_all(start, mine), e));
        if mine.len() == 0 {
            assert(after =~= seq![e]);
        } else {
            assert(after[0] == mine[0]);
            assert(start_name(after) == start_name(mine));
        }
    }
}

/// Replay depends on the journal's events alone: two journals with the same
/// events rebuild the same snapshot of every task.
pub proof fn lemma_replay_deterministic(a: Journal, b: Journal, task_id: Seq<char>)
    requires
        a@ == b@,
    ensures
        replay_events(a@, task_id) == replay_events(b@, task_id),
{
}

/// The step names of a task's `StepCompleted` events, in journal order.
pub open spec fn steps_of(events: Seq<JournalEvent>, task_id: Seq<char>) -> Seq<Seq<char>>
    decreases events.len(),
{
    if events.len() == 0 {
        Seq::empty()
    } else {
        let earlier = steps_of(events.drop_last(), task_id);
        match events.last() {
            JournalEvent::StepCompleted { task_id: t, step, .. } => if t@ == task_id {
                earlier.push(step@)
            } else {
                earlier
            },
            _ => earlier,
        }
    }
}

/// The effects of a task's `EffectAttempted` events whose `allowed` flag is
/// `allowed`, in journal order.
pub open spec fn effects_attempted(events: Seq<JournalEvent>, task_id: Seq<char>, allowed: bool) -> Seq<
    EffectView,
>
    decreases events.len(),
{
    if events.len() == 0 {
        Seq::empty()
    } else {
        let earlier = effects_attempted(events.drop_last(), task_id, allowed);
        match events.last() {
            JournalEvent::EffectAttempted { task_id: t, effect, allowed: a, .. } => if t@ == task_id
                && a == allowed {
                earlier.push(effect@)
            } else {
                earlier
            },
            _ => earlier,
        }
    }
}

/// The summary of a task's last `TaskFinished` event, or `None` when the
/// task has no such event.
pub open spec fn last_summary(events: Seq<JournalEvent>, task_id: Seq<char>) -> Option<Seq<char>>
    decreases events.len(),
{
    if events.len() == 0 {
        None
    } else {
        match events.last() {
            JournalEvent::TaskFinished { task_id: t, summary, .. } => if t@ == task_id {
                Some(summary@)
            } else {
                last_summary(events.drop_last(), task_id)
            },
            _ => last_summary(events.drop_last(), task_id),
        }
    }
}

/// The status set by a task's last event that sets one: starting or an
/// approval sets `Running`, an approval request `AwaitingApproval`, a
/// rejection `Denied`, finishing the finished status; `None` when no event
/// of the task sets a status.
pub open spec fn last_status(events: Seq<JournalEvent>, task_id: Seq<char>) -> Option<TaskStatus>
    decreases events.len(),
{
    if events.len() == 0 {
        None
    } else {
        let earlier = last_status(events.drop_last(), task_id);
        if events.last().task_of() != task_id {
            earlier
        } else {
            match events.last() {
                JournalEvent::TaskStarted { .. } => Some(TaskStatus::Running),
                JournalEvent::ApprovalRequested { .. } => Some(TaskStatus::AwaitingApproval),
                JournalEvent::ApprovalResolved { approved, .. } => Some(
                    if approved {
                        TaskStatus::Running
                    } else {
                        TaskStatus::Denied
                    },
                ),
                JournalEvent::TaskFinished { status, .. } => Some(status),
                _ => earlier,
            }
        }
    }
}

/// The name of a task's last `TaskStarted` event, `None` when it has none.
pub open spec fn last_name(events: Seq<JournalEvent>, task_id: Seq<char>) -> Option<Seq<char>>
    decreases events.len(),
{
    if events.len() == 0 {
        None
    } else {
        match events.last() {
            JournalEvent::TaskStarted { task_id: t, name } => if t@ == task_id {
                Some(name@)
            } else {
                last_name(events.drop_last(), task_id)
            },
            _ => last_name(events.drop_last(), task_id),
        }
    }
}

/// The decision of a task's last `ApprovalResolved` event, `None` when it
/// has none.
pub open spec fn last_decision(events: Seq<JournalEvent>, task_id: Seq<char>) -> Option<
    ApprovalDecisionView,
>
    decreases events.len(),
{
    if events.len() == 0 {
        None
    } else {
        match events.last() {
            JournalEvent::ApprovalResolved { task_id: t, approved, note } => if t@ == task_id {
                Some(ApprovalDecisionView { approved, note: note@ })
            } else {
                last_decision(events.drop_last(), task_id)
            },
            _ => last_decision(events.drop_last(), task_id),
        }
    }
}

/// What a task's last approval-related event says of a pending approval:
/// `Some(Some(reason))` after a request, `Some(None)` after a resolution or
/// a finish, `None` when the task has no such event.
pub open spec fn last_pending(events: Seq<JournalEvent>, task_id: Seq<char>) -> Option<
    Option<Seq<char>>,
>
    decreases events.len(),
{
    if events.len() == 0 {
        None
    } else {
        let earlier = last_pending(events.drop_last(), task_id);
        if events.last().task_of() != task_id {
            earlier
        } else {
            match events.last() {
                JournalEvent::ApprovalRequested { reason, .. } => Some(Some(reason@)),
                JournalEvent::ApprovalResolved { .. } => Some(None),
                JournalEvent::TaskFinished { .. } => Some(None),
                _ => earlier,
            }
        }
    }
}

proof fn lemma_apply_all_state(s: TaskSnapshotView, events: Seq<JournalEvent>)
    ensures
        apply_all(s, events).status == (match last_status(events, s.task_id) {
            Some(x) => x,
            None => s.status,
        }),
        apply_all(s, events).name == (match last_name(events, s.task_id) {
            Some(x) => x,
            None => s.name,
        }),
        apply_all(s, events).last_approval == (match last_decision(events, s.task_id) {
            Some(x) => Some(x),
            None => s.last_approval,
        }),
        apply_all(s, events).pending_approval == (match last_pending(events, s.task_id) {
            Some(x) => x,
            None => s.pending_approval,
        }),
    decreases events.len(),
{
    if events.len() > 0 {
        lemma_apply_all_state(s, events.drop_last());
        lemma_apply_all_keeps_task(s, events.drop_last());
    }
}

proof fn lemma_apply_all_history(s: TaskSnapshotView, events: Seq<JournalEvent>)
    ensures
        apply_all(s, events).steps == s.steps + steps_of(events, s.task_id),
        apply_all(s, events).effects_allowed == s.effects_allowed + effects_attempted(
            events,
            s.task_id,
            true,
        ),
        apply_all(s, events).effects_denied == s.effects_denied + effects_attempted(
            events,
            s.task_id,
            false,
        ),
        apply_all(s, events).summary == (match last_summary(events, s.task_id) {
            Some(x) => Some(x),
            None => s.summary,
        }),
    decreases events.len(),
{
    if events.len() == 0 {
        assert(s.steps + Seq::<Seq<char>>::empty() =~= s.steps);
        assert(s.effects_allowed + Seq::<EffectView>::empty() =~= s.effects_allowed);
        assert(s.effects_denied + Seq::<EffectView>::empty() =~= s.effects_denied);
    } else {
        let rest = events.drop_last();
        lemma_apply_all_history(s, rest);
        lemma_apply_all_keeps_task(s, rest);
        let tid = s.task_id;
        let a = steps_of(rest, tid);
        let b = effects_attempted(rest, tid, true);
        let c = effects_attempted(rest, tid, false);
        match events.last() {
            JournalEvent::StepCompleted { step, .. } => {
                assert((s.steps + a).push(step@) =~= s.steps + a.push(step@));
            },
            JournalEvent::EffectAttempted { effect, .. } => {
                assert((s.effects_allowed + b).push(effect@) =~= s.effects_allowed + b.push(
                    effect@,
                ));
                assert((s.effects_denied + c).push(effect@) =~= s.effects_denied + c.push(
                    effect@,
                ));
            },
            _ => {},
        }
    }
}

/// The name a replay starts from is the name of the task's last start
/// whenever the task has started at all, and `"unknown"` otherwise.
proof fn lemma_start_name(events: Seq<JournalEvent>, task_id: Seq<char>)
    requires
        task_events(events, task_id).len() > 0,
    ensures
        last_name(events, task_id) is None ==> start_name(task_events(events, task_id))
            == "unknown"@,
    decreases events.len(),
{
    let rest = events.drop_last();
    let mine = task_events(events, task_id);
    if last_name(events, task_id) is None {
        if task_events(rest, task_id).len() == 0 {
            assert(mine =~= seq![events.last()]);
            assert(events.last() !is TaskStarted);
        } else {
            lemma_start_name(rest, task_id);
            if events.last().task_of() == task_id {
                assert(mine[0] == task_events(rest, task_id)[0]);
            }
        }
    }
}

/// Replay keeps the whole recorded history of a task: its steps are the
/// step names of the task's `StepCompleted` events, its allowed and denied
/// effects are the effects of the task's `EffectAttempted` events with that
/// flag, all in journal order, and its summary is the summary of the task's
/// last `TaskFinished` event, `None` while the task has none. Its status is
/// the one set by the task's last status-setting event (`Running` when none
/// sets one), its name that of its last start (`"unknown"` when it never
/// started), its last approval the decision of its last resolution, and its
/// pending approval the reason of its last request unless a resolution or a
/// finish came after it. The snapshot is the snapshot of the task asked for.
pub proof fn lemma_replay_history(events: Seq<JournalEvent>, task_id: Seq<char>)
    ensures
        replay_events(events, task_id) is Some ==> {
            let s = replay_events(events, task_id).unwrap();
            &&& s.task_id == task_id
            &&& s.status == (match last_status(events, task_id) {
                Some(x) => x,
                None => TaskStatus::Running,
            })
            &&& s.name == (match last_name(events, task_id) {
                Some(x) => x,
                None => "unknown"@,
            })
            &&& s.last_approval == last_decision(events, task_id)
            &&& s.pending_approval == (match last_pending(events, task_id) {
                Some(x) => x,
                None => None,
            })
            &&& s.steps == steps_of(events, task_id)
            &&& s.effects_allowed == effects_attempted(events, task_id, true)
            &&& s.effects_denied == effects_attempted(events, task_id, false)
            &&& s.summary == last_summary(events, task_id)
        },
{
    let mine = task_events(events, task_id);
    if mine.len() > 0 {
        let start = fresh_snapshot(task_id, start_name(mine));
        lemma_other_tasks_ignored(start, events);
        lemma_apply_all_history(start, events);
        lemma_apply_all_state(start, events);
        lemma_apply_all_keeps_task(start, events);
        lemma_start_name(events, task_id);
        assert(Seq::<Seq<char>>::empty() + steps_of(events, task_id) =~= steps_of(events, task_id));
        assert(Seq::<EffectView>::empty() + effects_attempted(events, task_id, true)
            =~= effects_attempted(events, task_id, true));
        assert(Seq::<EffectView>::empty() + effects_attempted(events, task_id, false)
            =~= effects_attempted(events, task_id, false));
    }
}

/// Appending an event never loses recorded history: the steps and effects
/// replayed before are a prefix of those replayed after.
pub proof fn lemma_append_keeps_history(events: Seq<JournalEvent>, e: JournalEvent, task_id: Seq<char>)
    requires
        replay_events(events, task_id) is Some,
    ensures
        replay_events(events.push(e), task_id) is Some,
        replay_events(events, task_id).unwrap().steps.is_prefix_of(
            replay_events(events.push(e), task_id).unwrap().steps,
        ),
        replay_events(events, task_id).unwrap().effects_allowed.is_prefix_of(
            replay_events(events.push(e), task_id).unwrap().effects_allowed,
        ),
        replay_events(events, task_id).unwrap().effects_denied.is_prefix_of(
            replay_events(events.push(e), task_id).unwrap().effects_denied,
        ),
{
    lemma_replay_after_append(events, e, task_id);
    lemma_replay_history(events, task_id);
    lemma_replay_history(events.push(e), task_id);
    assert(events.push(e).drop_last() =~= events);
    assert(events.push(e).last() == e);
    let a = steps_of(events, task_id);
    let b = effects_attempted(events, task_id, true);
    let c = effects_attempted(events, task_id, false);
    assert(a.is_prefix_of(a));
    assert(b.is_prefix_of(b));
    assert(c.is_prefix_of(c));
    match e {
        JournalEvent::StepCompleted { step, .. } => {
            assert(a.is_prefix_of(a.push(step@)));
        },
        JournalEvent::EffectAttempted { effect, .. } => {
            assert(b.is_prefix_of(b.push(effect@)));
            assert(c.is_prefix_of(c.push(effect@)));
        },
        _ => {},
    }
}

fn event_task_id(event: &JournalEvent) -> (id: Option<&TaskId>)
    ensures
        id matches Some(t) && t@ == event.task_of(),
{
    match event {
        JournalEvent::TaskStarted { task_id, .. } => Some(task_id),
        JournalEvent::StepCompleted { task_id, .. } => Some(task_id),
        JournalEvent::EffectAttempted { task_id, .. } => Some(task_id),
        JournalEvent::ApprovalRequested { task_id, .. } => Some(task_id),
        JournalEvent::ApprovalResolved { task_id, .. } => Some(task_id),
        JournalEvent::TaskFinished { task_id, .. } => Some(task_id),
    }
}

} // verus!
