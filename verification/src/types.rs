use vstd::prelude::*;

use crate::capability::{Effect, EffectView};

verus! {

/// Stable identifier for a durable task. Its view is its text.
#[derive(Debug, PartialEq, Eq, Hash)]
pub struct TaskId(pub String);

impl View for TaskId {
    type V = Seq<char>;

    open spec fn view(&self) -> Seq<char> {
        self.0@
    }
}

impl Clone for TaskId {
    fn clone(&self) -> (r: Self)
        ensures
            r == *self,
    {
        TaskId(self.0.clone())
    }
}

impl TaskId {
    pub fn new(id: &str) -> (t: Self)
        ensures
            t@ == id@,
    {
        TaskId(id.to_owned())
    }

    /// Whether two ids name the same task (their texts are equal).
    pub fn same_as(&self, other: &TaskId) -> (b: bool)
        ensures
            b == (self@ == other@),
    {
        self.0 == other.0
    }
}

/// Lifecycle status of a task.
#[derive(Debug, Clone, Copy, PartialEq, Eq, Structural)]
pub enum TaskStatus {
    Running,
    AwaitingApproval,
    Completed,
    Failed,
    Denied,
}

/// Human decision recorded when resuming an approval pause.
#[derive(Debug, PartialEq, Eq)]
pub struct ApprovalDecision {
    pub approved: bool,
    pub note: String,
}

/// The mathematical value of an [`ApprovalDecision`].
#[verifier::ext_equal]
pub struct ApprovalDecisionView {
    pub approved: bool,
    pub note: Seq<char>,
}

impl View for ApprovalDecision {
    type V = ApprovalDecisionView;

    open spec fn view(&self) -> ApprovalDecisionView {
        ApprovalDecisionView { approved: self.approved, note: self.note@ }
    }
}

impl Clone for ApprovalDecision {
    fn clone(&self) -> (r: Self)
        ensures
            r == *self,
    {
        ApprovalDecision { approved: self.approved, note: self.note.clone() }
    }
}

/// Append-only journal events. Order is authoritative for replay.
#[derive(Debug, PartialEq)]
pub enum JournalEvent {
    TaskStarted { task_id: TaskId, name: String },
    StepCompleted { task_id: TaskId, step: String, detail: String },
    EffectAttempted { task_id: TaskId, effect: Effect, allowed: bool, reason: String },
    ApprovalRequested { task_id: TaskId, reason: String },
    ApprovalResolved { task_id: TaskId, approved: bool, note: String },
    TaskFinished { task_id: TaskId, status: TaskStatus, summary: String },
}

impl JournalEvent {
    /// The text of the id of the task that this event belongs to.
    pub open spec fn task_of(&self) -> Seq<char> {
        match self {
            JournalEvent::TaskStarted { task_id, .. } => task_id@,
            JournalEvent::StepCompleted { task_id, .. } => task_id@,
            JournalEvent::EffectAttempted { task_id, .. } => task_id@,
            JournalEvent::ApprovalRequested { task_id, .. } => task_id@,
            JournalEvent::ApprovalResolved { task_id, .. } => task_id@,
            JournalEvent::TaskFinished { task_id, .. } => task_id@,
        }
    }
}

impl Clone for JournalEvent {
    fn clone(&self) -> (r: Self)
        ensures
            r == *self,
    {
        match self {
            JournalEvent::TaskStarted { task_id, name } => JournalEvent::TaskStarted {
                task_id: task_id.clone(),
                name: name.clone(),
            },
            JournalEvent::StepCompleted { task_id, step, detail } => JournalEvent::StepCompleted {
                task_id: task_id.clone(),
                step: step.clone(),
                detail: detail.clone(),
            },
            JournalEvent::EffectAttempted { task_id, effect, allowed, reason } =>
                JournalEvent::EffectAttempted {
                task_id: task_id.clone(),
                effect: effect.clone(),
                allowed: *allowed,
                reason: reason.clone(),
            },
            JournalEvent::ApprovalRequested { task_id, reason } =>
                JournalEvent::ApprovalRequested { task_id: task_id.clone(), reason: reason.clone() },
            JournalEvent::ApprovalResolved { task_id, approved, note } =>
                JournalEvent::ApprovalResolved {
                task_id: task_id.clone(),
                approved: *approved,
                note: note.clone(),
            },
            JournalEvent::TaskFinished { task_id, status, summary } => JournalEvent::TaskFinished {
                task_id: task_id.clone(),
                status: *status,
                summary: summary.clone(),
            },
        }
    }
}

/// Materialized view of a task after journal replay.
#[derive(Debug, Clone, PartialEq)]
pub struct TaskSnapshot {
    pub task_id: TaskId,
    pub name: String,
    pub status: TaskStatus,
    pub steps: Vec<String>,
    pub effects_allowed: Vec<Effect>,
    pub effects_denied: Vec<Effect>,
    pub pending_approval: Option<String>,
    pub last_approval: Option<ApprovalDecision>,
    pub summary: Option<String>,
}

/// The mathematical value of a [`TaskSnapshot`]: texts as character
/// sequences, lists as sequences.
#[verifier::ext_equal]
pub struct TaskSnapshotView {
    pub task_id: Seq<char>,
    pub name: Seq<char>,
    pub status: TaskStatus,
    pub steps: Seq<Seq<char>>,
    pub effects_allowed: Seq<EffectView>,
    pub effects_denied: Seq<EffectView>,
    pub pending_approval: Option<Seq<char>>,
    pub last_approval: Option<ApprovalDecisionView>,
    pub summary: Option<Seq<char>>,
}

pub open spec fn text_of(o: Option<String>) -> Option<Seq<char>> {
    match o {
        Some(s) => Some(s@),
        None => None,
    }
}

pub open spec fn texts_of(v: Seq<String>) -> Seq<Seq<char>> {
    v.map_values(|s: String| s@)
}

pub open spec fn effects_of(v: Seq<Effect>) -> Seq<EffectView> {
    v.map_values(|e: Effect| e@)
}

impl View for TaskSnapshot {
    type V = TaskSnapshotView;

    open spec fn view(&self) -> TaskSnapshotView {
        TaskSnapshotView {
            task_id: self.task_id@,
            name: self.name@,
            status: self.status,
            steps: texts_of(self.steps@),
            effects_allowed: effects_of(self.effects_allowed@),
            effects_denied: effects_of(self.effects_denied@),
            pending_approval: text_of(self.pending_approval),
            last_approval: match self.last_approval {
                Some(d) => Some(d@),
                None => None,
            },
            summary: text_of(self.summary),
        }
    }
}

/// The snapshot of a task that has just started: running, nothing recorded.
pub open spec fn fresh_snapshot(task_id: Seq<char>, name: Seq<char>) -> TaskSnapshotView {
    TaskSnapshotView {
        task_id,
        name,
        status: TaskStatus::Running,
        steps: Seq::empty(),
        effects_allowed: Seq::empty(),
        effects_denied: Seq::empty(),
        pending_approval: None,
        last_approval: None,
        summary: None,
    }
}

/// What one journal event does to a snapshot. An event of another task
/// leaves it unchanged.
pub open spec fn apply_event(s: TaskSnapshotView, e: JournalEvent) -> TaskSnapshotView {
    if e.task_of() != s.task_id {
        s
    } else {
        match e {
            JournalEvent::TaskStarted { name, .. } => TaskSnapshotView {
                name: name@,
                status: TaskStatus::Running,
                ..s
            },
            JournalEvent::StepCompleted { step, .. } => TaskSnapshotView {
                steps: s.steps.push(step@),
                ..s
            },
            JournalEvent::EffectAttempted { effect, allowed, .. } => if allowed {
                TaskSnapshotView { effects_allowed: s.effects_allowed.push(effect@), ..s }
            } else {
                TaskSnapshotView { effects_denied: s.effects_denied.push(effect@), ..s }
            },
            JournalEvent::ApprovalRequested { reason, .. } => TaskSnapshotView {
                status: TaskStatus::AwaitingApproval,
                pending_approval: Some(reason@),
                ..s
            },
            JournalEvent::ApprovalResolved { approved, note, .. } => TaskSnapshotView {
                pending_approval: None,
                last_approval: Some(ApprovalDecisionView { approved, note: note@ }),
                status: if approved {
                    TaskStatus::Running
                } else {
                    TaskStatus::Denied
                },
                ..s
            },
            JournalEvent::TaskFinished { status, summary, .. } => TaskSnapshotView {
                status,
                summary: Some(summary@),
                pending_approval: None,
                ..s
            },
        }
    }
}

/// Fold a sequence of events, in order, into a snapshot.
pub open spec fn apply_all(s: TaskSnapshotView, events: Seq<JournalEvent>) -> TaskSnapshotView
    decreases events.len(),
{
    if events.len() == 0 {
        s
    } else {
        apply_event(apply_all(s, events.drop_last()), events.last())
    }
}

impl TaskSnapshot {
    pub fn new(task_id: TaskId, name: String) -> (s: Self)
        ensures
            s@ == fresh_snapshot(task_id@, name@),
            s.task_id == task_id,
            s.name == name,
            s.status == TaskStatus::Running,
            s.steps@.len() == 0,
            s.effects_allowed@.len() == 0,
            s.effects_denied@.len() == 0,
            s.pending_approval is None,
            s.last_approval is None,
            s.summary is None,
    {
        let s = TaskSnapshot {
            task_id,
            name,
            status: TaskStatus::Running,
            steps: Vec::new(),
            effects_allowed: Vec::new(),
            effects_denied: Vec::new(),
            pending_approval: None,
            last_approval: None,
            summary: None,
        };
        proof {
            assert(texts_of(s.steps@) =~= Seq::empty());
            assert(effects_of(s.effects_allowed@) =~= Seq::empty());
            assert(effects_of(s.effects_denied@) =~= Seq::empty());
        }
        s
    }

    /// Fold a single journal event into this snapshot.
    pub fn apply(&mut self, event: &JournalEvent)
        ensures
            final(self)@ == apply_event(old(self)@, *event),
    {
        match event {
            JournalEvent::TaskStarted { task_id, name } => {
                if task_id.same_as(&self.task_id) {
                    self.name = name.clone();
                    self.status = TaskStatus::Running;
                }
            },
            JournalEvent::StepCompleted { task_id, step, .. } => {
                if task_id.same_as(&self.task_id) {
                    let ghost before = self.steps@;
                    self.steps.push(step.clone());
                    proof {
                        assert(texts_of(self.steps@) =~= texts_of(before).push(step@));
                    }
                }
            },
            JournalEvent::EffectAttempted { task_id, effect, allowed, .. } => {
                if task_id.same_as(&self.task_id) {
                    if *allowed {
                        let ghost before = self.effects_allowed@;
                        self.effects_allowed.push(effect.clone());
                        proof {
                            assert(effects_of(self.effects_allowed@) =~= effects_of(before).push(
                                effect@,
                            ));
                        }
                    } else {
                        let ghost before = self.effects_denied@;
                        self.effects_denied.push(effect.clone());
                        proof {
                            assert(effects_of(self.effects_denied@) =~= effects_of(before).push(
                                effect@,
                            ));
                        }
                    }
                }
            },
            JournalEvent::ApprovalRequested { task_id, reason } => {
                if task_id.same_as(&self.task_id) {
                    self.status = TaskStatus::AwaitingApproval;
                    self.pending_approval = Some(reason.clone());
                }
            },
            JournalEvent::ApprovalResolved { task_id, approved, note } => {
                if task_id.same_as(&self.task_id) {
                    self.pending_approval = None;
                    self.last_approval = Some(
                        ApprovalDecision { approved: *approved, note: note.clone() },
                    );
                    self.status = if *approved {
                        TaskStatus::Running
                    } else {
                        TaskStatus::Denied
                    };
                }
            },
            JournalEvent::TaskFinished { task_id, status, summary } => {
                if task_id.same_as(&self.task_id) {
                    self.status = *status;
                    self.summary = Some(summary.clone());
                    self.pending_approval = None;
                }
            },
        }
    }
}

} // verus!
