use vstd::prelude::*;

use crate::capability::{capability_for, Capability, CapabilitySet, Effect, EffectView};
use crate::journal::{
    lemma_replay_after_append, lemma_replay_is_of_task, replay_events, Journal, JournalError,
};
use crate::types::{
    apply_event, fresh_snapshot, ApprovalDecision, ApprovalDecisionView, JournalEvent, TaskId,
    TaskSnapshot, TaskSnapshotView, TaskStatus,
};

verus! {

/// Runtime errors.
#[derive(Debug, PartialEq)]
pub enum RuntimeError {
    /// The journal could not serve the request (the task is unknown).
    Journal(JournalError),
    /// Resuming needs a task that is awaiting approval; it has this status.
    NotAwaitingApproval(TaskStatus),
    /// The task is awaiting approval; resume with a decision before continuing.
    AwaitingApproval,
    /// The task already finished with this status.
    AlreadyFinished(TaskStatus),
    /// This capability is required for the effect and is not granted.
    CapabilityDenied(Capability),
}

/// Whether `r` is the error for a task of which the journal holds no event.
pub open spec fn task_missing<T>(r: Result<T, RuntimeError>, task_id: Seq<char>) -> bool {
    r matches Err(RuntimeError::Journal(JournalError::TaskNotFound(id))) && id@ == task_id
}

/// Whether a task with this status may go on working: `None` when it is
/// running, else the error that refuses the work.
pub open spec fn status_gate(status: TaskStatus) -> Option<RuntimeError> {
    match status {
        TaskStatus::Running => None,
        TaskStatus::AwaitingApproval => Some(RuntimeError::AwaitingApproval),
        other => Some(RuntimeError::AlreadyFinished(other)),
    }
}

/// Only a running task may go on working: a task awaiting approval is
/// refused with `AwaitingApproval`, and a completed, failed or denied task
/// with `AlreadyFinished` and its status.
pub proof fn lemma_status_gate(status: TaskStatus)
    ensures
        status_gate(status) is None <==> status == TaskStatus::Running,
        status == TaskStatus::AwaitingApproval ==> status_gate(status) == Some(
            RuntimeError::AwaitingApproval,
        ),
        status == TaskStatus::Completed || status == TaskStatus::Failed || status
            == TaskStatus::Denied ==> status_gate(status) == Some(
            RuntimeError::AlreadyFinished(status),
        ),
{
}

/// The reason journaled with an allowed effect.
pub open spec fn granted_reason() -> Seq<char> {
    "capability granted"@
}

/// The reason journaled with a denied effect: the missing capability.
pub open spec fn denied_reason(missing: Capability) -> Seq<char> {
    match missing {
        Capability::Log => "missing capability: Log"@,
        Capability::WriteLocal => "missing capability: WriteLocal"@,
        Capability::HttpFetch => "missing capability: HttpFetch"@,
    }
}

/// The summary journaled when a human rejects a task.
pub open spec fn rejection_summary(note: Seq<char>) -> Seq<char> {
    "rejected by human: "@ + note
}

pub open spec fn is_task_started(e: JournalEvent, task_id: Seq<char>, name: Seq<char>) -> bool {
    e matches JournalEvent::TaskStarted { task_id: t, name: n } && t@ == task_id && n@ == name
}

pub open spec fn is_step_completed(
    e: JournalEvent,
    task_id: Seq<char>,
    step: Seq<char>,
    detail: Seq<char>,
) -> bool {
    e matches JournalEvent::StepCompleted { task_id: t, step: s, detail: d } && t@ == task_id
        && s@ == step && d@ == detail
}

pub open spec fn is_effect_attempted(
    e: JournalEvent,
    task_id: Seq<char>,
    effect: EffectView,
    allowed: bool,
    reason: Seq<char>,
) -> bool {
    e matches JournalEvent::EffectAttempted { task_id: t, effect: f, allowed: a, reason: r }
        && t@ == task_id && f@ == effect && a == allowed && r@ == reason
}

pub open spec fn is_approval_requested(e: JournalEvent, task_id: Seq<char>, reason: Seq<char>) -> bool {
    e matches JournalEvent::ApprovalRequested { task_id: t, reason: r } && t@ == task_id && r@
        == reason
}

pub open spec fn is_approval_resolved(
    e: JournalEvent,
    task_id: Seq<char>,
    approved: bool,
    note: Seq<char>,
) -> bool {
    e matches JournalEvent::ApprovalResolved { task_id: t, approved: a, note: n } && t@ == task_id
        && a == approved && n@ == note
}

pub open spec fn is_task_finished(
    e: JournalEvent,
    task_id: Seq<char>,
    status: TaskStatus,
    summary: Seq<char>,
) -> bool {
    e matches JournalEvent::TaskFinished { task_id: t, status: st, summary: su } && t@ == task_id
        && st == status && su@ == summary
}

/// Small durable task runtime backed by a journal.
///
/// The runtime records steps and effect attempts as appended events, gates
/// external-style effects through an explicit [`CapabilitySet`], can pause
/// for human approval and later resume with a decision, and rebuilds task
/// state by replaying the journal.
pub struct Runtime {
    journal: Journal,
    capabilities: CapabilitySet,
}

impl Runtime {
    /// The events of the runtime's journal, in append order.
    pub closed spec fn events(&self) -> Seq<JournalEvent> {
        self.journal@
    }

    /// The text of the path of the runtime's journal file.
    pub closed spec fn journal_path(&self) -> Seq<char> {
        self.journal.path_text()
    }

    /// The capabilities granted to the runtime.
    pub closed spec fn granted(&self) -> Seq<Capability> {
        self.capabilities@
    }

    /// Whether `after` is `before` with its setup (journal file and granted
    /// capabilities) unchanged.
    pub open spec fn keeps_setup(before: Runtime, after: Runtime) -> bool {
        &&& after.journal_path() == before.journal_path()
        &&& after.granted() == before.granted()
    }

    pub fn new(journal: Journal, capabilities: CapabilitySet) -> (rt: Self)
        ensures
            rt.events() == journal@,
            rt.journal_path() == journal.path_text(),
            rt.granted() == capabilities@,
    {
        Runtime { journal, capabilities }
    }

    pub fn journal(&self) -> (j: &Journal)
        ensures
            j@ == self.events(),
            j.path_text() == self.journal_path(),
    {
        &self.journal
    }

    pub fn capabilities(&self) -> (c: &CapabilitySet)
        ensures
            c@ == self.granted(),
    {
        &self.capabilities
    }

    /// Start a new durable task and return its snapshot.
    pub fn start_task(&mut self, task_id: TaskId, name: &str) -> (s: TaskSnapshot)
        ensures
            Self::keeps_setup(*old(self), *final(self)),
            final(self).events() == old(self).events().push(final(self).events().last()),
            is_task_started(final(self).events().last(), task_id@, name@),
            s@ == fresh_snapshot(task_id@, name@),
            s.task_id == task_id,
            s.name@ == name@,
            s.status == TaskStatus::Running,
            s.steps@.len() == 0,
            s.effects_allowed@.len() == 0,
            s.effects_denied@.len() == 0,
            s.pending_approval is None,
            s.last_approval is None,
            s.summary is None,
            replay_events(old(self).events(), task_id@) is None ==> replay_events(
                final(self).events(),
                task_id@,
            ) == Some(s@),
    {
        let name = name.to_owned();
        let event = JournalEvent::TaskStarted { task_id: task_id.clone(), name: name.clone() };
        proof {
            lemma_replay_after_append(self.journal@, event, task_id@);
        }
        self.journal.append(&event);
        TaskSnapshot::new(task_id, name)
    }

    /// Record a completed logical step.
    pub fn complete_step(&mut self, task_id: &TaskId, step: &str, detail: &str) -> (r: Result<
        TaskSnapshot,
        RuntimeError,
    >)
        ensures
            Self::keeps_setup(*old(self), *final(self)),
            r is Ok ==> replay_events(old(self).events(), task_id@) is Some && replay_events(
                old(self).events(),
                task_id@,
            ).unwrap().status == TaskStatus::Running,
            replay_events(old(self).events(), task_id@) is Some && replay_events(
                old(self).events(),
                task_id@,
            ).unwrap().status != TaskStatus::Running ==> r is Err && final(self).events() == old(
                self,
            ).events(),
            replay_events(old(self).events(), task_id@) is Some && replay_events(
                old(self).events(),
                task_id@,
            ).unwrap().status == TaskStatus::AwaitingApproval ==> r == Err::<
                TaskSnapshot,
                RuntimeError,
            >(RuntimeError::AwaitingApproval),
            replay_events(old(self).events(), task_id@) is Some && (replay_events(
                old(self).events(),
                task_id@,
            ).unwrap().status == TaskStatus::Completed || replay_events(
                old(self).events(),
                task_id@,
            ).unwrap().status == TaskStatus::Failed || replay_events(
                old(self).events(),
                task_id@,
            ).unwrap().status == TaskStatus::Denied) ==> r == Err::<TaskSnapshot, RuntimeError>(
                RuntimeError::AlreadyFinished(
                    replay_events(old(self).events(), task_id@).unwrap().status,
                ),
            ),
            match replay_events(old(self).events(), task_id@) {
                None => final(self).events() == old(self).events() && task_missing(r, task_id@),
                Some(s) => match status_gate(s.status) {
                    Some(err) => final(self).events() == old(self).events() && r == Err::<
                        TaskSnapshot,
                        RuntimeError,
                    >(err),
                    None => {
                        &&& final(self).events() == old(self).events().push(
                            final(self).events().last(),
                        )
                        &&& is_step_completed(final(self).events().last(), task_id@, step@, detail@)
                        &&& r matches Ok(snap) && snap@ == (TaskSnapshotView {
                            steps: s.steps.push(step@),
                            ..s
                        }) && Some(snap@) == replay_events(final(self).events(), task_id@)
                    },
                },
            },
    {
        if let Err(e) = self.ensure_active(task_id) {
            return Err(e);
        }
        let event = JournalEvent::StepCompleted {
            task_id: task_id.clone(),
            step: step.to_owned(),
            detail: detail.to_owned(),
        };
        self.append_and_replay(task_id, &event)
    }

    /// Attempt an effect under the capability boundary.
    ///
    /// On deny: journals a denied attempt and returns
    /// [`RuntimeError::CapabilityDenied`]. On allow: journals an allowed
    /// attempt (the effect is not executed for real).
    pub fn attempt_effect(&mut self, task_id: &TaskId, effect: Effect) -> (r: Result<
        TaskSnapshot,
        RuntimeError,
    >)
        ensures
            Self::keeps_setup(*old(self), *final(self)),
            r is Ok ==> replay_events(old(self).events(), task_id@) is Some && replay_events(
                old(self).events(),
                task_id@,
            ).unwrap().status == TaskStatus::Running,
            replay_events(old(self).events(), task_id@) is Some && replay_events(
                old(self).events(),
                task_id@,
            ).unwrap().status != TaskStatus::Running ==> r is Err && final(self).events() == old(
                self,
            ).events(),
            replay_events(old(self).events(), task_id@) is Some && replay_events(
                old(self).events(),
                task_id@,
            ).unwrap().status == TaskStatus::AwaitingApproval ==> r == Err::<
                TaskSnapshot,
                RuntimeError,
            >(RuntimeError::AwaitingApproval),
            replay_events(old(self).events(), task_id@) is Some && (replay_events(
                old(self).events(),
                task_id@,
            ).unwrap().status == TaskStatus::Completed || replay_events(
                old(self).events(),
                task_id@,
            ).unwrap().status == TaskStatus::Failed || replay_events(
                old(self).events(),
                task_id@,
            ).unwrap().status == TaskStatus::Denied) ==> r == Err::<TaskSnapshot, RuntimeError>(
                RuntimeError::AlreadyFinished(
                    replay_events(old(self).events(), task_id@).unwrap().status,
                ),
            ),
            match replay_events(old(self).events(), task_id@) {
                None => final(self).events() == old(self).events() && task_missing(r, task_id@),
                Some(s) => match status_gate(s.status) {
                    Some(err) => final(self).events() == old(self).events() && r == Err::<
                        TaskSnapshot,
                        RuntimeError,
                    >(err),
                    None => {
                        let need = capability_for(effect@);
                        &&& final(self).events() == old(self).events().push(
                            final(self).events().last(),
                        )
                        &&& if old(self).granted().contains(need) {
                            &&& is_effect_attempted(
                                final(self).events().last(),
                                task_id@,
                                effect@,
                                true,
                                granted_reason(),
                            )
                            &&& r matches Ok(snap) && snap@ == (TaskSnapshotView {
                                effects_allowed: s.effects_allowed.push(effect@),
                                ..s
                            }) && Some(snap@) == replay_events(final(self).events(), task_id@)
                        } else {
                            &&& is_effect_attempted(
                                final(self).events().last(),
                                task_id@,
                                effect@,
                                false,
                                denied_reason(need),
                            )
                            &&& r == Err::<TaskSnapshot, RuntimeError>(
                                RuntimeError::CapabilityDenied(need),
                            )
                            &&& replay_events(final(self).events(), task_id@) == Some(
                                TaskSnapshotView {
                                    effects_denied: s.effects_denied.push(effect@),
                                    ..s
                                },
                            )
                        }
                    },
                },
            },
    {
        if let Err(e) = self.ensure_active(task_id) {
            return Err(e);
        }
        match self.capabilities.authorize(&effect) {
            Ok(()) => {
                let event = JournalEvent::EffectAttempted {
                    task_id: task_id.clone(),
                    effect,
                    allowed: true,
                    reason: "capability granted".to_owned(),
                };
                self.append_and_replay(task_id, &event)
            },
            Err(missing) => {
                let event = JournalEvent::EffectAttempted {
                    task_id: task_id.clone(),
                    effect,
                    allowed: false,
                    reason: denial_reason_text(missing),
                };
                proof {
                    lemma_replay_after_append(self.journal@, event, task_id@);
                    lemma_replay_is_of_task(self.journal@, task_id@);
                }
                self.journal.append(&event);
                Err(RuntimeError::CapabilityDenied(missing))
            },
        }
    }

    /// Pause the task pending human approval. The pause is durable in the
    /// journal.
    pub fn request_approval(&mut self, task_id: &TaskId, reason: &str) -> (r: Result<
        TaskSnapshot,
        RuntimeError,
    >)
        ensures
            Self::keeps_setup(*old(self), *final(self)),
            r is Ok ==> replay_events(old(self).events(), task_id@) is Some && replay_events(
                old(self).events(),
                task_id@,
            ).unwrap().status == TaskStatus::Running,
            replay_events(old(self).events(), task_id@) is Some && replay_events(
                old(self).events(),
                task_id@,
            ).unwrap().status != TaskStatus::Running ==> r is Err && final(self).events() == old(
                self,
            ).events(),
            replay_events(old(self).events(), task_id@) is Some && replay_events(
                old(self).events(),
                task_id@,
            ).unwrap().status == TaskStatus::AwaitingApproval ==> r == Err::<
                TaskSnapshot,
                RuntimeError,
            >(RuntimeError::AwaitingApproval),
            replay_events(old(self).events(), task_id@) is Some && (replay_events(
                old(self).events(),
                task_id@,
            ).unwrap().status == TaskStatus::Completed || replay_events(
                old(self).events(),
                task_id@,
            ).unwrap().status == TaskStatus::Failed || replay_events(
                old(self).events(),
                task_id@,
            ).unwrap().status == TaskStatus::Denied) ==> r == Err::<TaskSnapshot, RuntimeError>(
                RuntimeError::AlreadyFinished(
                    replay_events(old(self).events(), task_id@).unwrap().status,
                ),
            ),
            match replay_events(old(self).events(), task_id@) {
                None => final(self).events() == old(self).events() && task_missing(r, task_id@),
                Some(s) => match status_gate(s.status) {
                    Some(err) => final(self).events() == old(self).events() && r == Err::<
                        TaskSnapshot,
                        RuntimeError,
                    >(err),
                    None => {
                        &&& final(self).events() == old(self).events().push(
                            final(self).events().last(),
                        )
                        &&& is_approval_requested(final(self).events().last(), task_id@, reason@)
                        &&& r matches Ok(snap) && snap@ == (TaskSnapshotView {
                            status: TaskStatus::AwaitingApproval,
                            pending_approval: Some(reason@),
                            ..s
                        }) && Some(snap@) == replay_events(final(self).events(), task_id@)
                    },
                },
            },
    {
        if let Err(e) = self.ensure_active(task_id) {
            return Err(e);
        }
        let event = JournalEvent::ApprovalRequested {
            task_id: task_id.clone(),
            reason: reason.to_owned(),
        };
        self.append_and_replay(task_id, &event)
    }

    /// Resume a task that is awaiting approval with an explicit decision.
    /// A rejection finishes the task as denied.
    pub fn resume_with_approval(&mut self, task_id: &TaskId, decision: ApprovalDecision) -> (r:
        Result<TaskSnapshot, RuntimeError>)
        ensures
            Self::keeps_setup(*old(self), *final(self)),
            match replay_events(old(self).events(), task_id@) {
                None => final(self).events() == old(self).events() && task_missing(r, task_id@),
                Some(s) => if s.status != TaskStatus::AwaitingApproval {
                    &&& final(self).events() == old(self).events()
                    &&& r == Err::<TaskSnapshot, RuntimeError>(
                        RuntimeError::NotAwaitingApproval(s.status),
                    )
                } else if decision.approved {
                    &&& final(self).events() == old(self).events().push(
                        final(self).events().last(),
                    )
                    &&& is_approval_resolved(final(self).events().last(), task_id@, true, decision.note@)
                    &&& r matches Ok(snap) && snap@ == (TaskSnapshotView {
                        status: TaskStatus::Running,
                        pending_approval: None,
                        last_approval: Some(decision@),
                        ..s
                    }) && Some(snap@) == replay_events(final(self).events(), task_id@)
                } else {
                    let n = old(self).events().len();
                    &&& final(self).events().len() == n + 2
                    &&& final(self).events().take(n as int) == old(self).events()
                    &&& is_approval_resolved(final(self).events()[n as int], task_id@, false, decision.note@)
                    &&& is_task_finished(
                        final(self).events()[n + 1int],
                        task_id@,
                        TaskStatus::Denied,
                        rejection_summary(decision.note@),
                    )
                    &&& r matches Ok(snap) && snap@ == (TaskSnapshotView {
                        status: TaskStatus::Denied,
                        pending_approval: None,
                        last_approval: Some(decision@),
                        summary: Some(rejection_summary(decision.note@)),
                        ..s
                    }) && Some(snap@) == replay_events(final(self).events(), task_id@)
                },
            },
    {
        let snap = match self.journal.replay(task_id) {
            Ok(snap) => snap,
            Err(e) => return Err(RuntimeError::Journal(e)),
        };
        if snap.status != TaskStatus::AwaitingApproval {
            return Err(RuntimeError::NotAwaitingApproval(snap.status));
        }
        let resolved = JournalEvent::ApprovalResolved {
            task_id: task_id.clone(),
            approved: decision.approved,
            note: decision.note.clone(),
        };
        if decision.approved {
            return self.append_and_replay(task_id, &resolved);
        }
        let ghost before = self.journal@;
        self.journal.append(&resolved);
        proof {
            lemma_replay_after_append(before, resolved, task_id@);
        }
        let finished = JournalEvent::TaskFinished {
            task_id: task_id.clone(),
            status: TaskStatus::Denied,
            summary: "rejected by human: ".to_owned().concat(decision.note.as_str()),
        };
        let r = self.append_and_replay(task_id, &finished);
        proof {
            let after = self.journal@;
            assert(after.take(before.len() as int) =~= before);
            assert(after[before.len() as int] == resolved);
            let s = replay_events(before, task_id@).unwrap();
            if r is Ok {
                assert(r->Ok_0@ =~= (TaskSnapshotView {
                    status: TaskStatus::Denied,
                    pending_approval: None,
                    last_approval: Some(decision@),
                    summary: Some(rejection_summary(decision.note@)),
                    ..s
                }));
            }
        }
        r
    }

    /// Mark the task completed.
    pub fn finish(&mut self, task_id: &TaskId, summary: &str) -> (r: Result<
        TaskSnapshot,
        RuntimeError,
    >)
        ensures
            Self::keeps_setup(*old(self), *final(self)),
            r is Ok ==> replay_events(old(self).events(), task_id@) is Some && replay_events(
                old(self).events(),
                task_id@,
            ).unwrap().status == TaskStatus::Running,
            replay_events(old(self).events(), task_id@) is Some && replay_events(
                old(self).events(),
                task_id@,
            ).unwrap().status != TaskStatus::Running ==> r is Err && final(self).events() == old(
                self,
            ).events(),
            replay_events(old(self).events(), task_id@) is Some && replay_events(
                old(self).events(),
                task_id@,
            ).unwrap().status == TaskStatus::AwaitingApproval ==> r == Err::<
                TaskSnapshot,
                RuntimeError,
            >(RuntimeError::AwaitingApproval),
            replay_events(old(self).events(), task_id@) is Some && (replay_events(
                old(self).events(),
                task_id@,
            ).unwrap().status == TaskStatus::Completed || replay_events(
                old(self).events(),
                task_id@,
            ).unwrap().status == TaskStatus::Failed || replay_events(
                old(self).events(),
                task_id@,
            ).unwrap().status == TaskStatus::Denied) ==> r == Err::<TaskSnapshot, RuntimeError>(
                RuntimeError::AlreadyFinished(
                    replay_events(old(self).events(), task_id@).unwrap().status,
                ),
            ),
            match replay_events(old(self).events(), task_id@) {
                None => final(self).events() == old(self).events() && task_missing(r, task_id@),
                Some(s) => match status_gate(s.status) {
                    Some(err) => final(self).events() == old(self).events() && r == Err::<
                        TaskSnapshot,
                        RuntimeError,
                    >(err),
                    None => {
                        &&& final(self).events() == old(self).events().push(
                            final(self).events().last(),
                        )
                        &&& is_task_finished(
                            final(self).events().last(),
                            task_id@,
                            TaskStatus::Completed,
                            summary@,
                        )
                        &&& r matches Ok(snap) && snap@ == (TaskSnapshotView {
                            status: TaskStatus::Completed,
                            summary: Some(summary@),
                            pending_approval: None,
                            ..s
                        }) && Some(snap@) == replay_events(final(self).events(), task_id@)
                    },
                },
            },
    {
        let snap = match self.journal.replay(task_id) {
            Ok(snap) => snap,
            Err(e) => return Err(RuntimeError::Journal(e)),
        };
        match snap.status {
            TaskStatus::AwaitingApproval => return Err(RuntimeError::AwaitingApproval),
            TaskStatus::Completed | TaskStatus::Failed | TaskStatus::Denied => {
                return Err(RuntimeError::AlreadyFinished(snap.status));
            },
            TaskStatus::Running => {},
        }
        let event = JournalEvent::TaskFinished {
            task_id: task_id.clone(),
            status: TaskStatus::Completed,
            summary: summary.to_owned(),
        };
        self.append_and_replay(task_id, &event)
    }

    /// Rebuild state purely from the journal (deterministic replay).
    pub fn replay(&self, task_id: &TaskId) -> (r: Result<TaskSnapshot, RuntimeError>)
        ensures
            match replay_events(self.events(), task_id@) {
                None => task_missing(r, task_id@),
                Some(s) => r matches Ok(snap) && snap@ == s,
            },
    {
        match self.journal.replay(task_id) {
            Ok(snap) => Ok(snap),
            Err(e) => Err(RuntimeError::Journal(e)),
        }
    }

    fn ensure_active(&self, task_id: &TaskId) -> (r: Result<(), RuntimeError>)
        ensures
            match replay_events(self.events(), task_id@) {
                None => task_missing(r, task_id@),
                Some(s) => match status_gate(s.status) {
                    None => r is Ok,
                    Some(err) => r == Err::<(), RuntimeError>(err),
                },
            },
    {
        let snap = match self.journal.replay(task_id) {
            Ok(snap) => snap,
            Err(e) => return Err(RuntimeError::Journal(e)),
        };
        match snap.status {
            TaskStatus::Running => Ok(()),
            TaskStatus::AwaitingApproval => Err(RuntimeError::AwaitingApproval),
            other => Err(RuntimeError::AlreadyFinished(other)),
        }
    }

    /// Append an event of a task that the journal already knows, and replay
    /// the task.
    fn append_and_replay(&mut self, task_id: &TaskId, event: &JournalEvent) -> (r: Result<
        TaskSnapshot,
        RuntimeError,
    >)
        requires
            replay_events(old(self).events(), task_id@) is Some,
            event.task_of() == task_id@,
        ensures
            Self::keeps_setup(*old(self), *final(self)),
            final(self).events() == old(self).events().push(*event),
            replay_events(old(self).events(), task_id@).unwrap().task_id == task_id@,
            r matches Ok(snap) && Some(snap@) == replay_events(final(self).events(), task_id@)
                && snap@ == apply_event(replay_events(old(self).events(), task_id@).unwrap(), *event),
    {
        proof {
            lemma_replay_after_append(self.journal@, *event, task_id@);
            lemma_replay_is_of_task(self.journal@, task_id@);
        }
        self.journal.append(event);
        self.replay(task_id)
    }
}

fn denial_reason_text(missing: Capability) -> (reason: String)
    ensures
        reason@ == denied_reason(missing),
{
    match missing {
        Capability::Log => "missing capability: Log".to_owned(),
        Capability::WriteLocal => "missing capability: WriteLocal".to_owned(),
        Capability::HttpFetch => "missing capability: HttpFetch".to_owned(),
    }
}

} // verus!
