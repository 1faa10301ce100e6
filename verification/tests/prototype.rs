//! Journaling with deterministic replay, the denied capability boundary,
//! and the human-approval pause / resume.

use pal::{
    ApprovalDecision, Capability, CapabilitySet, Effect, Journal, JournalError, JournalEvent,
    Runtime, RuntimeError, TaskId, TaskStatus,
};

fn runtime_with<const N: usize>(caps: [Capability; N]) -> Runtime {
    let journal = Journal::load("pal.jsonl".to_string(), Vec::new());
    Runtime::new(journal, CapabilitySet::with(caps))
}

/// The journal of `rt` read again from its events alone.
fn reopened(rt: &Runtime) -> Journal {
    Journal::load(rt.journal().path().to_string(), rt.journal().read_all().to_vec())
}

#[test]
fn journaling_and_deterministic_replay() {
    let mut rt = runtime_with([Capability::Log]);
    let tid = TaskId::new("task-replay-1");

    rt.start_task(tid.clone(), "fixture-task");
    rt.complete_step(&tid, "plan", "sketched steps").unwrap();
    rt.attempt_effect(
        &tid,
        Effect::Log {
            message: "progress".into(),
        },
    )
    .unwrap();
    rt.finish(&tid, "all good").unwrap();

    let live = rt.replay(&tid).unwrap();

    // Re-open the same journal and replay independently.
    let journal2 = reopened(&rt);
    let rt2 = Runtime::new(journal2, CapabilitySet::with([Capability::Log]));
    let rebuilt = rt2.replay(&tid).unwrap();

    assert_eq!(live, rebuilt);
    assert_eq!(rebuilt.status, TaskStatus::Completed);
    assert_eq!(rebuilt.steps, vec!["plan".to_string()]);
    assert_eq!(rebuilt.effects_allowed.len(), 1);
    assert_eq!(rebuilt.summary.as_deref(), Some("all good"));
    assert!(rebuilt.effects_denied.is_empty());
}

#[test]
fn denied_capability_is_recorded_and_errors() {
    // Only Log is granted; HttpFetch must be denied.
    let mut rt = runtime_with([Capability::Log]);
    let tid = TaskId::new("task-cap-1");

    rt.start_task(tid.clone(), "cap-boundary");

    let err = rt
        .attempt_effect(
            &tid,
            Effect::HttpFetch {
                url: "https://example.invalid/secret".into(),
            },
        )
        .expect_err("http fetch must be denied without capability");

    match err {
        RuntimeError::CapabilityDenied(Capability::HttpFetch) => {}
        other => panic!("unexpected error: {other:?}"),
    }

    let snap = rt.replay(&tid).unwrap();
    assert_eq!(snap.effects_denied.len(), 1);
    assert!(snap.effects_allowed.is_empty());
    assert_eq!(
        snap.effects_denied[0],
        Effect::HttpFetch {
            url: "https://example.invalid/secret".into(),
        }
    );
    // Task remains running after a denied effect (caller may recover or fail).
    assert_eq!(snap.status, TaskStatus::Running);
}

#[test]
fn approval_pause_and_resume() {
    let mut rt = runtime_with([Capability::WriteLocal]);
    let tid = TaskId::new("task-approve-1");

    rt.start_task(tid.clone(), "needs-human");
    rt.complete_step(&tid, "draft", "prepared write").unwrap();

    let paused = rt
        .request_approval(&tid, "confirm writing local artifact")
        .unwrap();
    assert_eq!(paused.status, TaskStatus::AwaitingApproval);
    assert_eq!(
        paused.pending_approval.as_deref(),
        Some("confirm writing local artifact")
    );

    // While paused, further work is blocked.
    let blocked = rt
        .complete_step(&tid, "should-not-run", "nope")
        .expect_err("must block while awaiting approval");
    assert!(matches!(blocked, RuntimeError::AwaitingApproval));

    // Resume with approval; same task continues.
    let resumed = rt
        .resume_with_approval(
            &tid,
            ApprovalDecision {
                approved: true,
                note: "looks fine".into(),
            },
        )
        .unwrap();
    assert_eq!(resumed.status, TaskStatus::Running);
    assert!(resumed.pending_approval.is_none());
    assert_eq!(
        resumed.last_approval,
        Some(ApprovalDecision {
            approved: true,
            note: "looks fine".into(),
        })
    );

    rt.attempt_effect(
        &tid,
        Effect::WriteLocal {
            path: "out.txt".into(),
            content: "ok".into(),
        },
    )
    .unwrap();
    let done = rt.finish(&tid, "approved path complete").unwrap();
    assert_eq!(done.status, TaskStatus::Completed);

    // Independent replay from the journal's events matches.
    let rebuilt = reopened(&rt).replay(&tid).unwrap();
    assert_eq!(rebuilt, done);
}

#[test]
fn approval_rejection_finishes_as_denied() {
    let mut rt = runtime_with([]);
    let tid = TaskId::new("task-reject-1");

    rt.start_task(tid.clone(), "risky");
    rt.request_approval(&tid, "destroy something").unwrap();

    let denied = rt
        .resume_with_approval(
            &tid,
            ApprovalDecision {
                approved: false,
                note: "too dangerous".into(),
            },
        )
        .unwrap();

    assert_eq!(denied.status, TaskStatus::Denied);
    assert_eq!(
        denied.summary.as_deref(),
        Some("rejected by human: too dangerous")
    );
}

#[test]
fn operations_on_unknown_task_report_not_found() {
    let mut rt = runtime_with([Capability::Log]);
    let tid = TaskId::new("nobody");
    let not_found = RuntimeError::Journal(JournalError::TaskNotFound("nobody".to_string()));
    assert_eq!(rt.replay(&tid), Err(not_found));
    assert!(matches!(
        rt.complete_step(&tid, "s", "d"),
        Err(RuntimeError::Journal(JournalError::TaskNotFound(_)))
    ));
    assert!(matches!(
        rt.finish(&tid, "x"),
        Err(RuntimeError::Journal(JournalError::TaskNotFound(_)))
    ));
    assert!(matches!(
        rt.resume_with_approval(&tid, ApprovalDecision { approved: true, note: "n".into() }),
        Err(RuntimeError::Journal(JournalError::TaskNotFound(_)))
    ));
    assert!(rt.journal().read_all().is_empty());
}

#[test]
fn finished_task_refuses_more_work() {
    let mut rt = runtime_with([Capability::Log]);
    let tid = TaskId::new("done-1");
    rt.start_task(tid.clone(), "short");
    rt.finish(&tid, "finished").unwrap();
    let len = rt.journal().read_all().len();
    assert_eq!(
        rt.finish(&tid, "again"),
        Err(RuntimeError::AlreadyFinished(TaskStatus::Completed))
    );
    assert_eq!(
        rt.complete_step(&tid, "late", "x"),
        Err(RuntimeError::AlreadyFinished(TaskStatus::Completed))
    );
    assert_eq!(
        rt.attempt_effect(&tid, Effect::Log { message: "m".into() }),
        Err(RuntimeError::AlreadyFinished(TaskStatus::Completed))
    );
    assert_eq!(
        rt.request_approval(&tid, "r"),
        Err(RuntimeError::AlreadyFinished(TaskStatus::Completed))
    );
    assert_eq!(rt.journal().read_all().len(), len);
}

#[test]
fn resume_requires_a_pending_approval() {
    let mut rt = runtime_with([]);
    let tid = TaskId::new("running-1");
    rt.start_task(tid.clone(), "busy");
    assert_eq!(
        rt.resume_with_approval(&tid, ApprovalDecision { approved: true, note: "ok".into() }),
        Err(RuntimeError::NotAwaitingApproval(TaskStatus::Running))
    );
    rt.request_approval(&tid, "check").unwrap();
    assert_eq!(rt.finish(&tid, "early"), Err(RuntimeError::AwaitingApproval));
    assert_eq!(
        rt.attempt_effect(&tid, Effect::Log { message: "m".into() }),
        Err(RuntimeError::AwaitingApproval)
    );
}

#[test]
fn journal_records_each_decision_in_order() {
    let mut rt = runtime_with([Capability::Log]);
    let tid = TaskId::new("trace-1");
    let started = rt.start_task(tid.clone(), "trace");
    assert_eq!(started.name, "trace");
    assert_eq!(started.status, TaskStatus::Running);
    let _ = rt.attempt_effect(&tid, Effect::WriteLocal { path: "p".into(), content: "c".into() });
    rt.attempt_effect(&tid, Effect::Log { message: "m".into() }).unwrap();
    rt.request_approval(&tid, "go?").unwrap();
    rt.resume_with_approval(&tid, ApprovalDecision { approved: false, note: "no".into() })
        .unwrap();
    let events = rt.journal().read_all();
    assert_eq!(events.len(), 6);
    assert_eq!(
        events[0],
        JournalEvent::TaskStarted { task_id: tid.clone(), name: "trace".into() }
    );
    assert_eq!(
        events[1],
        JournalEvent::EffectAttempted {
            task_id: tid.clone(),
            effect: Effect::WriteLocal { path: "p".into(), content: "c".into() },
            allowed: false,
            reason: "missing capability: WriteLocal".into(),
        }
    );
    assert_eq!(
        events[2],
        JournalEvent::EffectAttempted {
            task_id: tid.clone(),
            effect: Effect::Log { message: "m".into() },
            allowed: true,
            reason: "capability granted".into(),
        }
    );
    assert_eq!(
        events[3],
        JournalEvent::ApprovalRequested { task_id: tid.clone(), reason: "go?".into() }
    );
    assert_eq!(
        events[4],
        JournalEvent::ApprovalResolved { task_id: tid.clone(), approved: false, note: "no".into() }
    );
    assert_eq!(
        events[5],
        JournalEvent::TaskFinished {
            task_id: tid.clone(),
            status: TaskStatus::Denied,
            summary: "rejected by human: no".into(),
        }
    );
    assert_eq!(rt.capabilities().granted(), &[Capability::Log]);
}

#[test]
fn interleaved_tasks_replay_independently() {
    let mut rt = runtime_with([Capability::Log]);
    let a = TaskId::new("a");
    let b = TaskId::new("b");
    rt.start_task(a.clone(), "A");
    rt.start_task(b.clone(), "B");
    rt.complete_step(&a, "a1", "").unwrap();
    rt.request_approval(&b, "b?").unwrap();
    let snap_a = rt.complete_step(&a, "a2", "").unwrap();
    assert_eq!(snap_a.steps, vec!["a1".to_string(), "a2".to_string()]);
    assert_eq!(snap_a.status, TaskStatus::Running);
    let snap_b = rt.replay(&b).unwrap();
    assert_eq!(snap_b.status, TaskStatus::AwaitingApproval);
    assert!(snap_b.steps.is_empty());
}
