use pal::{
    ApprovalDecision, Effect, Journal, JournalError, JournalEvent, TaskId, TaskSnapshot,
    TaskStatus,
};

fn empty_journal() -> Journal {
    Journal::load("tasks.jsonl".to_string(), Vec::new())
}

#[test]
fn append_and_read_roundtrip() {
    let mut j = empty_journal();
    let tid = TaskId::new("t1");
    j.append(&JournalEvent::TaskStarted {
        task_id: tid.clone(),
        name: "demo".into(),
    });
    j.append(&JournalEvent::StepCompleted {
        task_id: tid.clone(),
        step: "s1".into(),
        detail: "did work".into(),
    });
    let events = j.read_all();
    assert_eq!(events.len(), 2);
}

#[test]
fn replay_reaches_same_status() {
    let mut j = empty_journal();
    let tid = TaskId::new("t-replay");
    j.append(&JournalEvent::TaskStarted {
        task_id: tid.clone(),
        name: "replay-demo".into(),
    });
    j.append(&JournalEvent::StepCompleted {
        task_id: tid.clone(),
        step: "prepare".into(),
        detail: "ok".into(),
    });
    j.append(&JournalEvent::TaskFinished {
        task_id: tid.clone(),
        status: TaskStatus::Completed,
        summary: "done".into(),
    });

    let snap = j.replay(&tid).unwrap();
    assert_eq!(snap.status, TaskStatus::Completed);
    assert_eq!(snap.steps, vec!["prepare".to_string()]);
    assert_eq!(snap.summary.as_deref(), Some("done"));
}

#[test]
fn replay_of_unknown_task_is_not_found() {
    let j = empty_journal();
    assert_eq!(
        j.replay(&TaskId::new("ghost")),
        Err(JournalError::TaskNotFound("ghost".to_string()))
    );
}

#[test]
fn events_for_keeps_only_the_task_in_order() {
    let mut j = empty_journal();
    let a = TaskId::new("a");
    let b = TaskId::new("b");
    j.append(&JournalEvent::TaskStarted { task_id: a.clone(), name: "A".into() });
    j.append(&JournalEvent::TaskStarted { task_id: b.clone(), name: "B".into() });
    j.append(&JournalEvent::StepCompleted {
        task_id: a.clone(),
        step: "a1".into(),
        detail: "".into(),
    });
    j.append(&JournalEvent::StepCompleted {
        task_id: b.clone(),
        step: "b1".into(),
        detail: "".into(),
    });
    let mine = j.events_for(&a);
    assert_eq!(mine.len(), 2);
    assert_eq!(mine[0], JournalEvent::TaskStarted { task_id: a.clone(), name: "A".into() });
    assert_eq!(
        mine[1],
        JournalEvent::StepCompleted { task_id: a.clone(), step: "a1".into(), detail: "".into() }
    );
    let snap_b = j.replay(&b).unwrap();
    assert_eq!(snap_b.name, "B");
    assert_eq!(snap_b.steps, vec!["b1".to_string()]);
    assert_eq!(j.path(), "tasks.jsonl");
}

#[test]
fn replay_without_start_event_is_named_unknown() {
    let mut j = empty_journal();
    let tid = TaskId::new("late");
    j.append(&JournalEvent::StepCompleted {
        task_id: tid.clone(),
        step: "orphan".into(),
        detail: "".into(),
    });
    let snap = j.replay(&tid).unwrap();
    assert_eq!(snap.name, "unknown");
    assert_eq!(snap.status, TaskStatus::Running);
    assert_eq!(snap.steps, vec!["orphan".to_string()]);
}

#[test]
fn apply_folds_each_kind_of_event() {
    let tid = TaskId::new("t");
    let mut s = TaskSnapshot::new(tid.clone(), "first".to_string());
    s.apply(&JournalEvent::TaskStarted { task_id: tid.clone(), name: "renamed".into() });
    assert_eq!(s.name, "renamed");
    s.apply(&JournalEvent::EffectAttempted {
        task_id: tid.clone(),
        effect: Effect::Log { message: "hi".into() },
        allowed: true,
        reason: "capability granted".into(),
    });
    s.apply(&JournalEvent::EffectAttempted {
        task_id: tid.clone(),
        effect: Effect::HttpFetch { url: "u".into() },
        allowed: false,
        reason: "missing capability: HttpFetch".into(),
    });
    assert_eq!(s.effects_allowed, vec![Effect::Log { message: "hi".into() }]);
    assert_eq!(s.effects_denied, vec![Effect::HttpFetch { url: "u".into() }]);
    s.apply(&JournalEvent::ApprovalRequested { task_id: tid.clone(), reason: "why".into() });
    assert_eq!(s.status, TaskStatus::AwaitingApproval);
    assert_eq!(s.pending_approval.as_deref(), Some("why"));
    s.apply(&JournalEvent::ApprovalResolved {
        task_id: tid.clone(),
        approved: false,
        note: "no".into(),
    });
    assert_eq!(s.status, TaskStatus::Denied);
    assert_eq!(s.pending_approval, None);
    assert_eq!(
        s.last_approval,
        Some(ApprovalDecision { approved: false, note: "no".into() })
    );
    s.apply(&JournalEvent::TaskFinished {
        task_id: tid.clone(),
        status: TaskStatus::Failed,
        summary: "broke".into(),
    });
    assert_eq!(s.status, TaskStatus::Failed);
    assert_eq!(s.summary.as_deref(), Some("broke"));
}

#[test]
fn apply_ignores_events_of_other_tasks() {
    let tid = TaskId::new("mine");
    let mut s = TaskSnapshot::new(tid.clone(), "n".to_string());
    let before = s.clone();
    s.apply(&JournalEvent::TaskFinished {
        task_id: TaskId::new("other"),
        status: TaskStatus::Completed,
        summary: "x".into(),
    });
    s.apply(&JournalEvent::StepCompleted {
        task_id: TaskId::new("other"),
        step: "x".into(),
        detail: "x".into(),
    });
    assert_eq!(s, before);
}
