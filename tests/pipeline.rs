use voice_to_taskwarrior::pipeline::{discovered, next_state, Batch, MemoState, Stage, StageResult};
use voice_to_taskwarrior::tracker::{catch_up_set, MemoEntry};

fn entry(name: &str, created: u64) -> MemoEntry {
    MemoEntry::from_path(format!("/memos/{}", name), created)
}

/// Drives one memo through the stages; `fail_at` names the stage that fails.
fn run_memo(fail_at: Option<Stage>, id: u128) -> MemoState {
    let mut state = discovered();
    while let MemoState::Active(stage) = state {
        let result = if Some(stage) == fail_at {
            StageResult::Failed(format!("{:?} broke", stage))
        } else if stage == Stage::Persisting {
            StageResult::Saved(id)
        } else {
            StageResult::Succeeded
        };
        state = next_state(state, result);
    }
    state
}

#[test]
fn stages_run_in_order() {
    let mut seen = Vec::new();
    let mut state = discovered();
    while let MemoState::Active(stage) = state {
        seen.push(stage);
        let r = if stage == Stage::Persisting { StageResult::Saved(9) } else { StageResult::Succeeded };
        state = next_state(state, r);
    }
    assert_eq!(
        seen,
        vec![Stage::Validating, Stage::Ingesting, Stage::Recognizing, Stage::Assembling, Stage::Persisting]
    );
    assert_eq!(state, MemoState::Persisted(9));
}

#[test]
fn catch_up_without_marker_processes_all_and_marks_latest() {
    let entries = vec![entry("b.wav", 2), entry("a.wav", 1)];
    let todo = catch_up_set(&entries, None);
    let mut batch = Batch::new(None);
    let mut writes = Vec::new();
    for (k, e) in todo.iter().enumerate() {
        let outcome = run_memo(None, k as u128 + 1);
        if let Some(p) = batch.record(e, outcome) {
            writes.push(p);
        }
    }
    assert_eq!(writes, vec!["/memos/a.wav".to_string(), "/memos/b.wav".to_string()]);
    assert_eq!(batch.created.len(), 2);
    assert_eq!(batch.created[0].path, "/memos/a.wav");
    assert_eq!(batch.created[1].path, "/memos/b.wav");
    assert_eq!(batch.marker, Some("/memos/b.wav".to_string()));
    assert!(batch.failures.is_empty());
}

#[test]
fn recognizer_failure_creates_no_task_and_keeps_marker() {
    let d = entry("d.wav", 5);
    let outcome = run_memo(Some(Stage::Recognizing), 1);
    assert_eq!(outcome, MemoState::Failed(Stage::Recognizing, "Recognizing broke".to_string()));
    let mut batch = Batch::new(Some("/memos/a.wav".to_string()));
    assert_eq!(batch.record(&d, outcome), None);
    assert!(batch.created.is_empty());
    assert_eq!(batch.marker, Some("/memos/a.wav".to_string()));
    assert_eq!(batch.failures.len(), 1);
    assert_eq!(batch.failures[0].path, "/memos/d.wav");
    assert_eq!(batch.failures[0].stage, Stage::Recognizing);
    assert_eq!(batch.failures[0].reason, "Recognizing broke");
}

#[test]
fn marker_names_latest_success_after_mixed_batch() {
    let entries = vec![entry("e.wav", 1), entry("f.wav", 2), entry("g.wav", 3)];
    let mut batch = Batch::new(None);
    batch.record(&entries[0], run_memo(None, 1));
    batch.record(&entries[1], run_memo(None, 2));
    batch.record(&entries[2], run_memo(Some(Stage::Ingesting), 3));
    assert_eq!(batch.marker, Some("/memos/f.wav".to_string()));
    assert_eq!(batch.failures[0].stage, Stage::Ingesting);
}

#[test]
fn invalid_memo_fails_at_validation() {
    assert_eq!(run_memo(Some(Stage::Validating), 1), MemoState::Failed(Stage::Validating, "Validating broke".to_string()));
    assert_eq!(run_memo(Some(Stage::Persisting), 1), MemoState::Failed(Stage::Persisting, "Persisting broke".to_string()));
}
