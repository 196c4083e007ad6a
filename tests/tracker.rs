use voice_to_taskwarrior::tracker::{catch_up_set, is_candidate_name, MemoEntry, MARKER_FILE_NAME};

fn entry(name: &str, created: u64) -> MemoEntry {
    MemoEntry::from_path(format!("/memos/{}", name), created)
}

fn names(v: &[MemoEntry]) -> Vec<String> {
    v.iter().map(|e| e.name.clone()).collect()
}

#[test]
fn first_run_takes_every_memo_oldest_first() {
    let entries = vec![entry("b.wav", 2), entry("a.wav", 1)];
    assert_eq!(names(&catch_up_set(&entries, None)), vec!["a.wav", "b.wav"]);
}

#[test]
fn marked_run_takes_only_newer_memos() {
    let entries = vec![entry("a.wav", 1), entry("b.wav", 2), entry("c.wav", 0), entry(MARKER_FILE_NAME, 3)];
    assert_eq!(names(&catch_up_set(&entries, Some(1))), vec!["b.wav"]);
}

#[test]
fn marker_file_is_never_selected() {
    let entries = vec![entry(MARKER_FILE_NAME, 9), entry("x.wav", 5)];
    assert_eq!(names(&catch_up_set(&entries, None)), vec!["x.wav"]);
    assert_eq!(names(&catch_up_set(&entries, Some(0))), vec!["x.wav"]);
    assert!(!is_candidate_name(&MARKER_FILE_NAME.to_string()));
    assert!(is_candidate_name(&"x.wav".to_string()));
    assert!(is_candidate_name(&"last_voice_memo.wav".to_string()));
}

#[test]
fn equal_creation_times_keep_listing_order() {
    let entries = vec![entry("p.wav", 4), entry("q.wav", 4), entry("r.wav", 3)];
    assert_eq!(names(&catch_up_set(&entries, None)), vec!["r.wav", "p.wav", "q.wav"]);
}

#[test]
fn empty_directory_gives_nothing() {
    assert!(catch_up_set(&vec![], Some(5)).is_empty());
    assert!(catch_up_set(&vec![entry("old.wav", 5)], Some(5)).is_empty());
}

#[test]
fn entry_name_is_last_path_component() {
    assert_eq!(MemoEntry::from_path("/a/b/c.wav".to_string(), 3).name, "c.wav");
    assert_eq!(MemoEntry::from_path("plain.wav".to_string(), 3).name, "plain.wav");
    assert_eq!(MemoEntry::from_path("/dir/".to_string(), 3).name, "");
    let m = MemoEntry::from_path(format!("/memos/{}", MARKER_FILE_NAME), 7);
    assert_eq!(m.name, MARKER_FILE_NAME);
    assert_eq!(m.path, "/memos/last_voice_memo");
    assert_eq!(m.created, 7);
}
