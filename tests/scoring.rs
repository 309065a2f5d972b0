use symcc_fuzzing_helper::{AflConfig, QueueEntry, State, StringHashSet, TestcaseScore};

#[test]
fn test_score_ordering() {
    let min_score = TestcaseScore::minimum();
    assert!(
        TestcaseScore {
            new_coverage: true,
            ..TestcaseScore::minimum()
        } > min_score
    );
    assert!(
        TestcaseScore {
            derived_from_seed: true,
            ..TestcaseScore::minimum()
        } > min_score
    );
    assert!(
        TestcaseScore {
            file_size: -4,
            ..TestcaseScore::minimum()
        } > min_score
    );
    assert!(
        TestcaseScore {
            base_name: b"foo".to_vec(),
            ..TestcaseScore::minimum()
        } > min_score
    );
}

fn entry(path: &str, size: Option<u64>) -> QueueEntry {
    let name = path.rsplit('/').next().unwrap().as_bytes().to_vec();
    QueueEntry {
        path: path.to_string(),
        name: Some(name),
        size,
        is_file: true,
    }
}

fn config() -> AflConfig {
    AflConfig {
        show_map: "/afl/afl-showmap".to_string(),
        target_command: vec!["./target".to_string(), "@@".to_string()],
        use_standard_input: false,
        use_qemu_mode: false,
        queue: "/out/fuzzer/queue".to_string(),
    }
}

#[test]
fn score_reads_markers_from_name() {
    let name = b"id:000003,orig:seed1,+cov".to_vec();
    let s = TestcaseScore::new(Some(&name), Some(12));
    assert!(s.new_coverage);
    assert!(s.derived_from_seed);
    assert_eq!(s.file_size, -12);
    assert_eq!(s.base_name, name);

    let plain = b"id:000004,src:000003".to_vec();
    let p = TestcaseScore::new(Some(&plain), Some(12));
    assert!(!p.new_coverage);
    assert!(!p.derived_from_seed);
    assert!(s > p);
}

#[test]
fn coverage_marker_must_end_the_name() {
    let name = b"id:000003,+cov,op:havoc".to_vec();
    let s = TestcaseScore::new(Some(&name), Some(1));
    assert!(!s.new_coverage);
}

#[test]
fn smaller_file_outranks_larger() {
    let a = b"id:000001".to_vec();
    let b = b"id:000002".to_vec();
    let small = TestcaseScore::new(Some(&a), Some(10));
    let large = TestcaseScore::new(Some(&b), Some(100));
    assert!(small > large);
    assert!(large < small);
}

#[test]
fn name_breaks_ties() {
    let a = b"id:000001".to_vec();
    let b = b"id:000002".to_vec();
    let sa = TestcaseScore::new(Some(&a), Some(10));
    let sb = TestcaseScore::new(Some(&b), Some(10));
    assert!(sb > sa);
    assert!(sa == TestcaseScore::new(Some(&a), Some(10)));
}

#[test]
fn unreadable_file_scores_lowest() {
    let name = b"id:000001".to_vec();
    let missing = TestcaseScore::new(Some(&name), None);
    assert!(missing == TestcaseScore::minimum());
    let nameless = TestcaseScore::new(None, Some(5));
    assert!(nameless == TestcaseScore::minimum());
    let empty = b"x".to_vec();
    let huge = TestcaseScore::new(Some(&empty), Some(u64::MAX));
    assert!(huge > missing);
}

#[test]
fn marked_file_selected_before_smaller_unmarked_one() {
    let entries = vec![
        entry("/out/fuzzer/queue/id:000000,orig:a", Some(10)),
        entry("/out/fuzzer/queue/id:000001,src:000000,+cov", Some(100)),
    ];
    let seen = StringHashSet::new();
    assert_eq!(
        config().best_new_testcase(&entries, &seen),
        Some("/out/fuzzer/queue/id:000001,src:000000,+cov".to_string())
    );
}

#[test]
fn empty_queue_selects_nothing() {
    let state = State::new("/out/helper");
    let entries: Vec<QueueEntry> = Vec::new();
    assert_eq!(config().best_new_testcase(&entries, &state.processed_files), None);
    assert_eq!(state.queue.current_id(), 0);
    assert_eq!(state.processed_files.len(), 0);
}

#[test]
fn seen_and_non_files_are_skipped() {
    let mut entries = vec![
        entry("/q/id:000000,+cov", Some(1)),
        entry("/q/id:000001", Some(1)),
        entry("/q/id:000002", Some(50)),
    ];
    entries[1].is_file = false;
    let mut seen = StringHashSet::new();
    seen.insert("/q/id:000000,+cov".to_string());
    assert_eq!(
        config().best_new_testcase(&entries, &seen),
        Some("/q/id:000002".to_string())
    );
    seen.insert("/q/id:000002".to_string());
    assert_eq!(config().best_new_testcase(&entries, &seen), None);
}

#[test]
fn equal_scores_select_the_last() {
    let mut a = entry("/q/same", Some(3));
    let mut b = entry("/r/same", Some(3));
    a.name = Some(b"same".to_vec());
    b.name = Some(b"same".to_vec());
    let seen = StringHashSet::new();
    assert_eq!(
        config().best_new_testcase(&vec![a, b], &seen),
        Some("/r/same".to_string())
    );
}
