use symcc_fuzzing_helper::control::stats_due;
use symcc_fuzzing_helper::{
    AflMap, AflShowmapResult, Corpus, FormatError, State, Stats, SymCCResult, TestcaseResult,
};

fn map_with(i: usize, v: u8) -> AflMap {
    let mut bytes = vec![0u8; 65536];
    bytes[i] = v;
    AflMap::from_bytes(bytes).ok().unwrap()
}

#[test]
fn merge_reports_new_coverage_once() {
    let mut m = AflMap::new();
    assert!(m.merge(&map_with(5, 1)));
    assert!(!m.merge(&map_with(5, 1)));
    assert!(m.merge(&map_with(5, 2)));
    assert!(!m.merge(&map_with(5, 3)));
    assert!(!m.merge(&AflMap::new()));
}

#[test]
fn merge_is_order_independent() {
    let mut a = map_with(1, 4);
    a.merge(&map_with(2, 8));
    let mut b = map_with(2, 8);
    b.merge(&map_with(1, 4));
    assert!(!a.merge(&b));
    assert!(!b.merge(&a));
}

#[test]
fn merging_an_equal_map_changes_nothing() {
    let mut a = map_with(9, 0x81);
    assert!(!a.merge(&map_with(9, 0x81)));
}

#[test]
fn wrong_map_size_is_a_format_error() {
    assert_eq!(
        AflMap::from_bytes(vec![0u8; 65535]).err(),
        Some(FormatError::WrongMapSize(65535))
    );
}

#[test]
fn new_state_layout() {
    let s = State::new("/out/helper");
    assert_eq!(s.queue.path(), "/out/helper/queue");
    assert_eq!(s.hangs.path(), "/out/helper/hangs");
    assert_eq!(s.crashes.path(), "/out/helper/crashes");
}

#[test]
fn triage_outcomes() {
    let mut s = State::new("/o");
    let r = s.process_new_testcase(AflShowmapResult::Success(Box::new(map_with(3, 1))));
    assert_eq!(r, TestcaseResult::New);
    let r = s.process_new_testcase(AflShowmapResult::Success(Box::new(map_with(3, 1))));
    assert_eq!(r, TestcaseResult::Uninteresting);
    assert_eq!(s.process_new_testcase(AflShowmapResult::Hang), TestcaseResult::Hang);
    assert_eq!(s.process_new_testcase(AflShowmapResult::Crash), TestcaseResult::Crash);
    assert_eq!(s.process_new_testcase(AflShowmapResult::Ignore), TestcaseResult::Ignored);
    assert_eq!(State::destinations(TestcaseResult::New), vec![Corpus::Queue]);
    assert_eq!(
        State::destinations(TestcaseResult::Crash),
        vec![Corpus::Crashes, Corpus::Queue]
    );
    assert!(State::destinations(TestcaseResult::Hang).is_empty());
    assert!(State::destinations(TestcaseResult::Ignored).is_empty());
    assert!(State::destinations(TestcaseResult::Uninteresting).is_empty());
}

#[test]
fn crash_is_filed_in_both_directories_with_own_numbers() {
    let mut s = State::new("/o");
    s.record_filing(Corpus::Queue);
    s.record_filing(Corpus::Queue);
    let parent = "id:000010,src:000002";
    for c in State::destinations(TestcaseResult::Crash) {
        let name = s.filing_name(c, parent).unwrap();
        match c {
            Corpus::Crashes => assert_eq!(name, "id:000000,src:000010"),
            Corpus::Queue => assert_eq!(name, "id:000002,src:000010"),
            Corpus::Hangs => panic!("not a destination of a crash"),
        }
        s.record_filing(c);
    }
    assert_eq!(s.crashes.current_id(), 1);
    assert_eq!(s.queue.current_id(), 3);
    assert_eq!(s.hangs.current_id(), 0);
}

fn result(killed: bool, time: u128, solver: Option<u128>) -> SymCCResult {
    SymCCResult { test_cases: vec![], killed, time, solver_time: solver }
}

#[test]
fn finished_inputs_are_remembered_and_counted() {
    let mut s = State::new("/o");
    let r = result(true, 7, None);
    assert!(s.stats.can_add(&r));
    s.finish_input("/q/id:000001".to_string(), &r);
    assert!(s.processed_files.contains("/q/id:000001"));
    assert_eq!(s.stats.failed_count, 1);
    assert_eq!(s.stats.failed_time, 7);
    assert_eq!(s.stats.total_count, 0);
}

#[test]
fn statistics_accumulate() {
    let mut st = Stats::new();
    st.add_execution(&result(false, 3_000_000_000, None));
    assert_eq!(st.solver_time, None);
    st.add_execution(&result(false, 1_000_000_000, Some(500_000_000)));
    st.add_execution(&result(false, 2_000_000_000, Some(250_000_000)));
    st.add_execution(&result(true, 90_000_000_000, Some(1)));
    assert_eq!(st.total_count, 3);
    assert_eq!(st.total_time, 6_000_000_000);
    assert_eq!(st.solver_time, Some(750_000_000));
    assert_eq!(st.failed_count, 1);
    assert_eq!(st.failed_time, 90_000_000_000);
    let rep = st.report();
    assert_eq!(rep.total_ms, 6000);
    assert_eq!(rep.avg_ms, Some(2000));
    assert_eq!(rep.solver_ms, Some(750));
    assert_eq!(rep.avg_solver_ms, Some(250));
    assert_eq!(rep.failed_ms, 90000);
    assert_eq!(rep.avg_failed_ms, Some(90000));
    let empty = Stats::new().report();
    assert_eq!(empty.avg_ms, None);
    assert_eq!(empty.avg_failed_ms, None);
    assert_eq!(empty.solver_ms, None);
}

#[test]
fn counters_refuse_overflow() {
    let mut st = Stats::new();
    st.failed_count = u32::MAX;
    assert!(!st.can_add(&result(true, 1, None)));
    assert!(st.can_add(&result(false, 1, None)));
}

#[test]
fn statistics_flush_interval() {
    assert!(!stats_due(60));
    assert!(stats_due(61));
}

#[test]
fn killed_input_is_archived_in_hangs() {
    assert_eq!(State::input_destinations(&result(true, 1, None)), vec![Corpus::Hangs]);
    assert!(State::input_destinations(&result(false, 1, None)).is_empty());
}

#[test]
fn abandoned_input_is_not_selected_again() {
    let mut s = State::new("/o");
    s.abandon_input("/q/id:000004".to_string());
    assert!(s.processed_files.contains("/q/id:000004"));
    assert_eq!(s.stats.total_count, 0);
    assert_eq!(s.stats.failed_count, 0);
    assert_eq!(s.hangs.current_id(), 0);
}
