use std::time::Duration;
use symcc_fuzzing_helper::{insert_input_file, SymCC, SymCCResult};

#[test]
fn test_solver_time_parsing() {
    let output = r#"[INFO] New testcase: /tmp/output/000005
[STAT] SMT: { "solving_time": 14539, "total_time": 185091 }
[STAT] SMT: { "solving_time": 14869 }
[STAT] SMT: { "solving_time": 14869, "total_time": 185742 }
[STAT] SMT: { "solving_time": 15106 }"#;

    assert_eq!(
        SymCC::parse_solver_time(output.as_bytes()).map(Duration::from_micros),
        Some(Duration::from_micros(15106))
    );
    assert_eq!(
        SymCC::parse_solver_time("whatever".as_bytes()).map(Duration::from_micros),
        None
    );
}

#[test]
fn solver_time_skips_later_lines_without_a_value() {
    let output = "[STAT] SMT: { \"solving_time\": 42 }\n[INFO] done\n  [STAT] SMT: { \"total_time\": 7 }\n";
    assert_eq!(SymCC::parse_solver_time(output.as_bytes()), Some(42));
}

#[test]
fn solver_time_allows_leading_whitespace_and_ignores_other_lines() {
    let output = "\t [STAT] SMT: { \"solving_time\": 9 }\n[INFO] { \"solving_time\": 5 }";
    assert_eq!(SymCC::parse_solver_time(output.as_bytes()), Some(9));
}

#[test]
fn solver_time_skips_invalid_utf8_and_overflow() {
    let mut output = b"[STAT] SMT: { \"solving_time\": 3 }\n".to_vec();
    output.extend_from_slice(b"[STAT] SMT: { \"solving_time\": 99999999999999999999999 }\n");
    output.extend_from_slice(b"[STAT] SMT: \xff { \"solving_time\": 4 }");
    assert_eq!(SymCC::parse_solver_time(&output), Some(3));
    assert_eq!(SymCC::parse_solver_time(b""), None);
}

#[test]
fn input_file_replaces_first_placeholder_only() {
    let cmd = vec!["./prog".to_string(), "@@".to_string(), "@@".to_string()];
    assert_eq!(
        insert_input_file(&cmd, "/in"),
        vec!["./prog".to_string(), "/in".to_string(), "@@".to_string()]
    );
    let plain = vec!["./prog".to_string(), "-x".to_string()];
    assert_eq!(insert_input_file(&plain, "/in"), plain);
}

#[test]
fn new_configuration_from_command() {
    let cmd = vec!["./prog".to_string(), "@@".to_string()];
    let s = SymCC::new("/out/helper", &cmd, true);
    assert_eq!(s.input_file, "/out/helper/.cur_input");
    assert_eq!(s.bitmap, "/out/helper/bitmap");
    assert!(!s.use_standard_input);
    assert!(s.use_bitmap);
    assert_eq!(
        s.command,
        vec!["./prog".to_string(), "/out/helper/.cur_input".to_string()]
    );

    let stdin_cmd = vec!["./prog".to_string()];
    let t = SymCC::new("/out/helper", &stdin_cmd, false);
    assert!(t.use_standard_input);
    assert_eq!(t.command, stdin_cmd);
}

fn pairs(v: &[(&str, &str)]) -> Vec<(String, String)> {
    v.iter().map(|(a, b)| (a.to_string(), b.to_string())).collect()
}

#[test]
fn backend_invocation_with_input_file() {
    let cmd = vec!["./prog".to_string(), "@@".to_string()];
    let s = SymCC::new("/out/helper", &cmd, true);
    let inv = s.invocation("/tmp/x/output");
    assert_eq!(inv.program, "timeout");
    assert_eq!(
        inv.args,
        vec!["-k", "15", "90", "./prog", "/out/helper/.cur_input"]
            .into_iter()
            .map(String::from)
            .collect::<Vec<_>>()
    );
    assert_eq!(
        inv.env,
        pairs(&[
            ("SYMCC_ENABLE_LINEARIZATION", "1"),
            ("SYMCC_OUTPUT_DIR", "/tmp/x/output"),
            ("SYMCC_AFL_COVERAGE_MAP", "/out/helper/bitmap"),
            ("SYMCC_INPUT_FILE", "/out/helper/.cur_input"),
        ])
    );
    assert_eq!(inv.stdin_file, None);
}

#[test]
fn backend_invocation_with_standard_input() {
    let cmd = vec!["./prog".to_string()];
    let s = SymCC::new("/out/helper", &cmd, false);
    let inv = s.invocation("/o");
    assert_eq!(
        inv.env,
        pairs(&[("SYMCC_ENABLE_LINEARIZATION", "1"), ("SYMCC_OUTPUT_DIR", "/o")])
    );
    assert_eq!(inv.stdin_file, Some("/out/helper/.cur_input".to_string()));
}

#[test]
fn timeout_exit_means_killed() {
    let r = SymCCResult::from_run(vec![], Some(124), None, 5, None);
    assert!(r.killed);
    let r = SymCCResult::from_run(vec![], Some(137), None, 5, None);
    assert!(r.killed);
    let r = SymCCResult::from_run(vec![], None, Some(11), 5, None);
    assert!(r.killed);
}

#[test]
fn normal_exit_keeps_generated_files() {
    let files = vec!["/o/000000".to_string(), "/o/000001".to_string()];
    let r = SymCCResult::from_run(files.clone(), Some(0), None, 2_000_000, Some(700));
    assert!(!r.killed);
    assert_eq!(r.test_cases, files);
    assert_eq!(r.time, 2_000_000);
    assert_eq!(r.solver_time, Some(700_000));
    let r = SymCCResult::from_run(vec![], Some(1), None, 5, None);
    assert!(!r.killed);
    assert_eq!(r.solver_time, None);
}

#[test]
fn solver_time_is_capped_at_wall_time() {
    let r = SymCCResult::from_run(vec![], Some(0), None, 1_500, Some(2));
    assert_eq!(r.solver_time, Some(1_500));
}
