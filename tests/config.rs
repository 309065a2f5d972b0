use symcc_fuzzing_helper::config::parse_command_line;
use symcc_fuzzing_helper::{AflConfig, AflMap, AflShowmapResult, ConfigError};

const STATS: &str = "start_time        : 1587390126
last_update       : 1587390246
fuzzer_pid        : 12345
command_line      : /usr/local/bin/afl-fuzz -M fuzzer -i in -o out -- ./target -x @@
target_mode       : default
";

fn words(v: &[&str]) -> Vec<String> {
    v.iter().map(|s| s.to_string()).collect()
}

#[test]
fn command_line_is_split_on_whitespace() {
    assert_eq!(
        parse_command_line(STATS),
        Ok(words(&[
            "/usr/local/bin/afl-fuzz",
            "-M",
            "fuzzer",
            "-i",
            "in",
            "-o",
            "out",
            "--",
            "./target",
            "-x",
            "@@"
        ]))
    );
}

#[test]
fn config_from_stats() {
    let c = AflConfig::from_stats(STATS, "/out/fuzzer").unwrap();
    assert_eq!(c.show_map, "/usr/local/bin/afl-showmap");
    assert_eq!(c.target_command, words(&["./target", "-x", "@@"]));
    assert!(!c.use_standard_input);
    assert!(!c.use_qemu_mode);
    assert_eq!(c.queue, "/out/fuzzer/queue");
}

#[test]
fn stdin_and_qemu_flags() {
    let c = AflConfig::from_command(&words(&["afl-fuzz", "-Q", "--", "./t"]), "o").unwrap();
    assert!(c.use_standard_input);
    assert!(c.use_qemu_mode);
    assert_eq!(c.show_map, "afl-showmap");
    let c = AflConfig::from_command(&words(&["afl-fuzz", "-f", "x", "--", "./t"]), "o").unwrap();
    assert!(!c.use_standard_input);
}

#[test]
fn config_errors() {
    assert_eq!(
        AflConfig::from_stats("a: b\n", "o").err(),
        Some(ConfigError::MissingCommandLine)
    );
    assert_eq!(
        AflConfig::from_stats("command_line x -- y\n", "o").err(),
        Some(ConfigError::MalformedCommandLine)
    );
    assert_eq!(
        AflConfig::from_stats("command_line: afl-fuzz -i in\n", "o").err(),
        Some(ConfigError::CommandTooShort)
    );
    assert_eq!(
        AflConfig::from_stats("command_line: afl-fuzz --\n", "o").err(),
        Some(ConfigError::CommandTooShort)
    );
    assert_eq!(
        AflConfig::from_command(&words(&["/", "--", "./t"]), "o").err(),
        Some(ConfigError::NoBinaryDirectory)
    );
}

#[test]
fn first_matching_line_wins() {
    let stats = "x: 1\r\ncommand_line: a -- b\r\ncommand_line: c -- d\n";
    assert_eq!(parse_command_line(stats), Ok(words(&["a", "--", "b"])));
}

#[test]
fn showmap_invocation_with_placeholder() {
    let c = AflConfig::from_stats(STATS, "/out/fuzzer").unwrap();
    let inv = c.showmap_invocation("/tmp/bm", "/tmp/case");
    assert_eq!(inv.program, "/usr/local/bin/afl-showmap");
    assert_eq!(
        inv.args,
        words(&["-t", "5000", "-m", "none", "-b", "-o", "/tmp/bm", "--", "./target", "-x", "/tmp/case"])
    );
    assert_eq!(inv.env, vec![("AFL_MAP_SIZE".to_string(), "65536".to_string())]);
    assert_eq!(inv.stdin_file, None);
}

#[test]
fn showmap_invocation_with_stdin_and_qemu() {
    let c = AflConfig::from_command(&words(&["afl-fuzz", "-Q", "--", "./t"]), "o").unwrap();
    let inv = c.showmap_invocation("/bm", "/case");
    assert_eq!(
        inv.args,
        words(&["-Q", "-t", "5000", "-m", "none", "-b", "-o", "/bm", "--", "./t"])
    );
    assert_eq!(inv.stdin_file, Some("/case".to_string()));
}

#[test]
fn showmap_exit_codes() {
    let mut bytes = vec![0u8; 65536];
    bytes[7] = 3;
    match AflShowmapResult::from_exit(Some(0), Some(bytes.clone())) {
        AflShowmapResult::Success(m) => {
            let mut empty = AflMap::new();
            assert!(empty.merge(&m));
        }
        _ => panic!("expected a success"),
    }
    assert!(matches!(AflShowmapResult::from_exit(Some(0), Some(vec![0u8; 10])), AflShowmapResult::Ignore));
    assert!(matches!(AflShowmapResult::from_exit(Some(0), None), AflShowmapResult::Ignore));
    assert!(matches!(AflShowmapResult::from_exit(Some(1), None), AflShowmapResult::Hang));
    assert!(matches!(AflShowmapResult::from_exit(Some(2), None), AflShowmapResult::Crash));
    assert!(matches!(AflShowmapResult::from_exit(Some(3), None), AflShowmapResult::Ignore));
    assert!(matches!(AflShowmapResult::from_exit(None, None), AflShowmapResult::Ignore));
}
