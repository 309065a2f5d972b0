//! The symbolic backend's configuration and the interpretation of its runs.
use vstd::prelude::*;
use vstd::utf8::{decode_utf8, valid_utf8};

use crate::invocation::{env_texts, opt_text, Invocation};
use crate::paths::{join_path, path_join};
use crate::text::{append_strings, clone_strings, parse_u64, parse_u64_spec, starts_with_after_space, texts, trim_start};

verus! {

/// The token in a command that stands for the input file.
pub open spec fn placeholder() -> Seq<char> {
    seq!['@', '@']
}

/// `command` with its first placeholder token replaced by `input_file`.
pub open spec fn with_input_file(command: Seq<Seq<char>>, input_file: Seq<char>) -> Seq<Seq<char>> {
    match command.index_of_first(placeholder()) {
        Some(i) => command.update(i, input_file),
        None => command,
    }
}

/// Replace the first `@@` in the given command line with the input file.
pub fn insert_input_file(command: &Vec<String>, input_file: &str) -> (r: Vec<String>)
    ensures
        texts(r@) == with_input_file(texts(command@), input_file@),
{
    let ghost cmd = texts(command@);
    let marker = "@@".to_owned();
    proof {
        reveal_strlit("@@");
    }
    assert(marker@ =~= placeholder());
    let mut fixed = clone_strings(command);
    let mut i: usize = 0;
    while i < fixed.len()
        invariant
            cmd == texts(command@),
            marker@ == placeholder(),
            texts(fixed@) == cmd,
            0 <= i <= fixed.len(),
            forall|j: int| 0 <= j < i ==> cmd[j] != placeholder(),
        decreases fixed.len() - i,
    {
        if fixed[i] == marker {
            proof {
                cmd.index_of_first_ensures(placeholder());
                assert(cmd[i as int] == placeholder());
            }
            fixed.set(i, input_file.to_owned());
            assert(texts(fixed@) =~= cmd.update(i as int, input_file@));
            return fixed;
        }
        i = i + 1;
    }
    proof {
        cmd.index_of_first_ensures(placeholder());
    }
    fixed
}

/// Exit code of the timeout wrapper when the wrapped program timed out.
pub const TIMEOUT_EXIT: i32 = 124;

/// Exit code that conventionally encodes termination by `SIGKILL`
/// (128 + 9); the timeout wrapper returns it after its forced kill.
pub const KILLED_EXIT: i32 = 137;

/// Whether a run of the backend ended by being killed: the exit code is the
/// timeout wrapper's or the one of `SIGKILL`, or there is no exit code and
/// the process was terminated by a signal.
pub open spec fn killed_spec(code: Option<i32>, signal: Option<i32>) -> bool {
    match code {
        Some(c) => c == TIMEOUT_EXIT || c == KILLED_EXIT,
        None => signal is Some,
    }
}

/// The run-time configuration of the symbolic backend.
pub struct SymCC {
    /// Do we pass data to standard input?
    pub use_standard_input: bool,
    /// The cumulative bitmap for branch pruning.
    pub bitmap: String,
    /// Actually use the bitmap?
    pub use_bitmap: bool,
    /// The place to store the current input.
    pub input_file: String,
    /// The command to run, with the input file in place of the placeholder.
    pub command: Vec<String>,
}

/// The result of executing the backend.
pub struct SymCCResult {
    /// The generated test cases.
    pub test_cases: Vec<String>,
    /// Whether the process was killed (e.g., out of memory, timeout).
    pub killed: bool,
    /// The total time taken by the execution, in nanoseconds.
    pub time: u128,
    /// The time spent in the solver, in nanoseconds, when the backend
    /// reported it.
    pub solver_time: Option<u128>,
}

/// The log line marker of the backend's solver statistics.
pub open spec fn smt_marker() -> Seq<char> {
    "[STAT] SMT:"@
}

/// The pattern of the solving-time field of a statistics line.
pub open spec fn solving_time_pattern() -> Seq<char> {
    "\"solving_time\": (\\d+)"@
}

/// What `regex::Regex::captures` finds as the first capture group of the
/// leftmost match of `pattern` in `text`; nothing for an invalid pattern.
pub uninterp spec fn regex_first_group(pattern: Seq<char>, text: Seq<char>) -> Option<Seq<char>>;

/// Relies on `regex::Regex::new` and `regex::Regex::captures`: the text of
/// the first capture group of the leftmost match of `pattern` in `text`,
/// which depends on the two strings alone.
#[verifier::external_body]
fn regex_group(pattern: &str, text: &str) -> (r: Option<String>)
    ensures
        opt_text(r) == regex_first_group(pattern@, text@),
{
    let re = regex::Regex::new(pattern).ok()?;
    re.captures(text).and_then(|c| c.get(1)).map(|m| m.as_str().to_string())
}

/// Relies on `std::str::from_utf8`: the text of `bytes` when they are valid
/// UTF-8.
#[verifier::external_body]
fn utf8_text(bytes: &[u8]) -> (r: Option<&str>)
    ensures
        r is Some <==> valid_utf8(bytes@),
        r matches Some(t) ==> t@ == decode_utf8(bytes@),
{
    std::str::from_utf8(bytes).ok()
}

/// The solver time, in microseconds, that one line of the backend's log
/// reports: a valid UTF-8 line that starts, after whitespace, with the
/// statistics marker, and whose solving-time field holds a number.
pub open spec fn line_solver_time(line: Seq<u8>) -> Option<u64> {
    if !valid_utf8(line) {
        None
    } else if !smt_marker().is_prefix_of(trim_start(decode_utf8(line))) {
        None
    } else {
        match regex_first_group(solving_time_pattern(), decode_utf8(line)) {
            Some(digits) => parse_u64_spec(digits),
            None => None,
        }
    }
}

/// Position of the last newline among the first `end` bytes of `b`, or -1.
pub open spec fn newline_before(b: Seq<u8>, end: int) -> int
    decreases end,
{
    if end <= 0 {
        -1
    } else if b[end - 1] == 10 {
        end - 1
    } else {
        newline_before(b, end - 1)
    }
}

proof fn lemma_newline_before(b: Seq<u8>, end: int)
    requires
        0 <= end <= b.len(),
    ensures
        -1 <= newline_before(b, end) < end,
    decreases end,
{
    if end > 0 && b[end - 1] != 10 {
        lemma_newline_before(b, end - 1);
    }
}

/// The solver time reported by the first `end` bytes of a log: that of its
/// last line that reports one.
pub open spec fn solver_time_upto(b: Seq<u8>, end: int) -> Option<u64>
    decreases end,
    when 0 <= end <= b.len()
    via solver_time_upto_decreases
{
    let k = newline_before(b, end);
    let v = line_solver_time(b.subrange(k + 1, end));
    if v is Some || k < 0 {
        v
    } else {
        solver_time_upto(b, k)
    }
}

#[via_fn]
proof fn solver_time_upto_decreases(b: Seq<u8>, end: int) {
    lemma_newline_before(b, end);
}

/// The solver time that a whole log reports: that of its last line that
/// reports one.
pub open spec fn solver_time_spec(log: Seq<u8>) -> Option<u64> {
    solver_time_upto(log, log.len() as int)
}

impl SymCC {
    /// Create a new configuration that keeps its files in `output_dir`.
    pub fn new(output_dir: &str, command: &Vec<String>, use_bitmap: bool) -> (s: SymCC)
        ensures
            s.input_file@ == path_join(output_dir@, ".cur_input"@),
            s.bitmap@ == path_join(output_dir@, "bitmap"@),
            s.use_bitmap == use_bitmap,
            s.use_standard_input == !texts(command@).contains(placeholder()),
            texts(s.command@) == with_input_file(texts(command@), s.input_file@),
    {
        let input_file = join_path(output_dir, ".cur_input");
        let bitmap = join_path(output_dir, "bitmap");
        let fixed = insert_input_file(command, input_file.as_str());
        let use_standard_input = !contains_placeholder(command);
        SymCC { use_standard_input, bitmap, use_bitmap, command: fixed, input_file }
    }

    /// Try to extract the solver time, in microseconds, from the log that
    /// the backend wrote to its standard error: the value of the last line
    /// that reports one.
    pub fn parse_solver_time(output: &[u8]) -> (r: Option<u64>)
        ensures
            r == solver_time_spec(output@),
    {
        let pattern = "\"solving_time\": (\\d+)";
        let marker = "[STAT] SMT:";
        let ghost b = output@;
        let mut end: usize = output.len();
        loop
            invariant
                b == output@,
                0 <= end <= b.len(),
                solver_time_spec(b) == solver_time_upto(b, end as int),
                pattern@ == solving_time_pattern(),
                marker@ == smt_marker(),
            decreases end,
        {
            let mut k: usize = end;
            while k > 0 && output[k - 1] != 10u8
                invariant
                    b == output@,
                    0 <= k <= end <= b.len(),
                    newline_before(b, end as int) == newline_before(b, k as int),
                decreases k,
            {
                k = k - 1;
            }
            proof {
                lemma_newline_before(b, end as int);
            }
            assert(newline_before(b, end as int) == k - 1);
            let line = &output[k..end];
            let v = Self::line_solver_time(line, pattern, marker);
            if v.is_some() || k == 0 {
                return v;
            }
            end = k - 1;
        }
    }

    fn line_solver_time(line: &[u8], pattern: &str, marker: &str) -> (r: Option<u64>)
        requires
            pattern@ == solving_time_pattern(),
            marker@ == smt_marker(),
        ensures
            r == line_solver_time(line@),
    {
        match utf8_text(line) {
            None => None,
            Some(text) => {
                if !starts_with_after_space(text, marker) {
                    None
                } else {
                    match regex_group(pattern, text) {
                        Some(digits) => parse_u64(digits.as_str()),
                        None => None,
                    }
                }
            },
        }
    }

    /// How to start the backend on the current input, writing the test
    /// cases it generates to `output_dir`: under the timeout wrapper, which
    /// stops it after 90 seconds and kills it 15 seconds later.
    pub fn invocation(&self, output_dir: &str) -> (r: Invocation)
        ensures
            r.program@ == "timeout"@,
            r.arg_texts() == seq!["-k"@, "15"@, "90"@] + texts(self.command@),
            r.env_view() == seq![
                ("SYMCC_ENABLE_LINEARIZATION"@, "1"@),
                ("SYMCC_OUTPUT_DIR"@, output_dir@),
            ] + (if self.use_bitmap {
                seq![("SYMCC_AFL_COVERAGE_MAP"@, self.bitmap@)]
            } else {
                Seq::empty()
            }) + (if self.use_standard_input {
                Seq::empty()
            } else {
                seq![("SYMCC_INPUT_FILE"@, self.input_file@)]
            }),
            opt_text(r.stdin_file) == if self.use_standard_input {
                Some(self.input_file@)
            } else {
                None::<Seq<char>>
            },
    {
        let mut args: Vec<String> = vec!["-k".to_owned(), "15".to_owned(), "90".to_owned()];
        let ghost prefix = texts(args@);
        append_strings(&mut args, &self.command);
        assert(prefix =~= seq!["-k"@, "15"@, "90"@]);
        let mut env: Vec<(String, String)> = vec![
            ("SYMCC_ENABLE_LINEARIZATION".to_owned(), "1".to_owned()),
            ("SYMCC_OUTPUT_DIR".to_owned(), output_dir.to_owned()),
        ];
        let ghost e0 = env_texts(env@);
        assert(e0 =~= seq![
            ("SYMCC_ENABLE_LINEARIZATION"@, "1"@),
            ("SYMCC_OUTPUT_DIR"@, output_dir@),
        ]);
        if self.use_bitmap {
            env.push(("SYMCC_AFL_COVERAGE_MAP".to_owned(), self.bitmap.clone()));
        }
        let ghost e1 = env_texts(env@);
        assert(e1 =~= e0 + (if self.use_bitmap {
            seq![("SYMCC_AFL_COVERAGE_MAP"@, self.bitmap@)]
        } else {
            Seq::empty()
        }));
        let stdin_file = if self.use_standard_input {
            Some(self.input_file.clone())
        } else {
            env.push(("SYMCC_INPUT_FILE".to_owned(), self.input_file.clone()));
            None
        };
        assert(env_texts(env@) =~= e1 + (if self.use_standard_input {
            Seq::empty()
        } else {
            seq![("SYMCC_INPUT_FILE"@, self.input_file@)]
        }));
        Invocation { program: "timeout".to_owned(), args, env, stdin_file }
    }
}

/// Whether the command holds the placeholder token.
fn contains_placeholder(command: &Vec<String>) -> (r: bool)
    ensures
        r == texts(command@).contains(placeholder()),
{
    let marker = "@@".to_owned();
    proof {
        reveal_strlit("@@");
    }
    assert(marker@ =~= placeholder());
    let mut i: usize = 0;
    while i < command.len()
        invariant
            marker@ == placeholder(),
            0 <= i <= command.len(),
            forall|j: int| 0 <= j < i ==> texts(command@)[j] != placeholder(),
        decreases command.len() - i,
    {
        if command[i] == marker {
            assert(texts(command@)[i as int] == placeholder());
            return true;
        }
        i = i + 1;
    }
    false
}

impl SymCCResult {
    /// Interpret a finished run: the files found in the output directory,
    /// the exit code or terminating signal, the wall time in nanoseconds,
    /// and the solver time in microseconds that the log reported. The
    /// solver time is capped at the wall time.
    pub fn from_run(
        test_cases: Vec<String>,
        code: Option<i32>,
        signal: Option<i32>,
        time: u128,
        solver_micros: Option<u64>,
    ) -> (r: SymCCResult)
        ensures
            r.test_cases == test_cases,
            r.killed == killed_spec(code, signal),
            r.time == time,
            r.solver_time == match solver_micros {
                Some(t) => Some(
                    if t * 1000 <= time {
                        (t * 1000) as u128
                    } else {
                        time
                    },
                ),
                None => None::<u128>,
            },
    {
        let killed = match code {
            Some(c) => c == TIMEOUT_EXIT || c == KILLED_EXIT,
            None => signal.is_some(),
        };
        let solver_time = match solver_micros {
            Some(t) => {
                let nanos = t as u128 * 1000;
                Some(
                    if nanos <= time {
                        nanos
                    } else {
                        time
                    },
                )
            },
            None => None,
        };
        SymCCResult { test_cases, killed, time, solver_time }
    }
}

/// A run that ends with the timeout wrapper's exit code counts as killed;
/// one that ends with any exit code other than that and the one of
/// `SIGKILL` does not.
pub proof fn lemma_timeout_means_killed(code: i32, signal: Option<i32>)
    ensures
        killed_spec(Some(TIMEOUT_EXIT), signal),
        code != TIMEOUT_EXIT && code != KILLED_EXIT ==> !killed_spec(Some(code), signal),
{
}

} // verus!
