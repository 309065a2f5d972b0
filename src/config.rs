//! The fuzzer's configuration as recovered from its persisted statistics,
//! and the coverage probe.
use vstd::prelude::*;
use vstd::hash_set::StringHashSet;

use crate::coverage::{AflMap, MAP_SIZE};
use crate::error::ConfigError;
use crate::executor::{insert_input_file, placeholder, with_input_file};
use crate::invocation::{opt_text, Invocation};
use crate::score::{best_entry, has_candidate, is_best, QueueEntry};
use crate::paths::{join_path, parent_path, path_join, path_parent};
use crate::text::{append_strings, chars_of, decimal, zero_padded_decimal, find_text, is_space, is_space_char, strings_from, texts};

verus! {

/// The key of the statistics line that holds the fuzzer's command line.
pub open spec fn command_line_key() -> Seq<char> {
    "command_line"@
}

/// Whether a line of `s` that begins with the command-line key starts at
/// position `p`.
pub open spec fn is_key_line(s: Seq<char>, p: int) -> bool {
    &&& 0 <= p <= s.len()
    &&& (p == 0 || s[p - 1] == '\n')
    &&& command_line_key().is_prefix_of(s.skip(p))
}

/// Where the first line of `s` that begins with the command-line key starts.
pub open spec fn first_key_line(s: Seq<char>) -> Option<int> {
    if exists|p: int| is_key_line(s, p) && forall|q: int| 0 <= q < p ==> !is_key_line(s, q) {
        Some(choose|p: int| is_key_line(s, p) && forall|q: int| 0 <= q < p ==> !is_key_line(s, q))
    } else {
        None
    }
}

/// Position of the first `c` in `s` at or after `i`, or the length of `s`.
pub open spec fn next_char_at(s: Seq<char>, i: int, c: char) -> int
    decreases s.len() - i,
{
    if i < 0 || i >= s.len() {
        s.len() as int
    } else if s[i] == c {
        i
    } else {
        next_char_at(s, i + 1, c)
    }
}

/// The whitespace-separated words of `s`, in order.
pub open spec fn words(s: Seq<char>) -> Seq<Seq<char>>
    decreases s.len(),
{
    if s.len() == 0 {
        Seq::empty()
    } else {
        let w = words(s.drop_last());
        let c = s.last();
        if is_space(c) {
            w
        } else if s.len() >= 2 && !is_space(s[s.len() - 2]) {
            w.drop_last().push(w.last().push(c))
        } else {
            w.push(seq![c])
        }
    }
}

/// The words of the fuzzer's command line as its statistics `s` record it:
/// the first line that begins with `command_line`, after its first `:`.
pub open spec fn command_line_words(s: Seq<char>) -> Result<Seq<Seq<char>>, ConfigError> {
    match first_key_line(s) {
        None => Err(ConfigError::MissingCommandLine),
        Some(p) => {
            let end = next_char_at(s, p, '\n');
            let colon = next_char_at(s, p, ':');
            if colon >= end {
                Err(ConfigError::MalformedCommandLine)
            } else {
                Ok(words(s.subrange(colon + 1, end)))
            }
        },
    }
}

proof fn lemma_next_char_at(s: Seq<char>, i: int, c: char)
    requires
        0 <= i <= s.len(),
    ensures
        i <= next_char_at(s, i, c) <= s.len(),
        next_char_at(s, i, c) < s.len() ==> s[next_char_at(s, i, c)] == c,
        forall|j: int| i <= j < next_char_at(s, i, c) ==> s[j] != c,
    decreases s.len() - i,
{
    if i < s.len() && s[i] != c {
        lemma_next_char_at(s, i + 1, c);
    }
}

proof fn lemma_words_nonempty(s: Seq<char>)
    requires
        s.len() > 0,
        !is_space(s.last()),
    ensures
        words(s).len() > 0,
        words(s).last().len() > 0,
    decreases s.len(),
{
    if s.len() >= 2 && !is_space(s[s.len() - 2]) {
        lemma_words_nonempty(s.drop_last());
    }
}

/// Position of the first `c` in `s` at or after `i`, or the length of `s`.
fn find_char(s: &Vec<char>, i: usize, c: char) -> (r: usize)
    requires
        i <= s@.len(),
    ensures
        r == next_char_at(s@, i as int, c),
{
    let mut j = i;
    while j < s.len() && s[j] != c
        invariant
            i <= j <= s@.len(),
            next_char_at(s@, i as int, c) == next_char_at(s@, j as int, c),
        decreases s@.len() - j,
    {
        j = j + 1;
    }
    j
}

/// The whitespace-separated words of `s[from..to]`.
fn split_words(s: &Vec<char>, from: usize, to: usize) -> (r: Vec<String>)
    requires
        from <= to <= s@.len(),
    ensures
        texts(r@) == words(s@.subrange(from as int, to as int)),
{
    let mut r: Vec<String> = Vec::new();
    let mut i = from;
    while i < to
        invariant
            from <= i <= to <= s@.len(),
            texts(r@) == words(s@.subrange(from as int, i as int)),
        decreases to - i,
    {
        let c = s[i];
        let ghost before = s@.subrange(from as int, i as int);
        let ghost after = s@.subrange(from as int, i + 1);
        assert(after.drop_last() =~= before);
        if !is_space_char(c) {
            if i > from && !is_space_char(s[i - 1]) {
                proof {
                    assert(before.last() == s@[i - 1]);
                    lemma_words_nonempty(before);
                }
                let mut word = r.pop().unwrap();
                crate::text::push_char(&mut word, c);
                r.push(word);
                assert(texts(r@) =~= words(before).drop_last().push(words(before).last().push(c)));
            } else {
                let mut word = String::new();
                crate::text::push_char(&mut word, c);
                r.push(word);
                assert(texts(r@) =~= words(before).push(seq![c]));
            }
        }
        i = i + 1;
    }
    r
}

/// Whether the line of `s` that starts at `p` begins with the key.
fn key_at(s: &Vec<char>, key: &Vec<char>, p: usize) -> (r: bool)
    requires
        p <= s@.len(),
        key@ == command_line_key(),
    ensures
        r == command_line_key().is_prefix_of(s@.skip(p as int)),
{
    let n = s.len();
    if n - p < key.len() {
        return false;
    }
    let mut j: usize = 0;
    while j < key.len()
        invariant
            p + key@.len() <= s@.len(),
            key@ == command_line_key(),
            n == s@.len(),
            0 <= j <= key@.len(),
            forall|k: int| 0 <= k < j ==> key@[k] == s@[p + k],
        decreases key@.len() - j,
    {
        if s[p + j] != key[j] {
            assert(s@.skip(p as int)[j as int] == s@[p + j]);
            return false;
        }
        j = j + 1;
    }
    assert(key@ =~= s@.skip(p as int).subrange(0, key@.len() as int));
    true
}

/// The words of the fuzzer's command line from the text of its statistics
/// file: those of the first line keyed `command_line`, after its first `:`.
pub fn parse_command_line(stats: &str) -> (r: Result<Vec<String>, ConfigError>)
    ensures
        match command_line_words(stats@) {
            Ok(w) => r matches Ok(v) && texts(v@) == w,
            Err(e) => r == Err::<Vec<String>, ConfigError>(e),
        },
{
    let s = chars_of(stats);
    let key = chars_of("command_line");
    proof {
        reveal_strlit("command_line");
    }
    let mut p: usize = 0;
    loop
        invariant
            s@ == stats@,
            key@ == command_line_key(),
            p <= s@.len(),
            p == 0 || s@[p - 1] == '\n',
            forall|q: int| 0 <= q < p ==> !is_key_line(s@, q),
        ensures
            p <= s@.len(),
            p == 0 || s@[p - 1] == '\n',
            forall|q: int| 0 <= q < p ==> !is_key_line(s@, q),
            command_line_key().is_prefix_of(s@.skip(p as int)),
        decreases s@.len() - p,
    {
        if key_at(&s, &key, p) {
            break;
        }
        let nl = find_char(&s, p, '\n');
        proof {
            lemma_next_char_at(s@, p as int, '\n');
            assert forall|q: int| 0 <= q < nl + 1 implies !is_key_line(s@, q) by {
                if p < q <= nl {
                    assert(s@[q - 1] != '\n');
                }
            }
        }
        if nl == s.len() {
            proof {
                assert forall|q: int| is_key_line(s@, q) implies false by {
                    if q > p {
                        assert(s@[q - 1] != '\n');
                    }
                }
            }
            return Err(ConfigError::MissingCommandLine);
        }
        p = nl + 1;
    }
    assert(is_key_line(s@, p as int));
    assert(first_key_line(s@) == Some(p as int)) by {
        let q = choose|q: int| is_key_line(s@, q) && forall|r: int| 0 <= r < q ==> !is_key_line(s@, r);
        if q < p {
        } else if q > p {
        }
    }
    let end = find_char(&s, p, '\n');
    let colon = find_char(&s, p, ':');
    if colon >= end {
        return Err(ConfigError::MalformedCommandLine);
    }
    proof {
        lemma_next_char_at(s@, p as int, '\n');
    }
    Ok(split_words(&s, colon + 1, end))
}

/// Information on the run-time environment, recovered from the fuzzer's
/// statistics. It does not change during execution.
pub struct AflConfig {
    /// The location of the coverage probe.
    pub show_map: String,
    /// The command that the fuzzer uses to invoke the target program, after
    /// the `--` separator.
    pub target_command: Vec<String>,
    /// Do we need to pass data to standard input?
    pub use_standard_input: bool,
    /// Is the fuzzer using its emulation mode?
    pub use_qemu_mode: bool,
    /// The fuzzer instance's queue of test cases.
    pub queue: String,
}

/// Possible results of the coverage probe.
pub enum AflShowmapResult {
    /// The map was created successfully.
    Success(Box<AflMap>),
    /// The target timed out or failed to execute.
    Hang,
    /// The target crashed.
    Crash,
    /// Nothing can be said of the test case (e.g. on probe errors).
    Ignore,
}

/// The token that separates the fuzzer's own options from the target's
/// command.
pub open spec fn separator() -> Seq<char> {
    seq!['-', '-']
}

/// The configuration that the fuzzer's command-line words `cmd` describe
/// for the fuzzer instance whose output directory is `fuzzer_output`: its
/// probe's path, the target's command, whether the target reads standard
/// input, whether emulation mode is on, and the queue's path.
pub open spec fn config_of(cmd: Seq<Seq<char>>, fuzzer_output: Seq<char>) -> Result<
    (Seq<char>, Seq<Seq<char>>, bool, bool, Seq<char>),
    ConfigError,
> {
    match cmd.index_of_first(separator()) {
        None => Err(ConfigError::CommandTooShort),
        Some(i) => if i + 1 >= cmd.len() {
            Err(ConfigError::CommandTooShort)
        } else {
            match path_parent(cmd[0]) {
                None => Err(ConfigError::NoBinaryDirectory),
                Some(dir) => {
                    let target = cmd.skip(i + 1);
                    Ok(
                        (
                            path_join(dir, "afl-showmap"@),
                            target,
                            !target.contains(placeholder()) && !cmd.contains("-f"@),
                            cmd.contains("-Q"@),
                            path_join(fuzzer_output, "queue"@),
                        ),
                    )
                },
            }
        },
    }
}

impl AflConfig {
    /// The configuration as the tuple that `config_of` describes.
    pub open spec fn as_tuple(&self) -> (Seq<char>, Seq<Seq<char>>, bool, bool, Seq<char>) {
        (
            self.show_map@,
            texts(self.target_command@),
            self.use_standard_input,
            self.use_qemu_mode,
            self.queue@,
        )
    }

    /// The configuration described by the fuzzer's command-line words, for
    /// the fuzzer instance whose output directory is `fuzzer_output`.
    pub fn from_command(command: &Vec<String>, fuzzer_output: &str) -> (r: Result<
        AflConfig,
        ConfigError,
    >)
        ensures
            match config_of(texts(command@), fuzzer_output@) {
                Ok(t) => r matches Ok(c) && c.as_tuple() == t,
                Err(e) => r == Err::<AflConfig, ConfigError>(e),
            },
    {
        let ghost cmd = texts(command@);
        proof {
            reveal_strlit("--");
            reveal_strlit("@@");
            cmd.index_of_first_ensures(separator());
        }
        let sep_token = "--".to_owned();
        assert(sep_token@ =~= separator());
        let sep = find_text(command, 0, &sep_token);
        if sep == command.len() {
            return Err(ConfigError::CommandTooShort);
        }
        assert(cmd.index_of_first(separator()) == Some(sep as int));
        if sep + 1 >= command.len() {
            return Err(ConfigError::CommandTooShort);
        }
        let dir = match parent_path(command[0].as_str()) {
            None => {
                return Err(ConfigError::NoBinaryDirectory);
            },
            Some(d) => d,
        };
        let target_command = strings_from(command, sep + 1);
        let at_signs = "@@".to_owned();
        assert(at_signs@ =~= placeholder());
        let file_flag = "-f".to_owned();
        let qemu_flag = "-Q".to_owned();
        let in_target = find_text(&target_command, 0, &at_signs);
        let has_file_flag = find_text(command, 0, &file_flag) < command.len();
        let use_qemu_mode = find_text(command, 0, &qemu_flag) < command.len();
        let use_standard_input = in_target == target_command.len() && !has_file_flag;
        proof {
            let target = texts(target_command@);
            if in_target < target_command.len() {
                assert(target[in_target as int] == placeholder());
            }
            if has_file_flag {
                assert(cmd.contains(file_flag@));
            }
            if use_qemu_mode {
                assert(cmd.contains(qemu_flag@));
            }
        }
        let show_map = join_path(dir.as_str(), "afl-showmap");
        let queue = join_path(fuzzer_output, "queue");
        Ok(AflConfig { show_map, target_command, use_standard_input, use_qemu_mode, queue })
    }

    /// Read the configuration from the text of a fuzzer instance's
    /// statistics file; `fuzzer_output` is the instance's output directory.
    pub fn from_stats(stats: &str, fuzzer_output: &str) -> (r: Result<AflConfig, ConfigError>)
        ensures
            match command_line_words(stats@) {
                Err(e) => r == Err::<AflConfig, ConfigError>(e),
                Ok(w) => match config_of(w, fuzzer_output@) {
                    Ok(t) => r matches Ok(c) && c.as_tuple() == t,
                    Err(e) => r == Err::<AflConfig, ConfigError>(e),
                },
            },
    {
        let words = parse_command_line(stats)?;
        Self::from_command(&words, fuzzer_output)
    }
}


impl AflShowmapResult {
    /// Whether this is a success whose map has the contents `m`.
    pub open spec fn is_success_with(&self, m: Seq<u8>) -> bool {
        match self {
            AflShowmapResult::Success(map) => map@ == m,
            _ => false,
        }
    }

    /// Interpret a finished run of the probe: its exit code, and the
    /// contents of the bitmap file it wrote when it exited with 0 (nothing
    /// if that file could not be read). 0 with a bitmap of the right size is
    /// a success, 1 a hang, 2 a crash; anything else is indeterminate.
    pub fn from_exit(code: Option<i32>, bitmap: Option<Vec<u8>>) -> (r: AflShowmapResult)
        ensures
            match code {
                Some(0) => match bitmap {
                    Some(b) => if b@.len() == MAP_SIZE {
                        r.is_success_with(b@)
                    } else {
                        r is Ignore
                    },
                    None => r is Ignore,
                },
                Some(1) => r is Hang,
                Some(2) => r is Crash,
                _ => r is Ignore,
            },
    {
        match code {
            Some(0) => match bitmap {
                Some(b) => match AflMap::from_bytes(b) {
                    Ok(m) => AflShowmapResult::Success(Box::new(m)),
                    Err(_) => AflShowmapResult::Ignore,
                },
                None => AflShowmapResult::Ignore,
            },
            Some(1) => AflShowmapResult::Hang,
            Some(2) => AflShowmapResult::Crash,
            _ => AflShowmapResult::Ignore,
        }
    }
}

impl AflConfig {
    /// How to run the probe on `testcase`, writing its bitmap to
    /// `bitmap_path`: a 5-second timeout per run, no memory limit, raw
    /// bitmap output, emulation mode when the fuzzer uses it, and the test
    /// case on standard input or in place of the placeholder.
    pub fn showmap_invocation(&self, bitmap_path: &str, testcase: &str) -> (r: Invocation)
        ensures
            r.program@ == self.show_map@,
            r.arg_texts() == (if self.use_qemu_mode {
                seq!["-Q"@]
            } else {
                Seq::empty()
            }) + seq!["-t"@, "5000"@, "-m"@, "none"@, "-b"@, "-o"@, bitmap_path@, "--"@]
                + with_input_file(texts(self.target_command@), testcase@),
            r.env_view() == seq![("AFL_MAP_SIZE"@, decimal(MAP_SIZE as nat))],
            opt_text(r.stdin_file) == if self.use_standard_input {
                Some(testcase@)
            } else {
                None::<Seq<char>>
            },
    {
        let mut args: Vec<String> = Vec::new();
        if self.use_qemu_mode {
            args.push("-Q".to_owned());
        }
        let ghost a0 = texts(args@);
        assert(a0 =~= (if self.use_qemu_mode {
            seq!["-Q"@]
        } else {
            Seq::<Seq<char>>::empty()
        }));
        let fixed = vec![
            "-t".to_owned(),
            "5000".to_owned(),
            "-m".to_owned(),
            "none".to_owned(),
            "-b".to_owned(),
            "-o".to_owned(),
            bitmap_path.to_owned(),
            "--".to_owned(),
        ];
        assert(texts(fixed@) =~= seq!["-t"@, "5000"@, "-m"@, "none"@, "-b"@, "-o"@, bitmap_path@, "--"@]);
        append_strings(&mut args, &fixed);
        let target = insert_input_file(&self.target_command, testcase);
        append_strings(&mut args, &target);
        let env = vec![("AFL_MAP_SIZE".to_owned(), zero_padded_decimal(MAP_SIZE as u64, 0))];
        assert(crate::invocation::env_texts(env@) =~= seq![("AFL_MAP_SIZE"@, decimal(MAP_SIZE as nat))]);
        let stdin_file = if self.use_standard_input {
            Some(testcase.to_owned())
        } else {
            None
        };
        Invocation { program: self.show_map.clone(), args, env, stdin_file }
    }
}

impl AflConfig {
    /// Return the most promising unseen test case among the entries of the
    /// fuzzer's queue: the path of the last regular file outside `seen` with
    /// the highest score, or nothing if there is none.
    pub fn best_new_testcase(&self, entries: &Vec<QueueEntry>, seen: &StringHashSet) -> (r: Option<
        String,
    >)
        ensures
            r is None <==> !has_candidate(entries@, seen@),
            r matches Some(p) ==> exists|i: int|
                is_best(entries@, seen@, i) && p@ == entries@[i].path@,
    {
        match best_entry(entries, seen) {
            None => None,
            Some(i) => Some(entries[i].path.clone()),
        }
    }
}

} // verus!
