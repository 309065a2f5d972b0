//! Scoring of candidate test cases and the choice of the next one.
use vstd::prelude::*;
use vstd::hash_set::StringHashSet;

use core::cmp::Ordering;

verus! {

/// Order of two booleans: false before true.
pub open spec fn bool_cmp(a: bool, b: bool) -> Ordering {
    if a == b {
        Ordering::Equal
    } else if !a {
        Ordering::Less
    } else {
        Ordering::Greater
    }
}

/// Order of two integers.
pub open spec fn int_cmp(a: int, b: int) -> Ordering {
    if a < b {
        Ordering::Less
    } else if a > b {
        Ordering::Greater
    } else {
        Ordering::Equal
    }
}

/// Lexicographic order of two byte strings.
pub open spec fn bytes_cmp(a: Seq<u8>, b: Seq<u8>) -> Ordering
    decreases a.len(),
{
    if a.len() == 0 {
        if b.len() == 0 {
            Ordering::Equal
        } else {
            Ordering::Less
        }
    } else if b.len() == 0 {
        Ordering::Greater
    } else if a[0] < b[0] {
        Ordering::Less
    } else if a[0] > b[0] {
        Ordering::Greater
    } else {
        bytes_cmp(a.drop_first(), b.drop_first())
    }
}

/// A score as plain values: new coverage, derived from a seed, negated
/// size, name.
pub type ScoreView = (bool, bool, int, Seq<u8>);

/// Order of scores: by the new-coverage marker, then the seed marker, then
/// the negated size, then the name.
pub open spec fn score_cmp(a: ScoreView, b: ScoreView) -> Ordering {
    if bool_cmp(a.0, b.0) != Ordering::Equal {
        bool_cmp(a.0, b.0)
    } else if bool_cmp(a.1, b.1) != Ordering::Equal {
        bool_cmp(a.1, b.1)
    } else if int_cmp(a.2, b.2) != Ordering::Equal {
        int_cmp(a.2, b.2)
    } else {
        bytes_cmp(a.3, b.3)
    }
}

/// The marker `+cov` at the end of the name of a test case with new
/// coverage, as bytes.
pub open spec fn coverage_marker() -> Seq<u8> {
    seq![43u8, 99u8, 111u8, 118u8]
}

/// The marker `orig:` in the name of a test case derived from a seed
/// input, as bytes.
pub open spec fn seed_marker() -> Seq<u8> {
    seq![111u8, 114u8, 105u8, 103u8, 58u8]
}

pub open spec fn ends_with(s: Seq<u8>, suffix: Seq<u8>) -> bool {
    suffix.len() <= s.len() && s.skip(s.len() - suffix.len()) == suffix
}

pub open spec fn contains_at(s: Seq<u8>, part: Seq<u8>, i: int) -> bool {
    0 <= i && i + part.len() <= s.len() && s.subrange(i, i + part.len()) == part
}

pub open spec fn contains_bytes(s: Seq<u8>, part: Seq<u8>) -> bool {
    exists|i: int| contains_at(s, part, i)
}

/// The smallest score.
pub open spec fn minimum_score() -> ScoreView {
    (false, false, i128::MIN as int, Seq::empty())
}

/// The score of a test case with the given file name and size; the
/// smallest score when either could not be determined.
pub open spec fn score_of(name: Option<Seq<u8>>, size: Option<u64>) -> ScoreView {
    match (name, size) {
        (Some(n), Some(s)) => (
            ends_with(n, coverage_marker()),
            contains_bytes(n, seed_marker()),
            -(s as int),
            n,
        ),
        _ => minimum_score(),
    }
}

/// Score of a test case. Compared field by field, in order: a higher
/// score marks a more promising test case.
pub struct TestcaseScore {
    /// First criterion: new coverage.
    pub new_coverage: bool,
    /// Second criterion: being derived from seed inputs.
    pub derived_from_seed: bool,
    /// Third criterion: size (smaller is better).
    pub file_size: i128,
    /// Fourth criterion: name (containing the ID).
    pub base_name: Vec<u8>,
}

impl View for TestcaseScore {
    type V = ScoreView;

    open spec fn view(&self) -> ScoreView {
        (self.new_coverage, self.derived_from_seed, self.file_size as int, self.base_name@)
    }
}

fn ends_with_bytes(s: &Vec<u8>, suffix: &Vec<u8>) -> (r: bool)
    ensures
        r == ends_with(s@, suffix@),
{
    if suffix.len() > s.len() {
        return false;
    }
    let n = s.len();
    let off = n - suffix.len();
    let mut i: usize = 0;
    while i < suffix.len()
        invariant
            n == s@.len(),
            off + suffix@.len() == s@.len(),
            0 <= i <= suffix@.len(),
            forall|k: int| 0 <= k < i ==> suffix@[k] == s@[off + k],
        decreases suffix@.len() - i,
    {
        if s[off + i] != suffix[i] {
            assert(s@.skip(off as int)[i as int] == s@[off + i]);
            return false;
        }
        i = i + 1;
    }
    assert(s@.skip(off as int) =~= suffix@);
    true
}

fn contains_sub(s: &Vec<u8>, part: &Vec<u8>) -> (r: bool)
    ensures
        r == contains_bytes(s@, part@),
{
    if part.len() > s.len() {
        assert forall|i: int| !contains_at(s@, part@, i) by {}
        return false;
    }
    if part.len() == 0 {
        assert(s@.subrange(0, 0) =~= part@);
        assert(contains_at(s@, part@, 0));
        return true;
    }
    let n = s.len();
    let last = n - part.len();
    let mut i: usize = 0;
    while i <= last
        invariant
            n == s@.len(),
            part@.len() > 0,
            last + part@.len() == s@.len(),
            0 <= i <= last + 1,
            forall|k: int| 0 <= k < i ==> !contains_at(s@, part@, k),
        decreases last + 1 - i,
    {
        let mut j: usize = 0;
        let mut matched = true;
        while j < part.len()
            invariant
                n == s@.len(),
                i + part@.len() <= s@.len(),
                0 <= j <= part@.len(),
                matched ==> forall|k: int| 0 <= k < j ==> part@[k] == s@[i + k],
                !matched ==> !contains_at(s@, part@, i as int),
            decreases part@.len() - j,
        {
            if s[i + j] != part[j] {
                assert(s@.subrange(i as int, i + part@.len())[j as int] == s@[i + j]);
                matched = false;
            }
            j = j + 1;
        }
        if matched {
            assert(s@.subrange(i as int, i + part@.len()) =~= part@);
            assert(contains_at(s@, part@, i as int));
            return true;
        }
        i = i + 1;
    }
    assert forall|k: int| !contains_at(s@, part@, k) by {
        if 0 <= k < i {
        }
    }
    false
}

fn bytes_compare(a: &Vec<u8>, b: &Vec<u8>) -> (r: Ordering)
    ensures
        r == bytes_cmp(a@, b@),
{
    let mut i: usize = 0;
    assert(a@.skip(0) =~= a@ && b@.skip(0) =~= b@);
    while i < a.len() && i < b.len() && a[i] == b[i]
        invariant
            0 <= i <= a@.len(),
            i <= b@.len(),
            bytes_cmp(a@, b@) == bytes_cmp(a@.skip(i as int), b@.skip(i as int)),
        decreases a@.len() - i,
    {
        assert(a@.skip(i as int).drop_first() =~= a@.skip(i + 1));
        assert(b@.skip(i as int).drop_first() =~= b@.skip(i + 1));
        i = i + 1;
    }
    if i == a.len() {
        if i == b.len() {
            Ordering::Equal
        } else {
            Ordering::Less
        }
    } else if i == b.len() {
        Ordering::Greater
    } else if a[i] < b[i] {
        Ordering::Less
    } else {
        Ordering::Greater
    }
}

fn bool_compare(a: bool, b: bool) -> (r: Ordering)
    ensures
        r == bool_cmp(a, b),
{
    if a == b {
        Ordering::Equal
    } else if !a {
        Ordering::Less
    } else {
        Ordering::Greater
    }
}

impl TestcaseScore {
    /// Score a test case from its file name and size, either of which may
    /// be unknown (e.g. when the file has disappeared); then the score is
    /// the smallest one.
    pub fn new(name: Option<&Vec<u8>>, size: Option<u64>) -> (r: TestcaseScore)
        ensures
            r@ == score_of(
                match name {
                    Some(n) => Some(n@),
                    None => None,
                },
                size,
            ),
    {
        match (name, size) {
            (Some(n), Some(s)) => {
                let cov: Vec<u8> = vec![43u8, 99u8, 111u8, 118u8];
                let orig: Vec<u8> = vec![111u8, 114u8, 105u8, 103u8, 58u8];
                assert(cov@ =~= coverage_marker());
                assert(orig@ =~= seed_marker());
                TestcaseScore {
                    new_coverage: ends_with_bytes(n, &cov),
                    derived_from_seed: contains_sub(n, &orig),
                    file_size: -(s as i128),
                    base_name: n.clone(),
                }
            },
            _ => Self::minimum(),
        }
    }

    /// Return the smallest possible score.
    pub fn minimum() -> (r: TestcaseScore)
        ensures
            r@ == minimum_score(),
    {
        let r = TestcaseScore {
            new_coverage: false,
            derived_from_seed: false,
            file_size: i128::MIN,
            base_name: Vec::new(),
        };
        assert(r@ =~= minimum_score());
        r
    }

    /// Compare two scores.
    pub fn compare(&self, other: &TestcaseScore) -> (r: Ordering)
        ensures
            r == score_cmp(self@, other@),
    {
        let c = bool_compare(self.new_coverage, other.new_coverage);
        if !matches!(c, Ordering::Equal) {
            return c;
        }
        let c = bool_compare(self.derived_from_seed, other.derived_from_seed);
        if !matches!(c, Ordering::Equal) {
            return c;
        }
        if self.file_size < other.file_size {
            return Ordering::Less;
        }
        if self.file_size > other.file_size {
            return Ordering::Greater;
        }
        bytes_compare(&self.base_name, &other.base_name)
    }
}

impl PartialEq for TestcaseScore {
    fn eq(&self, other: &TestcaseScore) -> (r: bool) {
        matches!(self.compare(other), Ordering::Equal)
    }
}

impl vstd::std_specs::cmp::PartialEqSpecImpl for TestcaseScore {
    open spec fn obeys_eq_spec() -> bool {
        true
    }

    open spec fn eq_spec(&self, other: &TestcaseScore) -> bool {
        score_cmp(self@, other@) == Ordering::Equal
    }
}

impl PartialOrd for TestcaseScore {
    fn partial_cmp(&self, other: &TestcaseScore) -> (r: Option<Ordering>) {
        Some(self.compare(other))
    }
}

impl vstd::std_specs::cmp::PartialOrdSpecImpl for TestcaseScore {
    open spec fn obeys_partial_cmp_spec() -> bool {
        true
    }

    open spec fn partial_cmp_spec(&self, other: &TestcaseScore) -> Option<Ordering> {
        Some(score_cmp(self@, other@))
    }
}

proof fn lemma_bytes_cmp_flip(a: Seq<u8>, b: Seq<u8>)
    ensures
        (bytes_cmp(a, b) == Ordering::Less) <==> (bytes_cmp(b, a) == Ordering::Greater),
        (bytes_cmp(a, b) == Ordering::Equal) <==> (bytes_cmp(b, a) == Ordering::Equal),
    decreases a.len(),
{
    if a.len() > 0 && b.len() > 0 && a[0] == b[0] {
        lemma_bytes_cmp_flip(a.drop_first(), b.drop_first());
    }
}

proof fn lemma_bytes_cmp_trans(a: Seq<u8>, b: Seq<u8>, c: Seq<u8>)
    requires
        bytes_cmp(a, b) != Ordering::Greater,
        bytes_cmp(b, c) != Ordering::Greater,
    ensures
        bytes_cmp(a, c) != Ordering::Greater,
    decreases a.len(),
{
    if a.len() > 0 && b.len() > 0 && c.len() > 0 && a[0] == b[0] && b[0] == c[0] {
        lemma_bytes_cmp_trans(a.drop_first(), b.drop_first(), c.drop_first());
    }
}

proof fn lemma_bytes_cmp_refl(a: Seq<u8>)
    ensures
        bytes_cmp(a, a) == Ordering::Equal,
    decreases a.len(),
{
    if a.len() > 0 {
        lemma_bytes_cmp_refl(a.drop_first());
    }
}

/// Swapping the two scores reverses their order.
pub proof fn lemma_score_cmp_flip(a: ScoreView, b: ScoreView)
    ensures
        (score_cmp(a, b) == Ordering::Less) <==> (score_cmp(b, a) == Ordering::Greater),
        (score_cmp(a, b) == Ordering::Equal) <==> (score_cmp(b, a) == Ordering::Equal),
{
    lemma_bytes_cmp_flip(a.3, b.3);
}

/// The order of scores is transitive.
pub proof fn lemma_score_cmp_trans(a: ScoreView, b: ScoreView, c: ScoreView)
    requires
        score_cmp(a, b) != Ordering::Greater,
        score_cmp(b, c) != Ordering::Greater,
    ensures
        score_cmp(a, c) != Ordering::Greater,
{
    if a.0 == b.0 && b.0 == c.0 && a.1 == b.1 && b.1 == c.1 && a.2 == b.2 && b.2 == c.2 {
        lemma_bytes_cmp_trans(a.3, b.3, c.3);
    }
}

/// An entry of the fuzzer's queue directory as listed on disk: its path,
/// its file name, its size when it could be read, and whether it is a
/// regular file.
pub struct QueueEntry {
    pub path: String,
    pub name: Option<Vec<u8>>,
    pub size: Option<u64>,
    pub is_file: bool,
}

impl QueueEntry {
    /// The entry's score.
    pub open spec fn score(&self) -> ScoreView {
        score_of(
            match self.name {
                Some(n) => Some(n@),
                None => None,
            },
            self.size,
        )
    }

    /// Whether the entry is a regular file that has not been processed.
    pub open spec fn is_candidate(&self, seen: Set<Seq<char>>) -> bool {
        self.is_file && !seen.contains(self.path@)
    }
}

/// Whether entry `i` is the one selected from `entries`: a candidate whose
/// score no candidate exceeds, and that every later candidate scores below.
pub open spec fn is_best(entries: Seq<QueueEntry>, seen: Set<Seq<char>>, i: int) -> bool {
    &&& 0 <= i < entries.len()
    &&& entries[i].is_candidate(seen)
    &&& forall|j: int|
        0 <= j < entries.len() && #[trigger] entries[j].is_candidate(seen) ==> score_cmp(
            entries[j].score(),
            entries[i].score(),
        ) != Ordering::Greater
    &&& forall|j: int|
        i < j < entries.len() && #[trigger] entries[j].is_candidate(seen) ==> score_cmp(
            entries[j].score(),
            entries[i].score(),
        ) == Ordering::Less
}

/// Whether any of `entries` is a candidate.
pub open spec fn has_candidate(entries: Seq<QueueEntry>, seen: Set<Seq<char>>) -> bool {
    exists|j: int| 0 <= j < entries.len() && #[trigger] entries[j].is_candidate(seen)
}

/// The most promising candidate among `entries` not in `seen`: the position
/// of the last one with the highest score, or nothing if there is no
/// candidate.
pub fn best_entry(entries: &Vec<QueueEntry>, seen: &StringHashSet) -> (r: Option<usize>)
    ensures
        r is None <==> !has_candidate(entries@, seen@),
        r matches Some(i) ==> is_best(entries@, seen@, i as int),
{
    let mut best: Option<usize> = None;
    let mut best_score = TestcaseScore::minimum();
    let mut i: usize = 0;
    while i < entries.len()
        invariant
            0 <= i <= entries@.len(),
            best is None <==> !has_candidate(entries@.subrange(0, i as int), seen@),
            best matches Some(b) ==> is_best(entries@.subrange(0, i as int), seen@, b as int)
                && best_score@ == entries@[b as int].score(),
        decreases entries@.len() - i,
    {
        let ghost prefix = entries@.subrange(0, i as int);
        let ghost next = entries@.subrange(0, i + 1);
        assert(forall|j: int| 0 <= j < i ==> next[j] == prefix[j]);
        let e = &entries[i];
        if e.is_file && !seen.contains(e.path.as_str()) {
            let score = TestcaseScore::new(e.name.as_ref(), e.size);
            assert(score@ == next[i as int].score());
            let replace = match best {
                None => true,
                Some(_) => !matches!(score.compare(&best_score), Ordering::Less),
            };
            if replace {
                proof {
                    lemma_bytes_cmp_refl(score@.3);
                    if let Some(b) = best {
                        lemma_score_cmp_flip(score@, best_score@);
                        assert forall|j: int|
                            0 <= j < next.len() && #[trigger] next[j].is_candidate(
                                seen@,
                            ) implies score_cmp(next[j].score(), score@) != Ordering::Greater by {
                            if j < i {
                                assert(prefix[j].is_candidate(seen@));
                                lemma_score_cmp_trans(next[j].score(), best_score@, score@);
                            }
                        }
                    } else {
                        assert forall|j: int|
                            0 <= j < next.len() && #[trigger] next[j].is_candidate(
                                seen@,
                            ) implies score_cmp(next[j].score(), score@) != Ordering::Greater by {
                            if j < i {
                                assert(prefix[j].is_candidate(seen@));
                            }
                        }
                    }
                }
                best = Some(i);
                best_score = score;
            } else {
                proof {
                    let b = best->0;
                    assert forall|j: int|
                        b < j < next.len() && #[trigger] next[j].is_candidate(
                            seen@,
                        ) implies score_cmp(next[j].score(), best_score@) == Ordering::Less by {
                        if j < i {
                            assert(prefix[j].is_candidate(seen@));
                        }
                    }
                    assert forall|j: int|
                        0 <= j < next.len() && #[trigger] next[j].is_candidate(
                            seen@,
                        ) implies score_cmp(next[j].score(), best_score@) != Ordering::Greater by {
                        if j < i {
                            assert(prefix[j].is_candidate(seen@));
                        }
                    }
                }
            }
            assert(has_candidate(next, seen@)) by {
                assert(next[i as int].is_candidate(seen@));
            }
        } else {
            proof {
                assert(!next[i as int].is_candidate(seen@));
                if has_candidate(next, seen@) {
                    let j = choose|j: int| 0 <= j < next.len() && #[trigger] next[j].is_candidate(seen@);
                    assert(prefix[j].is_candidate(seen@));
                }
                if let Some(b) = best {
                    assert forall|j: int|
                        0 <= j < next.len() && #[trigger] next[j].is_candidate(
                            seen@,
                        ) implies score_cmp(next[j].score(), best_score@) != Ordering::Greater by {
                        if j < i {
                            assert(prefix[j].is_candidate(seen@));
                        }
                    }
                    assert forall|j: int|
                        b < j < next.len() && #[trigger] next[j].is_candidate(
                            seen@,
                        ) implies score_cmp(next[j].score(), best_score@) == Ordering::Less by {
                        if j < i {
                            assert(prefix[j].is_candidate(seen@));
                        }
                    }
                }
            }
        }
        i = i + 1;
    }
    assert(entries@.subrange(0, entries@.len() as int) =~= entries@);
    best
}

/// A test case named with the new-coverage marker outranks one named
/// without it, whatever else they are.
pub proof fn lemma_coverage_marker_outranks(a: ScoreView, b: ScoreView)
    requires
        a.0,
        !b.0,
    ensures
        score_cmp(a, b) == Ordering::Greater,
{
}

/// Of two readable test cases whose names carry the same markers, the
/// smaller file outranks the larger.
pub proof fn lemma_smaller_file_outranks(n1: Seq<u8>, s1: u64, n2: Seq<u8>, s2: u64)
    requires
        ends_with(n1, coverage_marker()) == ends_with(n2, coverage_marker()),
        contains_bytes(n1, seed_marker()) == contains_bytes(n2, seed_marker()),
        s1 < s2,
    ensures
        score_cmp(score_of(Some(n1), Some(s1)), score_of(Some(n2), Some(s2)))
            == Ordering::Greater,
{
}

/// A test case whose name or size cannot be read gets the smallest score:
/// no score of any test case is below it.
pub proof fn lemma_unreadable_scores_lowest(
    name: Option<Seq<u8>>,
    size: Option<u64>,
    other_name: Option<Seq<u8>>,
    other_size: Option<u64>,
)
    requires
        name is None || size is None,
    ensures
        score_of(name, size) == minimum_score(),
        score_cmp(score_of(name, size), score_of(other_name, other_size)) != Ordering::Greater,
{
    lemma_bytes_cmp_refl(Seq::<u8>::empty());
    if let (Some(n), Some(s)) = (other_name, other_size) {
        assert(-(s as int) > i128::MIN as int);
    }
}

/// An empty queue holds no candidate, so nothing is selected.
pub proof fn lemma_empty_queue_has_no_candidate(seen: Set<Seq<char>>)
    ensures
        !has_candidate(Seq::<QueueEntry>::empty(), seen),
{
}

} // verus!
