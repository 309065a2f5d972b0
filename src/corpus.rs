//! Output directories of test cases and their naming scheme.
use vstd::prelude::*;

use crate::error::FormatError;
use crate::text::{push_char, zero_padded, zero_padded_decimal};

verus! {

/// The prefix that every test-case name starts with.
pub open spec fn id_prefix() -> Seq<char> {
    seq!['i', 'd', ':']
}

/// The separator between a test case's own number and its parent's ID.
pub open spec fn src_separator() -> Seq<char> {
    seq![',', 's', 'r', 'c', ':']
}

/// The lineage ID of a parent test case: the six characters after the ID
/// prefix of its name.
pub open spec fn lineage_of(parent: Seq<char>) -> Result<Seq<char>, FormatError> {
    if !id_prefix().is_prefix_of(parent) {
        Err(FormatError::MissingIdPrefix)
    } else if parent.len() < 9 {
        Err(FormatError::MissingLineageId)
    } else {
        Ok(parent.subrange(3, 9))
    }
}

/// The name `id:NNNNNN,src:MMMMMM` of the test case numbered `id` whose
/// parent has lineage ID `lineage`.
pub open spec fn testcase_name(id: nat, lineage: Seq<char>) -> Seq<char> {
    id_prefix() + zero_padded(id, 6) + src_separator() + lineage
}

/// The name that a test case derived from `parent` gets as test case `id`.
pub open spec fn name_for_parent(id: nat, parent: Seq<char>) -> Result<Seq<char>, FormatError> {
    match lineage_of(parent) {
        Ok(lineage) => Ok(testcase_name(id, lineage)),
        Err(e) => Err(e),
    }
}

/// A directory that test cases are written to, with the next free number
/// in it.
pub struct TestcaseDir {
    /// The path to the directory.
    path: String,
    /// The next free ID in this directory.
    current_id: u64,
}

impl TestcaseDir {
    /// The next free ID.
    pub closed spec fn next_id(&self) -> nat {
        self.current_id as nat
    }

    /// The path to the directory.
    pub closed spec fn dir_path(&self) -> Seq<char> {
        self.path@
    }

    /// A test-case directory at `path` whose numbering starts at 0. The
    /// directory itself is created by the caller.
    pub fn new(path: String) -> (d: TestcaseDir)
        ensures
            d.dir_path() == path@,
            d.next_id() == 0,
    {
        TestcaseDir { path, current_id: 0 }
    }

    /// The path to the directory.
    pub fn path(&self) -> (p: &str)
        ensures
            p@ == self.dir_path(),
    {
        self.path.as_str()
    }

    /// The next free ID.
    pub fn current_id(&self) -> (id: u64)
        ensures
            id == self.next_id(),
    {
        self.current_id
    }

    /// The name for the next test case filed here, derived from the name of
    /// its parent test case.
    pub fn testcase_name(&self, parent: &str) -> (r: Result<String, FormatError>)
        ensures
            r is Ok <==> name_for_parent(self.next_id(), parent@) is Ok,
            r matches Ok(n) ==> name_for_parent(self.next_id(), parent@) == Ok::<
                Seq<char>,
                FormatError,
            >(n@),
            r matches Err(e) ==> name_for_parent(self.next_id(), parent@) == Err::<
                Seq<char>,
                FormatError,
            >(e),
    {
        let n = parent.unicode_len();
        if n < 3 || parent.get_char(0) != 'i' || parent.get_char(1) != 'd' || parent.get_char(2)
            != ':' {
            proof {
                if n >= 3 {
                    assert(parent@.subrange(0, 3)[0] == parent@[0]);
                    assert(parent@.subrange(0, 3)[1] == parent@[1]);
                    assert(parent@.subrange(0, 3)[2] == parent@[2]);
                }
            }
            return Err(FormatError::MissingIdPrefix);
        }
        assert(id_prefix() =~= parent@.subrange(0, 3));
        if n < 9 {
            return Err(FormatError::MissingLineageId);
        }
        let lineage = parent.substring_char(3, 9);
        let mut name = "id:".to_owned();
        proof {
            reveal_strlit("id:");
            reveal_strlit(",src:");
        }
        assert(name@ =~= id_prefix());
        let number = zero_padded_decimal(self.current_id, 6);
        name.append(number.as_str());
        name.append(",src:");
        name.append(lineage);
        assert(name@ =~= testcase_name(self.next_id(), parent@.subrange(3, 9)));
        Ok(name)
    }

    /// Record that a test case was written under the current ID.
    pub fn advance(&mut self)
        requires
            old(self).next_id() < u64::MAX,
        ensures
            final(self).next_id() == old(self).next_id() + 1,
            final(self).dir_path() == old(self).dir_path(),
    {
        self.current_id = self.current_id + 1;
    }
}

/// Filing test cases one after another into a fresh directory numbers them
/// 0, 1, 2, ... in call order. `dirs[k]` is the directory as the `k`-th
/// filing finds it: the first is new, and each later one is the one before
/// after `advance`. The `k`-th filing then names its test case with number
/// `k`.
pub proof fn lemma_sequential_numbering(dirs: Seq<TestcaseDir>, parent: Seq<char>)
    requires
        dirs.len() > 0 ==> dirs[0].next_id() == 0,
        forall|k: int|
            0 <= k < dirs.len() - 1 ==> #[trigger] dirs[k + 1].next_id() == dirs[k].next_id() + 1
                && dirs[k + 1].dir_path() == dirs[k].dir_path(),
    ensures
        forall|k: int| 0 <= k < dirs.len() ==> #[trigger] dirs[k].next_id() == k,
        forall|k: int|
            0 <= k < dirs.len() ==> name_for_parent(#[trigger] dirs[k].next_id(), parent)
                == name_for_parent(k as nat, parent),
{
    assert forall|k: int| 0 <= k < dirs.len() implies #[trigger] dirs[k].next_id() == k by {
        lemma_numbering_step(dirs, k);
    }
}

proof fn lemma_numbering_step(dirs: Seq<TestcaseDir>, k: int)
    requires
        0 <= k < dirs.len(),
        dirs.len() > 0 ==> dirs[0].next_id() == 0,
        forall|j: int|
            0 <= j < dirs.len() - 1 ==> #[trigger] dirs[j + 1].next_id() == dirs[j].next_id() + 1
                && dirs[j + 1].dir_path() == dirs[j].dir_path(),
    ensures
        dirs[k].next_id() == k,
    decreases k,
{
    if k > 0 {
        lemma_numbering_step(dirs, k - 1);
        assert(dirs[(k - 1) + 1].next_id() == dirs[k - 1].next_id() + 1);
    }
}

} // verus!
