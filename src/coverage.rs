//! The cumulative coverage bitmap and its merge.
use vstd::prelude::*;

use crate::error::FormatError;

verus! {

/// Number of bytes in a coverage bitmap, one per control-flow edge bucket.
pub const MAP_SIZE: usize = 65536;

/// Bytewise OR of two bitmaps of equal length.
pub open spec fn or_merge(a: Seq<u8>, b: Seq<u8>) -> Seq<u8>
    recommends
        a.len() == b.len(),
{
    Seq::new(a.len(), |i: int| a[i] | b[i])
}

/// A coverage map as written by the coverage probe.
pub struct AflMap {
    data: Vec<u8>,
}

impl View for AflMap {
    type V = Seq<u8>;

    closed spec fn view(&self) -> Seq<u8> {
        self.data@
    }
}

impl AflMap {
    #[verifier::type_invariant]
    spec fn full_size(&self) -> bool {
        self.data@.len() == MAP_SIZE
    }

    /// Create an empty map.
    pub fn new() -> (m: AflMap)
        ensures
            m@ == Seq::new(MAP_SIZE as nat, |i: int| 0u8),
    {
        let data = vec![0u8; MAP_SIZE];
        let m = AflMap { data };
        assert(m@ =~= Seq::new(MAP_SIZE as nat, |i: int| 0u8));
        m
    }

    /// Build a map from the bytes of a bitmap file; the file must hold
    /// exactly `MAP_SIZE` bytes.
    pub fn from_bytes(data: Vec<u8>) -> (r: Result<AflMap, FormatError>)
        ensures
            data@.len() == MAP_SIZE <==> r is Ok,
            r matches Ok(m) ==> m@ == data@,
            r matches Err(e) ==> e == FormatError::WrongMapSize(data@.len() as usize),
    {
        if data.len() == MAP_SIZE {
            Ok(AflMap { data })
        } else {
            Err(FormatError::WrongMapSize(data.len()))
        }
    }

    /// Merge with another coverage map in place.
    ///
    /// Returns true if the map has changed, i.e., if the other map yielded
    /// new coverage.
    pub fn merge(&mut self, other: &AflMap) -> (changed: bool)
        ensures
            old(self)@.len() == MAP_SIZE,
            other@.len() == MAP_SIZE,
            final(self)@ == or_merge(old(self)@, other@),
            changed == (final(self)@ != old(self)@),
    {
        proof {
            use_type_invariant(&*self);
            use_type_invariant(other);
        }
        let ghost before = self@;
        let mut merged: Vec<u8> = Vec::with_capacity(MAP_SIZE);
        let mut interesting = false;
        let mut i: usize = 0;
        while i < MAP_SIZE
            invariant
                before == self@,
                before.len() == MAP_SIZE,
                other@.len() == MAP_SIZE,
                0 <= i <= MAP_SIZE,
                merged@.len() == i,
                forall|j: int| 0 <= j < i ==> merged@[j] == (before[j] | other@[j]),
                interesting == (exists|j: int| 0 <= j < i && before[j] != (before[j] | other@[j])),
            decreases MAP_SIZE - i,
        {
            let known = self.data[i];
            let byte = known | other.data[i];
            if known != byte {
                interesting = true;
            }
            merged.push(byte);
            i = i + 1;
        }
        assert(merged@ =~= or_merge(before, other@));
        if !interesting {
            assert(merged@ =~= before);
        } else {
            let ghost j = choose|j: int| 0 <= j < MAP_SIZE && before[j] != (before[j] | other@[j]);
            assert(merged@[j] != before[j]);
        }
        self.data = merged;
        interesting
    }
}

proof fn lemma_or_byte(x: u8, y: u8, z: u8)
    by (bit_vector)
    ensures
        x | y == y | x,
        (x | y) | z == x | (y | z),
        x | x == x,
{
}

/// Merging is commutative: the order in which two maps are combined does
/// not change the result.
pub proof fn lemma_merge_commutative(a: Seq<u8>, b: Seq<u8>)
    requires
        a.len() == b.len(),
    ensures
        or_merge(a, b) == or_merge(b, a),
{
    assert forall|i: int| 0 <= i < a.len() implies or_merge(a, b)[i] == or_merge(b, a)[i] by {
        lemma_or_byte(a[i], b[i], 0);
    }
    assert(or_merge(a, b) =~= or_merge(b, a));
}

/// Merging is associative: merging three maps gives one result however the
/// merges are grouped.
pub proof fn lemma_merge_associative(a: Seq<u8>, b: Seq<u8>, c: Seq<u8>)
    requires
        a.len() == b.len(),
        b.len() == c.len(),
    ensures
        or_merge(or_merge(a, b), c) == or_merge(a, or_merge(b, c)),
{
    assert forall|i: int| 0 <= i < a.len() implies or_merge(or_merge(a, b), c)[i] == or_merge(
        a,
        or_merge(b, c),
    )[i] by {
        lemma_or_byte(a[i], b[i], c[i]);
    }
    assert(or_merge(or_merge(a, b), c) =~= or_merge(a, or_merge(b, c)));
}

/// Merging a map into an equal map leaves it unchanged, so `merge` reports
/// no new coverage.
pub proof fn lemma_merge_self_unchanged(a: Seq<u8>)
    ensures
        or_merge(a, a) == a,
{
    assert forall|i: int| 0 <= i < a.len() implies or_merge(a, a)[i] == a[i] by {
        lemma_or_byte(a[i], a[i], 0);
    }
    assert(or_merge(a, a) =~= a);
}

/// Merging never forgets coverage: every bit set in the map before a merge
/// is still set after it.
pub proof fn lemma_merge_keeps_bits(a: Seq<u8>, b: Seq<u8>)
    requires
        a.len() == b.len(),
    ensures
        forall|i: int| 0 <= i < a.len() ==> (#[trigger] or_merge(a, b)[i] & a[i]) == a[i],
{
    assert forall|i: int| 0 <= i < a.len() implies (#[trigger] or_merge(a, b)[i] & a[i]) == a[i] by {
        lemma_or_keeps(a[i], b[i]);
    }
}

proof fn lemma_or_keeps(x: u8, y: u8)
    by (bit_vector)
    ensures
        ((x | y) & x) == x,
{
}

} // verus!
