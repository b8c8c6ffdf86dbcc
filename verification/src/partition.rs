//! Partition entries, as far as a header depends on them.
use std::collections::BTreeMap;
use vstd::prelude::*;

use crate::guid::Guid;

verus! {

/// A partition entry.
#[derive(Clone, Copy, Debug, PartialEq, Eq)]
pub struct Partition {
    /// The type of the partition.
    pub part_type_guid: Guid,
}

/// The number of partitions that are in use.
pub open spec fn used_count(partitions: Map<u32, Partition>) -> nat {
    partitions.dom().filter(|id: u32| partitions[id].used()).len()
}

impl Partition {
    /// Whether the entry describes a partition: whether its type is not all zero.
    pub open spec fn used(self) -> bool {
        exists|i: int| 0 <= i < 16 && self.part_type_guid@[i] != 0
    }

    /// An entry that is not in use.
    pub fn zero() -> (entry: Partition)
        ensures
            entry.part_type_guid@ == Seq::new(16, |i: int| 0u8),
            !entry.used(),
    {
        let bytes = [0u8; 16];
        assert(bytes@ =~= Seq::new(16, |i: int| 0u8));
        Partition { part_type_guid: Guid { bytes } }
    }

    /// Whether the entry describes a partition.
    pub fn is_used(&self) -> (used: bool)
        ensures
            used == self.used(),
    {
        let mut i: usize = 0;
        while i < 16
            invariant
                i <= 16,
                forall|j: int| 0 <= j < i ==> self.part_type_guid@[j] == 0,
            decreases 16 - i,
        {
            if self.part_type_guid.bytes[i] != 0 {
                assert(self.part_type_guid@[i as int] != 0);
                return true;
            }
            i = i + 1;
        }
        false
    }
}

/// Counts the partitions that are in use.
pub fn count_used(partitions: &BTreeMap<u32, Partition>) -> (count: usize)
    ensures
        count == used_count(partitions@),
{
    let total = partitions.len();
    let mut count: usize = 0;
    let ghost mut seen: Set<u32> = Set::empty();
    for (id, partition) in entries: partitions.iter()
        invariant
            seen.finite(),
            count == seen.len(),
            count <= entries.index(),
            entries.seq().len() == total,
            entries.seq().no_duplicates(),
            forall|i: int|
                0 <= i < entries.seq().len() ==> partitions@[*(#[trigger] entries.seq()[i]).0]
                    == *entries.seq()[i].1,
            forall|k: u32| #[trigger] seen.contains(k) <==> exists|i: int|
                0 <= i < entries.index() && *(#[trigger] entries.seq()[i]).0 == k
                    && partitions@[k].used(),
    {
        let ghost at = entries.index();
        assert(entries.seq()[at] == (id, partition));
        if partition.is_used() {
            assert(!seen.contains(*id)) by {
                if seen.contains(*id) {
                    let i = choose|i: int|
                        0 <= i < at && *(#[trigger] entries.seq()[i]).0 == *id;
                    assert(entries.seq()[i] == entries.seq()[at]);
                }
            }
            count = count + 1;
            proof {
                seen = seen.insert(*id);
            }
        }
    }
    assert(seen =~= partitions@.dom().filter(|id: u32| partitions@[id].used()));
    count
}

/// An entry is in use exactly where its type has a byte that is not zero.
pub proof fn law_used(entry: Partition)
    ensures
        entry.used() <==> !(forall|i: int| 0 <= i < 16 ==> entry.part_type_guid.bytes@[i] == 0),
{
    assert(entry.part_type_guid@ == entry.part_type_guid.bytes@);
    if !(forall|i: int| 0 <= i < 16 ==> entry.part_type_guid.bytes@[i] == 0) {
        let i = choose|i: int| 0 <= i < 16 && entry.part_type_guid.bytes@[i] != 0;
        assert(entry.part_type_guid@[i] != 0);
    }
}

/// Without partitions none is in use, and each that is added counts if it is in use.
pub proof fn law_used_count(partitions: Map<u32, Partition>, id: u32, entry: Partition)
    requires
        partitions.dom().finite(),
        !partitions.contains_key(id),
    ensures
        used_count(Map::empty()) == 0,
        used_count(partitions.insert(id, entry)) == used_count(partitions) + if entry.used() {
            1int
        } else {
            0
        },
{
    let none = Map::<u32, Partition>::empty();
    assert(none.dom().filter(|k: u32| none[k].used()) =~= Set::empty());
    let more = partitions.insert(id, entry);
    let before = partitions.dom().filter(|k: u32| partitions[k].used());
    let after = more.dom().filter(|k: u32| more[k].used());
    assert(!before.contains(id));
    if entry.used() {
        assert(after =~= before.insert(id));
    } else {
        assert(after =~= before);
    }
}

} // verus!
