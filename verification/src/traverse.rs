//! Traversal planning over a volume's partition table: which partitions are
//! visited, and in what order.

use vstd::prelude::*;
use vstd::string::StrSliceExecFns;

verus! {

/// One partition of a volume, as the volume system reports it: a
/// human-readable description, a starting byte offset, and a length in
/// bytes.
pub struct Partition {
    /// The partition's description string.
    pub desc: String,
    /// The byte offset within the volume at which the partition starts.
    pub start: u64,
    /// The partition's length in bytes.
    pub len: u64,
}

/// The four characters `NTFS` stand at position `i` of `d`.
pub open spec fn marker_at(d: Seq<char>, i: int) -> bool {
    &&& 0 <= i
    &&& i + 4 <= d.len()
    &&& d[i] == 'N'
    &&& d[i + 1] == 'T'
    &&& d[i + 2] == 'F'
    &&& d[i + 3] == 'S'
}

/// A description carries the target-filesystem marker: it contains the
/// substring `NTFS`, case-sensitively.
pub open spec fn has_fs_marker(d: Seq<char>) -> bool {
    exists|i: int| marker_at(d, i)
}

/// Whether a partition description contains the target-filesystem marker.
pub fn description_matches(desc: &str) -> (r: bool)
    ensures
        r == has_fs_marker(desc@),
{
    let n = desc.unicode_len();
    if n < 4 {
        return false;
    }
    let mut i: usize = 0;
    while i <= n - 4
        invariant
            n == desc@.len(),
            4 <= n,
            i <= n,
            forall|k: int| 0 <= k < i ==> !marker_at(desc@, k),
        decreases n - i,
    {
        if desc.get_char(i) == 'N' && desc.get_char(i + 1) == 'T' && desc.get_char(i + 2) == 'F'
            && desc.get_char(i + 3) == 'S' {
            assert(marker_at(desc@, i as int));
            return true;
        }
        i = i + 1;
    }
    assert(forall|k: int| i <= k ==> !marker_at(desc@, k));
    false
}

/// Plans the traversal of a partition table: the indices of the
/// partitions whose description carries the filesystem marker, each
/// exactly once, in the table's on-disk order. A filesystem open is
/// attempted at exactly these partitions' start offsets.
pub fn matching_partitions(parts: &Vec<Partition>) -> (plan: Vec<usize>)
    ensures
        forall|j: int|
            0 <= j < plan@.len() ==> plan@[j] < parts@.len() && has_fs_marker(
                parts@[plan@[j] as int].desc@,
            ),
        forall|j: int, k: int| 0 <= j < k < plan@.len() ==> plan@[j] < plan@[k],
        forall|i: int|
            0 <= i < parts@.len() && has_fs_marker(parts@[i].desc@) ==> exists|j: int|
                0 <= j < plan@.len() && plan@[j] == i,
{
    let mut plan: Vec<usize> = Vec::new();
    let n = parts.len();
    let mut i: usize = 0;
    while i < n
        invariant
            n == parts@.len(),
            i <= n,
            forall|j: int|
                0 <= j < plan@.len() ==> plan@[j] < i && has_fs_marker(
                    parts@[plan@[j] as int].desc@,
                ),
            forall|j: int, k: int| 0 <= j < k < plan@.len() ==> plan@[j] < plan@[k],
            forall|m: int|
                0 <= m < i && has_fs_marker(parts@[m].desc@) ==> exists|j: int|
                    0 <= j < plan@.len() && plan@[j] == m,
        decreases n - i,
    {
        let ghost prev = plan@;
        if description_matches(parts[i].desc.as_str()) {
            plan.push(i);
            proof {
                assert forall|m: int| 0 <= m < i && has_fs_marker(parts@[m].desc@) implies exists|
                    j: int,
                |
                    0 <= j < plan@.len() && plan@[j] == m by {
                    let j = choose|j: int| 0 <= j < prev.len() && prev[j] == m;
                    assert(plan@[j] == m);
                }
                assert(plan@[plan@.len() - 1] == i);
            }
        }
        i = i + 1;
    }
    plan
}

} // verus!
