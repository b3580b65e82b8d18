//! Snapshots: immutable point-in-time records of table content.

use vstd::prelude::*;

verus! {

/// An opaque, content-addressed data-file reference; an interface placeholder
/// in this core.
#[derive(Debug, PartialEq, Eq, Structural)]
pub struct DataFile {}

/// A snapshot of the data in a table at a point in time.
#[derive(Debug)]
pub struct Snapshot {
    snapshot_id: u64,
    timestamp_ms: u64,
    manifests: Vec<String>,
    added_files: Vec<DataFile>,
    deleted_files: Vec<DataFile>,
}

/// The mathematical model of a [`Snapshot`].
#[verifier::ext_equal]
pub struct SnapshotView {
    pub snapshot_id: u64,
    pub timestamp_ms: u64,
    pub manifests: Seq<Seq<char>>,
    pub added_files: Seq<DataFile>,
    pub deleted_files: Seq<DataFile>,
}

impl View for Snapshot {
    type V = SnapshotView;

    closed spec fn view(&self) -> SnapshotView {
        SnapshotView {
            snapshot_id: self.snapshot_id,
            timestamp_ms: self.timestamp_ms,
            manifests: self.manifests@.map_values(|m: String| m@),
            added_files: self.added_files@,
            deleted_files: self.deleted_files@,
        }
    }
}

impl Snapshot {
    /// A fresh snapshot over the given manifests, with no file changes
    /// recorded yet.
    pub fn new(snapshot_id: u64, timestamp_ms: u64, manifests: Vec<String>) -> (r: Snapshot)
        ensures
            r@.snapshot_id == snapshot_id,
            r@.timestamp_ms == timestamp_ms,
            r@.manifests == manifests@.map_values(|m: String| m@),
            r@.added_files.len() == 0,
            r@.deleted_files.len() == 0,
    {
        Snapshot {
            snapshot_id,
            timestamp_ms,
            manifests,
            added_files: Vec::new(),
            deleted_files: Vec::new(),
        }
    }

    pub fn snapshot_id(&self) -> (r: u64)
        ensures
            r == self@.snapshot_id,
    {
        self.snapshot_id
    }

    pub fn timestamp_ms(&self) -> (r: u64)
        ensures
            r == self@.timestamp_ms,
    {
        self.timestamp_ms
    }

    pub fn manifests(&self) -> (r: &Vec<String>)
        ensures
            r@.map_values(|m: String| m@) == self@.manifests,
    {
        &self.manifests
    }
}

impl Snapshot {
    /// Whether two snapshots record the same content.
    pub fn eq_snapshot(&self, other: &Snapshot) -> (r: bool)
        ensures
            r == (self@ == other@),
    {
        if self.snapshot_id != other.snapshot_id || self.timestamp_ms != other.timestamp_ms {
            return false;
        }
        if self.manifests.len() != other.manifests.len() {
            proof {
                assert(self@.manifests.len() != other@.manifests.len());
            }
            return false;
        }
        if self.added_files.len() != other.added_files.len() || self.deleted_files.len()
            != other.deleted_files.len() {
            return false;
        }
        let mut i: usize = 0;
        while i < self.manifests.len()
            invariant
                i <= self.manifests.len(),
                self.manifests@.len() == other.manifests@.len(),
                self@.manifests.len() == self.manifests@.len(),
                other@.manifests.len() == other.manifests@.len(),
                forall|k: int|
                    0 <= k < self.manifests@.len() ==> #[trigger] self@.manifests[k]
                        == self.manifests@[k]@,
                forall|k: int|
                    0 <= k < other.manifests@.len() ==> #[trigger] other@.manifests[k]
                        == other.manifests@[k]@,
                forall|k: int| 0 <= k < i ==> #[trigger] self@.manifests[k] == other@.manifests[k],
            decreases self.manifests.len() - i,
        {
            if !crate::json::str_eq(self.manifests[i].as_str(), other.manifests[i].as_str()) {
                proof {
                    assert(self@.manifests[i as int] != other@.manifests[i as int]);
                }
                return false;
            }
            i += 1;
        }
        proof {
            assert(self@.manifests =~= other@.manifests);
            assert forall|k: int| 0 <= k < self@.added_files.len() implies #[trigger] self@
                .added_files[k] == other@.added_files[k] by {}
            assert(self@.added_files =~= other@.added_files);
            assert(self@.deleted_files =~= other@.deleted_files);
            assert(self@ =~= other@);
        }
        true
    }
}

impl Clone for Snapshot {
    fn clone(&self) -> (r: Self)
        ensures
            r@ == self@,
    {
        let mut manifests: Vec<String> = Vec::new();
        let mut i: usize = 0;
        while i < self.manifests.len()
            invariant
                i <= self.manifests.len(),
                manifests@.len() == i,
                forall|k: int| 0 <= k < i ==> #[trigger] manifests@[k]@ == self.manifests@[k]@,
            decreases self.manifests.len() - i,
        {
            manifests.push(self.manifests[i].clone());
            i += 1;
        }
        let mut added_files: Vec<DataFile> = Vec::new();
        let mut deleted_files: Vec<DataFile> = Vec::new();
        let mut j: usize = 0;
        while j < self.added_files.len()
            invariant
                j <= self.added_files.len(),
                added_files@.len() == j,
                forall|k: int| 0 <= k < j ==> #[trigger] added_files@[k] == self.added_files@[k],
            decreases self.added_files.len() - j,
        {
            added_files.push(DataFile {});
            proof {
                assert(added_files@[j as int] == self.added_files@[j as int]);
            }
            j += 1;
        }
        let mut j: usize = 0;
        while j < self.deleted_files.len()
            invariant
                j <= self.deleted_files.len(),
                deleted_files@.len() == j,
                forall|k: int|
                    0 <= k < j ==> #[trigger] deleted_files@[k] == self.deleted_files@[k],
            decreases self.deleted_files.len() - j,
        {
            deleted_files.push(DataFile {});
            proof {
                assert(deleted_files@[j as int] == self.deleted_files@[j as int]);
            }
            j += 1;
        }
        let r = Snapshot {
            snapshot_id: self.snapshot_id,
            timestamp_ms: self.timestamp_ms,
            manifests,
            added_files,
            deleted_files,
        };
        proof {
            assert(r@.manifests =~= self@.manifests);
            assert(r@.added_files =~= self@.added_files);
            assert(r@.deleted_files =~= self@.deleted_files);
            assert(r@ =~= self@);
        }
        r
    }
}

/// Snapshot ids identify snapshots: no two in a history share one.
pub open spec fn spec_snapshot_ids_unique(snapshots: Seq<SnapshotView>) -> bool {
    forall|i: int, j: int|
        0 <= i < j < snapshots.len() ==> (#[trigger] snapshots[i]).snapshot_id != (
        #[trigger] snapshots[j]).snapshot_id
}

/// Whether a snapshot history's ids are pairwise distinct.
pub fn snapshot_ids_unique_check(snapshots: &Vec<Snapshot>) -> (r: bool)
    ensures
        r == spec_snapshot_ids_unique(snapshots@.map_values(|s: Snapshot| s@)),
{
    let ghost svs = snapshots@.map_values(|s: Snapshot| s@);
    let mut i: usize = 0;
    while i < snapshots.len()
        invariant
            i <= snapshots.len(),
            svs == snapshots@.map_values(|s: Snapshot| s@),
            svs.len() == snapshots@.len(),
            forall|a: int, b: int|
                0 <= a < b < svs.len() && a < i ==> (#[trigger] svs[a]).snapshot_id != (
                #[trigger] svs[b]).snapshot_id,
        decreases snapshots.len() - i,
    {
        let mut j: usize = i + 1;
        while j < snapshots.len()
            invariant
                i < j <= snapshots.len(),
                svs == snapshots@.map_values(|s: Snapshot| s@),
                svs.len() == snapshots@.len(),
                forall|b: int|
                    i < b < j ==> (#[trigger] svs[b]).snapshot_id != svs[i as int].snapshot_id,
            decreases snapshots.len() - j,
        {
            if snapshots[i].snapshot_id() == snapshots[j].snapshot_id() {
                proof {
                    assert(svs[i as int].snapshot_id == svs[j as int].snapshot_id);
                }
                return false;
            }
            j += 1;
        }
        i += 1;
    }
    true
}

/// The explicit snapshot-expiration operation; out of scope here, declared as
/// an interface placeholder.
#[derive(Debug)]
pub struct ExpireSnapshots {}

} // verus!
