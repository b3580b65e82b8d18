//! Tables and the Table Operations collaborator interface: current, refresh
//! and an atomic compare-and-swap commit.

use crate::metadata::{TableMetadata, TableMetadataView};
use crate::partition::PartitionSpec;
use crate::properties::Properties;
use crate::schema::Schema;
use crate::snapshot::{ExpireSnapshots, Snapshot};
use crate::updates::{
    AppendFiles, DeleteFiles, RewriteFiles, Rollback, UpdateError, UpdateProperties, UpdateSchema,
};
use vstd::prelude::*;

verus! {

/// The collaborator that persists table metadata; implemented outside this
/// core by a catalog. `stored` models what the backing store holds and
/// `known` the value the handle last observed.
///
/// `commit` must behave as an atomic compare-and-swap keyed on the exact base
/// value: it must succeed only if the store still holds `base`, report a
/// conflict — and leave the store untouched — where the store has moved on,
/// and never promise success: a persistence failure may be reported at any
/// time the store still holds `base`.
pub trait TableOperations: Sized {
    /// What the backing store holds.
    spec fn stored(&self) -> TableMetadataView;

    /// The latest value this handle has observed.
    spec fn known(&self) -> TableMetadataView;

    /// The latest known state, without forcing a reload.
    fn current(&self) -> (r: TableMetadata)
        ensures
            r@ == self.known(),
            r.wf(),
    ;

    /// Forces a reload from the backing store; used to detect conflicting
    /// concurrent writers.
    fn refresh(&mut self) -> (r: TableMetadata)
        ensures
            final(self).stored() == old(self).stored(),
            final(self).known() == old(self).stored(),
            r@ == old(self).stored(),
            r.wf(),
    ;

    /// Atomically swaps the store from `base` to `updated`, or reports why
    /// it would not: a stale base is a conflict, never an overwrite.
    fn commit(&mut self, base: &TableMetadata, updated: &TableMetadata) -> (r: Result<
        (),
        UpdateError,
    >)
        requires
            base.wf(),
            updated.wf(),
        ensures
            (r matches Ok(_) ==> final(self).stored() == updated@),
            (r matches Err(_) ==> final(self).stored() == old(self).stored()),
            ((r matches Err(UpdateError::Conflict)) <==> old(self).stored() != base@),
    ;
}

/// An in-memory Table Operations implementation: a single-process store whose
/// commit is a true compare-and-swap on the exact base value.
pub struct MemoryTableOperations {
    meta: TableMetadata,
}

impl MemoryTableOperations {
    #[verifier::type_invariant]
    spec fn type_inv(&self) -> bool {
        self.meta.wf()
    }

    pub fn new(meta: TableMetadata) -> (r: MemoryTableOperations)
        requires
            meta.wf(),
        ensures
            r.stored() == meta@,
            r.known() == meta@,
    {
        MemoryTableOperations { meta }
    }

    /// Overwrites the stored metadata directly, standing for another writer's
    /// committed change.
    pub fn overwrite(&mut self, meta: TableMetadata)
        requires
            meta.wf(),
        ensures
            final(self).stored() == meta@,
            final(self).known() == meta@,
    {
        self.meta = meta;
    }
}

impl TableOperations for MemoryTableOperations {
    closed spec fn stored(&self) -> TableMetadataView {
        self.meta@
    }

    closed spec fn known(&self) -> TableMetadataView {
        self.meta@
    }

    fn current(&self) -> (r: TableMetadata) {
        proof {
            use_type_invariant(self);
        }
        self.meta.clone()
    }

    fn refresh(&mut self) -> (r: TableMetadata) {
        proof {
            use_type_invariant(&*self);
        }
        self.meta.clone()
    }

    fn commit(&mut self, base: &TableMetadata, updated: &TableMetadata) -> (r: Result<
        (),
        UpdateError,
    >) {
        proof {
            use_type_invariant(&*self);
        }
        if self.meta.eq_metadata(base) {
            self.meta = updated.clone();
            Ok(())
        } else {
            Err(UpdateError::Conflict)
        }
    }
}

/// A handle on one table: the collaborator plus the metadata last read from
/// it.
pub struct Table<T: TableOperations> {
    ops: T,
    metadata: TableMetadata,
}

impl<T: TableOperations> Table<T> {
    /// The metadata this handle currently holds.
    pub closed spec fn meta(&self) -> TableMetadataView {
        self.metadata@
    }

    /// What the collaborator's backing store holds.
    pub closed spec fn store(&self) -> TableMetadataView {
        self.ops.stored()
    }

    /// The held metadata's property mapping is well formed.
    pub closed spec fn wf(&self) -> bool {
        self.metadata.wf()
    }

    /// A table handle over the collaborator, holding its latest known state.
    pub fn new(ops: T) -> (r: Table<T>)
        ensures
            r.meta() == ops.known(),
            r.store() == ops.stored(),
            r.wf(),
    {
        let metadata = ops.current();
        Table { ops, metadata }
    }

    /// Reloads the held metadata from the backing store.
    pub fn refresh(&mut self)
        ensures
            final(self).meta() == old(self).store(),
            final(self).store() == old(self).store(),
            final(self).wf(),
    {
        self.metadata = self.ops.refresh();
    }

    pub fn schema(&self) -> (r: &Schema)
        ensures
            r@ == self.meta().schema,
    {
        &self.metadata.schema
    }

    pub fn partition_spec(&self) -> (r: &PartitionSpec)
        ensures
            r@ == self.meta().partition_spec,
    {
        &self.metadata.partition_spec
    }

    pub fn properties(&self) -> (r: Properties)
        ensures
            r@ == self.meta().properties,
            r.wf(),
    {
        self.metadata.properties.clone()
    }

    pub fn location(&self) -> (r: String)
        ensures
            r@ == self.meta().location,
    {
        self.metadata.location.clone()
    }

    /// The snapshot the metadata's current snapshot id references, if it is
    /// in the held history.
    pub fn current_snapshot(&self) -> (r: Option<&Snapshot>)
        ensures
            match r {
                Some(s) => s@.snapshot_id == self.meta().current_snapshot_id as u64 && exists|i: int|
                    0 <= i < self.meta().snapshots.len() && #[trigger] self.meta().snapshots[i]
                        == s@,
                None => forall|i: int|
                    0 <= i < self.meta().snapshots.len() ==> (#[trigger] self.meta().snapshots[i]).snapshot_id
                        != self.meta().current_snapshot_id as u64,
            },
    {
        let wanted: u64 = self.metadata.current_snapshot_id as u64;
        let mut i: usize = 0;
        while i < self.metadata.snapshots.len()
            invariant
                i <= self.metadata.snapshots.len(),
                wanted == self.meta().current_snapshot_id as u64,
                self.meta().snapshots.len() == self.metadata.snapshots@.len(),
                forall|k: int|
                    0 <= k < self.metadata.snapshots@.len() ==> #[trigger] self.meta().snapshots[k]
                        == self.metadata.snapshots@[k]@,
                forall|k: int|
                    0 <= k < i ==> (#[trigger] self.meta().snapshots[k]).snapshot_id != wanted,
            decreases self.metadata.snapshots.len() - i,
        {
            if self.metadata.snapshots[i].snapshot_id() == wanted {
                proof {
                    assert(self.meta().snapshots[i as int] == self.metadata.snapshots@[i as int]@);
                }
                return Some(&self.metadata.snapshots[i]);
            }
            i += 1;
        }
        None
    }

    /// The held snapshot history, in order. Snapshots are immutable values:
    /// history grows only by commits producing new metadata values, and
    /// parsed metadata carries pairwise-distinct snapshot ids.
    pub fn snapshots(&self) -> (r: &Vec<Snapshot>)
        ensures
            r@.map_values(|s: Snapshot| s@) == self.meta().snapshots,
    {
        &self.metadata.snapshots
    }

    /// Starts staging property changes against this table's collaborator,
    /// consuming the handle: a pending update owns the single in-flight
    /// commit attempt.
    pub fn new_update_properties(self) -> (r: UpdateProperties<T>)
        ensures
            r.wf(),
            r.state() == crate::updates::UpdateState::New,
            r.staged_updates() == Map::<Seq<char>, Seq<char>>::empty(),
            r.staged_removals() == Set::<Seq<char>>::empty(),
            r.store() == self.store(),
    {
        UpdateProperties::new(self.ops)
    }

    /// Starts staging schema changes; a declared extension point.
    pub fn new_update_schema(&self) -> (r: UpdateSchema)
        ensures
            r.staged().len() == 0,
    {
        UpdateSchema::new()
    }

    pub fn new_append(&self) -> AppendFiles {
        AppendFiles {}
    }

    pub fn new_rewrite(&self) -> (r: RewriteFiles)
        ensures
            r.files_to_delete@.len() == 0,
            r.files_to_add@.len() == 0,
    {
        RewriteFiles::new(Vec::new(), Vec::new())
    }

    pub fn new_delete(&self) -> DeleteFiles {
        DeleteFiles {}
    }

    pub fn new_expire_snapshots(&self) -> ExpireSnapshots {
        ExpireSnapshots {}
    }

    pub fn new_rollback(&self) -> Rollback {
        Rollback {}
    }
}

/// A filter predicate over table rows; an interface placeholder in this core.
pub trait Expression {

}

/// Creates and loads tables against a catalog; consumed, not implemented, by
/// this core.
pub trait TableFactory: Sized {
    type Ops: TableOperations;

    fn create(&self, identifier: &str, partition_spec: PartitionSpec, schema: Schema) -> Table<
        Self::Ops,
    >;

    fn load(&self, identifier: &str) -> Table<Self::Ops>;
}

} // verus!
