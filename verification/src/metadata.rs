//! Table metadata: the aggregate of schema, partitioning, snapshot history
//! and properties. Never mutated in place; every change produces a new value.

use crate::partition::{PartitionSpec, PartitionSpecView};
use crate::properties::Properties;
use crate::schema::{Schema, SchemaView};
use crate::snapshot::{Snapshot, SnapshotView};
use vstd::prelude::*;

verus! {

/// The single metadata format version this core supports; there is no
/// migration path to or from any other version.
pub const TABLE_FORMAT_VERSION: u32 = 1;

/// The full versioned description of a table at a point in time.
#[derive(Debug)]
pub struct TableMetadata {
    pub location: String,
    pub last_updated_millis: u64,
    pub last_column_id: u32,
    pub current_snapshot_id: u32,
    pub schema: Schema,
    pub partition_spec: PartitionSpec,
    pub properties: Properties,
    pub snapshots: Vec<Snapshot>,
}

/// The mathematical model of a [`TableMetadata`].
#[verifier::ext_equal]
pub struct TableMetadataView {
    pub location: Seq<char>,
    pub last_updated_millis: u64,
    pub last_column_id: u32,
    pub current_snapshot_id: u32,
    pub schema: SchemaView,
    pub partition_spec: PartitionSpecView,
    pub properties: Map<Seq<char>, Seq<char>>,
    pub snapshots: Seq<SnapshotView>,
}

impl View for TableMetadata {
    type V = TableMetadataView;

    open spec fn view(&self) -> TableMetadataView {
        TableMetadataView {
            location: self.location@,
            last_updated_millis: self.last_updated_millis,
            last_column_id: self.last_column_id,
            current_snapshot_id: self.current_snapshot_id,
            schema: self.schema@,
            partition_spec: self.partition_spec@,
            properties: self.properties@,
            snapshots: self.snapshots@.map_values(|s: Snapshot| s@),
        }
    }
}

/// The declared watermark invariant: the last column id is at least every
/// field id in the schema.
pub open spec fn spec_watermark_covers(schema: SchemaView, last_column_id: u32) -> bool {
    forall|i: int| 0 <= i < schema.fields.len() ==> (#[trigger] schema.fields[i]).id
        <= last_column_id
}

/// The watermark invariant, of a whole metadata value.
pub open spec fn spec_column_watermark_ok(m: TableMetadataView) -> bool {
    spec_watermark_covers(m.schema, m.last_column_id)
}

/// Whether the watermark covers every field id of the schema.
pub fn watermark_covers(schema: &Schema, last_column_id: u32) -> (r: bool)
    ensures
        r == spec_watermark_covers(schema@, last_column_id),
{
    let mut i: usize = 0;
    while i < schema.fields.len()
        invariant
            i <= schema.fields.len(),
            schema@.fields.len() == schema.fields@.len(),
            forall|k: int|
                0 <= k < schema.fields@.len() ==> #[trigger] schema@.fields[k]
                    == schema.fields@[k]@,
            forall|k: int| 0 <= k < i ==> (#[trigger] schema@.fields[k]).id <= last_column_id,
        decreases schema.fields.len() - i,
    {
        if schema.fields[i].id > last_column_id {
            proof {
                assert(schema@.fields[i as int].id > last_column_id);
            }
            return false;
        }
        i += 1;
    }
    true
}

impl TableMetadata {
    /// The property mapping's entry list holds each key at most once.
    pub open spec fn wf(&self) -> bool {
        self.properties.wf()
    }

    /// Whether the last-column-id watermark covers every schema field id.
    pub fn column_watermark_ok(&self) -> (r: bool)
        ensures
            r == spec_column_watermark_ok(self@),
    {
        watermark_covers(&self.schema, self.last_column_id)
    }

    pub fn new(
        location: String,
        last_updated_millis: u64,
        last_column_id: u32,
        current_snapshot_id: u32,
        schema: Schema,
        partition_spec: PartitionSpec,
        properties: Properties,
        snapshots: Vec<Snapshot>,
    ) -> (r: TableMetadata)
        ensures
            r@.location == location@,
            r@.last_updated_millis == last_updated_millis,
            r@.last_column_id == last_column_id,
            r@.current_snapshot_id == current_snapshot_id,
            r@.schema == schema@,
            r@.partition_spec == partition_spec@,
            r@.properties == properties@,
            r@.snapshots == snapshots@.map_values(|s: Snapshot| s@),
            properties.wf() ==> r.wf(),
    {
        TableMetadata {
            location,
            last_updated_millis,
            last_column_id,
            current_snapshot_id,
            schema,
            partition_spec,
            properties,
            snapshots,
        }
    }

    /// A new metadata value with the given properties and every other part
    /// unchanged; this value is not mutated.
    pub fn replace_properties(&self, properties: Properties) -> (r: TableMetadata)
        ensures
            r@ == (TableMetadataView { properties: properties@, ..self@ }),
            (properties.wf() ==> r.wf()),
    {
        let r = TableMetadata {
            location: self.location.clone(),
            last_updated_millis: self.last_updated_millis,
            last_column_id: self.last_column_id,
            current_snapshot_id: self.current_snapshot_id,
            schema: self.schema.clone(),
            partition_spec: self.partition_spec.clone(),
            properties,
            snapshots: clone_snapshots(&self.snapshots),
        };
        proof {
            assert(r@ =~= TableMetadataView { properties: r.properties@, ..self@ });
        }
        r
    }

    /// Whether two metadata values are equal, part for part.
    pub fn eq_metadata(&self, other: &TableMetadata) -> (r: bool)
        requires
            self.wf(),
            other.wf(),
        ensures
            r == (self@ == other@),
    {
        if !(self.location == other.location) {
            return false;
        }
        if self.last_updated_millis != other.last_updated_millis || self.last_column_id
            != other.last_column_id || self.current_snapshot_id != other.current_snapshot_id {
            return false;
        }
        if !eq_schema(&self.schema, &other.schema) {
            return false;
        }
        if !eq_partition_spec(&self.partition_spec, &other.partition_spec) {
            return false;
        }
        if !self.properties.eq_props(&other.properties) {
            return false;
        }
        if self.snapshots.len() != other.snapshots.len() {
            proof {
                assert(self@.snapshots.len() != other@.snapshots.len());
            }
            return false;
        }
        let mut i: usize = 0;
        while i < self.snapshots.len()
            invariant
                i <= self.snapshots.len(),
                self.snapshots@.len() == other.snapshots@.len(),
                self@.snapshots.len() == self.snapshots@.len(),
                other@.snapshots.len() == other.snapshots@.len(),
                forall|k: int|
                    0 <= k < self.snapshots@.len() ==> #[trigger] self@.snapshots[k]
                        == self.snapshots@[k]@,
                forall|k: int|
                    0 <= k < other.snapshots@.len() ==> #[trigger] other@.snapshots[k]
                        == other.snapshots@[k]@,
                forall|k: int| 0 <= k < i ==> #[trigger] self@.snapshots[k] == other@.snapshots[k],
            decreases self.snapshots.len() - i,
        {
            if !self.snapshots[i].eq_snapshot(&other.snapshots[i]) {
                proof {
                    assert(self@.snapshots[i as int] != other@.snapshots[i as int]);
                }
                return false;
            }
            i += 1;
        }
        proof {
            assert(self@.snapshots =~= other@.snapshots);
            assert(self@ =~= other@);
        }
        true
    }
}

impl Clone for TableMetadata {
    fn clone(&self) -> (r: Self)
        ensures
            r@ == self@,
            r.wf(),
    {
        let r = TableMetadata {
            location: self.location.clone(),
            last_updated_millis: self.last_updated_millis,
            last_column_id: self.last_column_id,
            current_snapshot_id: self.current_snapshot_id,
            schema: self.schema.clone(),
            partition_spec: self.partition_spec.clone(),
            properties: self.properties.clone(),
            snapshots: clone_snapshots(&self.snapshots),
        };
        proof {
            assert(r@ =~= self@);
        }
        r
    }
}

/// An element-for-element copy of a snapshot list.
fn clone_snapshots(snapshots: &Vec<Snapshot>) -> (r: Vec<Snapshot>)
    ensures
        r@.map_values(|s: Snapshot| s@) == snapshots@.map_values(|s: Snapshot| s@),
{
    let mut r: Vec<Snapshot> = Vec::new();
    let mut i: usize = 0;
    while i < snapshots.len()
        invariant
            i <= snapshots.len(),
            r@.len() == i,
            forall|k: int| 0 <= k < i ==> #[trigger] r@[k]@ == snapshots@[k]@,
        decreases snapshots.len() - i,
    {
        r.push(snapshots[i].clone());
        i += 1;
    }
    proof {
        assert(r@.map_values(|s: Snapshot| s@) =~= snapshots@.map_values(|s: Snapshot| s@));
    }
    r
}

/// Whether two schemas hold the same fields in the same order.
fn eq_schema(a: &Schema, b: &Schema) -> (r: bool)
    ensures
        r == (a@ == b@),
{
    if a.fields.len() != b.fields.len() {
        proof {
            assert(a@.fields.len() != b@.fields.len());
        }
        return false;
    }
    let mut i: usize = 0;
    while i < a.fields.len()
        invariant
            i <= a.fields.len(),
            a.fields@.len() == b.fields@.len(),
            a@.fields.len() == a.fields@.len(),
            b@.fields.len() == b.fields@.len(),
            forall|k: int| 0 <= k < a.fields@.len() ==> #[trigger] a@.fields[k] == a.fields@[k]@,
            forall|k: int| 0 <= k < b.fields@.len() ==> #[trigger] b@.fields[k] == b.fields@[k]@,
            forall|k: int| 0 <= k < i ==> #[trigger] a@.fields[k] == b@.fields[k],
        decreases a.fields.len() - i,
    {
        let fa = &a.fields[i];
        let fb = &b.fields[i];
        if fa.id != fb.id || fa.required != fb.required || !(fa.name == fb.name) || !(fa.field_type
            == fb.field_type) {
            proof {
                assert(a@.fields[i as int] != b@.fields[i as int]);
            }
            return false;
        }
        proof {
            assert(a@.fields[i as int] =~= b@.fields[i as int]);
        }
        i += 1;
    }
    proof {
        assert(a@.fields =~= b@.fields);
        assert(a@ =~= b@);
    }
    true
}

/// Whether two partition specs hold the same fields in the same order.
fn eq_partition_spec(a: &PartitionSpec, b: &PartitionSpec) -> (r: bool)
    ensures
        r == (a@ == b@),
{
    let af = a.fields();
    let bf = b.fields();
    if af.len() != bf.len() {
        proof {
            assert(a@.fields.len() != b@.fields.len());
        }
        return false;
    }
    let mut i: usize = 0;
    while i < af.len()
        invariant
            i <= af.len(),
            af@.len() == bf@.len(),
            a@.fields == af@.map_values(|f: crate::partition::PartitionField| f@),
            b@.fields == bf@.map_values(|f: crate::partition::PartitionField| f@),
            forall|k: int| 0 <= k < i ==> #[trigger] a@.fields[k] == b@.fields[k],
        decreases af.len() - i,
    {
        let fa = &af[i];
        let fb = &bf[i];
        if fa.source_id != fb.source_id || !(fa.name == fb.name) || !(fa.transform == fb.transform)
            {
            proof {
                assert(a@.fields[i as int] != b@.fields[i as int]);
            }
            return false;
        }
        proof {
            assert(a@.fields[i as int] =~= b@.fields[i as int]);
        }
        i += 1;
    }
    proof {
        assert(a@.fields =~= b@.fields);
        assert(a@ =~= b@);
    }
    true
}

} // verus!
