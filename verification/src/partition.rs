//! Partition fields and partition specs: how partition values are derived
//! from schema fields.

use crate::schema::{Schema, SchemaView};
use crate::transform::{spec_can_transform, Transform};
use crate::types::{spec_field_type_of_name, FieldType};
use vstd::prelude::*;

verus! {

/// One partition field: a source schema field bound to a transform.
#[derive(Debug)]
pub struct PartitionField {
    pub source_id: u32,
    pub name: String,
    pub transform: Transform,
}

/// The mathematical model of a [`PartitionField`].
#[verifier::ext_equal]
pub struct PartitionFieldView {
    pub source_id: u32,
    pub name: Seq<char>,
    pub transform: Transform,
}

impl View for PartitionField {
    type V = PartitionFieldView;

    open spec fn view(&self) -> PartitionFieldView {
        PartitionFieldView {
            source_id: self.source_id,
            name: self.name@,
            transform: self.transform,
        }
    }
}

impl PartitionField {
    pub fn new(source_id: u32, name: String, transform: Transform) -> (r: PartitionField)
        ensures
            r@.source_id == source_id,
            r@.name == name@,
            r@.transform == transform,
    {
        PartitionField { source_id, name, transform }
    }
}

impl Clone for PartitionField {
    fn clone(&self) -> (r: Self)
        ensures
            r@ == self@,
    {
        PartitionField {
            source_id: self.source_id,
            name: self.name.clone(),
            transform: self.transform,
        }
    }
}

/// An ordered list of partition fields.
#[derive(Debug)]
pub struct PartitionSpec {
    partition_fields: Vec<PartitionField>,
}

/// The mathematical model of a [`PartitionSpec`].
#[verifier::ext_equal]
pub struct PartitionSpecView {
    pub fields: Seq<PartitionFieldView>,
}

impl View for PartitionSpec {
    type V = PartitionSpecView;

    closed spec fn view(&self) -> PartitionSpecView {
        PartitionSpecView { fields: self.partition_fields@.map_values(|f: PartitionField| f@) }
    }
}

/// Some schema field carries the partition field's source id.
pub open spec fn spec_source_exists(pf: PartitionFieldView, schema: SchemaView) -> bool {
    exists|j: int| 0 <= j < schema.fields.len() && (#[trigger] schema.fields[j]).id == pf.source_id
}

/// The partition field references an existing schema field whose type its
/// transform accepts.
pub open spec fn spec_binds(pf: PartitionFieldView, schema: SchemaView) -> bool {
    exists|j: int|
        {
            &&& 0 <= j < schema.fields.len()
            &&& (#[trigger] schema.fields[j]).id == pf.source_id
            &&& spec_field_type_of_name(schema.fields[j].field_type) matches Some(ft)
                && spec_can_transform(pf.transform, ft)
        }
}

/// Partition field `i` references an existing schema field whose type its
/// transform accepts.
pub open spec fn spec_field_matches(ps: PartitionSpecView, schema: SchemaView, i: int) -> bool {
    spec_binds(ps.fields[i], schema)
}

/// Every partition field references an existing schema field whose type its
/// transform accepts.
pub open spec fn spec_compatible(ps: PartitionSpecView, schema: SchemaView) -> bool {
    forall|i: int| 0 <= i < ps.fields.len() ==> #[trigger] spec_field_matches(ps, schema, i)
}

impl PartitionSpec {
    pub fn new(partition_fields: Vec<PartitionField>) -> (r: PartitionSpec)
        ensures
            r@.fields == partition_fields@.map_values(|f: PartitionField| f@),
    {
        PartitionSpec { partition_fields }
    }

    /// The partition fields, in order.
    pub fn fields(&self) -> (r: &Vec<PartitionField>)
        ensures
            r@.map_values(|f: PartitionField| f@) == self@.fields,
    {
        &self.partition_fields
    }

    /// Whether every partition field references an existing schema field of
    /// a type its transform can transform. The schema's field ids must be
    /// unique for the reference to be unambiguous.
    pub fn compatible_with(&self, schema: &Schema) -> (r: bool)
        requires
            schema@.ids_unique(),
        ensures
            r == spec_compatible(self@, schema@),
    {
        let mut i: usize = 0;
        while i < self.partition_fields.len()
            invariant
                i <= self.partition_fields.len(),
                schema@.ids_unique(),
                self@.fields.len() == self.partition_fields@.len(),
                forall|k: int|
                    0 <= k < self.partition_fields@.len() ==> #[trigger] self@.fields[k]
                        == self.partition_fields@[k]@,
                forall|k: int| 0 <= k < i ==> #[trigger] spec_field_matches(self@, schema@, k),
            decreases self.partition_fields.len() - i,
        {
            let pf = &self.partition_fields[i];
            let ghost fv = self@.fields[i as int];
            match schema.field_by_id(pf.source_id) {
                Some(field) => {
                    let ghost field_view = field@;
                    let mut matched = false;
                    match FieldType::from_name(field.field_type.as_str()) {
                        Some(ft) => {
                            matched = pf.transform.can_transform(ft);
                        },
                        None => {
                        },
                    }
                    if !matched {
                        proof {
                            lemma_unique_id_type(schema@, fv.source_id, field_view);
                            assert forall|j: int|
                                0 <= j < schema@.fields.len() && (#[trigger] schema@.fields[j]).id
                                    == fv.source_id implies !(spec_field_type_of_name(
                                schema@.fields[j].field_type,
                            ) matches Some(ft) && spec_can_transform(fv.transform, ft)) by {
                                assert(schema@.fields[j] == field_view);
                            }
                            assert(!spec_field_matches(self@, schema@, i as int));
                        }
                        return false;
                    }
                    proof {
                        let j = choose|j: int|
                            0 <= j < schema@.fields.len() && #[trigger] schema@.fields[j]
                                == field_view;
                        assert((#[trigger] schema@.fields[j]).id == fv.source_id);
                        assert(spec_field_matches(self@, schema@, i as int));
                    }
                },
                None => {
                    proof {
                        assert(!spec_field_matches(self@, schema@, i as int));
                    }
                    return false;
                },
            }
            i += 1;
        }
        true
    }
}

/// Why a partition field fails to bind to a schema.
#[derive(Clone, Copy, PartialEq, Eq, Structural, Debug)]
pub enum PartitionBindingFault {
    /// No schema field carries the partition field's source id.
    UnknownSourceField,
    /// The referenced field's type is unknown, or its transform cannot
    /// transform it.
    IncompatibleTransform,
}

/// The first binding fault among the partition fields, in order: a missing
/// source field is reported before an incompatible transform of the same
/// entry.
pub open spec fn spec_binding_fault(
    fields: Seq<PartitionFieldView>,
    schema: SchemaView,
) -> Option<PartitionBindingFault>
    decreases fields.len(),
{
    if fields.len() == 0 {
        None
    } else if !spec_source_exists(fields[0], schema) {
        Some(PartitionBindingFault::UnknownSourceField)
    } else if !spec_binds(fields[0], schema) {
        Some(PartitionBindingFault::IncompatibleTransform)
    } else {
        spec_binding_fault(fields.drop_first(), schema)
    }
}

/// A spec with no binding fault is compatible with the schema.
proof fn lemma_no_fault_compatible(ps: PartitionSpecView, schema: SchemaView)
    requires
        spec_binding_fault(ps.fields, schema) is None,
    ensures
        spec_compatible(ps, schema),
    decreases ps.fields.len(),
{
    if ps.fields.len() > 0 {
        let tail = PartitionSpecView { fields: ps.fields.drop_first() };
        lemma_no_fault_compatible(tail, schema);
        assert forall|i: int| 0 <= i < ps.fields.len() implies #[trigger] spec_field_matches(
            ps,
            schema,
            i,
        ) by {
            if i > 0 {
                assert(spec_field_matches(tail, schema, i - 1));
                assert(tail.fields[i - 1] == ps.fields[i]);
            }
        }
    }
}

impl PartitionSpec {
    /// The first partition field that does not bind to the schema, and how
    /// it fails. The schema's field ids must be unique for the reference to
    /// be unambiguous.
    pub fn first_binding_fault(&self, schema: &Schema) -> (r: Option<PartitionBindingFault>)
        requires
            schema@.ids_unique(),
        ensures
            r == spec_binding_fault(self@.fields, schema@),
            (r is None ==> spec_compatible(self@, schema@)),
    {
        let ghost fields = self@.fields;
        proof {
            assert(fields.skip(0) =~= fields);
        }
        let mut i: usize = 0;
        while i < self.partition_fields.len()
            invariant
                i <= self.partition_fields.len(),
                schema@.ids_unique(),
                fields == self@.fields,
                fields.len() == self.partition_fields@.len(),
                forall|k: int|
                    0 <= k < self.partition_fields@.len() ==> #[trigger] fields[k]
                        == self.partition_fields@[k]@,
                spec_binding_fault(fields, schema@) == spec_binding_fault(
                    fields.skip(i as int),
                    schema@,
                ),
            decreases self.partition_fields.len() - i,
        {
            let pf = &self.partition_fields[i];
            let ghost fv = fields[i as int];
            proof {
                assert(fields.skip(i as int)[0] == fv);
                assert(fields.skip(i as int).drop_first() =~= fields.skip(i + 1));
            }
            match schema.field_by_id(pf.source_id) {
                Some(field) => {
                    let ghost field_view = field@;
                    let mut matched = false;
                    match FieldType::from_name(field.field_type.as_str()) {
                        Some(ft) => {
                            matched = pf.transform.can_transform(ft);
                        },
                        None => {
                        },
                    }
                    if !matched {
                        proof {
                            let j = choose|j: int|
                                0 <= j < schema@.fields.len() && #[trigger] schema@.fields[j]
                                    == field_view;
                            assert((#[trigger] schema@.fields[j]).id == fv.source_id);
                            assert(spec_source_exists(fv, schema@));
                            lemma_unique_id_type(schema@, fv.source_id, field_view);
                            assert forall|k: int|
                                0 <= k < schema@.fields.len() && (#[trigger] schema@.fields[k]).id
                                    == fv.source_id implies !(spec_field_type_of_name(
                                schema@.fields[k].field_type,
                            ) matches Some(ft) && spec_can_transform(fv.transform, ft)) by {
                                assert(schema@.fields[k] == field_view);
                            }
                            assert(!spec_binds(fv, schema@));
                        }
                        return Some(PartitionBindingFault::IncompatibleTransform);
                    }
                    proof {
                        let j = choose|j: int|
                            0 <= j < schema@.fields.len() && #[trigger] schema@.fields[j]
                                == field_view;
                        assert((#[trigger] schema@.fields[j]).id == fv.source_id);
                        assert(spec_binds(fv, schema@));
                    }
                },
                None => {
                    proof {
                        assert(!spec_source_exists(fv, schema@));
                    }
                    return Some(PartitionBindingFault::UnknownSourceField);
                },
            }
            i += 1;
        }
        proof {
            assert(fields.skip(fields.len() as int) =~= Seq::empty());
            lemma_no_fault_compatible(self@, schema@);
        }
        None
    }
}

/// With unique field ids, any two schema fields carrying the same id are the
/// same field.
proof fn lemma_unique_id_type(schema: SchemaView, id: u32, witness: crate::schema::NestedFieldView)
    requires
        schema.ids_unique(),
        exists|i: int| 0 <= i < schema.fields.len() && #[trigger] schema.fields[i] == witness,
        witness.id == id,
    ensures
        forall|j: int|
            0 <= j < schema.fields.len() && (#[trigger] schema.fields[j]).id == id
                ==> schema.fields[j] == witness,
{
    let i = choose|i: int| 0 <= i < schema.fields.len() && #[trigger] schema.fields[i] == witness;
    assert forall|j: int|
        0 <= j < schema.fields.len() && (#[trigger] schema.fields[j]).id == id implies schema.fields[j]
        == witness by {
        if i < j {
            assert(schema.fields[i].id != schema.fields[j].id);
        } else if j < i {
            assert(schema.fields[j].id != schema.fields[i].id);
        }
    }
}

impl Clone for PartitionSpec {
    fn clone(&self) -> (r: Self)
        ensures
            r@ == self@,
    {
        let mut partition_fields: Vec<PartitionField> = Vec::new();
        let mut i: usize = 0;
        while i < self.partition_fields.len()
            invariant
                i <= self.partition_fields.len(),
                partition_fields@.len() == i,
                forall|k: int|
                    0 <= k < i ==> #[trigger] partition_fields@[k]@ == self.partition_fields@[k]@,
            decreases self.partition_fields.len() - i,
        {
            partition_fields.push(self.partition_fields[i].clone());
            i += 1;
        }
        let r = PartitionSpec { partition_fields };
        proof {
            assert(r@.fields =~= self@.fields);
            assert(r@ =~= self@);
        }
        r
    }
}

} // verus!
