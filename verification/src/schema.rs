//! The table schema: an ordered field list with unique integer field ids.

use vstd::prelude::*;

verus! {

/// One column of a schema.
#[derive(Debug, PartialEq, Eq)]
pub struct NestedField {
    pub id: u32,
    pub name: String,
    pub field_type: String,
    pub required: bool,
}

/// The mathematical model of a [`NestedField`].
#[verifier::ext_equal]
pub struct NestedFieldView {
    pub id: u32,
    pub name: Seq<char>,
    pub field_type: Seq<char>,
    pub required: bool,
}

impl View for NestedField {
    type V = NestedFieldView;

    open spec fn view(&self) -> NestedFieldView {
        NestedFieldView {
            id: self.id,
            name: self.name@,
            field_type: self.field_type@,
            required: self.required,
        }
    }
}

impl Clone for NestedField {
    fn clone(&self) -> (r: Self)
        ensures
            r@ == self@,
    {
        NestedField {
            id: self.id,
            name: self.name.clone(),
            field_type: self.field_type.clone(),
            required: self.required,
        }
    }
}

/// An ordered field list.
#[derive(Debug)]
pub struct Schema {
    pub fields: Vec<NestedField>,
}

/// The mathematical model of a [`Schema`].
#[verifier::ext_equal]
pub struct SchemaView {
    pub fields: Seq<NestedFieldView>,
}

impl View for Schema {
    type V = SchemaView;

    open spec fn view(&self) -> SchemaView {
        SchemaView { fields: self.fields@.map_values(|f: NestedField| f@) }
    }
}

impl SchemaView {
    /// Field ids are unique within a schema.
    pub open spec fn ids_unique(self) -> bool {
        forall|i: int, j: int|
            0 <= i < j < self.fields.len() ==> (#[trigger] self.fields[i]).id != (
            #[trigger] self.fields[j]).id
    }
}

impl Schema {
    pub fn new(fields: Vec<NestedField>) -> (r: Schema)
        ensures
            r@.fields == fields@.map_values(|f: NestedField| f@),
    {
        Schema { fields }
    }

    /// Whether this schema's field ids are unique — its declared invariant.
    pub fn ids_unique_check(&self) -> (r: bool)
        ensures
            r == self@.ids_unique(),
    {
        let mut i: usize = 0;
        while i < self.fields.len()
            invariant
                i <= self.fields.len(),
                self@.fields.len() == self.fields@.len(),
                forall|k: int|
                    0 <= k < self.fields@.len() ==> #[trigger] self@.fields[k] == self.fields@[k]@,
                forall|a: int, b: int|
                    0 <= a < b < self.fields@.len() && a < i ==> (#[trigger] self@.fields[a]).id
                        != (#[trigger] self@.fields[b]).id,
            decreases self.fields.len() - i,
        {
            let mut j: usize = i + 1;
            while j < self.fields.len()
                invariant
                    i < j <= self.fields.len(),
                    self@.fields.len() == self.fields@.len(),
                    forall|k: int|
                        0 <= k < self.fields@.len() ==> #[trigger] self@.fields[k]
                            == self.fields@[k]@,
                    forall|b: int|
                        i < b < j ==> (#[trigger] self@.fields[b]).id != self@.fields[i as int].id,
                decreases self.fields.len() - j,
            {
                if self.fields[i].id == self.fields[j].id {
                    proof {
                        assert(self@.fields[i as int].id == self@.fields[j as int].id);
                    }
                    return false;
                }
                j += 1;
            }
            i += 1;
        }
        true
    }

    /// The first field carrying the given id, if any.
    pub fn field_by_id(&self, id: u32) -> (r: Option<&NestedField>)
        ensures
            match r {
                Some(f) => f@.id == id && exists|i: int|
                    0 <= i < self@.fields.len() && #[trigger] self@.fields[i] == f@,
                None => forall|i: int|
                    0 <= i < self@.fields.len() ==> (#[trigger] self@.fields[i]).id != id,
            },
    {
        let mut i: usize = 0;
        while i < self.fields.len()
            invariant
                i <= self.fields.len(),
                self@.fields.len() == self.fields@.len(),
                forall|k: int|
                    0 <= k < self.fields@.len() ==> #[trigger] self@.fields[k] == self.fields@[k]@,
                forall|k: int| 0 <= k < i ==> (#[trigger] self@.fields[k]).id != id,
            decreases self.fields.len() - i,
        {
            if self.fields[i].id == id {
                proof {
                    assert(self@.fields[i as int] == self.fields@[i as int]@);
                }
                return Some(&self.fields[i]);
            }
            i += 1;
        }
        None
    }
}

impl Clone for Schema {
    fn clone(&self) -> (r: Self)
        ensures
            r@ == self@,
    {
        let mut fields: Vec<NestedField> = Vec::new();
        let mut i: usize = 0;
        while i < self.fields.len()
            invariant
                i <= self.fields.len(),
                fields@.len() == i,
                forall|k: int| 0 <= k < i ==> #[trigger] fields@[k]@ == self.fields@[k]@,
            decreases self.fields.len() - i,
        {
            fields.push(self.fields[i].clone());
            i += 1;
        }
        let r = Schema { fields };
        proof {
            assert(r@.fields =~= self@.fields);
        }
        r
    }
}

} // verus!
