//! Tabulating a batch of JSON records into string columns, for the write
//! path: the column layout is decided here, the columnar encoding outside.

use crate::json::{spec_get, JsonValue, JsonView};
use vstd::prelude::*;

verus! {

/// Why a record batch could not be tabulated.
#[derive(Clone, Copy, PartialEq, Eq, Structural, Debug)]
pub enum RecordsError {
    /// There are no records to take a column layout from.
    EmptyInput,
    /// The first record is not a JSON object.
    NotAnObject,
}

/// A record batch as columns of optional strings: `columns[j][i]` is record
/// `i`'s string under field `j`, and `None` where the record lacks it or it
/// is not a string.
#[derive(Debug)]
pub struct StringColumns {
    pub fields: Vec<String>,
    pub columns: Vec<Vec<Option<String>>>,
}

/// The cell a record holds under a field: its string value, if any.
pub open spec fn spec_cell(row: JsonView, field: Seq<char>) -> Option<Seq<char>> {
    match spec_get(row, field) {
        Some(JsonView::Str(s)) => Some(s),
        _ => None,
    }
}

/// The view of one column cell.
pub open spec fn cell_view(cell: Option<String>) -> Option<Seq<char>> {
    match cell {
        Some(s) => Some(s@),
        None => None,
    }
}

/// Tabulates records into columns: the fields are the keys of the first
/// record's object, in order, and each column holds every record's string
/// under that field.
pub fn string_columns(rows: &Vec<JsonValue>) -> (r: Result<StringColumns, RecordsError>)
    ensures
        match r {
            Ok(t) => {
                &&& rows@.len() > 0
                &&& crate::json::json_view(rows@[0]) matches JsonView::Obj(entries)
                    && t.fields@.map_values(|f: String| f@) == entries.map_values(
                    |e: (Seq<char>, JsonView)| e.0,
                )
                &&& t.columns@.len() == t.fields@.len()
                &&& forall|j: int|
                    0 <= j < t.columns@.len() ==> (#[trigger] t.columns@[j])@.len() == rows@.len()
                &&& forall|j: int, i: int|
                    0 <= j < t.columns@.len() && 0 <= i < rows@.len() ==> cell_view(
                        #[trigger] t.columns@[j]@[i],
                    ) == spec_cell(crate::json::json_view(rows@[i]), t.fields@[j]@)
            },
            Err(RecordsError::EmptyInput) => rows@.len() == 0,
            Err(RecordsError::NotAnObject) => rows@.len() > 0 && !(crate::json::json_view(rows@[0])
                matches JsonView::Obj(_)),
        },
{
    if rows.len() == 0 {
        return Err(RecordsError::EmptyInput);
    }
    let first = &rows[0];
    match first {
        JsonValue::Obj(entries) => {
            proof {
                crate::json::lemma_json_view_entries(entries@);
            }
            let ghost ev = crate::json::json_view_entries(entries@);
            let mut fields: Vec<String> = Vec::new();
            let mut k: usize = 0;
            while k < entries.len()
                invariant
                    k <= entries.len(),
                    ev == crate::json::json_view_entries(entries@),
                    ev.len() == entries@.len(),
                    forall|t: int|
                        0 <= t < entries@.len() ==> #[trigger] ev[t] == (
                            entries@[t].0@,
                            crate::json::json_view(entries@[t].1),
                        ),
                    fields@.len() == k,
                    forall|t: int| 0 <= t < k ==> (#[trigger] fields@[t])@ == ev[t].0,
                decreases entries.len() - k,
            {
                fields.push(entries[k].0.clone());
                k += 1;
            }
            let mut columns: Vec<Vec<Option<String>>> = Vec::new();
            let mut j: usize = 0;
            while j < fields.len()
                invariant
                    j <= fields.len(),
                    columns@.len() == j,
                    forall|t: int|
                        0 <= t < j ==> (#[trigger] columns@[t])@.len() == rows@.len(),
                    forall|t: int, i: int|
                        0 <= t < j && 0 <= i < rows@.len() ==> cell_view(
                            #[trigger] columns@[t]@[i],
                        ) == spec_cell(crate::json::json_view(rows@[i]), fields@[t]@),
                decreases fields.len() - j,
            {
                let mut column: Vec<Option<String>> = Vec::new();
                let mut i: usize = 0;
                while i < rows.len()
                    invariant
                        i <= rows.len(),
                        j < fields.len(),
                        column@.len() == i,
                        forall|t: int|
                            0 <= t < i ==> cell_view(#[trigger] column@[t]) == spec_cell(
                                crate::json::json_view(rows@[t]),
                                fields@[j as int]@,
                            ),
                    decreases rows.len() - i,
                {
                    match rows[i].get(fields[j].as_str()) {
                        Some(found) => match found {
                            JsonValue::Str(s) => {
                                column.push(Some(s.clone()));
                            },
                            _ => {
                                column.push(None);
                            },
                        },
                        None => {
                            column.push(None);
                        },
                    }
                    i += 1;
                }
                columns.push(column);
                j += 1;
            }
            let r = StringColumns { fields, columns };
            proof {
                assert(r.fields@.map_values(|f: String| f@) =~= ev.map_values(
                    |e: (Seq<char>, JsonView)| e.0,
                ));
            }
            Ok(r)
        },
        _ => Err(RecordsError::NotAnObject),
    }
}

} // verus!
