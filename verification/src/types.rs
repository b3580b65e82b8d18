//! Field-type tags used throughout the metadata model.

use vstd::prelude::*;

verus! {

/// The type tag of a schema field.
#[derive(Clone, Copy, PartialEq, Eq, Structural, Debug)]
pub enum FieldType {
    Boolean,
    Integer,
    Long,
    Float,
    Double,
    Date,
    Time,
    Timestamp,
    String,
    Uuid,
    Fixed,
    Binary,
    Decimal,
    Struct,
    List,
    Mapping,
}

/// The tag a type name denotes, or `None` for an unknown name.
pub open spec fn spec_field_type_of_name(name: Seq<char>) -> Option<FieldType> {
    if name == "boolean"@ {
        Some(FieldType::Boolean)
    } else if name == "integer"@ {
        Some(FieldType::Integer)
    } else if name == "long"@ {
        Some(FieldType::Long)
    } else if name == "float"@ {
        Some(FieldType::Float)
    } else if name == "double"@ {
        Some(FieldType::Double)
    } else if name == "date"@ {
        Some(FieldType::Date)
    } else if name == "time"@ {
        Some(FieldType::Time)
    } else if name == "timestamp"@ {
        Some(FieldType::Timestamp)
    } else if name == "string"@ {
        Some(FieldType::String)
    } else if name == "uuid"@ {
        Some(FieldType::Uuid)
    } else if name == "fixed"@ {
        Some(FieldType::Fixed)
    } else if name == "binary"@ {
        Some(FieldType::Binary)
    } else if name == "decimal"@ {
        Some(FieldType::Decimal)
    } else if name == "struct"@ {
        Some(FieldType::Struct)
    } else if name == "list"@ {
        Some(FieldType::List)
    } else if name == "map"@ {
        Some(FieldType::Mapping)
    } else {
        None
    }
}

impl FieldType {
    /// Resolves a type name, exactly and case-sensitively.
    pub fn from_name(name: &str) -> (r: Option<FieldType>)
        ensures
            r == spec_field_type_of_name(name@),
    {
        if crate::json::str_eq(name, "boolean") {
            Some(FieldType::Boolean)
        } else if crate::json::str_eq(name, "integer") {
            Some(FieldType::Integer)
        } else if crate::json::str_eq(name, "long") {
            Some(FieldType::Long)
        } else if crate::json::str_eq(name, "float") {
            Some(FieldType::Float)
        } else if crate::json::str_eq(name, "double") {
            Some(FieldType::Double)
        } else if crate::json::str_eq(name, "date") {
            Some(FieldType::Date)
        } else if crate::json::str_eq(name, "time") {
            Some(FieldType::Time)
        } else if crate::json::str_eq(name, "timestamp") {
            Some(FieldType::Timestamp)
        } else if crate::json::str_eq(name, "string") {
            Some(FieldType::String)
        } else if crate::json::str_eq(name, "uuid") {
            Some(FieldType::Uuid)
        } else if crate::json::str_eq(name, "fixed") {
            Some(FieldType::Fixed)
        } else if crate::json::str_eq(name, "binary") {
            Some(FieldType::Binary)
        } else if crate::json::str_eq(name, "decimal") {
            Some(FieldType::Decimal)
        } else if crate::json::str_eq(name, "struct") {
            Some(FieldType::Struct)
        } else if crate::json::str_eq(name, "list") {
            Some(FieldType::List)
        } else if crate::json::str_eq(name, "map") {
            Some(FieldType::Mapping)
        } else {
            None
        }
    }
}

} // verus!
