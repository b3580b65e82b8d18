//! The partition-transform framework: pure value transforms used to derive
//! partition values from schema fields.

use crate::json::str_eq;
use crate::types::FieldType;
use vstd::prelude::*;

verus! {

/// Why applying a transform to a value failed.
#[derive(Clone, Copy, PartialEq, Eq, Structural, Debug)]
pub enum TransformError {
    /// The value's runtime type is not one the transform accepts.
    TypeMismatch,
    /// The transform is a declared extension point whose application is not
    /// implemented in this core. This arises at apply time only, never while
    /// parsing, so it stands outside the parser's error taxonomy.
    Unsupported,
}

/// A runtime value handed to a transform.
#[derive(Debug, PartialEq, Eq)]
pub enum Scalar {
    Int(i64),
    Str(String),
    Bool(bool),
}

/// The mathematical model of a [`Scalar`].
pub enum ScalarView {
    Int(i64),
    Str(Seq<char>),
    Bool(bool),
}

impl View for Scalar {
    type V = ScalarView;

    open spec fn view(&self) -> ScalarView {
        match self {
            Scalar::Int(x) => ScalarView::Int(*x),
            Scalar::Str(s) => ScalarView::Str(s@),
            Scalar::Bool(b) => ScalarView::Bool(*b),
        }
    }
}

/// The bucket transform: an integer value modulo the bucket width, with an
/// unsigned result.
#[derive(Clone, Copy, PartialEq, Eq, Structural, Debug)]
pub struct Bucket {
    pub width: u32,
}

impl Bucket {
    /// A bucket transform of the given width; the width is a required,
    /// explicit parameter.
    pub fn new(width: u32) -> (r: Bucket)
        requires
            width >= 1,
        ensures
            r.width == width,
    {
        Bucket { width }
    }
}

/// A partition transform: a closed set of known kinds. Only `Bucket` and
/// `Identity` can be applied in this core; the others are declared extension
/// points sharing the same contract.
#[derive(Clone, Copy, PartialEq, Eq, Structural, Debug)]
pub enum Transform {
    Identity,
    Bucket(Bucket),
    Truncate { width: u32 },
    Year,
    Month,
    Day,
    Hour,
}

impl Transform {
    /// Widths are positive, so that a modulus is well defined.
    pub open spec fn wf(self) -> bool {
        match self {
            Transform::Bucket(b) => b.width >= 1,
            Transform::Truncate { width } => width >= 1,
            _ => true,
        }
    }
}

/// Which source field types a transform accepts: buckets and truncation take
/// the integer value types (and truncation strings), the time-unit kinds
/// take the matching temporal types, and the identity takes anything.
pub open spec fn spec_can_transform(t: Transform, ft: FieldType) -> bool {
    match t {
        Transform::Identity => true,
        Transform::Bucket(_) => ft == FieldType::Integer || ft == FieldType::Long,
        Transform::Truncate { .. } => ft == FieldType::String || ft == FieldType::Integer
            || ft == FieldType::Long,
        Transform::Year | Transform::Month | Transform::Day => ft == FieldType::Date || ft
            == FieldType::Timestamp,
        Transform::Hour => ft == FieldType::Timestamp,
    }
}

/// The field type a transform's results carry, given the source field type.
pub open spec fn spec_result_type(t: Transform, source: FieldType) -> FieldType {
    match t {
        Transform::Identity => source,
        Transform::Bucket(_) => FieldType::Integer,
        Transform::Truncate { .. } => source,
        Transform::Year | Transform::Month | Transform::Day | Transform::Hour => {
            FieldType::Integer
        },
    }
}

/// What applying a transform to a value yields: the identity transform hands
/// the value back; a bucket maps an integer to its residue modulo the width
/// (non-negative) and rejects any other value as a type mismatch; the
/// remaining kinds are unimplemented extension points.
pub open spec fn spec_apply(t: Transform, v: ScalarView) -> Result<ScalarView, TransformError> {
    match t {
        Transform::Identity => Ok(v),
        Transform::Bucket(b) => match v {
            ScalarView::Int(x) => Ok(ScalarView::Int(((x as int) % (b.width as int)) as i64)),
            _ => Err(TransformError::TypeMismatch),
        },
        _ => Err(TransformError::Unsupported),
    }
}

impl Transform {
    /// Whether this transform can derive a partition value from a source
    /// field of the given type.
    pub fn can_transform(&self, field_type: FieldType) -> (r: bool)
        ensures
            r == spec_can_transform(*self, field_type),
    {
        match self {
            Transform::Identity => true,
            Transform::Bucket(_) => field_type == FieldType::Integer || field_type
                == FieldType::Long,
            Transform::Truncate { .. } => field_type == FieldType::String || field_type
                == FieldType::Integer || field_type == FieldType::Long,
            Transform::Year | Transform::Month | Transform::Day => field_type == FieldType::Date
                || field_type == FieldType::Timestamp,
            Transform::Hour => field_type == FieldType::Timestamp,
        }
    }

    /// The field type of this transform's results for the given source type.
    pub fn get_result_type(&self, source: FieldType) -> (r: FieldType)
        ensures
            r == spec_result_type(*self, source),
    {
        match self {
            Transform::Identity => source,
            Transform::Bucket(_) => FieldType::Integer,
            Transform::Truncate { .. } => source,
            Transform::Year | Transform::Month | Transform::Day | Transform::Hour => {
                FieldType::Integer
            },
        }
    }

    /// Applies this transform to a runtime value; a value whose type does not
    /// match is a declared error, never undefined behavior.
    pub fn apply(&self, input: Scalar) -> (r: Result<Scalar, TransformError>)
        requires
            self.wf(),
        ensures
            match r {
                Ok(out) => spec_apply(*self, input@) == Ok::<ScalarView, TransformError>(out@),
                Err(e) => spec_apply(*self, input@) == Err::<ScalarView, TransformError>(e),
            },
    {
        match self {
            Transform::Identity => Ok(input),
            Transform::Bucket(b) => match input {
                Scalar::Int(x) => Ok(Scalar::Int(bucket_residue(x, b.width))),
                _ => Err(TransformError::TypeMismatch),
            },
            _ => Err(TransformError::Unsupported),
        }
    }
}

/// The non-negative residue of `x` modulo `width`.
fn bucket_residue(x: i64, width: u32) -> (r: i64)
    requires
        width >= 1,
    ensures
        r as int == (x as int) % (width as int),
{
    let w64: u64 = width as u64;
    if x >= 0 {
        let m: u64 = (x as u64) % w64;
        m as i64
    } else {
        let mag: u64 = (-(x as i128)) as u64;
        let m: u64 = mag % w64;
        let r: u64 = if m == 0 {
            0
        } else {
            w64 - m
        };
        proof {
            lemma_neg_residue(x as int, width as int, mag as int, m as int);
        }
        r as i64
    }
}

/// For a negative dividend, the Euclidean residue is the width minus the
/// magnitude's residue, except where the magnitude divides evenly.
proof fn lemma_neg_residue(x: int, w: int, mag: int, m: int)
    requires
        w >= 1,
        x < 0,
        mag == -x,
        m == mag % w,
    ensures
        m == 0 ==> x % w == 0,
        m != 0 ==> x % w == w - m,
{
    let q = mag / w;
    vstd::arithmetic::div_mod::lemma_fundamental_div_mod(mag, w);
    if m == 0 {
        assert(x == (-q) * w + 0) by (nonlinear_arith)
            requires
                mag == q * w + m,
                m == 0,
                x == -mag,
        ;
        vstd::arithmetic::div_mod::lemma_fundamental_div_mod_converse(x, w, -q, 0);
    } else {
        assert(x == (-q - 1) * w + (w - m)) by (nonlinear_arith)
            requires
                mag == q * w + m,
                x == -mag,
        ;
        vstd::arithmetic::div_mod::lemma_fundamental_div_mod_converse(x, w, -q - 1, w - m);
    }
}

/// The transform registry: exact, case-sensitive name lookup.
pub struct TransformFactory {}

/// The width a bucket or truncate transform takes where a partition field's
/// definition names the transform alone. The metadata document's
/// partition-spec entries carry only a source id, a transform name and a
/// partition name — no width attribute — so a name-only `bucket` or
/// `truncate` cannot supply its own width; the registry then uses this
/// default, declared here so the choice is visible rather than buried in a
/// resolver. Code constructing a transform directly passes an explicit width
/// instead (`Bucket::new`).
pub const DEFAULT_TRANSFORM_WIDTH: u32 = 16;

/// The transform a name resolves to, or `None` for an unknown name; an
/// unresolved name is a caller-visible structural error, never a silent
/// default. Every kind of the closed transform set resolves by its exact,
/// case-sensitive name, so documents naming the declared extension kinds
/// parse; applying an unimplemented kind is what fails, with
/// `TransformError::Unsupported`.
pub open spec fn spec_get_transform(name: Seq<char>) -> Option<Transform> {
    if name == "identity"@ {
        Some(Transform::Identity)
    } else if name == "bucket"@ {
        Some(Transform::Bucket(Bucket { width: DEFAULT_TRANSFORM_WIDTH }))
    } else if name == "truncate"@ {
        Some(Transform::Truncate { width: DEFAULT_TRANSFORM_WIDTH })
    } else if name == "year"@ {
        Some(Transform::Year)
    } else if name == "month"@ {
        Some(Transform::Month)
    } else if name == "day"@ {
        Some(Transform::Day)
    } else if name == "hour"@ {
        Some(Transform::Hour)
    } else {
        None
    }
}

/// Resolves a transform name, exactly and case-sensitively. Every transform
/// it hands out is well formed.
pub fn get_transform(transform_name: &str) -> (r: Option<Transform>)
    ensures
        r == spec_get_transform(transform_name@),
        r matches Some(t) ==> t.wf(),
{
    if str_eq(transform_name, "identity") {
        Some(Transform::Identity)
    } else if str_eq(transform_name, "bucket") {
        Some(Transform::Bucket(Bucket { width: DEFAULT_TRANSFORM_WIDTH }))
    } else if str_eq(transform_name, "truncate") {
        Some(Transform::Truncate { width: DEFAULT_TRANSFORM_WIDTH })
    } else if str_eq(transform_name, "year") {
        Some(Transform::Year)
    } else if str_eq(transform_name, "month") {
        Some(Transform::Month)
    } else if str_eq(transform_name, "day") {
        Some(Transform::Day)
    } else if str_eq(transform_name, "hour") {
        Some(Transform::Hour)
    } else {
        None
    }
}

impl TransformFactory {
    /// Resolves a transform name through the registry.
    pub fn resolve(transform_name: &str) -> (r: Option<Transform>)
        ensures
            r == spec_get_transform(transform_name@),
            r matches Some(t) ==> t.wf(),
    {
        get_transform(transform_name)
    }
}

} // verus!
