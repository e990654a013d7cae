//! The validation gate: the only error path. A candidate record is
//! accepted only when it is a plain structure with named fields; sum
//! types, untagged unions, tuple-like and unit shapes are rejected
//! before any offset is computed, so no partial layout is ever seen.

use vstd::prelude::*;
use crate::fact::FieldFact;
use crate::fact::LayoutVariant;
use crate::fact::wf_facts;
use crate::layout::StructLayout;
use crate::layout::spec_total_size;

verus! {

/// The structural shape of a candidate record declaration.
pub enum RecordShape {
    /// A plain structure with named fields: the only supported shape.
    NamedFields { fields: Vec<FieldFact> },
    /// A tuple-like structure whose fields carry no names.
    UnnamedFields,
    /// A unit structure with no fields at all.
    NoFields,
    /// A sum type: a tagged union of several variants.
    SumType,
    /// An untagged union.
    Union,
}

/// The shape a rejected record was declared with.
#[derive(Clone, Copy, Debug, PartialEq, Eq, Structural)]
pub enum UnsupportedShapeError {
    /// The record is a tuple-like structure.
    TupleStruct,
    /// The record is a unit structure.
    UnitStruct,
    /// The record is a sum type or an untagged union, not a structure.
    NotAStruct,
}

impl UnsupportedShapeError {
    /// A short account of why the shape was rejected.
    pub fn describe(&self) -> (s: &'static str)
        ensures
            *self is TupleStruct ==> s@ == "Tuple structs are not supported"@,
            *self is UnitStruct ==> s@ == "Unit structs are not supported"@,
            *self is NotAStruct ==> s@ == "Only structs are supported"@,
    {
        match self {
            UnsupportedShapeError::TupleStruct => "Tuple structs are not supported",
            UnsupportedShapeError::UnitStruct => "Unit structs are not supported",
            UnsupportedShapeError::NotAStruct => "Only structs are supported",
        }
    }
}

/// Accepts exactly the named-field shapes, handing their field facts
/// on; every other shape is rejected with the error naming it.
pub fn validate(shape: RecordShape) -> (r: Result<Vec<FieldFact>, UnsupportedShapeError>)
    ensures
        match shape {
            RecordShape::NamedFields { fields } => r == Ok::<Vec<FieldFact>, UnsupportedShapeError>(
                fields,
            ),
            RecordShape::UnnamedFields => r == Err::<Vec<FieldFact>, UnsupportedShapeError>(
                UnsupportedShapeError::TupleStruct,
            ),
            RecordShape::NoFields => r == Err::<Vec<FieldFact>, UnsupportedShapeError>(
                UnsupportedShapeError::UnitStruct,
            ),
            RecordShape::SumType => r == Err::<Vec<FieldFact>, UnsupportedShapeError>(
                UnsupportedShapeError::NotAStruct,
            ),
            RecordShape::Union => r == Err::<Vec<FieldFact>, UnsupportedShapeError>(
                UnsupportedShapeError::NotAStruct,
            ),
        },
{
    match shape {
        RecordShape::NamedFields { fields } => Ok(fields),
        RecordShape::UnnamedFields => Err(UnsupportedShapeError::TupleStruct),
        RecordShape::NoFields => Err(UnsupportedShapeError::UnitStruct),
        RecordShape::SumType => Err(UnsupportedShapeError::NotAStruct),
        RecordShape::Union => Err(UnsupportedShapeError::NotAStruct),
    }
}

/// Defines a record under a layout variant: the shape is validated
/// first, and only a named-field shape ever reaches the offset
/// computation, which then always yields the full layout.
pub fn define_record(shape: RecordShape, variant: &LayoutVariant) -> (r: Result<
    StructLayout,
    UnsupportedShapeError,
>)
    requires
        variant.wf(),
        shape matches RecordShape::NamedFields { fields } ==> wf_facts(fields@)
            && spec_total_size(fields@) <= usize::MAX,
    ensures
        shape matches RecordShape::NamedFields { fields } ==> r matches Ok(layout)
            && layout.wf() && layout.derived_from(fields@, *variant),
        shape is UnnamedFields ==> r == Err::<StructLayout, UnsupportedShapeError>(
            UnsupportedShapeError::TupleStruct,
        ),
        shape is NoFields ==> r == Err::<StructLayout, UnsupportedShapeError>(
            UnsupportedShapeError::UnitStruct,
        ),
        shape is SumType || shape is Union ==> r == Err::<StructLayout, UnsupportedShapeError>(
            UnsupportedShapeError::NotAStruct,
        ),
{
    match validate(shape) {
        Ok(fields) => Ok(StructLayout::build(fields, variant)),
        Err(e) => Err(e),
    }
}

} // verus!
