//! The per-field layout facts and the layout variant that parameterize
//! the offset computation.

use vstd::prelude::*;
use crate::align::is_power_of_two;

verus! {

/// The layout facts of one field: the exact size of its device
/// representation, the power-of-two boundary it must start on, and
/// whether it forces the next field past a multiple of its own
/// alignment. Facts are derived once per field type and never change.
pub struct FieldFact {
    /// The field's name in the record declaration.
    pub name: String,
    /// Exact size in bytes of the field's device representation.
    pub byte_size: usize,
    /// Minimum power-of-two byte boundary the field must start on.
    pub alignment: usize,
    /// Whether the field forces trailing padding up to its alignment.
    pub pad_at_end: bool,
}

impl FieldFact {
    /// The facts are trusted to carry a positive power-of-two alignment.
    pub open spec fn wf(self) -> bool {
        is_power_of_two(self.alignment as int)
    }

    pub fn new(name: String, byte_size: usize, alignment: usize, pad_at_end: bool) -> (f:
        FieldFact)
        requires
            is_power_of_two(alignment as int),
        ensures
            f == (FieldFact { name, byte_size, alignment, pad_at_end }),
            f.wf(),
    {
        FieldFact { name, byte_size, alignment, pad_at_end }
    }
}

/// Every fact in a field sequence carries a valid alignment.
pub open spec fn wf_facts(facts: Seq<FieldFact>) -> bool {
    forall|i: int| 0 <= i < facts.len() ==> (#[trigger] facts[i]).wf()
}

/// A named layout convention: it fixes the minimum alignment of a
/// whole record without changing the shape of the computation.
pub struct LayoutVariant {
    /// The convention's name.
    pub layout_name: String,
    /// The least alignment any record may have under this convention.
    pub min_struct_alignment: usize,
}

impl LayoutVariant {
    /// The minimum record alignment is a positive power of two.
    pub open spec fn wf(self) -> bool {
        is_power_of_two(self.min_struct_alignment as int)
    }

    pub fn new(layout_name: String, min_struct_alignment: usize) -> (v: LayoutVariant)
        requires
            is_power_of_two(min_struct_alignment as int),
        ensures
            v == (LayoutVariant { layout_name, min_struct_alignment }),
            v.wf(),
    {
        LayoutVariant { layout_name, min_struct_alignment }
    }
}

} // verus!
