//! The offset calculation and the record layout it produces: for each
//! field the padding that precedes it and its byte offset, and for the
//! whole record its alignment and total size.

use vstd::prelude::*;
use crate::align::align_offset;
use crate::align::is_power_of_two;
use crate::align::lemma_align_offset;
use crate::align::max_int;
use crate::align::max_usize;
use crate::align::spec_align_offset;
use crate::fact::FieldFact;
use crate::fact::LayoutVariant;
use crate::fact::wf_facts;

verus! {

/// The boundary field `i` must start on: its own alignment, raised to
/// the previous field's alignment when that field pads at its end.
pub open spec fn spec_required_alignment(facts: Seq<FieldFact>, i: int) -> int
    recommends
        0 <= i < facts.len(),
{
    if i > 0 && facts[i - 1].pad_at_end {
        max_int(facts[i].alignment as int, facts[i - 1].alignment as int)
    } else {
        facts[i].alignment as int
    }
}

/// The byte position just past field `n - 1`: the sum of every earlier
/// field's padding and size. Zero for `n == 0`.
pub open spec fn spec_end_offset(facts: Seq<FieldFact>, n: int) -> int
    decreases n,
{
    if n <= 0 {
        0
    } else {
        let prev = spec_end_offset(facts, n - 1);
        prev + spec_align_offset(prev, spec_required_alignment(facts, n - 1)) + facts[n
            - 1].byte_size as int
    }
}

/// The padding inserted immediately before field `i`.
pub open spec fn spec_padding_before(facts: Seq<FieldFact>, i: int) -> int {
    spec_align_offset(spec_end_offset(facts, i), spec_required_alignment(facts, i))
}

/// The byte offset at which field `i` starts.
pub open spec fn spec_field_offset(facts: Seq<FieldFact>, i: int) -> int {
    spec_end_offset(facts, i) + spec_padding_before(facts, i)
}

/// The record's total size: the end of its last field, with no
/// trailing rounding.
pub open spec fn spec_total_size(facts: Seq<FieldFact>) -> int {
    spec_end_offset(facts, facts.len() as int)
}

/// The record's own alignment over its first `n` fields: the largest
/// field alignment, but no less than the variant's minimum.
pub open spec fn spec_struct_alignment(facts: Seq<FieldFact>, min_alignment: int, n: int) -> int
    decreases n,
{
    if n <= 0 {
        min_alignment
    } else {
        max_int(facts[n - 1].alignment as int, spec_struct_alignment(facts, min_alignment, n - 1))
    }
}

/// The required alignment of any field is a positive power of two.
pub proof fn lemma_required_alignment_pos(facts: Seq<FieldFact>, i: int)
    requires
        wf_facts(facts),
        0 <= i < facts.len(),
    ensures
        spec_required_alignment(facts, i) >= 1,
        is_power_of_two(spec_required_alignment(facts, i)),
{
    assert(facts[i].wf());
    if i > 0 {
        assert(facts[i - 1].wf());
    }
}

/// End offsets are non-negative and grow with the field count.
pub proof fn lemma_end_offset_monotone(facts: Seq<FieldFact>, n1: int, n2: int)
    requires
        wf_facts(facts),
        0 <= n1 <= n2 <= facts.len(),
    ensures
        0 <= spec_end_offset(facts, n1) <= spec_end_offset(facts, n2),
    decreases n2,
{
    if n2 > 0 {
        if n1 == n2 {
            lemma_end_offset_monotone(facts, n1 - 1, n2 - 1);
            lemma_required_alignment_pos(facts, n2 - 1);
            lemma_align_offset(
                spec_end_offset(facts, n2 - 1),
                spec_required_alignment(facts, n2 - 1),
            );
        } else {
            lemma_end_offset_monotone(facts, n1, n2 - 1);
            lemma_required_alignment_pos(facts, n2 - 1);
            lemma_align_offset(
                spec_end_offset(facts, n2 - 1),
                spec_required_alignment(facts, n2 - 1),
            );
        }
    }
}

/// The record alignment is a power of two no smaller than the
/// variant's minimum and than any field's alignment.
pub proof fn lemma_struct_alignment(facts: Seq<FieldFact>, min_alignment: int, n: int)
    requires
        wf_facts(facts),
        is_power_of_two(min_alignment),
        0 <= n <= facts.len(),
    ensures
        is_power_of_two(spec_struct_alignment(facts, min_alignment, n)),
        min_alignment <= spec_struct_alignment(facts, min_alignment, n),
        forall|i: int|
            0 <= i < n ==> (#[trigger] facts[i]).alignment as int <= spec_struct_alignment(
                facts,
                min_alignment,
                n,
            ),
    decreases n,
{
    if n > 0 {
        lemma_struct_alignment(facts, min_alignment, n - 1);
        assert(facts[n - 1].wf());
    }
}

/// One field placed in a record: its facts, the padding inserted
/// before it, and the byte offset it starts on.
pub struct FieldLayout {
    pub fact: FieldFact,
    /// Byte offset of the field's first byte within the record.
    pub offset: usize,
    /// Zero-filled bytes inserted immediately before the field.
    pub padding_before: usize,
}

/// The full layout of a record: its fields in order, each with its
/// offset and padding, and the record's own alignment and total size.
pub struct StructLayout {
    pub fields: Vec<FieldLayout>,
    /// The record's own power-of-two alignment.
    pub alignment: usize,
    /// A built record always pads itself at the end when nested.
    pub pad_at_end: bool,
    /// The end of the last field; no trailing rounding is applied.
    pub total_size: usize,
}

impl StructLayout {
    /// The field facts of this layout, in order.
    pub open spec fn facts(self) -> Seq<FieldFact> {
        self.fields@.map_values(|fl: FieldLayout| fl.fact)
    }

    /// Every offset, padding and derived record fact agrees with the
    /// offset calculation over this layout's own field facts.
    pub open spec fn wf(self) -> bool {
        &&& wf_facts(self.facts())
        &&& forall|i: int|
            0 <= i < self.fields@.len() ==> (#[trigger] self.fields@[i]).offset as int
                == spec_field_offset(self.facts(), i)
        &&& forall|i: int|
            0 <= i < self.fields@.len() ==> (#[trigger] self.fields@[i]).padding_before as int
                == spec_padding_before(self.facts(), i)
        &&& self.total_size as int == spec_total_size(self.facts())
        &&& self.pad_at_end
        &&& is_power_of_two(self.alignment as int)
        &&& forall|i: int|
            0 <= i < self.fields@.len() ==> (#[trigger] self.fields@[i]).fact.alignment
                <= self.alignment
    }

    /// This layout is exactly what the given field facts and variant
    /// determine.
    pub open spec fn derived_from(self, facts: Seq<FieldFact>, variant: LayoutVariant) -> bool {
        &&& self.facts() == facts
        &&& self.alignment as int == spec_struct_alignment(
            facts,
            variant.min_struct_alignment as int,
            facts.len() as int,
        )
        &&& self.total_size as int == spec_total_size(facts)
        &&& self.pad_at_end
    }

    /// Places every field in order: each field's padding is the least
    /// that carries the running offset to the field's required
    /// boundary, the record's alignment is the largest field alignment
    /// but no less than the variant's minimum, and the total size is
    /// the end of the last field.
    pub fn build(fields: Vec<FieldFact>, variant: &LayoutVariant) -> (r: StructLayout)
        requires
            variant.wf(),
            wf_facts(fields@),
            spec_total_size(fields@) <= usize::MAX,
        ensures
            r.wf(),
            r.derived_from(fields@, *variant),
    {
        let ghost all = fields@;
        let mut fields = fields;
        let mut placed: Vec<FieldLayout> = Vec::new();
        let mut run: usize = 0;
        let mut align_acc: usize = variant.min_struct_alignment;
        let n = fields.len();
        let mut i: usize = 0;
        while i < n
            invariant
                all.len() == n,
                i <= n,
                fields@ == all.skip(i as int),
                wf_facts(all),
                spec_total_size(all) <= usize::MAX,
                run as int == spec_end_offset(all, i as int),
                align_acc as int == spec_struct_alignment(
                    all,
                    variant.min_struct_alignment as int,
                    i as int,
                ),
                placed@.len() == i,
                forall|j: int| 0 <= j < i ==> (#[trigger] placed@[j]).fact == all[j],
                forall|j: int|
                    0 <= j < i ==> (#[trigger] placed@[j]).offset as int == spec_field_offset(
                        all,
                        j,
                    ),
                forall|j: int|
                    0 <= j < i ==> (#[trigger] placed@[j]).padding_before as int
                        == spec_padding_before(all, j),
            decreases n - i,
        {
            let fact = fields.remove(0);
            proof {
                assert(fact == all[i as int]);
                assert(fields@ =~= all.skip(i as int + 1));
            }
            let trailing: usize = if i > 0 && placed[i - 1].fact.pad_at_end {
                placed[i - 1].fact.alignment
            } else {
                0
            };
            let required = max_usize(fact.alignment, trailing);
            proof {
                assert(required as int == spec_required_alignment(all, i as int));
                lemma_required_alignment_pos(all, i as int);
                lemma_end_offset_monotone(all, i as int + 1, all.len() as int);
                lemma_align_offset(run as int, required as int);
            }
            let pad = align_offset(run, required);
            let offset = run + pad;
            let size = fact.byte_size;
            let falign = fact.alignment;
            placed.push(FieldLayout { fact, offset, padding_before: pad });
            run = offset + size;
            align_acc = max_usize(align_acc, falign);
            i = i + 1;
        }
        let r = StructLayout { fields: placed, alignment: align_acc, pad_at_end: true, total_size: run };
        proof {
            assert(r.facts() =~= all);
            lemma_struct_alignment(all, variant.min_struct_alignment as int, all.len() as int);
        }
        r
    }
}

/// Every field lies inside the record, and fields in order never
/// overlap: each starts no earlier than the end of any earlier field.
pub proof fn lemma_field_bounds(layout: StructLayout, i: int)
    requires
        layout.wf(),
        0 <= i < layout.fields@.len(),
    ensures
        layout.fields@[i].offset as int + layout.fields@[i].fact.byte_size as int
            <= layout.total_size as int,
        forall|j: int|
            i < j < layout.fields@.len() ==> layout.fields@[i].offset as int
                + layout.fields@[i].fact.byte_size as int <= (#[trigger] layout.fields@[j]).offset
                as int,
{
    let facts = layout.facts();
    assert(facts[i] == layout.fields@[i].fact);
    assert(spec_end_offset(facts, i + 1) == spec_field_offset(facts, i) + facts[i].byte_size as int);
    lemma_end_offset_monotone(facts, i + 1, facts.len() as int);
    assert forall|j: int|
        i < j < layout.fields@.len() implies layout.fields@[i].offset as int
        + layout.fields@[i].fact.byte_size as int <= (#[trigger] layout.fields@[j]).offset
        as int by {
        lemma_end_offset_monotone(facts, i + 1, j);
        lemma_required_alignment_pos(facts, j);
        lemma_align_offset(spec_end_offset(facts, j), spec_required_alignment(facts, j));
    }
}

/// Each placed field starts exactly on its required boundary, after
/// the least padding that reaches it: no smaller padding would make
/// the running offset a multiple of the required alignment.
pub proof fn lemma_padding_minimal(layout: StructLayout, i: int)
    requires
        layout.wf(),
        0 <= i < layout.fields@.len(),
    ensures
        layout.fields@[i].offset as int == spec_end_offset(layout.facts(), i)
            + layout.fields@[i].padding_before as int,
        layout.fields@[i].offset as int % spec_required_alignment(layout.facts(), i) == 0,
        forall|p: int|
            0 <= p < layout.fields@[i].padding_before as int ==> #[trigger] ((spec_end_offset(
                layout.facts(),
                i,
            ) + p) % spec_required_alignment(layout.facts(), i)) != 0,
{
    let facts = layout.facts();
    lemma_required_alignment_pos(facts, i);
    lemma_end_offset_monotone(facts, i, i);
    lemma_align_offset(spec_end_offset(facts, i), spec_required_alignment(facts, i));
}

/// A record with no fields has total size zero and exactly the
/// variant's minimum alignment.
pub proof fn lemma_zero_field_record(
    layout: StructLayout,
    facts: Seq<FieldFact>,
    variant: LayoutVariant,
)
    requires
        layout.derived_from(facts, variant),
        facts.len() == 0,
    ensures
        layout.total_size == 0,
        layout.alignment == variant.min_struct_alignment,
{
}

/// A record with one field places it at offset zero, has exactly the
/// field's size as its total size, and the larger of the field's
/// alignment and the variant's minimum as its alignment.
pub proof fn lemma_single_field_record(
    layout: StructLayout,
    facts: Seq<FieldFact>,
    variant: LayoutVariant,
)
    requires
        layout.wf(),
        layout.derived_from(facts, variant),
        facts.len() == 1,
    ensures
        layout.fields@[0].offset == 0,
        layout.total_size == facts[0].byte_size,
        layout.alignment as int == max_int(
            facts[0].alignment as int,
            variant.min_struct_alignment as int,
        ),
{
    assert(facts[0].wf());
    let a = facts[0].alignment as int;
    assert(spec_align_offset(0, a) == 0) by {
        vstd::arithmetic::div_mod::lemma_small_mod(0, a as nat);
        vstd::arithmetic::div_mod::lemma_mod_self_0(a);
    }
    assert(spec_field_offset(facts, 0) == 0);
    assert(spec_struct_alignment(facts, variant.min_struct_alignment as int, 0)
        == variant.min_struct_alignment as int);
}

/// The nesting law: when a field pads at its end, the next field
/// starts on a multiple of that field's alignment, whatever the next
/// field's own alignment is.
pub proof fn lemma_nesting(layout: StructLayout, i: int)
    requires
        layout.wf(),
        0 <= i,
        i + 1 < layout.fields@.len(),
        layout.fields@[i].fact.pad_at_end,
    ensures
        layout.fields@[i + 1].offset as int % (layout.fields@[i].fact.alignment as int) == 0,
{
    let facts = layout.facts();
    let a = facts[i].alignment as int;
    let required = spec_required_alignment(facts, i + 1);
    lemma_required_alignment_pos(facts, i + 1);
    assert(facts[i].wf());
    lemma_end_offset_monotone(facts, i + 1, i + 1);
    lemma_align_offset(spec_end_offset(facts, i + 1), required);
    crate::align::lemma_pow2_le_divides(a, required);
    crate::align::lemma_multiple_of_divisor(spec_field_offset(facts, i + 1), a, required);
}

/// The padding that precedes a field, computed from the facts of all
/// strictly earlier fields and the field's own facts alone.
pub fn padding_before(preceding: &Vec<FieldFact>, this: &FieldFact) -> (r: usize)
    requires
        wf_facts(preceding@),
        this.wf(),
        spec_field_offset(preceding@.push(*this), preceding@.len() as int) <= usize::MAX,
    ensures
        r as int == spec_padding_before(preceding@.push(*this), preceding@.len() as int),
{
    let ghost full = preceding@.push(*this);
    proof {
        assert(wf_facts(full));
    }
    let n = preceding.len();
    let mut run: usize = 0;
    let mut i: usize = 0;
    while i < n
        invariant
            n == preceding@.len(),
            i <= n,
            full == preceding@.push(*this),
            full.len() == n + 1,
            forall|j: int| 0 <= j < n ==> full[j] == preceding@[j],
            full[n as int] == *this,
            wf_facts(full),
            spec_field_offset(full, n as int) <= usize::MAX,
            run as int == spec_end_offset(full, i as int),
        decreases n - i,
    {
        let trailing: usize = if i > 0 && preceding[i - 1].pad_at_end {
            preceding[i - 1].alignment
        } else {
            0
        };
        let required = max_usize(preceding[i].alignment, trailing);
        proof {
            assert(required as int == spec_required_alignment(full, i as int));
            lemma_required_alignment_pos(full, i as int);
            lemma_end_offset_monotone(full, i as int + 1, n as int);
            lemma_align_offset(run as int, required as int);
            lemma_align_offset(
                spec_end_offset(full, n as int),
                spec_required_alignment(full, n as int),
            );
            lemma_required_alignment_pos(full, n as int);
        }
        let pad = align_offset(run, required);
        run = run + pad + preceding[i].byte_size;
        i = i + 1;
    }
    let trailing: usize = if n > 0 && preceding[n - 1].pad_at_end {
        preceding[n - 1].alignment
    } else {
        0
    };
    let required = max_usize(this.alignment, trailing);
    proof {
        assert(required as int == spec_required_alignment(full, n as int));
        lemma_required_alignment_pos(full, n as int);
    }
    align_offset(run, required)
}

} // verus!
