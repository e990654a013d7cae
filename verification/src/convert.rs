//! Conversion between the host form of a record value and its device
//! byte image: each field's device bytes are written at the field's
//! computed offset into a zero-filled buffer, and read back from it.
//!
//! A host value is given as one byte vector per field, each already in
//! the field type's own device representation; converting the leaf
//! values themselves is the field types' capability, not this crate's.

use vstd::prelude::*;
use crate::layout::StructLayout;

verus! {

/// The bytes of a zero-filled buffer of `n` bytes.
pub open spec fn spec_zero_bytes(n: int) -> Seq<u8> {
    Seq::new(n as nat, |k: int| 0u8)
}

/// `buf` with `data` written starting at byte `off`.
pub open spec fn spec_write_bytes(buf: Seq<u8>, off: int, data: Seq<u8>) -> Seq<u8> {
    Seq::new(
        buf.len(),
        |k: int|
            if off <= k < off + data.len() {
                data[k - off]
            } else {
                buf[k]
            },
    )
}

/// The views of a sequence of byte vectors.
pub open spec fn views_of(values: Seq<Vec<u8>>) -> Seq<Seq<u8>> {
    values.map_values(|v: Vec<u8>| v@)
}

/// A host value fits a layout when it has one byte vector per field,
/// each of exactly the field's device size.
pub open spec fn values_fit(layout: StructLayout, values: Seq<Seq<u8>>) -> bool {
    &&& values.len() == layout.fields@.len()
    &&& forall|i: int|
        0 <= i < values.len() ==> (#[trigger] values[i]).len()
            == layout.fields@[i].fact.byte_size
}

/// The device image after the first `n` fields have been written into
/// a zero-filled buffer.
pub open spec fn spec_fill_fields(layout: StructLayout, values: Seq<Seq<u8>>, n: int) -> Seq<u8>
    decreases n,
{
    if n <= 0 {
        spec_zero_bytes(layout.total_size as int)
    } else {
        spec_write_bytes(
            spec_fill_fields(layout, values, n - 1),
            layout.fields@[n - 1].offset as int,
            values[n - 1],
        )
    }
}

/// The full device image of a host value.
pub open spec fn spec_to_device(layout: StructLayout, values: Seq<Seq<u8>>) -> Seq<u8> {
    spec_fill_fields(layout, values, layout.fields@.len() as int)
}

/// The host value read back from a device image: each field's bytes
/// at its offset. Padding bytes are never inspected.
pub open spec fn spec_from_device(layout: StructLayout, bytes: Seq<u8>) -> Seq<Seq<u8>> {
    Seq::new(
        layout.fields@.len(),
        |i: int|
            bytes.subrange(
                layout.fields@[i].offset as int,
                layout.fields@[i].offset as int + layout.fields@[i].fact.byte_size as int,
            ),
    )
}

/// Byte `k` of the image lies inside field `i`.
pub open spec fn byte_in_field(layout: StructLayout, i: int, k: int) -> bool {
    layout.fields@[i].offset as int <= k < layout.fields@[i].offset as int
        + layout.fields@[i].fact.byte_size as int
}

/// No byte of the image belongs to two fields: together with the
/// zero-padding guarantee, every byte is either one field's device
/// byte or deterministically zero padding.
pub proof fn lemma_byte_in_one_field(layout: StructLayout, i: int, j: int, k: int)
    requires
        layout.wf(),
        0 <= i < j < layout.fields@.len(),
        byte_in_field(layout, i, k),
    ensures
        !byte_in_field(layout, j, k),
{
    crate::layout::lemma_field_bounds(layout, i);
}

/// A filled image keeps the buffer's length.
proof fn lemma_fill_len(layout: StructLayout, values: Seq<Seq<u8>>, n: int)
    ensures
        spec_fill_fields(layout, values, n).len() == layout.total_size,
    decreases n,
{
    if n > 0 {
        lemma_fill_len(layout, values, n - 1);
    }
}

/// After the first `n` fields are written, the bytes of any earlier
/// field `i` are exactly that field's value.
proof fn lemma_fill_reads_back(layout: StructLayout, values: Seq<Seq<u8>>, i: int, n: int)
    requires
        layout.wf(),
        values_fit(layout, values),
        0 <= i < n <= layout.fields@.len(),
    ensures
        spec_fill_fields(layout, values, n).subrange(
            layout.fields@[i].offset as int,
            layout.fields@[i].offset as int + layout.fields@[i].fact.byte_size as int,
        ) == values[i],
    decreases n,
{
    let off = layout.fields@[i].offset as int;
    let size = layout.fields@[i].fact.byte_size as int;
    crate::layout::lemma_field_bounds(layout, i);
    lemma_fill_len(layout, values, n);
    lemma_fill_len(layout, values, n - 1);
    if n - 1 == i {
        assert(spec_fill_fields(layout, values, n).subrange(off, off + size) =~= values[i]);
    } else {
        lemma_fill_reads_back(layout, values, i, n - 1);
        crate::layout::lemma_field_bounds(layout, n - 1);
        assert(spec_fill_fields(layout, values, n).subrange(off, off + size)
            =~= spec_fill_fields(layout, values, n - 1).subrange(off, off + size));
    }
}

/// The round-trip law: reading a host value back from its own device
/// image returns the value unchanged, field for field.
pub proof fn lemma_round_trip(layout: StructLayout, values: Seq<Seq<u8>>)
    requires
        layout.wf(),
        values_fit(layout, values),
    ensures
        spec_from_device(layout, spec_to_device(layout, values)) == values,
{
    let img = spec_to_device(layout, values);
    assert forall|i: int|
        0 <= i < layout.fields@.len() implies #[trigger] spec_from_device(layout, img)[i]
        == values[i] by {
        lemma_fill_reads_back(layout, values, i, layout.fields@.len() as int);
    }
    assert(spec_from_device(layout, img) =~= values);
}

/// The determinism law: structurally equal host values have the same
/// device image, byte for byte, because padding is always zero-filled
/// and never value-dependent.
pub proof fn lemma_to_device_deterministic(
    layout: StructLayout,
    v1: Seq<Seq<u8>>,
    v2: Seq<Seq<u8>>,
)
    requires
        v1 =~~= v2,
    ensures
        spec_to_device(layout, v1) == spec_to_device(layout, v2),
{
    assert(v1 == v2);
}

/// Every byte of the image outside all fields is zero: the whole
/// buffer is accounted for by fields and deterministically zero
/// padding.
pub proof fn lemma_padding_zero(layout: StructLayout, values: Seq<Seq<u8>>, k: int)
    requires
        layout.wf(),
        values_fit(layout, values),
        0 <= k < layout.total_size,
        forall|i: int| 0 <= i < layout.fields@.len() ==> !#[trigger] byte_in_field(layout, i, k),
    ensures
        spec_to_device(layout, values)[k] == 0,
{
    lemma_fill_zero(layout, values, layout.fields@.len() as int, k);
}

/// A zero-initialized device buffer of the layout's exact size.
pub fn zeroed_device(layout: &StructLayout) -> (r: Vec<u8>)
    ensures
        r@ == spec_zero_bytes(layout.total_size as int),
        r@.len() == layout.total_size,
{
    let n = layout.total_size;
    let mut buf: Vec<u8> = Vec::new();
    let mut j: usize = 0;
    while j < n
        invariant
            j <= n,
            buf@.len() == j,
            forall|k: int| 0 <= k < j ==> buf@[k] == 0u8,
        decreases n - j,
    {
        buf.push(0u8);
        j = j + 1;
    }
    proof {
        assert(buf@ =~= spec_zero_bytes(layout.total_size as int));
    }
    buf
}

/// Writes one field's device bytes at its offset, leaving every other
/// byte of the buffer unchanged.
fn write_field(buf: &mut Vec<u8>, off: usize, data: &Vec<u8>)
    requires
        off + data@.len() <= old(buf)@.len(),
    ensures
        final(buf)@ == spec_write_bytes(old(buf)@, off as int, data@),
{
    let n = data.len();
    let buflen = buf.len();
    let mut j: usize = 0;
    while j < n
        invariant
            j <= n,
            n == data@.len(),
            off + n <= buflen,
            buf@.len() == buflen,
            buf@.len() == old(buf)@.len(),
            forall|k: int|
                0 <= k < buf@.len() ==> #[trigger] buf@[k] == if off <= k < off + j {
                    data@[k - off]
                } else {
                    old(buf)@[k]
                },
        decreases n - j,
    {
        buf.set(off + j, data[j]);
        j = j + 1;
    }
    proof {
        assert(buf@ =~= spec_write_bytes(old(buf)@, off as int, data@));
    }
}

/// Reads one field's device bytes back from its offset.
fn read_field(bytes: &Vec<u8>, off: usize, size: usize) -> (r: Vec<u8>)
    requires
        off + size <= bytes@.len(),
    ensures
        r@ == bytes@.subrange(off as int, off as int + size as int),
{
    let blen = bytes.len();
    let mut out: Vec<u8> = Vec::new();
    let mut j: usize = 0;
    while j < size
        invariant
            j <= size,
            off + size <= blen,
            blen == bytes@.len(),
            out@.len() == j,
            forall|k: int| 0 <= k < j ==> out@[k] == bytes@[off + k],
        decreases size - j,
    {
        out.push(bytes[off + j]);
        j = j + 1;
    }
    proof {
        assert(out@ =~= bytes@.subrange(off as int, off as int + size as int));
    }
    out
}

/// Builds the device image of a host value: a zero-filled buffer of
/// the layout's total size with each field's device bytes written at
/// that field's offset. Padding bytes stay zero.
pub fn to_device(layout: &StructLayout, values: &Vec<Vec<u8>>) -> (r: Vec<u8>)
    requires
        layout.wf(),
        values_fit(*layout, views_of(values@)),
    ensures
        r@ == spec_to_device(*layout, views_of(values@)),
        r@.len() == layout.total_size,
{
    let mut buf = zeroed_device(layout);
    let n = layout.fields.len();
    let mut i: usize = 0;
    while i < n
        invariant
            i <= n,
            n == layout.fields@.len(),
            layout.wf(),
            values_fit(*layout, views_of(values@)),
            values@.len() == n,
            buf@.len() == layout.total_size,
            buf@ == spec_fill_fields(*layout, views_of(values@), i as int),
        decreases n - i,
    {
        proof {
            crate::layout::lemma_field_bounds(*layout, i as int);
            assert(views_of(values@)[i as int] == values@[i as int]@);
        }
        write_field(&mut buf, layout.fields[i].offset, &values[i]);
        i = i + 1;
    }
    buf
}

/// Recovers the host value from a device image: each field's bytes
/// are read at that field's offset; padding bytes are never
/// inspected.
pub fn from_device(layout: &StructLayout, bytes: &Vec<u8>) -> (r: Vec<Vec<u8>>)
    requires
        layout.wf(),
        bytes@.len() == layout.total_size,
    ensures
        views_of(r@) == spec_from_device(*layout, bytes@),
        r@.len() == layout.fields@.len(),
{
    let n = layout.fields.len();
    let mut out: Vec<Vec<u8>> = Vec::new();
    let mut i: usize = 0;
    while i < n
        invariant
            i <= n,
            n == layout.fields@.len(),
            layout.wf(),
            bytes@.len() == layout.total_size,
            out@.len() == i,
            forall|j: int|
                0 <= j < i ==> (#[trigger] out@[j])@ == bytes@.subrange(
                    layout.fields@[j].offset as int,
                    layout.fields@[j].offset as int + layout.fields@[j].fact.byte_size as int,
                ),
        decreases n - i,
    {
        proof {
            crate::layout::lemma_field_bounds(*layout, i as int);
        }
        let field = read_field(bytes, layout.fields[i].offset, layout.fields[i].fact.byte_size);
        out.push(field);
        i = i + 1;
    }
    proof {
        assert(views_of(out@) =~= spec_from_device(*layout, bytes@));
    }
    out
}

proof fn lemma_fill_zero(layout: StructLayout, values: Seq<Seq<u8>>, n: int, k: int)
    requires
        layout.wf(),
        values_fit(layout, values),
        0 <= n <= layout.fields@.len(),
        0 <= k < layout.total_size,
        forall|i: int| 0 <= i < n ==> !#[trigger] byte_in_field(layout, i, k),
    ensures
        spec_fill_fields(layout, values, n)[k] == 0,
    decreases n,
{
    lemma_fill_len(layout, values, n - 1);
    if n > 0 {
        lemma_fill_zero(layout, values, n - 1, k);
        assert(!byte_in_field(layout, n - 1, k));
    }
}

} // verus!
