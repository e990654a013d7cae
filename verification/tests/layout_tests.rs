use device_layout::align::align_offset;
use device_layout::fact::FieldFact;
use device_layout::fact::LayoutVariant;
use device_layout::layout::padding_before;
use device_layout::layout::StructLayout;

fn fact(name: &str, byte_size: usize, alignment: usize, pad_at_end: bool) -> FieldFact {
    FieldFact::new(String::from(name), byte_size, alignment, pad_at_end)
}

fn variant(name: &str, min_struct_alignment: usize) -> LayoutVariant {
    LayoutVariant::new(String::from(name), min_struct_alignment)
}

#[test]
fn align_offset_basic_values() {
    assert_eq!(align_offset(0, 1), 0);
    assert_eq!(align_offset(0, 16), 0);
    assert_eq!(align_offset(5, 1), 0);
    assert_eq!(align_offset(5, 4), 3);
    assert_eq!(align_offset(4, 4), 0);
    assert_eq!(align_offset(12, 16), 4);
    assert_eq!(align_offset(17, 8), 7);
    assert_eq!(align_offset(32, 32), 0);
}

#[test]
fn align_offset_is_minimal() {
    for offset in 0..65usize {
        for e in 0..7u32 {
            let alignment = 1usize << e;
            let r = align_offset(offset, alignment);
            assert!(r < alignment);
            assert_eq!((offset + r) % alignment, 0);
            for s in 0..r {
                assert_ne!((offset + s) % alignment, 0);
            }
        }
    }
}

#[test]
fn zero_field_record() {
    let layout = StructLayout::build(Vec::new(), &variant("tight", 4));
    assert_eq!(layout.total_size, 0);
    assert_eq!(layout.alignment, 4);
    assert!(layout.pad_at_end);
    assert!(layout.fields.is_empty());

    let wide = StructLayout::build(Vec::new(), &variant("wide", 16));
    assert_eq!(wide.total_size, 0);
    assert_eq!(wide.alignment, 16);
}

#[test]
fn single_field_record() {
    let layout = StructLayout::build(vec![fact("a", 4, 8, false)], &variant("tight", 4));
    assert_eq!(layout.fields[0].offset, 0);
    assert_eq!(layout.fields[0].padding_before, 0);
    assert_eq!(layout.total_size, 4);
    assert_eq!(layout.alignment, 8);

    let raised = StructLayout::build(vec![fact("a", 4, 8, false)], &variant("wide", 16));
    assert_eq!(raised.fields[0].offset, 0);
    assert_eq!(raised.total_size, 4);
    assert_eq!(raised.alignment, 16);
}

#[test]
fn vec3_after_scalar_scenario() {
    let fields = vec![fact("scalar", 4, 4, false), fact("vec3", 12, 16, false)];
    let layout = StructLayout::build(fields, &variant("vector_friendly", 16));
    assert_eq!(layout.fields[0].offset, 0);
    assert_eq!(layout.fields[0].padding_before, 0);
    assert_eq!(layout.fields[1].padding_before, 12);
    assert_eq!(layout.fields[1].offset, 16);
    assert_eq!(layout.total_size, 28);
    assert_eq!(layout.alignment, 16);
    assert!(layout.pad_at_end);
}

#[test]
fn nested_field_forces_trailing_alignment() {
    // The first field pads at its end: the next field must start on a
    // multiple of 4 even though its own alignment is only 1.
    let fields = vec![fact("inner", 6, 4, true), fact("tail", 1, 1, false)];
    let layout = StructLayout::build(fields, &variant("tight", 1));
    assert_eq!(layout.fields[0].offset, 0);
    assert_eq!(layout.fields[1].padding_before, 2);
    assert_eq!(layout.fields[1].offset, 8);
    assert_eq!(layout.fields[1].offset % 4, 0);
    assert_eq!(layout.total_size, 9);
    assert_eq!(layout.alignment, 4);
}

#[test]
fn no_trailing_rounding_of_total_size() {
    // The total size is the end of the last field, not rounded up to
    // the record's own alignment.
    let fields = vec![fact("v", 12, 16, false), fact("s", 4, 4, false)];
    let layout = StructLayout::build(fields, &variant("vector_friendly", 16));
    assert_eq!(layout.fields[1].offset, 12);
    assert_eq!(layout.total_size, 16);
    assert_eq!(layout.alignment, 16);
}

#[test]
fn padding_before_matches_build() {
    let f0 = fact("scalar", 4, 4, false);
    let f1 = fact("vec3", 12, 16, false);

    let none: Vec<FieldFact> = Vec::new();
    assert_eq!(padding_before(&none, &f0), 0);

    let preceding = vec![fact("scalar", 4, 4, false)];
    assert_eq!(padding_before(&preceding, &f1), 12);

    let nested = vec![fact("inner", 6, 4, true)];
    assert_eq!(padding_before(&nested, &fact("tail", 1, 1, false)), 2);
}

#[test]
fn field_facts_are_kept_in_order() {
    let fields = vec![fact("a", 2, 2, false), fact("b", 8, 8, false), fact("c", 1, 1, false)];
    let layout = StructLayout::build(fields, &variant("tight", 1));
    assert_eq!(layout.fields.len(), 3);
    assert_eq!(layout.fields[0].fact.name, "a");
    assert_eq!(layout.fields[1].fact.name, "b");
    assert_eq!(layout.fields[2].fact.name, "c");
    assert_eq!(layout.fields[0].offset, 0);
    assert_eq!(layout.fields[1].padding_before, 6);
    assert_eq!(layout.fields[1].offset, 8);
    assert_eq!(layout.fields[2].offset, 16);
    assert_eq!(layout.total_size, 17);
    assert_eq!(layout.alignment, 8);
}
