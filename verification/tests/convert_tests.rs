use device_layout::convert::from_device;
use device_layout::convert::to_device;
use device_layout::convert::zeroed_device;
use device_layout::fact::FieldFact;
use device_layout::fact::LayoutVariant;
use device_layout::layout::StructLayout;

fn fact(name: &str, byte_size: usize, alignment: usize, pad_at_end: bool) -> FieldFact {
    FieldFact::new(String::from(name), byte_size, alignment, pad_at_end)
}

fn variant(name: &str, min_struct_alignment: usize) -> LayoutVariant {
    LayoutVariant::new(String::from(name), min_struct_alignment)
}

fn vec3_after_scalar() -> StructLayout {
    let fields = vec![fact("scalar", 4, 4, false), fact("vec3", 12, 16, false)];
    StructLayout::build(fields, &variant("vector_friendly", 16))
}

#[test]
fn zeroed_device_is_all_zero() {
    let layout = vec3_after_scalar();
    let buf = zeroed_device(&layout);
    assert_eq!(buf.len(), 28);
    assert!(buf.iter().all(|b| *b == 0));
}

#[test]
fn to_device_places_fields_and_zero_padding() {
    let layout = vec3_after_scalar();
    let host = vec![vec![1u8, 2, 3, 4], vec![10u8, 11, 12, 13, 14, 15, 16, 17, 18, 19, 20, 21]];
    let image = to_device(&layout, &host);
    assert_eq!(image.len(), 28);
    assert_eq!(&image[0..4], &[1, 2, 3, 4]);
    // The twelve padding bytes between the fields are zero.
    assert!(image[4..16].iter().all(|b| *b == 0));
    assert_eq!(&image[16..28], &[10, 11, 12, 13, 14, 15, 16, 17, 18, 19, 20, 21]);
}

#[test]
fn round_trip_returns_the_host_value() {
    let layout = vec3_after_scalar();
    let host = vec![vec![9u8, 8, 7, 6], vec![20u8, 21, 22, 23, 24, 25, 26, 27, 28, 29, 30, 31]];
    let back = from_device(&layout, &to_device(&layout, &host));
    assert_eq!(back, host);
}

#[test]
fn round_trip_with_trailing_pad_field() {
    let fields = vec![fact("inner", 6, 4, true), fact("tail", 1, 1, false)];
    let layout = StructLayout::build(fields, &variant("tight", 1));
    let host = vec![vec![1u8, 2, 3, 4, 5, 6], vec![7u8]];
    let image = to_device(&layout, &host);
    assert_eq!(image.len(), 9);
    assert_eq!(&image[0..6], &[1, 2, 3, 4, 5, 6]);
    assert_eq!(image[6], 0);
    assert_eq!(image[7], 0);
    assert_eq!(image[8], 7);
    assert_eq!(from_device(&layout, &image), host);
}

#[test]
fn round_trip_empty_record() {
    let layout = StructLayout::build(Vec::new(), &variant("tight", 4));
    let host: Vec<Vec<u8>> = Vec::new();
    let image = to_device(&layout, &host);
    assert!(image.is_empty());
    assert_eq!(from_device(&layout, &image), host);
}

#[test]
fn structurally_equal_hosts_give_identical_images() {
    let layout = vec3_after_scalar();
    let host1 = vec![vec![5u8, 5, 5, 5], vec![1u8, 1, 1, 1, 1, 1, 1, 1, 1, 1, 1, 1]];
    let host2 = vec![vec![5u8, 5, 5, 5], vec![1u8, 1, 1, 1, 1, 1, 1, 1, 1, 1, 1, 1]];
    assert_eq!(to_device(&layout, &host1), to_device(&layout, &host2));
}

#[test]
fn from_device_never_reads_padding() {
    // Two images that differ only in padding bytes read back equal.
    let layout = vec3_after_scalar();
    let host = vec![vec![1u8, 2, 3, 4], vec![10u8, 11, 12, 13, 14, 15, 16, 17, 18, 19, 20, 21]];
    let clean = to_device(&layout, &host);
    let mut dirty = clean.clone();
    for k in 4..16 {
        dirty[k] = 0xAB;
    }
    assert_eq!(from_device(&layout, &clean), from_device(&layout, &dirty));
}
