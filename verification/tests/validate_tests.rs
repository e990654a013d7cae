use device_layout::fact::FieldFact;
use device_layout::fact::LayoutVariant;
use device_layout::validate::define_record;
use device_layout::validate::validate;
use device_layout::validate::RecordShape;
use device_layout::validate::UnsupportedShapeError;

fn fact(name: &str, byte_size: usize, alignment: usize, pad_at_end: bool) -> FieldFact {
    FieldFact::new(String::from(name), byte_size, alignment, pad_at_end)
}

fn variant(name: &str, min_struct_alignment: usize) -> LayoutVariant {
    LayoutVariant::new(String::from(name), min_struct_alignment)
}

#[test]
fn named_fields_pass_through() {
    let shape = RecordShape::NamedFields {
        fields: vec![fact("a", 4, 4, false), fact("b", 12, 16, false)],
    };
    let fields = validate(shape).expect("named fields are supported");
    assert_eq!(fields.len(), 2);
    assert_eq!(fields[0].name, "a");
    assert_eq!(fields[1].name, "b");
}

#[test]
fn tuple_shape_is_rejected() {
    match validate(RecordShape::UnnamedFields) {
        Err(e) => assert_eq!(e, UnsupportedShapeError::TupleStruct),
        Ok(_) => panic!("a tuple shape must not validate"),
    }
}

#[test]
fn unit_shape_is_rejected() {
    match validate(RecordShape::NoFields) {
        Err(e) => assert_eq!(e, UnsupportedShapeError::UnitStruct),
        Ok(_) => panic!("a unit shape must not validate"),
    }
}

#[test]
fn sum_type_is_rejected_without_a_layout() {
    match define_record(RecordShape::SumType, &variant("tight", 4)) {
        Err(e) => assert_eq!(e, UnsupportedShapeError::NotAStruct),
        Ok(_) => panic!("a sum type must not produce a layout"),
    }
}

#[test]
fn union_is_rejected_without_a_layout() {
    match define_record(RecordShape::Union, &variant("tight", 4)) {
        Err(e) => assert_eq!(e, UnsupportedShapeError::NotAStruct),
        Ok(_) => panic!("a union must not produce a layout"),
    }
}

#[test]
fn field_less_tuple_record_produces_no_layout() {
    match define_record(RecordShape::UnnamedFields, &variant("vector_friendly", 16)) {
        Err(e) => assert_eq!(e, UnsupportedShapeError::TupleStruct),
        Ok(_) => panic!("a tuple shape must not produce a layout"),
    }
}

#[test]
fn define_record_builds_the_layout() {
    let shape = RecordShape::NamedFields {
        fields: vec![fact("scalar", 4, 4, false), fact("vec3", 12, 16, false)],
    };
    let layout = define_record(shape, &variant("vector_friendly", 16))
        .expect("named fields produce a layout");
    assert_eq!(layout.fields[1].offset, 16);
    assert_eq!(layout.total_size, 28);
    assert_eq!(layout.alignment, 16);
}

#[test]
fn rejection_messages_name_the_shape() {
    assert_eq!(
        UnsupportedShapeError::TupleStruct.describe(),
        "Tuple structs are not supported"
    );
    assert_eq!(
        UnsupportedShapeError::UnitStruct.describe(),
        "Unit structs are not supported"
    );
    assert_eq!(
        UnsupportedShapeError::NotAStruct.describe(),
        "Only structs are supported"
    );
}
