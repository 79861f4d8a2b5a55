use objmod::error::DecodeError;
use objmod::typdef::typdef_to_string;
use objmod::typdef::typdef_value;
use objmod::typdef::Leaf;
use objmod::typdef::ReturnKind;
use objmod::typdef::ScalarUnit;
use objmod::typdef::TypeDefinition;

#[test]
fn null() {
    assert_eq!(typdef_to_string(&[0x00, 0x80]).unwrap(), "null");
}

#[test]
fn label() {
    assert_eq!(typdef_to_string(&[0x00, 0x71, 0x80, 0x73]).unwrap(), "label (short)");
}

#[test]
fn procedure() {
    assert_eq!(
        typdef_to_string(&[0x00, 0x74, 0x80, 0x80, 0x73, 0x03, 0x83, 0x13]).unwrap(),
        "procedure (3, L19) short"
    );
    assert_eq!(
        typdef_to_string(&[0x00, 0x74, 0x80, 0x83, 0x10, 0x73, 0x01, 0x83, 0x22]).unwrap(),
        "procedure (1, L34) T16 short"
    );
    assert_eq!(
        typdef_to_string(&[0x00, 0x74, 0x80, 0x80, 0x73, 0x00]).unwrap(),
        "procedure (0) short"
    );
}

#[test]
fn parameter() {
    assert_eq!(typdef_to_string(&[0x00, 0x75, 0x83, 0x04]).unwrap(), "parameter T4");
}

#[test]
fn array() {
    assert_eq!(typdef_to_string(&[0x00, 0x77, 0x60, 0x83, 0x27]).unwrap(), "array (96-bit) T39");
    assert_eq!(
        typdef_to_string(&[0x00, 0x77, 0x81, 0xc0, 0x12, 0x83, 0x02]).unwrap(),
        "array (4800-bit) T2"
    );
    assert_eq!(typdef_to_string(&[0x00, 0x77, 0x30, 0x83, 0x02]).unwrap(), "array (48-bit) T2");
    assert_eq!(typdef_to_string(&[0x00, 0x77, 0x00, 0x83, 0x02]).unwrap(), "array (0-bit) T2");
}

#[test]
fn structure() {
    assert_eq!(
        typdef_to_string(&[0x00, 0x79, 0x40, 0x02, 0x83, 0x19, 0x83, 0x1a]).unwrap(),
        "structure (64-bit, 2) Types:L25 Names:L26"
    );
    assert_eq!(
        typdef_to_string(&[0x00, 0x79, 0x81, 0xb8, 0x01, 0x01, 0x83, 0x23, 0x83, 0x24]).unwrap(),
        "structure (440-bit, 1) Types:L35 Names:L36"
    );
}

#[test]
fn scalar() {
    assert_eq!(typdef_to_string(&[0x00, 0x7b, 0x10, 0x7c]).unwrap(), "u16");
    assert_eq!(typdef_to_string(&[0x00, 0x7b, 0x08, 0x7c]).unwrap(), "u8");
    assert_eq!(typdef_to_string(&[0x00, 0x7b, 0x10, 0x7d]).unwrap(), "i16");
    assert_eq!(typdef_to_string(&[0x00, 0x7b, 0x20, 0x7e]).unwrap(), "r32");
}

#[test]
fn list() {
    assert_eq!(
        typdef_to_string(&[
            0x00, 0x7f, 0x82, 0x08, 0x4c, 0x41, 0x53, 0x54, 0x4e, 0x41, 0x4d, 0x45, 0x82, 0x09,
            0x46, 0x49, 0x52, 0x53, 0x54, 0x4e, 0x41, 0x4d, 0x45, 0x82, 0x02, 0x4d, 0x49, 0x82,
            0x06, 0x41, 0x4d, 0x4f, 0x55, 0x4e, 0x54
        ])
        .unwrap(),
        "list ('LASTNAME', 'FIRSTNAME', 'MI', 'AMOUNT')"
    );
    assert_eq!(
        typdef_to_string(&[0x00, 0x7f, 0x83, 0x05, 0x83, 0x06, 0x83, 0x06, 0x83, 0x05, 0x83, 0x06])
            .unwrap(),
        "list (index:5, index:6, index:6, index:5, index:6)"
    );
    assert_eq!(typdef_to_string(&[0x00, 0x7f, 0x83, 0x22]).unwrap(), "list (index:34)");
}

#[test]
fn leaf_stride_skip_byte_before_every_eighth_leaf() {
    // A list of eight indices holds nine leaves in all (the selector is
    // leaf 0), so one extra byte is skipped before leaf 0 and one before
    // leaf 8; the skipped bytes' values are discarded.
    let bytes = [
        0xaa, 0x7f, // skipped byte, list selector (leaf 0)
        0x83, 0x01, 0x83, 0x02, 0x83, 0x03, 0x83, 0x04, // leaves 1-4
        0x83, 0x05, 0x83, 0x06, 0x83, 0x07, // leaves 5-7
        0xbb, 0x83, 0x08, // skipped byte, leaf 8
    ];
    assert_eq!(
        typdef_to_string(&bytes).unwrap(),
        "list (index:1, index:2, index:3, index:4, index:5, index:6, index:7, index:8)"
    );
}

#[test]
fn unknown_shapes() {
    // An unlisted leading number is reported, not an error.
    assert_eq!(typdef_to_string(&[0x00, 0x42]).unwrap(), "???");
    // A leading type-index leaf is reported as-is.
    assert_eq!(typdef_to_string(&[0x00, 0x83, 0x07]).unwrap(), "index: 7");
    // A leading string leaf is reported as-is.
    assert_eq!(typdef_to_string(&[0x00, 0x82, 0x02, 0x41, 0x42]).unwrap(), "string: AB");
}

#[test]
fn label_long_and_unknown_kinds() {
    assert_eq!(typdef_to_string(&[0x00, 0x71, 0x80, 0x72]).unwrap(), "label (long)");
    assert_eq!(typdef_to_string(&[0x00, 0x71, 0x80, 0x01]).unwrap(), "label (unknown)");
}

#[test]
fn typdef_errors() {
    // An empty payload is exhausted before the leading leaf.
    assert_eq!(typdef_to_string(&[]), Err(DecodeError::Truncated));
    // 0x84 is no leaf tag.
    assert_eq!(typdef_to_string(&[0x00, 0x7f, 0x84]), Err(DecodeError::BadLeafTag(0x84)));
    // A label whose second leaf is not null.
    assert_eq!(typdef_to_string(&[0x00, 0x71, 0x01, 0x73]), Err(DecodeError::FieldOutOfRange));
    // A scalar with an unlisted unit selector.
    assert_eq!(typdef_to_string(&[0x00, 0x7b, 0x10, 0x01]), Err(DecodeError::FieldOutOfRange));
    // A string leaf whose bytes are not valid text.
    assert_eq!(
        typdef_to_string(&[0x00, 0x7f, 0x82, 0x02, 0xff, 0xfe]),
        Err(DecodeError::TextDecodeError)
    );
    // A string leaf cut short by the end of the payload.
    assert_eq!(typdef_to_string(&[0x00, 0x7f, 0x82, 0x09, 0x41]), Err(DecodeError::Truncated));
    // A procedure exhausted before its parameter count.
    assert_eq!(typdef_to_string(&[0x00, 0x74, 0x80, 0x80]), Err(DecodeError::Truncated));
}

#[test]
fn typdef_value_fixtures() {
    assert_eq!(
        typdef_value(&[0x00, 0x80]).unwrap(),
        TypeDefinition::Unknown { leading: Leaf::Null }
    );
    assert_eq!(
        typdef_value(&[0x00, 0x71, 0x80, 0x73]).unwrap(),
        TypeDefinition::Label { kind: ReturnKind::Short }
    );
    assert_eq!(
        typdef_value(&[0x00, 0x74, 0x80, 0x80, 0x73, 0x03, 0x83, 0x13]).unwrap(),
        TypeDefinition::Procedure {
            type_index: None,
            ret: ReturnKind::Short,
            param_count: 3,
            param_list: Some(19),
        }
    );
    assert_eq!(
        typdef_value(&[0x00, 0x77, 0x60, 0x83, 0x27]).unwrap(),
        TypeDefinition::Array { bits: 96, element_type: 39 }
    );
    assert_eq!(
        typdef_value(&[0x00, 0x79, 0x40, 0x02, 0x83, 0x19, 0x83, 0x1a]).unwrap(),
        TypeDefinition::Struct { bits: 64, member_count: 2, types_index: 25, names_index: 26 }
    );
    assert_eq!(
        typdef_value(&[0x00, 0x7b, 0x10, 0x7c]).unwrap(),
        TypeDefinition::Scalar { bits: 16, unit: ScalarUnit::Unsigned }
    );
    assert_eq!(
        typdef_value(&[
            0x00, 0x7f, 0x83, 0x05, 0x83, 0x06, 0x83, 0x06, 0x83, 0x05, 0x83, 0x06
        ])
        .unwrap(),
        TypeDefinition::List {
            items: vec![
                Leaf::TypeIndex(5),
                Leaf::TypeIndex(6),
                Leaf::TypeIndex(6),
                Leaf::TypeIndex(5),
                Leaf::TypeIndex(6),
            ],
        }
    );
}
