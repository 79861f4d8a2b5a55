use objmod::error::DecodeError;
use objmod::objrec::{ObjectRecord, RecordType};
use objmod::recdec::{
    blkdef, coment, debsym, decode_address_reference, decode_loc_sym_base, extdef, fixupp, grpdef,
    ledata, linnum, lnames, modend, pubdef, read_u16, regint, segdef, theadr, typdef,
    AddressReference, Alignment, Combination, FixupEntry, FrameSpec, GroupComponentKind,
    LocalSymbolBase, RegInitContent, TargetSpec,
};

fn rec(rtype: RecordType, data: &[u8]) -> ObjectRecord {
    ObjectRecord { rtype, data: data.to_vec() }
}

#[test]
fn read_u16_is_little_endian() {
    assert_eq!(read_u16(&[0x34, 0x12]), 0x1234);
    assert_eq!(read_u16(&[0xff, 0x00, 0x55]), 0x00ff);
}

#[test]
fn address_reference_frame_and_target_threads() {
    // 0x9a = frame thread 1, target thread 2: one byte in all.
    let (a, n) = decode_address_reference(&[0x9a], 0).unwrap();
    assert_eq!(a.frame, FrameSpec::Thread { number: 1 });
    assert_eq!(a.target, TargetSpec::Thread { number: 2 });
    assert_eq!(n, 1);
}

#[test]
fn address_reference_full_width() {
    // Frame method 0 with datum, explicit target method 0 with datum and
    // displacement: five bytes in all.
    let (a, n) = decode_address_reference(&[0x00, 0x11, 0x22, 0x34, 0x12], 0).unwrap();
    assert_eq!(a.frame, FrameSpec::Method { method: 0, datum: Some(0x11) });
    assert_eq!(
        a.target,
        TargetSpec::Explicit { datum: 0x22, method: 0, displacement: Some(0x1234) }
    );
    assert_eq!(n, 5);
}

#[test]
fn address_reference_method_five_has_no_datum() {
    // 0x53 = frame method 5 (no datum), target method 3 (no displacement).
    let (a, n) = decode_address_reference(&[0x53, 0x07], 0).unwrap();
    assert_eq!(a.frame, FrameSpec::Method { method: 5, datum: None });
    assert_eq!(a.target, TargetSpec::Explicit { datum: 0x07, method: 3, displacement: None });
    assert_eq!(n, 2);
}

#[test]
fn address_reference_truncated() {
    assert_eq!(decode_address_reference(&[], 0), Err(DecodeError::Truncated));
    // Frame datum required but missing.
    assert_eq!(decode_address_reference(&[0x00], 0), Err(DecodeError::Truncated));
    // Displacement required but missing.
    assert_eq!(decode_address_reference(&[0x00, 0x11, 0x22], 0), Err(DecodeError::Truncated));
}

#[test]
fn local_symbol_base_with_and_without_frame() {
    let (b, n) = decode_loc_sym_base(&[3, 7], 0).unwrap();
    assert_eq!(b, LocalSymbolBase { group_index: 3, segment_index: 7, frame_number: None });
    assert_eq!(n, 2);
    // Segment index 0 brings a frame number.
    let (b, n) = decode_loc_sym_base(&[3, 0, 0x34, 0x12], 0).unwrap();
    assert_eq!(
        b,
        LocalSymbolBase { group_index: 3, segment_index: 0, frame_number: Some(0x1234) }
    );
    assert_eq!(n, 4);
    assert_eq!(decode_loc_sym_base(&[3, 0, 0x34], 0), Err(DecodeError::Truncated));
}

#[test]
fn theadr_names_the_module() {
    let r = rec(RecordType::THEADR, &[0x05, 0x48, 0x45, 0x4c, 0x4c, 0x4f]);
    assert_eq!(theadr(&r).unwrap(), "HELLO");
    assert_eq!(theadr(&rec(RecordType::THEADR, &[])), Err(DecodeError::Truncated));
    assert_eq!(theadr(&rec(RecordType::THEADR, &[0x04, 0x41])), Err(DecodeError::Truncated));
}

#[test]
fn modend_flags_and_start_address() {
    let m = modend(&rec(RecordType::MODEND, &[0x00])).unwrap();
    assert!(!m.main_module);
    assert!(m.start.is_none());

    let m = modend(&rec(RecordType::MODEND, &[0xc1, 0x9a])).unwrap();
    assert!(m.main_module);
    let start = m.start.unwrap();
    assert!(start.relocatable);
    assert_eq!(
        start.reference,
        AddressReference {
            frame: FrameSpec::Thread { number: 1 },
            target: TargetSpec::Thread { number: 2 },
        }
    );

    assert_eq!(modend(&rec(RecordType::MODEND, &[])), Err(DecodeError::Truncated));
    assert_eq!(modend(&rec(RecordType::MODEND, &[0x40])), Err(DecodeError::Truncated));
}

#[test]
fn extdef_lists_names_and_type_indices() {
    let r = rec(RecordType::EXTDEF, &[0x03, 0x41, 0x42, 0x43, 0x05, 0x02, 0x58, 0x59, 0x00]);
    let v = extdef(&r).unwrap();
    assert_eq!(v.len(), 2);
    assert_eq!(v[0].name, "ABC");
    assert_eq!(v[0].type_index, 5);
    assert_eq!(v[1].name, "XY");
    assert_eq!(v[1].type_index, 0);
    assert!(extdef(&rec(RecordType::EXTDEF, &[])).unwrap().is_empty());
    // A name with no type index byte after it.
    assert_eq!(
        extdef(&rec(RecordType::EXTDEF, &[0x01, 0x41])),
        Err(DecodeError::Truncated)
    );
}

#[test]
fn pubdef_base_and_publics() {
    let r = rec(RecordType::PUBDEF, &[1, 2, 0x01, 0x50, 0x10, 0x00, 0x00]);
    let pd = pubdef(&r).unwrap();
    assert_eq!(pd.base, LocalSymbolBase { group_index: 1, segment_index: 2, frame_number: None });
    assert_eq!(pd.publics.len(), 1);
    assert_eq!(pd.publics[0].name, "P");
    assert_eq!(pd.publics[0].offset, 0x10);
    assert_eq!(pd.publics[0].type_index, 0);

    // Base segment index 0 brings a base frame.
    let r = rec(RecordType::PUBDEF, &[1, 0, 0x34, 0x12, 0x01, 0x51, 0x01, 0x00, 0x07]);
    let pd = pubdef(&r).unwrap();
    assert_eq!(pd.base.frame_number, Some(0x1234));
    assert_eq!(pd.publics[0].name, "Q");
    assert_eq!(pd.publics[0].offset, 1);
    assert_eq!(pd.publics[0].type_index, 7);
}

#[test]
fn linnum_pairs() {
    let r = rec(RecordType::LINNUM, &[1, 2, 0x0a, 0x00, 0x20, 0x00, 0x0b, 0x00, 0x30, 0x00]);
    let ln = linnum(&r).unwrap();
    assert_eq!(ln.group_index, 1);
    assert_eq!(ln.segment_index, 2);
    assert_eq!(ln.pairs.len(), 2);
    assert_eq!(ln.pairs[0].line, 10);
    assert_eq!(ln.pairs[0].offset, 32);
    assert_eq!(ln.pairs[1].line, 11);
    assert_eq!(ln.pairs[1].offset, 48);
    // A trailing half pair is truncated.
    assert_eq!(
        linnum(&rec(RecordType::LINNUM, &[1, 2, 0x0a, 0x00, 0x20])),
        Err(DecodeError::Truncated)
    );
}

#[test]
fn lnames_keeps_order() {
    let r = rec(RecordType::LNAMES, &[0x03, 0x53, 0x45, 0x47, 0x04, 0x43, 0x4f, 0x44, 0x45]);
    let v = lnames(&r).unwrap();
    assert_eq!(v, vec!["SEG".to_string(), "CODE".to_string()]);
    // Names that are not valid text are a decode error.
    assert_eq!(
        lnames(&rec(RecordType::LNAMES, &[0x02, 0xff, 0xfe])),
        Err(DecodeError::TextDecodeError)
    );
}

#[test]
fn segdef_absolute_and_relocatable() {
    let r = rec(RecordType::SEGDEF, &[0x00, 0x34, 0x12, 0x05, 0x10, 0x00, 1, 2, 3]);
    let sd = segdef(&r).unwrap();
    assert_eq!(sd.alignment, Alignment::Absolute);
    assert_eq!(sd.combination, Combination::Private);
    assert!(!sd.big);
    assert!(!sd.page_resident);
    let frame = sd.frame.unwrap();
    assert_eq!(frame.frame_number, 0x1234);
    assert_eq!(frame.offset, 5);
    assert_eq!(sd.length, 16);
    assert_eq!(sd.segment_name_index, 1);
    assert_eq!(sd.class_name_index, 2);
    assert_eq!(sd.overlay_name_index, 3);

    // 0x4a: word aligned, public, big.
    let r = rec(RecordType::SEGDEF, &[0x4a, 0x20, 0x00, 4, 5, 6]);
    let sd = segdef(&r).unwrap();
    assert_eq!(sd.alignment, Alignment::Word);
    assert_eq!(sd.combination, Combination::Public);
    assert!(sd.big);
    assert!(sd.frame.is_none());
    assert_eq!(sd.length, 0x20);

    assert_eq!(segdef(&rec(RecordType::SEGDEF, &[0x4a, 0x20, 0x00, 4])), Err(DecodeError::Truncated));
}

#[test]
fn grpdef_components() {
    let r = rec(RecordType::GRPDEF, &[9, 0xff, 2, 0xfe, 3, 0x77, 1]);
    let gd = grpdef(&r).unwrap();
    assert_eq!(gd.name_index, 9);
    assert_eq!(gd.components.len(), 3);
    assert_eq!(gd.components[0].kind, GroupComponentKind::SegmentIndex);
    assert_eq!(gd.components[0].value, 2);
    assert_eq!(gd.components[1].kind, GroupComponentKind::NameIndex);
    assert_eq!(gd.components[1].value, 3);
    // Unknown subtype bytes are preserved, not an error.
    assert_eq!(gd.components[2].kind, GroupComponentKind::Unrecognized(0x77));
    assert_eq!(gd.components[2].value, 1);
    // A subtype byte with no value byte is truncated.
    assert_eq!(grpdef(&rec(RecordType::GRPDEF, &[9, 0xff])), Err(DecodeError::Truncated));
}

#[test]
fn debsym_symbols() {
    let r = rec(RecordType::DEBSYM, &[0x80, 1, 2, 0x02, 0x41, 0x42, 0x10, 0x00, 0x03]);
    let ds = debsym(&r).unwrap();
    assert!(ds.based);
    assert!(!ds.long);
    assert_eq!(ds.base, LocalSymbolBase { group_index: 1, segment_index: 2, frame_number: None });
    assert_eq!(ds.symbols.len(), 1);
    assert_eq!(ds.symbols[0].name, "AB");
    assert_eq!(ds.symbols[0].offset, 16);
    assert_eq!(ds.symbols[0].type_index, 3);
    // Only frame method 0 is supported.
    assert_eq!(
        debsym(&rec(RecordType::DEBSYM, &[0x81, 1, 2])),
        Err(DecodeError::Unsupported)
    );
}

#[test]
fn regint_entries() {
    // Low bit set: the entry holds an address reference.
    let v = regint(&rec(RecordType::REGINT, &[0x41, 0x9a])).unwrap();
    assert_eq!(v.len(), 1);
    assert_eq!(v[0].reg_type, 0x41);
    assert_eq!(v[0].reg_id, 1);
    assert_eq!(
        v[0].content,
        RegInitContent::Reference(AddressReference {
            frame: FrameSpec::Thread { number: 1 },
            target: TargetSpec::Thread { number: 2 },
        })
    );

    // Low bit clear with register id 0: a base plus a register offset.
    let v = regint(&rec(RecordType::REGINT, &[0x00, 1, 2, 0x10, 0x00])).unwrap();
    assert_eq!(
        v[0].content,
        RegInitContent::Base {
            base: LocalSymbolBase { group_index: 1, segment_index: 2, frame_number: None },
            offset: Some(16),
        }
    );

    // Low bit clear with register id above 1: no register offset.
    let v = regint(&rec(RecordType::REGINT, &[0x80, 1, 2])).unwrap();
    assert_eq!(v[0].reg_id, 2);
    assert_eq!(
        v[0].content,
        RegInitContent::Base {
            base: LocalSymbolBase { group_index: 1, segment_index: 2, frame_number: None },
            offset: None,
        }
    );
}

#[test]
fn fixupp_fixup_and_thread_entries() {
    // 0xc4 0x21 reads as the 16-bit locator 0xc421: segment-relative,
    // location type 1, data offset 0x21; then a one-byte reference.
    let v = fixupp(&rec(RecordType::FIXUPP, &[0xc4, 0x21, 0x9a, 0x44, 0x07])).unwrap();
    assert_eq!(v.len(), 2);
    assert_eq!(
        v[0],
        FixupEntry::Fixup {
            segment_relative: true,
            location: 1,
            data_offset: 0x21,
            reference: AddressReference {
                frame: FrameSpec::Thread { number: 1 },
                target: TargetSpec::Thread { number: 2 },
            },
        }
    );
    assert_eq!(v[1], FixupEntry::Thread { is_frame: true, number: 0, method: 1, index: 7 });
    // A lone locator byte is truncated.
    assert_eq!(fixupp(&rec(RecordType::FIXUPP, &[0xc4])), Err(DecodeError::Truncated));
}

#[test]
fn ledata_blob() {
    let ld = ledata(&rec(RecordType::LEDATA, &[2, 0x00, 0x01, 0xde, 0xad])).unwrap();
    assert_eq!(ld.segment_index, 2);
    assert_eq!(ld.data_offset, 0x100);
    assert_eq!(ld.data, vec![0xde, 0xad]);
    // The three header bytes alone leave an empty blob.
    let ld = ledata(&rec(RecordType::LEDATA, &[2, 0x00, 0x01])).unwrap();
    assert!(ld.data.is_empty());
    assert_eq!(ledata(&rec(RecordType::LEDATA, &[2, 0x00])), Err(DecodeError::Truncated));
}

#[test]
fn opaque_records_pass_through() {
    let payload = [0x01u8, 0x02, 0x03];
    assert_eq!(blkdef(&rec(RecordType::BLKDEF, &payload)), payload.to_vec());
    assert_eq!(coment(&rec(RecordType::COMENT, &payload)), payload.to_vec());
    assert_eq!(typdef(&rec(RecordType::TYPDEF, &payload)), payload.to_vec());
}
