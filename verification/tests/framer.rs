use objmod::error::DecodeError;
use objmod::objrec::{encode_record, make_obj_reader, ObjReader, RecordType};

#[test]
fn minimal_record_has_empty_payload() {
    // Declared length 1: the payload is empty and the checksum covers
    // exactly the type byte, the two length bytes, and itself.
    let mut reader = make_obj_reader(vec![0x80, 0x01, 0x00, 0x7f]).unwrap();
    let rec = reader.next().unwrap().unwrap();
    assert_eq!(rec.rtype, RecordType::THEADR);
    assert!(rec.data.is_empty());
    assert!(reader.next().unwrap().is_none());
}

#[test]
fn first_byte_must_be_theadr_tag() {
    // A stream that does not open with 0x80 is rejected before any
    // record is framed; only the first byte decides.
    assert_eq!(make_obj_reader(vec![0x70, 0x01, 0x00, 0x8f]), Err(DecodeError::BadFormat));
    assert_eq!(make_obj_reader(vec![]), Err(DecodeError::BadFormat));
    assert_eq!(make_obj_reader(vec![0x81]), Err(DecodeError::BadFormat));
    assert!(make_obj_reader(vec![0x80]).is_ok());
}

#[test]
fn checksum_must_cancel_the_sum() {
    let mut reader = make_obj_reader(vec![0x80, 0x01, 0x00, 0x7e]).unwrap();
    assert_eq!(reader.next(), Err(DecodeError::BadChecksum));
}

#[test]
fn every_single_byte_matters_to_the_checksum() {
    // 0x80, len 3, payload [0x10, 0x20], checksum 0x4d: sums to 0x100.
    let good = vec![0x80u8, 0x03, 0x00, 0x10, 0x20, 0x4d];
    assert!(make_obj_reader(good.clone()).unwrap().next().is_ok());
    for i in [0usize, 3, 4, 5] {
        let mut bad = good.clone();
        bad[i] = bad[i].wrapping_add(1);
        if i == 0 {
            // The mutated type byte is no longer a known code at all.
            let mut r = ObjReader { data: bad, pos: 0 };
            assert_eq!(r.next(), Err(DecodeError::UnknownRecordType(0x81)));
        } else {
            let mut r = make_obj_reader(bad).unwrap();
            assert_eq!(r.next(), Err(DecodeError::BadChecksum));
        }
    }
}

#[test]
fn unknown_record_type_is_reported_with_its_code() {
    let mut reader = make_obj_reader(vec![0x80, 0x01, 0x00, 0x7f, 0x71, 0x01, 0x00]).unwrap();
    reader.next().unwrap().unwrap();
    assert_eq!(reader.next(), Err(DecodeError::UnknownRecordType(0x71)));
}

#[test]
fn short_streams_are_truncated() {
    // Fewer bytes than the declared length requires.
    let mut reader = make_obj_reader(vec![0x80, 0x05, 0x00, 0x01]).unwrap();
    assert_eq!(reader.next(), Err(DecodeError::Truncated));
    // Fewer than the three header bytes.
    let mut reader = make_obj_reader(vec![0x80, 0x01]).unwrap();
    assert_eq!(reader.next(), Err(DecodeError::Truncated));
    // A declared length of 0 cannot even hold the checksum byte.
    let mut reader = make_obj_reader(vec![0x80, 0x00, 0x00, 0x80]).unwrap();
    assert_eq!(reader.next(), Err(DecodeError::Truncated));
}

#[test]
fn encode_then_decode_round_trips() {
    let payload: Vec<u8> = vec![0x03, 0x41, 0x42, 0x43];
    let mut stream = encode_record(RecordType::THEADR, &payload);
    let names: Vec<u8> = vec![0x01, 0x58, 0x02, 0x59, 0x5a];
    stream.extend_from_slice(&encode_record(RecordType::LNAMES, &names));
    stream.extend_from_slice(&encode_record(RecordType::MODEND, &[0x00]));

    let mut reader = make_obj_reader(stream).unwrap();
    let first = reader.next().unwrap().unwrap();
    assert_eq!(first.rtype, RecordType::THEADR);
    assert_eq!(first.data, payload);
    let second = reader.next().unwrap().unwrap();
    assert_eq!(second.rtype, RecordType::LNAMES);
    assert_eq!(second.data, names);
    let third = reader.next().unwrap().unwrap();
    assert_eq!(third.rtype, RecordType::MODEND);
    assert_eq!(third.data, vec![0x00]);
    assert!(reader.next().unwrap().is_none());
}

#[test]
fn encode_round_trips_every_record_type() {
    let kinds = [
        RecordType::REGINT,
        RecordType::BLKDEF,
        RecordType::BLKEND,
        RecordType::DEBSYM,
        RecordType::THEADR,
        RecordType::COMENT,
        RecordType::MODEND,
        RecordType::EXTDEF,
        RecordType::TYPDEF,
        RecordType::PUBDEF,
        RecordType::LINNUM,
        RecordType::LNAMES,
        RecordType::SEGDEF,
        RecordType::GRPDEF,
        RecordType::FIXUPP,
        RecordType::LEDATA,
    ];
    for kind in kinds {
        let payload: Vec<u8> = vec![0xde, 0xad, 0xbe, 0xef];
        let wire = encode_record(kind, &payload);
        // The checksum byte makes the whole record sum to 0 modulo 256.
        let sum: u32 = wire.iter().map(|&b| b as u32).sum();
        assert_eq!(sum % 256, 0);
        let mut reader = ObjReader { data: wire, pos: 0 };
        let rec = reader.next().unwrap().unwrap();
        assert_eq!(rec.rtype, kind);
        assert_eq!(rec.data, payload);
        assert!(reader.next().unwrap().is_none());
    }
}

#[test]
fn empty_payload_encodes_to_length_one() {
    let wire = encode_record(RecordType::BLKEND, &[]);
    assert_eq!(wire, vec![0x7c, 0x01, 0x00, 0x83]);
}
