//! Structural decoders for the payloads of the individual record kinds,
//! built on two shared grammars: the variable-width address reference and
//! the group/segment/frame local-symbol base.

use vstd::prelude::*;
use vstd::slice::slice_subrange;
use vstd::slice::slice_to_vec;
use vstd::utf8::decode_utf8;
use vstd::utf8::valid_utf8;

use crate::error::DecodeError;
use crate::objrec::ObjectRecord;
use crate::text::bytes_to_string;

verus! {

/// The little-endian 16-bit value at offset `i`.
pub open spec fn le16(data: Seq<u8>, i: int) -> u16 {
    (data[i] + 0x100 * data[i + 1]) as u16
}

/// Reads a little-endian 16-bit value from the front of a slice.
pub fn read_u16(vec: &[u8]) -> (r: u16)
    requires
        vec@.len() >= 2,
    ensures
        r == le16(vec@, 0),
{
    (vec[0] as u16) + 0x100 * (vec[1] as u16)
}

/// How a frame is located: by a previously defined thread number, or by a
/// method with its optional datum byte (absent exactly for method 5).
#[derive(Debug, PartialEq, Eq, Clone, Copy)]
pub enum FrameSpec {
    Thread { number: u8 },
    Method { method: u8, datum: Option<u8> },
}

/// How a target is located: by a thread number, or explicitly by a datum
/// byte and method, with a displacement exactly when the method is below 3.
#[derive(Debug, PartialEq, Eq, Clone, Copy)]
pub enum TargetSpec {
    Thread { number: u8 },
    Explicit { datum: u8, method: u8, displacement: Option<u16> },
}

/// The shared address-reference grammar: a frame and a target.
#[derive(Debug, PartialEq, Eq, Clone, Copy)]
pub struct AddressReference {
    pub frame: FrameSpec,
    pub target: TargetSpec,
}

/// The frame half of an address reference, driven by the first byte `dat`:
/// bit 7 selects a thread reference, bits 6-4 hold the thread number or
/// the method; every method but 5 consumes one datum byte at `i`.
pub open spec fn spec_frame(dat: u8, data: Seq<u8>, i: int) -> Result<
    (FrameSpec, int),
    DecodeError,
> {
    if dat >> 7 == 1 {
        Ok((FrameSpec::Thread { number: (dat >> 4) & 7 }, i))
    } else {
        let method = (dat >> 4) & 7;
        if method != 5 {
            if i < data.len() {
                Ok((FrameSpec::Method { method, datum: Some(data[i]) }, i + 1))
            } else {
                Err(DecodeError::Truncated)
            }
        } else {
            Ok((FrameSpec::Method { method, datum: None }, i))
        }
    }
}

/// The target half of an address reference: bit 3 of `dat` selects a
/// thread reference (bits 1-0); otherwise one datum byte is consumed,
/// bits 2-0 give the method, and methods below 3 consume a little-endian
/// 16-bit displacement.
pub open spec fn spec_target(dat: u8, data: Seq<u8>, i: int) -> Result<
    (TargetSpec, int),
    DecodeError,
> {
    if (dat >> 3) & 1 == 1 {
        Ok((TargetSpec::Thread { number: dat & 3 }, i))
    } else {
        if i < data.len() {
            let datum = data[i];
            let method = dat & 7;
            if method < 3 {
                if i + 3 <= data.len() {
                    Ok(
                        (
                            TargetSpec::Explicit {
                                datum,
                                method,
                                displacement: Some(le16(data, i + 1)),
                            },
                            i + 3,
                        ),
                    )
                } else {
                    Err(DecodeError::Truncated)
                }
            } else {
                Ok((TargetSpec::Explicit { datum, method, displacement: None }, i + 1))
            }
        } else {
            Err(DecodeError::Truncated)
        }
    }
}

/// A whole address reference decoded at offset `i`: the "Dat" byte, the
/// frame fields, then the target fields, consuming 1 to 5 bytes.
pub open spec fn spec_address_reference(data: Seq<u8>, i: int) -> Result<
    (AddressReference, int),
    DecodeError,
> {
    if 0 <= i < data.len() {
        let dat = data[i];
        match spec_frame(dat, data, i + 1) {
            Err(e) => Err(e),
            Ok((frame, j)) => match spec_target(dat, data, j) {
                Err(e) => Err(e),
                Ok((target, k)) => Ok((AddressReference { frame, target }, k)),
            },
        }
    } else {
        Err(DecodeError::Truncated)
    }
}

/// Decodes the address reference at offset `i`, returning it together
/// with the offset just past the bytes it consumed.
pub fn decode_address_reference(data: &[u8], i: usize) -> (r: Result<
    (AddressReference, usize),
    DecodeError,
>)
    ensures
        match r {
            Ok((a, n)) => spec_address_reference(data@, i as int) == Ok::<
                (AddressReference, int),
                DecodeError,
            >((a, n as int)),
            Err(e) => spec_address_reference(data@, i as int) == Err::<
                (AddressReference, int),
                DecodeError,
            >(e),
        },
{
    let n = data.len();
    if i >= n {
        return Err(DecodeError::Truncated);
    }
    let dat = data[i];
    let mut j = i + 1;
    let frame = if dat >> 7 == 1 {
        FrameSpec::Thread { number: (dat >> 4) & 7 }
    } else {
        let method = (dat >> 4) & 7;
        if method != 5 {
            if j >= n {
                return Err(DecodeError::Truncated);
            }
            let datum = data[j];
            j = j + 1;
            FrameSpec::Method { method, datum: Some(datum) }
        } else {
            FrameSpec::Method { method, datum: None }
        }
    };
    let target = if (dat >> 3) & 1 == 1 {
        TargetSpec::Thread { number: dat & 3 }
    } else {
        if j >= n {
            return Err(DecodeError::Truncated);
        }
        let datum = data[j];
        let method = dat & 7;
        if method < 3 {
            if n - j < 3 {
                return Err(DecodeError::Truncated);
            }
            let displacement = (data[j + 1] as u16) + 0x100 * (data[j + 2] as u16);
            j = j + 3;
            TargetSpec::Explicit { datum, method, displacement: Some(displacement) }
        } else {
            j = j + 1;
            TargetSpec::Explicit { datum, method, displacement: None }
        }
    };
    Ok((AddressReference { frame, target }, j))
}

/// The shared group/segment/frame grammar: a group index, a segment
/// index, and — exactly when the segment index is 0 — a frame number.
#[derive(Debug, PartialEq, Eq, Clone, Copy)]
pub struct LocalSymbolBase {
    pub group_index: u8,
    pub segment_index: u8,
    pub frame_number: Option<u16>,
}

/// The local-symbol base at offset `i`, consuming 2 or 4 bytes.
pub open spec fn spec_loc_sym_base(data: Seq<u8>, i: int) -> Result<
    (LocalSymbolBase, int),
    DecodeError,
> {
    if 0 <= i && i + 2 <= data.len() {
        let group_index = data[i];
        let segment_index = data[i + 1];
        if segment_index > 0 {
            Ok((LocalSymbolBase { group_index, segment_index, frame_number: None }, i + 2))
        } else if i + 4 <= data.len() {
            Ok(
                (
                    LocalSymbolBase {
                        group_index,
                        segment_index,
                        frame_number: Some(le16(data, i + 2)),
                    },
                    i + 4,
                ),
            )
        } else {
            Err(DecodeError::Truncated)
        }
    } else {
        Err(DecodeError::Truncated)
    }
}

/// Decodes the local-symbol base at offset `i`, returning it together
/// with the offset just past the bytes it consumed.
pub fn decode_loc_sym_base(data: &[u8], i: usize) -> (r: Result<
    (LocalSymbolBase, usize),
    DecodeError,
>)
    ensures
        match r {
            Ok((b, n)) => spec_loc_sym_base(data@, i as int) == Ok::<
                (LocalSymbolBase, int),
                DecodeError,
            >((b, n as int)),
            Err(e) => spec_loc_sym_base(data@, i as int) == Err::<
                (LocalSymbolBase, int),
                DecodeError,
            >(e),
        },
{
    let n = data.len();
    if i >= n || n - i < 2 {
        return Err(DecodeError::Truncated);
    }
    let group_index = data[i];
    let segment_index = data[i + 1];
    if segment_index > 0 {
        Ok((LocalSymbolBase { group_index, segment_index, frame_number: None }, i + 2))
    } else if n - i >= 4 {
        let frame = (data[i + 2] as u16) + 0x100 * (data[i + 3] as u16);
        Ok((LocalSymbolBase { group_index, segment_index, frame_number: Some(frame) }, i + 4))
    } else {
        Err(DecodeError::Truncated)
    }
}

/// A length-prefixed name at offset `i`: one length byte, then that many
/// bytes of text.
pub open spec fn spec_name(data: Seq<u8>, i: int) -> Result<(Seq<char>, int), DecodeError> {
    if 0 <= i < data.len() {
        let n = data[i] as int;
        if i + 1 + n <= data.len() {
            let bytes = data.subrange(i + 1, i + 1 + n);
            if valid_utf8(bytes) {
                Ok((decode_utf8(bytes), i + 1 + n))
            } else {
                Err(DecodeError::TextDecodeError)
            }
        } else {
            Err(DecodeError::Truncated)
        }
    } else {
        Err(DecodeError::Truncated)
    }
}

/// Reads the length-prefixed name at offset `i`, returning it together
/// with the offset just past it.
fn read_name(data: &[u8], i: usize) -> (r: Result<(String, usize), DecodeError>)
    ensures
        match r {
            Ok((s, n)) => spec_name(data@, i as int) matches Ok(m) && s@ == m.0 && n as int == m.1,
            Err(e) => spec_name(data@, i as int) == Err::<(Seq<char>, int), DecodeError>(e),
        },
{
    let total = data.len();
    if i >= total {
        return Err(DecodeError::Truncated);
    }
    let n = data[i] as usize;
    if total - (i + 1) < n {
        return Err(DecodeError::Truncated);
    }
    let bytes = slice_subrange(data, i + 1, i + 1 + n);
    match bytes_to_string(bytes) {
        Some(s) => Ok((s, i + 1 + n)),
        None => Err(DecodeError::TextDecodeError),
    }
}

/// The module name carried by a THEADR record: one length-prefixed name.
pub open spec fn spec_theadr(p: Seq<u8>) -> Result<Seq<char>, DecodeError> {
    match spec_name(p, 0) {
        Ok((s, _)) => Ok(s),
        Err(e) => Err(e),
    }
}

/// Decodes a THEADR payload: the object module's name.
pub fn theadr(orec: &ObjectRecord) -> (r: Result<String, DecodeError>)
    ensures
        match r {
            Ok(s) => spec_theadr(orec.data@) matches Ok(m) && s@ == m,
            Err(e) => spec_theadr(orec.data@) == Err::<Seq<char>, DecodeError>(e),
        },
{
    match read_name(orec.data.as_slice(), 0) {
        Ok((s, _)) => Ok(s),
        Err(e) => Err(e),
    }
}

/// The start address carried by a MODEND record when its flags announce
/// one.
#[derive(Debug, PartialEq, Eq, Clone, Copy)]
pub struct StartAddress {
    pub relocatable: bool,
    pub reference: AddressReference,
}

/// A decoded MODEND record: whether this is the main module, and the
/// optional start address.
#[derive(Debug, PartialEq, Eq, Clone, Copy)]
pub struct ModEnd {
    pub main_module: bool,
    pub start: Option<StartAddress>,
}

/// A MODEND payload: one flags byte — bit 7 main module, bit 6 start
/// address present, bit 0 start address relocatable — then, when bit 6 is
/// set, one address reference.
pub open spec fn spec_modend(p: Seq<u8>) -> Result<ModEnd, DecodeError> {
    if p.len() < 1 {
        Err(DecodeError::Truncated)
    } else {
        let flags = p[0];
        let main_module = flags & 0x80 != 0;
        if flags & 0x40 != 0 {
            match spec_address_reference(p, 1) {
                Err(e) => Err(e),
                Ok((a, _)) => Ok(
                    ModEnd {
                        main_module,
                        start: Some(StartAddress { relocatable: flags & 1 == 1, reference: a }),
                    },
                ),
            }
        } else {
            Ok(ModEnd { main_module, start: None })
        }
    }
}

/// Decodes a MODEND payload.
pub fn modend(orec: &ObjectRecord) -> (r: Result<ModEnd, DecodeError>)
    ensures
        match r {
            Ok(m) => spec_modend(orec.data@) == Ok::<ModEnd, DecodeError>(m),
            Err(e) => spec_modend(orec.data@) == Err::<ModEnd, DecodeError>(e),
        },
{
    if orec.data.len() < 1 {
        return Err(DecodeError::Truncated);
    }
    let flags = orec.data[0];
    let main_module = flags & 0x80 != 0;
    if flags & 0x40 != 0 {
        match decode_address_reference(orec.data.as_slice(), 1) {
            Err(e) => Err(e),
            Ok((a, _)) => Ok(
                ModEnd {
                    main_module,
                    start: Some(StartAddress { relocatable: flags & 1 == 1, reference: a }),
                },
            ),
        }
    } else {
        Ok(ModEnd { main_module, start: None })
    }
}

/// A decoded LEDATA record: the segment, the enumerated-data offset, and
/// the raw data bytes.
#[derive(Debug, PartialEq, Eq)]
pub struct LeData {
    pub segment_index: u8,
    pub data_offset: u16,
    pub data: Vec<u8>,
}

/// An LEDATA payload: segment index byte, little-endian offset, then the
/// remaining bytes as a raw data blob.
pub open spec fn spec_ledata(p: Seq<u8>) -> Result<(u8, u16, Seq<u8>), DecodeError> {
    if p.len() < 3 {
        Err(DecodeError::Truncated)
    } else {
        Ok((p[0], le16(p, 1), p.subrange(3, p.len() as int)))
    }
}

/// Decodes an LEDATA payload.
pub fn ledata(orec: &ObjectRecord) -> (r: Result<LeData, DecodeError>)
    ensures
        match r {
            Ok(ld) => spec_ledata(orec.data@) matches Ok(m) && ld.segment_index == m.0
                && ld.data_offset == m.1 && ld.data@ == m.2,
            Err(e) => spec_ledata(orec.data@) == Err::<(u8, u16, Seq<u8>), DecodeError>(e),
        },
{
    let n = orec.data.len();
    if n < 3 {
        return Err(DecodeError::Truncated);
    }
    let segment_index = orec.data[0];
    let data_offset = (orec.data[1] as u16) + 0x100 * (orec.data[2] as u16);
    let data = slice_to_vec(slice_subrange(orec.data.as_slice(), 3, n));
    Ok(LeData { segment_index, data_offset, data })
}

/// Segment alignment, from the top three bits of the ACBP byte.
#[derive(Debug, PartialEq, Eq, Clone, Copy, Structural)]
pub enum Alignment {
    Absolute,
    Byte,
    Word,
    Paragraph,
    Page,
    DoubleWord,
    Unsupported,
    Undefined,
}

/// Segment combination, from the middle three bits of the ACBP byte.
#[derive(Debug, PartialEq, Eq, Clone, Copy, Structural)]
pub enum Combination {
    Private,
    Common,
    Public,
    Stack,
    Unknown,
}

/// The alignment selected by a 3-bit value.
pub open spec fn alignment_of(a: u8) -> Alignment {
    if a == 0 {
        Alignment::Absolute
    } else if a == 1 {
        Alignment::Byte
    } else if a == 2 {
        Alignment::Word
    } else if a == 3 {
        Alignment::Paragraph
    } else if a == 4 {
        Alignment::Page
    } else if a == 5 {
        Alignment::DoubleWord
    } else if a == 6 {
        Alignment::Unsupported
    } else {
        Alignment::Undefined
    }
}

/// The combination selected by a 3-bit value.
pub open spec fn combination_of(c: u8) -> Combination {
    if c == 0 {
        Combination::Private
    } else if c == 1 || c == 6 {
        Combination::Common
    } else if c == 2 || c == 4 || c == 7 {
        Combination::Public
    } else if c == 5 {
        Combination::Stack
    } else {
        Combination::Unknown
    }
}

/// The frame number and offset that an absolute segment carries.
#[derive(Debug, PartialEq, Eq, Clone, Copy)]
pub struct AbsoluteFrame {
    pub frame_number: u16,
    pub offset: u8,
}

/// A decoded SEGDEF record.
#[derive(Debug, PartialEq, Eq, Clone, Copy)]
pub struct SegDef {
    pub alignment: Alignment,
    pub combination: Combination,
    pub big: bool,
    pub page_resident: bool,
    pub frame: Option<AbsoluteFrame>,
    pub length: u16,
    pub segment_name_index: u8,
    pub class_name_index: u8,
    pub overlay_name_index: u8,
}

/// A SEGDEF payload: the ACBP byte — alignment in the top three bits,
/// combination in the next three, then the big and P flags — an absolute
/// frame number and offset exactly when the alignment is absolute, the
/// segment length, and the segment, class and overlay name indices.
pub open spec fn spec_segdef(p: Seq<u8>) -> Result<SegDef, DecodeError> {
    if p.len() < 1 {
        Err(DecodeError::Truncated)
    } else {
        let acbp = p[0];
        let a = (acbp & 0xe0) >> 5;
        let c = (acbp & 0x1c) >> 2;
        let big = (acbp & 0x02) >> 1 == 1;
        let page_resident = acbp & 0x01 == 1;
        let i = if a == 0 {
            4int
        } else {
            1int
        };
        if a == 0 && p.len() < 4 {
            Err(DecodeError::Truncated)
        } else if i + 5 > p.len() {
            Err(DecodeError::Truncated)
        } else {
            let frame = if a == 0 {
                Some(AbsoluteFrame { frame_number: le16(p, 1), offset: p[3] })
            } else {
                None
            };
            Ok(
                SegDef {
                    alignment: alignment_of(a),
                    combination: combination_of(c),
                    big,
                    page_resident,
                    frame,
                    length: le16(p, i),
                    segment_name_index: p[i + 2],
                    class_name_index: p[i + 3],
                    overlay_name_index: p[i + 4],
                },
            )
        }
    }
}

/// Decodes a SEGDEF payload.
pub fn segdef(orec: &ObjectRecord) -> (r: Result<SegDef, DecodeError>)
    ensures
        match r {
            Ok(sd) => spec_segdef(orec.data@) == Ok::<SegDef, DecodeError>(sd),
            Err(e) => spec_segdef(orec.data@) == Err::<SegDef, DecodeError>(e),
        },
{
    let n = orec.data.len();
    if n < 1 {
        return Err(DecodeError::Truncated);
    }
    let acbp = orec.data[0];
    let a = (acbp & 0xe0) >> 5;
    let c = (acbp & 0x1c) >> 2;
    let big = (acbp & 0x02) >> 1 == 1;
    let page_resident = acbp & 0x01 == 1;
    let mut i: usize = 1;
    let mut frame: Option<AbsoluteFrame> = None;
    if a == 0 {
        if n < 4 {
            return Err(DecodeError::Truncated);
        }
        let frame_number = (orec.data[1] as u16) + 0x100 * (orec.data[2] as u16);
        frame = Some(AbsoluteFrame { frame_number, offset: orec.data[3] });
        i = 4;
    }
    if n < i + 5 {
        return Err(DecodeError::Truncated);
    }
    let length = (orec.data[i] as u16) + 0x100 * (orec.data[i + 1] as u16);
    let alignment = if a == 0 {
        Alignment::Absolute
    } else if a == 1 {
        Alignment::Byte
    } else if a == 2 {
        Alignment::Word
    } else if a == 3 {
        Alignment::Paragraph
    } else if a == 4 {
        Alignment::Page
    } else if a == 5 {
        Alignment::DoubleWord
    } else if a == 6 {
        Alignment::Unsupported
    } else {
        Alignment::Undefined
    };
    let combination = if c == 0 {
        Combination::Private
    } else if c == 1 || c == 6 {
        Combination::Common
    } else if c == 2 || c == 4 || c == 7 {
        Combination::Public
    } else if c == 5 {
        Combination::Stack
    } else {
        Combination::Unknown
    };
    Ok(
        SegDef {
            alignment,
            combination,
            big,
            page_resident,
            frame,
            length,
            segment_name_index: orec.data[i + 2],
            class_name_index: orec.data[i + 3],
            overlay_name_index: orec.data[i + 4],
        },
    )
}

/// One entry of an EXTDEF record: an external name and its type index.
#[derive(Debug, PartialEq, Eq)]
pub struct ExternalName {
    pub name: String,
    pub type_index: u8,
}

/// The EXTDEF entries from offset `i` to the end of the payload: each a
/// length-prefixed name followed by a type-index byte.
pub open spec fn spec_extdef_from(p: Seq<u8>, i: int) -> Result<Seq<(Seq<char>, u8)>, DecodeError>
    decreases p.len() - i,
{
    if i >= p.len() {
        Ok(Seq::empty())
    } else {
        match spec_name(p, i) {
            Err(e) => Err(e),
            Ok((name, j)) => {
                if j < p.len() {
                    match spec_extdef_from(p, j + 1) {
                        Ok(rest) => Ok(seq![(name, p[j])] + rest),
                        Err(e) => Err(e),
                    }
                } else {
                    Err(DecodeError::Truncated)
                }
            },
        }
    }
}

/// Decodes an EXTDEF payload: every external name with its type index,
/// in order, until the payload is exhausted.
pub fn extdef(orec: &ObjectRecord) -> (r: Result<Vec<ExternalName>, DecodeError>)
    ensures
        match r {
            Ok(v) => spec_extdef_from(orec.data@, 0) matches Ok(m) && v@.map_values(
                |e: ExternalName| (e.name@, e.type_index),
            ) == m,
            Err(e) => spec_extdef_from(orec.data@, 0) == Err::<Seq<(Seq<char>, u8)>, DecodeError>(
                e,
            ),
        },
{
    let data = orec.data.as_slice();
    let n = data.len();
    let mut out: Vec<ExternalName> = Vec::new();
    let mut i: usize = 0;
    while i < n
        invariant
            n == data@.len(),
            data@ == orec.data@,
            i <= n,
            match spec_extdef_from(data@, i as int) {
                Ok(rest) => spec_extdef_from(data@, 0) == Ok::<Seq<(Seq<char>, u8)>, DecodeError>(
                    out@.map_values(|e: ExternalName| (e.name@, e.type_index)) + rest,
                ),
                Err(e) => spec_extdef_from(data@, 0) == Err::<Seq<(Seq<char>, u8)>, DecodeError>(
                    e,
                ),
            },
        decreases n - i,
    {
        let ghost prev = out@.map_values(|e: ExternalName| (e.name@, e.type_index));
        let (name, j) = match read_name(data, i) {
            Ok(nj) => nj,
            Err(e) => { return Err(e); },
        };
        if j >= n {
            return Err(DecodeError::Truncated);
        }
        let type_index = data[j];
        let ghost entry = (name@, type_index);
        out.push(ExternalName { name, type_index });
        proof {
            assert(out@.map_values(|e: ExternalName| (e.name@, e.type_index)) =~= prev.push(
                entry,
            ));
            match spec_extdef_from(data@, j + 1) {
                Ok(rest2) => {
                    assert(spec_extdef_from(data@, i as int) == Ok::<
                        Seq<(Seq<char>, u8)>,
                        DecodeError,
                    >(seq![entry] + rest2));
                    assert(prev.push(entry) + rest2 =~= prev + (seq![entry] + rest2));
                },
                Err(_) => {},
            }
        }
        i = j + 1;
    }
    proof {
        let final_model = out@.map_values(|e: ExternalName| (e.name@, e.type_index));
        assert(final_model + Seq::<(Seq<char>, u8)>::empty() =~= final_model);
    }
    Ok(out)
}

/// One entry of a PUBDEF record: a public name, its offset, and its type
/// index.
#[derive(Debug, PartialEq, Eq)]
pub struct PublicName {
    pub name: String,
    pub offset: u16,
    pub type_index: u8,
}

/// The PUBDEF entries from offset `i`: each a length-prefixed name, a
/// little-endian public offset, and a type-index byte.
pub open spec fn spec_pubdef_entries(p: Seq<u8>, i: int) -> Result<
    Seq<(Seq<char>, u16, u8)>,
    DecodeError,
>
    decreases p.len() - i,
{
    if i >= p.len() {
        Ok(Seq::empty())
    } else {
        match spec_name(p, i) {
            Err(e) => Err(e),
            Ok((name, j)) => {
                if j + 3 <= p.len() {
                    match spec_pubdef_entries(p, j + 3) {
                        Ok(rest) => Ok(seq![(name, le16(p, j), p[j + 2])] + rest),
                        Err(e) => Err(e),
                    }
                } else {
                    Err(DecodeError::Truncated)
                }
            },
        }
    }
}

/// A PUBDEF payload: the local-symbol base, then the public names.
pub open spec fn spec_pubdef(p: Seq<u8>) -> Result<
    (LocalSymbolBase, Seq<(Seq<char>, u16, u8)>),
    DecodeError,
> {
    match spec_loc_sym_base(p, 0) {
        Err(e) => Err(e),
        Ok((base, i)) => match spec_pubdef_entries(p, i) {
            Ok(entries) => Ok((base, entries)),
            Err(e) => Err(e),
        },
    }
}

/// A decoded PUBDEF record.
#[derive(Debug, PartialEq, Eq)]
pub struct PubDef {
    pub base: LocalSymbolBase,
    pub publics: Vec<PublicName>,
}

/// Decodes a PUBDEF payload: the base, then every public name with its
/// offset and type index, until the payload is exhausted.
pub fn pubdef(orec: &ObjectRecord) -> (r: Result<PubDef, DecodeError>)
    ensures
        match r {
            Ok(pd) => spec_pubdef(orec.data@) matches Ok(m) && pd.base == m.0
                && pd.publics@.map_values(|e: PublicName| (e.name@, e.offset, e.type_index))
                == m.1,
            Err(e) => spec_pubdef(orec.data@) == Err::<
                (LocalSymbolBase, Seq<(Seq<char>, u16, u8)>),
                DecodeError,
            >(e),
        },
{
    let data = orec.data.as_slice();
    let n = data.len();
    let (base, start) = match decode_loc_sym_base(data, 0) {
        Ok(bs) => bs,
        Err(e) => { return Err(e); },
    };
    let mut out: Vec<PublicName> = Vec::new();
    let mut i = start;
    while i < n
        invariant
            n == data@.len(),
            data@ == orec.data@,
            i <= n,
            spec_loc_sym_base(data@, 0) == Ok::<(LocalSymbolBase, int), DecodeError>(
                (base, start as int),
            ),
            match spec_pubdef_entries(data@, i as int) {
                Ok(rest) => spec_pubdef_entries(data@, start as int) == Ok::<
                    Seq<(Seq<char>, u16, u8)>,
                    DecodeError,
                >(out@.map_values(|e: PublicName| (e.name@, e.offset, e.type_index)) + rest),
                Err(e) => spec_pubdef_entries(data@, start as int) == Err::<
                    Seq<(Seq<char>, u16, u8)>,
                    DecodeError,
                >(e),
            },
        decreases n - i,
    {
        let ghost prev = out@.map_values(|e: PublicName| (e.name@, e.offset, e.type_index));
        let (name, j) = match read_name(data, i) {
            Ok(nj) => nj,
            Err(e) => { return Err(e); },
        };
        if n - j < 3 {
            return Err(DecodeError::Truncated);
        }
        let offset = (data[j] as u16) + 0x100 * (data[j + 1] as u16);
        let type_index = data[j + 2];
        let ghost entry = (name@, offset, type_index);
        out.push(PublicName { name, offset, type_index });
        proof {
            assert(out@.map_values(|e: PublicName| (e.name@, e.offset, e.type_index)) =~= prev.push(
                entry,
            ));
            match spec_pubdef_entries(data@, j + 3) {
                Ok(rest2) => {
                    assert(spec_pubdef_entries(data@, i as int) == Ok::<
                        Seq<(Seq<char>, u16, u8)>,
                        DecodeError,
                    >(seq![entry] + rest2));
                    assert(prev.push(entry) + rest2 =~= prev + (seq![entry] + rest2));
                },
                Err(_) => {},
            }
        }
        i = j + 3;
    }
    proof {
        let final_model = out@.map_values(|e: PublicName| (e.name@, e.offset, e.type_index));
        assert(final_model + Seq::<(Seq<char>, u16, u8)>::empty() =~= final_model);
    }
    Ok(PubDef { base, publics: out })
}

/// One entry of a LINNUM record: a source line and its segment offset.
#[derive(Debug, PartialEq, Eq, Clone, Copy)]
pub struct LineNumber {
    pub line: u16,
    pub offset: u16,
}

/// The LINNUM entries from offset `i`: little-endian line and offset
/// pairs, four bytes each.
pub open spec fn spec_linnum_pairs(p: Seq<u8>, i: int) -> Result<Seq<LineNumber>, DecodeError>
    decreases p.len() - i,
{
    if i >= p.len() {
        Ok(Seq::empty())
    } else if i + 4 <= p.len() {
        match spec_linnum_pairs(p, i + 4) {
            Ok(rest) => Ok(seq![LineNumber { line: le16(p, i), offset: le16(p, i + 2) }] + rest),
            Err(e) => Err(e),
        }
    } else {
        Err(DecodeError::Truncated)
    }
}

/// A LINNUM payload: base group and segment indices, then the pairs.
pub open spec fn spec_linnum(p: Seq<u8>) -> Result<(u8, u8, Seq<LineNumber>), DecodeError> {
    if p.len() < 2 {
        Err(DecodeError::Truncated)
    } else {
        match spec_linnum_pairs(p, 2) {
            Ok(pairs) => Ok((p[0], p[1], pairs)),
            Err(e) => Err(e),
        }
    }
}

/// A decoded LINNUM record.
#[derive(Debug, PartialEq, Eq)]
pub struct LinNum {
    pub group_index: u8,
    pub segment_index: u8,
    pub pairs: Vec<LineNumber>,
}

/// Decodes a LINNUM payload: the base indices, then every line and
/// offset pair until the payload is exhausted.
pub fn linnum(orec: &ObjectRecord) -> (r: Result<LinNum, DecodeError>)
    ensures
        match r {
            Ok(ln) => spec_linnum(orec.data@) matches Ok(m) && ln.group_index == m.0
                && ln.segment_index == m.1 && ln.pairs@ == m.2,
            Err(e) => spec_linnum(orec.data@) == Err::<(u8, u8, Seq<LineNumber>), DecodeError>(e),
        },
{
    let data = orec.data.as_slice();
    let n = data.len();
    if n < 2 {
        return Err(DecodeError::Truncated);
    }
    let group_index = data[0];
    let segment_index = data[1];
    let mut out: Vec<LineNumber> = Vec::new();
    let mut i: usize = 2;
    while i < n
        invariant
            n == data@.len(),
            data@ == orec.data@,
            2 <= i <= n,
            match spec_linnum_pairs(data@, i as int) {
                Ok(rest) => spec_linnum_pairs(data@, 2) == Ok::<Seq<LineNumber>, DecodeError>(
                    out@ + rest,
                ),
                Err(e) => spec_linnum_pairs(data@, 2) == Err::<Seq<LineNumber>, DecodeError>(e),
            },
        decreases n - i,
    {
        let ghost prev = out@;
        if n - i < 4 {
            return Err(DecodeError::Truncated);
        }
        let line = (data[i] as u16) + 0x100 * (data[i + 1] as u16);
        let offset = (data[i + 2] as u16) + 0x100 * (data[i + 3] as u16);
        let entry = LineNumber { line, offset };
        out.push(entry);
        proof {
            match spec_linnum_pairs(data@, i + 4) {
                Ok(rest2) => {
                    assert(spec_linnum_pairs(data@, i as int) == Ok::<Seq<LineNumber>, DecodeError>(
                        seq![entry] + rest2,
                    ));
                    assert(prev.push(entry) + rest2 =~= prev + (seq![entry] + rest2));
                },
                Err(_) => {},
            }
        }
        i = i + 4;
    }
    proof {
        assert(out@ + Seq::<LineNumber>::empty() =~= out@);
    }
    Ok(LinNum { group_index, segment_index, pairs: out })
}

/// The LNAMES entries from offset `i`: length-prefixed names, in order;
/// the order is significant, since later records reference the names by
/// 1-based position.
pub open spec fn spec_lnames_from(p: Seq<u8>, i: int) -> Result<Seq<Seq<char>>, DecodeError>
    decreases p.len() - i,
{
    if i >= p.len() {
        Ok(Seq::empty())
    } else {
        match spec_name(p, i) {
            Err(e) => Err(e),
            Ok((name, j)) => match spec_lnames_from(p, j) {
                Ok(rest) => Ok(seq![name] + rest),
                Err(e) => Err(e),
            },
        }
    }
}

/// Decodes an LNAMES payload: every name, in order, until the payload is
/// exhausted.
pub fn lnames(orec: &ObjectRecord) -> (r: Result<Vec<String>, DecodeError>)
    ensures
        match r {
            Ok(v) => spec_lnames_from(orec.data@, 0) matches Ok(m) && v@.map_values(
                |s: String| s@,
            ) == m,
            Err(e) => spec_lnames_from(orec.data@, 0) == Err::<Seq<Seq<char>>, DecodeError>(e),
        },
{
    let data = orec.data.as_slice();
    let n = data.len();
    let mut out: Vec<String> = Vec::new();
    let mut i: usize = 0;
    while i < n
        invariant
            n == data@.len(),
            data@ == orec.data@,
            i <= n,
            match spec_lnames_from(data@, i as int) {
                Ok(rest) => spec_lnames_from(data@, 0) == Ok::<Seq<Seq<char>>, DecodeError>(
                    out@.map_values(|s: String| s@) + rest,
                ),
                Err(e) => spec_lnames_from(data@, 0) == Err::<Seq<Seq<char>>, DecodeError>(e),
            },
        decreases n - i,
    {
        let ghost prev = out@.map_values(|s: String| s@);
        let (name, j) = match read_name(data, i) {
            Ok(nj) => nj,
            Err(e) => { return Err(e); },
        };
        let ghost entry = name@;
        out.push(name);
        proof {
            assert(out@.map_values(|s: String| s@) =~= prev.push(entry));
            match spec_lnames_from(data@, j as int) {
                Ok(rest2) => {
                    assert(spec_lnames_from(data@, i as int) == Ok::<Seq<Seq<char>>, DecodeError>(
                        seq![entry] + rest2,
                    ));
                    assert(prev.push(entry) + rest2 =~= prev + (seq![entry] + rest2));
                },
                Err(_) => {},
            }
        }
        i = j;
    }
    proof {
        let final_model = out@.map_values(|s: String| s@);
        assert(final_model + Seq::<Seq<char>>::empty() =~= final_model);
    }
    Ok(out)
}

/// What one GRPDEF component's subtype byte stands for; unknown subtype
/// bytes are preserved rather than erroring.
#[derive(Debug, PartialEq, Eq, Clone, Copy)]
pub enum GroupComponentKind {
    SegmentIndex,
    NameIndex,
    GroupLength,
    FrameOffset,
    Unrecognized(u8),
}

/// The component kind a subtype byte selects.
pub open spec fn component_kind_of(b: u8) -> GroupComponentKind {
    if b == 0xff {
        GroupComponentKind::SegmentIndex
    } else if b == 0xfe {
        GroupComponentKind::NameIndex
    } else if b == 0xfb {
        GroupComponentKind::GroupLength
    } else if b == 0xfa {
        GroupComponentKind::FrameOffset
    } else {
        GroupComponentKind::Unrecognized(b)
    }
}

/// One component of a group definition: its kind and its value byte.
#[derive(Debug, PartialEq, Eq, Clone, Copy)]
pub struct GroupComponent {
    pub kind: GroupComponentKind,
    pub value: u8,
}

/// The GRPDEF components from offset `i`: subtype and value byte pairs.
pub open spec fn spec_grpdef_components(p: Seq<u8>, i: int) -> Result<
    Seq<GroupComponent>,
    DecodeError,
>
    decreases p.len() - i,
{
    if i >= p.len() {
        Ok(Seq::empty())
    } else if i + 2 <= p.len() {
        match spec_grpdef_components(p, i + 2) {
            Ok(rest) => Ok(
                seq![GroupComponent { kind: component_kind_of(p[i]), value: p[i + 1] }] + rest,
            ),
            Err(e) => Err(e),
        }
    } else {
        Err(DecodeError::Truncated)
    }
}

/// A GRPDEF payload: the group-name index, then the component pairs.
pub open spec fn spec_grpdef(p: Seq<u8>) -> Result<(u8, Seq<GroupComponent>), DecodeError> {
    if p.len() < 1 {
        Err(DecodeError::Truncated)
    } else {
        match spec_grpdef_components(p, 1) {
            Ok(components) => Ok((p[0], components)),
            Err(e) => Err(e),
        }
    }
}

/// A decoded GRPDEF record.
#[derive(Debug, PartialEq, Eq)]
pub struct GrpDef {
    pub name_index: u8,
    pub components: Vec<GroupComponent>,
}

/// Decodes a GRPDEF payload: the group-name index, then every component
/// pair until the payload is exhausted.
pub fn grpdef(orec: &ObjectRecord) -> (r: Result<GrpDef, DecodeError>)
    ensures
        match r {
            Ok(gd) => spec_grpdef(orec.data@) matches Ok(m) && gd.name_index == m.0
                && gd.components@ == m.1,
            Err(e) => spec_grpdef(orec.data@) == Err::<(u8, Seq<GroupComponent>), DecodeError>(e),
        },
{
    let data = orec.data.as_slice();
    let n = data.len();
    if n < 1 {
        return Err(DecodeError::Truncated);
    }
    let name_index = data[0];
    let mut out: Vec<GroupComponent> = Vec::new();
    let mut i: usize = 1;
    while i < n
        invariant
            n == data@.len(),
            data@ == orec.data@,
            1 <= i <= n,
            match spec_grpdef_components(data@, i as int) {
                Ok(rest) => spec_grpdef_components(data@, 1) == Ok::<
                    Seq<GroupComponent>,
                    DecodeError,
                >(out@ + rest),
                Err(e) => spec_grpdef_components(data@, 1) == Err::<
                    Seq<GroupComponent>,
                    DecodeError,
                >(e),
            },
        decreases n - i,
    {
        let ghost prev = out@;
        if n - i < 2 {
            return Err(DecodeError::Truncated);
        }
        let b = data[i];
        let kind = if b == 0xff {
            GroupComponentKind::SegmentIndex
        } else if b == 0xfe {
            GroupComponentKind::NameIndex
        } else if b == 0xfb {
            GroupComponentKind::GroupLength
        } else if b == 0xfa {
            GroupComponentKind::FrameOffset
        } else {
            GroupComponentKind::Unrecognized(b)
        };
        let entry = GroupComponent { kind, value: data[i + 1] };
        out.push(entry);
        proof {
            match spec_grpdef_components(data@, i + 2) {
                Ok(rest2) => {
                    assert(spec_grpdef_components(data@, i as int) == Ok::<
                        Seq<GroupComponent>,
                        DecodeError,
                    >(seq![entry] + rest2));
                    assert(prev.push(entry) + rest2 =~= prev + (seq![entry] + rest2));
                },
                Err(_) => {},
            }
        }
        i = i + 2;
    }
    proof {
        assert(out@ + Seq::<GroupComponent>::empty() =~= out@);
    }
    Ok(GrpDef { name_index, components: out })
}

/// One entry of a DEBSYM record: a symbol name, its offset, and its type
/// index.
#[derive(Debug, PartialEq, Eq)]
pub struct DebugSymbol {
    pub name: String,
    pub offset: u16,
    pub type_index: u8,
}

/// The DEBSYM entries from offset `i`: each a length-prefixed name, a
/// little-endian offset, and a type-index byte.
pub open spec fn spec_debsym_entries(p: Seq<u8>, i: int) -> Result<
    Seq<(Seq<char>, u16, u8)>,
    DecodeError,
>
    decreases p.len() - i,
{
    if i >= p.len() {
        Ok(Seq::empty())
    } else {
        match spec_name(p, i) {
            Err(e) => Err(e),
            Ok((name, j)) => {
                if j + 3 <= p.len() {
                    match spec_debsym_entries(p, j + 3) {
                        Ok(rest) => Ok(seq![(name, le16(p, j), p[j + 2])] + rest),
                        Err(e) => Err(e),
                    }
                } else {
                    Err(DecodeError::Truncated)
                }
            },
        }
    }
}

/// A DEBSYM payload: a frame-info byte — based flag, long flag, and a
/// method of which only 0 is supported — a local-symbol base, then the
/// symbol entries.
pub open spec fn spec_debsym(p: Seq<u8>) -> Result<
    (bool, bool, LocalSymbolBase, Seq<(Seq<char>, u16, u8)>),
    DecodeError,
> {
    if p.len() < 1 {
        Err(DecodeError::Truncated)
    } else {
        let fi = p[0];
        if fi & 7 != 0 {
            Err(DecodeError::Unsupported)
        } else {
            match spec_loc_sym_base(p, 1) {
                Err(e) => Err(e),
                Ok((base, i)) => match spec_debsym_entries(p, i) {
                    Ok(entries) => Ok((fi >> 7 == 1, (fi >> 6) & 1 == 1, base, entries)),
                    Err(e) => Err(e),
                },
            }
        }
    }
}

/// A decoded DEBSYM record.
#[derive(Debug, PartialEq, Eq)]
pub struct DebSym {
    pub based: bool,
    pub long: bool,
    pub base: LocalSymbolBase,
    pub symbols: Vec<DebugSymbol>,
}

/// Decodes a DEBSYM payload: the frame-info flags, the base, then every
/// symbol until the payload is exhausted. A frame method other than 0 is
/// unsupported.
pub fn debsym(orec: &ObjectRecord) -> (r: Result<DebSym, DecodeError>)
    ensures
        match r {
            Ok(ds) => spec_debsym(orec.data@) matches Ok(m) && ds.based == m.0 && ds.long == m.1
                && ds.base == m.2 && ds.symbols@.map_values(
                |e: DebugSymbol| (e.name@, e.offset, e.type_index),
            ) == m.3,
            Err(e) => spec_debsym(orec.data@) == Err::<
                (bool, bool, LocalSymbolBase, Seq<(Seq<char>, u16, u8)>),
                DecodeError,
            >(e),
        },
{
    let data = orec.data.as_slice();
    let n = data.len();
    if n < 1 {
        return Err(DecodeError::Truncated);
    }
    let fi = data[0];
    if fi & 7 != 0 {
        return Err(DecodeError::Unsupported);
    }
    let based = fi >> 7 == 1;
    let long = (fi >> 6) & 1 == 1;
    let (base, start) = match decode_loc_sym_base(data, 1) {
        Ok(bs) => bs,
        Err(e) => { return Err(e); },
    };
    let mut out: Vec<DebugSymbol> = Vec::new();
    let mut i = start;
    while i < n
        invariant
            n == data@.len(),
            data@ == orec.data@,
            i <= n,
            data@.len() >= 1,
            data@[0] & 7 == 0,
            based == (data@[0] >> 7 == 1),
            long == ((data@[0] >> 6) & 1 == 1),
            spec_loc_sym_base(data@, 1) == Ok::<(LocalSymbolBase, int), DecodeError>(
                (base, start as int),
            ),
            match spec_debsym_entries(data@, i as int) {
                Ok(rest) => spec_debsym_entries(data@, start as int) == Ok::<
                    Seq<(Seq<char>, u16, u8)>,
                    DecodeError,
                >(out@.map_values(|e: DebugSymbol| (e.name@, e.offset, e.type_index)) + rest),
                Err(e) => spec_debsym_entries(data@, start as int) == Err::<
                    Seq<(Seq<char>, u16, u8)>,
                    DecodeError,
                >(e),
            },
        decreases n - i,
    {
        let ghost prev = out@.map_values(|e: DebugSymbol| (e.name@, e.offset, e.type_index));
        let (name, j) = match read_name(data, i) {
            Ok(nj) => nj,
            Err(e) => { return Err(e); },
        };
        if n - j < 3 {
            return Err(DecodeError::Truncated);
        }
        let offset = (data[j] as u16) + 0x100 * (data[j + 1] as u16);
        let type_index = data[j + 2];
        let ghost entry = (name@, offset, type_index);
        out.push(DebugSymbol { name, offset, type_index });
        proof {
            assert(out@.map_values(|e: DebugSymbol| (e.name@, e.offset, e.type_index)) =~= prev
                .push(entry));
            match spec_debsym_entries(data@, j + 3) {
                Ok(rest2) => {
                    assert(spec_debsym_entries(data@, i as int) == Ok::<
                        Seq<(Seq<char>, u16, u8)>,
                        DecodeError,
                    >(seq![entry] + rest2));
                    assert(prev.push(entry) + rest2 =~= prev + (seq![entry] + rest2));
                },
                Err(_) => {},
            }
        }
        i = j + 3;
    }
    proof {
        let final_model = out@.map_values(|e: DebugSymbol| (e.name@, e.offset, e.type_index));
        assert(final_model + Seq::<(Seq<char>, u16, u8)>::empty() =~= final_model);
    }
    Ok(DebSym { based, long, base, symbols: out })
}

/// What a register-initialization entry points at: an address reference,
/// or a local-symbol base with an optional register offset.
#[derive(Debug, PartialEq, Eq, Clone, Copy)]
pub enum RegInitContent {
    Reference(AddressReference),
    Base { base: LocalSymbolBase, offset: Option<u16> },
}

/// One entry of a REGINT record: the raw register-type byte, the register
/// id from its top two bits, and the entry's content.
#[derive(Debug, PartialEq, Eq, Clone, Copy)]
pub struct RegInit {
    pub reg_type: u8,
    pub reg_id: u8,
    pub content: RegInitContent,
}

/// The REGINT entries from offset `i`. Each starts with a register-type
/// byte whose low bit selects the content: an address reference, or a
/// local-symbol base followed — for register ids 0 and 1 — by a
/// little-endian register offset.
pub open spec fn spec_regint_from(p: Seq<u8>, i: int) -> Result<Seq<RegInit>, DecodeError>
    decreases p.len() - i,
{
    if i >= p.len() {
        Ok(Seq::empty())
    } else {
        let b = p[i];
        let reg_id = b >> 6;
        if b & 1 == 1 {
            match spec_address_reference(p, i + 1) {
                Err(e) => Err(e),
                Ok((a, j)) => match spec_regint_from(p, j) {
                    Ok(rest) => Ok(
                        seq![
                            RegInit { reg_type: b, reg_id, content: RegInitContent::Reference(a) },
                        ] + rest,
                    ),
                    Err(e) => Err(e),
                },
            }
        } else {
            match spec_loc_sym_base(p, i + 1) {
                Err(e) => Err(e),
                Ok((base, j)) => {
                    if reg_id <= 1 {
                        if j + 2 <= p.len() {
                            match spec_regint_from(p, j + 2) {
                                Ok(rest) => Ok(
                                    seq![
                                        RegInit {
                                            reg_type: b,
                                            reg_id,
                                            content: RegInitContent::Base {
                                                base,
                                                offset: Some(le16(p, j)),
                                            },
                                        },
                                    ] + rest,
                                ),
                                Err(e) => Err(e),
                            }
                        } else {
                            Err(DecodeError::Truncated)
                        }
                    } else {
                        match spec_regint_from(p, j) {
                            Ok(rest) => Ok(
                                seq![
                                    RegInit {
                                        reg_type: b,
                                        reg_id,
                                        content: RegInitContent::Base { base, offset: None },
                                    },
                                ] + rest,
                            ),
                            Err(e) => Err(e),
                        }
                    }
                },
            }
        }
    }
}

/// Decodes a REGINT payload: every register-initialization entry until
/// the payload is exhausted.
pub fn regint(orec: &ObjectRecord) -> (r: Result<Vec<RegInit>, DecodeError>)
    ensures
        match r {
            Ok(v) => spec_regint_from(orec.data@, 0) matches Ok(m) && v@ == m,
            Err(e) => spec_regint_from(orec.data@, 0) == Err::<Seq<RegInit>, DecodeError>(e),
        },
{
    let data = orec.data.as_slice();
    let n = data.len();
    let mut out: Vec<RegInit> = Vec::new();
    let mut i: usize = 0;
    while i < n
        invariant
            n == data@.len(),
            data@ == orec.data@,
            i <= n,
            match spec_regint_from(data@, i as int) {
                Ok(rest) => spec_regint_from(data@, 0) == Ok::<Seq<RegInit>, DecodeError>(
                    out@ + rest,
                ),
                Err(e) => spec_regint_from(data@, 0) == Err::<Seq<RegInit>, DecodeError>(e),
            },
        decreases n - i,
    {
        let ghost prev = out@;
        let b = data[i];
        let reg_id = b >> 6;
        let entry: RegInit;
        let next: usize;
        if b & 1 == 1 {
            let (a, j) = match decode_address_reference(data, i + 1) {
                Ok(aj) => aj,
                Err(e) => { return Err(e); },
            };
            entry = RegInit { reg_type: b, reg_id, content: RegInitContent::Reference(a) };
            next = j;
        } else {
            let (base, j) = match decode_loc_sym_base(data, i + 1) {
                Ok(bj) => bj,
                Err(e) => { return Err(e); },
            };
            if reg_id <= 1 {
                if n - j < 2 {
                    return Err(DecodeError::Truncated);
                }
                let offset = (data[j] as u16) + 0x100 * (data[j + 1] as u16);
                entry = RegInit {
                    reg_type: b,
                    reg_id,
                    content: RegInitContent::Base { base, offset: Some(offset) },
                };
                next = j + 2;
            } else {
                entry = RegInit {
                    reg_type: b,
                    reg_id,
                    content: RegInitContent::Base { base, offset: None },
                };
                next = j;
            }
        }
        out.push(entry);
        proof {
            match spec_regint_from(data@, next as int) {
                Ok(rest2) => {
                    assert(spec_regint_from(data@, i as int) == Ok::<Seq<RegInit>, DecodeError>(
                        seq![entry] + rest2,
                    ));
                    assert(prev.push(entry) + rest2 =~= prev + (seq![entry] + rest2));
                },
                Err(_) => {},
            }
        }
        i = next;
    }
    proof {
        assert(out@ + Seq::<RegInit>::empty() =~= out@);
    }
    Ok(out)
}

/// One entry of a FIXUPP record: a fixup proper, or a thread definition
/// usable by later thread references within the same record.
#[derive(Debug, PartialEq, Eq, Clone, Copy)]
pub enum FixupEntry {
    Fixup { segment_relative: bool, location: u8, data_offset: u16, reference: AddressReference },
    Thread { is_frame: bool, number: u8, method: u8, index: u8 },
}

/// The FIXUPP entries from offset `i`. The top bit of the first byte
/// selects the shape: set, a fixup — a 16-bit locator holding the
/// segment-relative bit, the location type in bits 13-10 and the data
/// offset in the low 10 bits, followed by an address reference; clear, a
/// thread definition — direction, thread number, method, and an index
/// byte.
pub open spec fn spec_fixupp_from(p: Seq<u8>, i: int) -> Result<Seq<FixupEntry>, DecodeError>
    decreases p.len() - i,
{
    if i >= p.len() {
        Ok(Seq::empty())
    } else if p[i] & 0x80 != 0 {
        if i + 2 <= p.len() {
            let locat = (p[i + 1] + 0x100 * p[i]) as u16;
            match spec_address_reference(p, i + 2) {
                Err(e) => Err(e),
                Ok((a, j)) => match spec_fixupp_from(p, j) {
                    Ok(rest) => Ok(
                        seq![
                            FixupEntry::Fixup {
                                segment_relative: (locat >> 14) & 1 == 1,
                                location: ((locat >> 10) & 0xf) as u8,
                                data_offset: locat & 0x3ff,
                                reference: a,
                            },
                        ] + rest,
                    ),
                    Err(e) => Err(e),
                },
            }
        } else {
            Err(DecodeError::Truncated)
        }
    } else {
        if i + 2 <= p.len() {
            let b = p[i];
            match spec_fixupp_from(p, i + 2) {
                Ok(rest) => Ok(
                    seq![
                        FixupEntry::Thread {
                            is_frame: (b >> 6) & 1 == 1,
                            number: b & 3,
                            method: (b >> 2) & 7,
                            index: p[i + 1],
                        },
                    ] + rest,
                ),
                Err(e) => Err(e),
            }
        } else {
            Err(DecodeError::Truncated)
        }
    }
}

/// Decodes a FIXUPP payload: every fixup and thread entry until the
/// payload is exhausted.
pub fn fixupp(orec: &ObjectRecord) -> (r: Result<Vec<FixupEntry>, DecodeError>)
    ensures
        match r {
            Ok(v) => spec_fixupp_from(orec.data@, 0) matches Ok(m) && v@ == m,
            Err(e) => spec_fixupp_from(orec.data@, 0) == Err::<Seq<FixupEntry>, DecodeError>(e),
        },
{
    let data = orec.data.as_slice();
    let n = data.len();
    let mut out: Vec<FixupEntry> = Vec::new();
    let mut i: usize = 0;
    while i < n
        invariant
            n == data@.len(),
            data@ == orec.data@,
            i <= n,
            match spec_fixupp_from(data@, i as int) {
                Ok(rest) => spec_fixupp_from(data@, 0) == Ok::<Seq<FixupEntry>, DecodeError>(
                    out@ + rest,
                ),
                Err(e) => spec_fixupp_from(data@, 0) == Err::<Seq<FixupEntry>, DecodeError>(e),
            },
        decreases n - i,
    {
        let ghost prev = out@;
        let entry: FixupEntry;
        let next: usize;
        if data[i] & 0x80 != 0 {
            if n - i < 2 {
                return Err(DecodeError::Truncated);
            }
            let locat = (data[i + 1] as u16) + 0x100 * (data[i] as u16);
            let (a, j) = match decode_address_reference(data, i + 2) {
                Ok(aj) => aj,
                Err(e) => { return Err(e); },
            };
            entry = FixupEntry::Fixup {
                segment_relative: (locat >> 14) & 1 == 1,
                location: ((locat >> 10) & 0xf) as u8,
                data_offset: locat & 0x3ff,
                reference: a,
            };
            next = j;
        } else {
            if n - i < 2 {
                return Err(DecodeError::Truncated);
            }
            let b = data[i];
            entry = FixupEntry::Thread {
                is_frame: (b >> 6) & 1 == 1,
                number: b & 3,
                method: (b >> 2) & 7,
                index: data[i + 1],
            };
            next = i + 2;
        }
        out.push(entry);
        proof {
            match spec_fixupp_from(data@, next as int) {
                Ok(rest2) => {
                    assert(spec_fixupp_from(data@, i as int) == Ok::<Seq<FixupEntry>, DecodeError>(
                        seq![entry] + rest2,
                    ));
                    assert(prev.push(entry) + rest2 =~= prev + (seq![entry] + rest2));
                },
                Err(_) => {},
            }
        }
        i = next;
    }
    proof {
        assert(out@ + Seq::<FixupEntry>::empty() =~= out@);
    }
    Ok(out)
}

/// BLKDEF records are structurally opaque to this decoder: the raw
/// payload passes through unchanged.
pub fn blkdef(orec: &ObjectRecord) -> (r: Vec<u8>)
    ensures
        r@ == orec.data@,
{
    slice_to_vec(orec.data.as_slice())
}

/// COMENT records are structurally opaque to this decoder: the raw
/// payload passes through unchanged.
pub fn coment(orec: &ObjectRecord) -> (r: Vec<u8>)
    ensures
        r@ == orec.data@,
{
    slice_to_vec(orec.data.as_slice())
}

/// A TYPDEF record's payload passes through here unchanged; its grammar
/// is decoded separately by the tagged-leaf layer.
pub fn typdef(orec: &ObjectRecord) -> (r: Vec<u8>)
    ensures
        r@ == orec.data@,
{
    slice_to_vec(orec.data.as_slice())
}

} // verus!
