//! The record framer: turns a raw byte stream into discrete typed records.
//!
//! Each record on the wire is `type:u8, length:u16-LE, payload:bytes[length-1],
//! checksum:u8`; the unsigned sum of all of a record's bytes, checksum
//! included, must be 0 modulo 256. The first byte of a well-formed stream is
//! the THEADR tag 0x80.

use vstd::prelude::*;

use crate::error::DecodeError;

verus! {

/// The closed set of record kinds, one per known type byte.
#[derive(Clone, Copy, Debug, PartialEq, Eq, Structural)]
pub enum RecordType {
    REGINT,
    BLKDEF,
    BLKEND,
    DEBSYM,
    THEADR,
    COMENT,
    MODEND,
    EXTDEF,
    TYPDEF,
    PUBDEF,
    LINNUM,
    LNAMES,
    SEGDEF,
    GRPDEF,
    FIXUPP,
    LEDATA,
}

/// One framed record: its kind and its raw payload, checksum excluded.
#[derive(Debug, PartialEq, Eq)]
pub struct ObjectRecord {
    pub rtype: RecordType,
    pub data: Vec<u8>,
}

/// The type byte that encodes a record kind on the wire.
pub open spec fn type_code(t: RecordType) -> u8 {
    match t {
        RecordType::REGINT => 0x70,
        RecordType::BLKDEF => 0x7a,
        RecordType::BLKEND => 0x7c,
        RecordType::DEBSYM => 0x7e,
        RecordType::THEADR => 0x80,
        RecordType::COMENT => 0x88,
        RecordType::MODEND => 0x8a,
        RecordType::EXTDEF => 0x8c,
        RecordType::TYPDEF => 0x8e,
        RecordType::PUBDEF => 0x90,
        RecordType::LINNUM => 0x94,
        RecordType::LNAMES => 0x96,
        RecordType::SEGDEF => 0x98,
        RecordType::GRPDEF => 0x9a,
        RecordType::FIXUPP => 0x9c,
        RecordType::LEDATA => 0xa0,
    }
}

/// The record kind a type byte stands for, if any.
pub open spec fn code_to_type(num: u8) -> Option<RecordType> {
    if num == 0x70 {
        Some(RecordType::REGINT)
    } else if num == 0x7a {
        Some(RecordType::BLKDEF)
    } else if num == 0x7c {
        Some(RecordType::BLKEND)
    } else if num == 0x7e {
        Some(RecordType::DEBSYM)
    } else if num == 0x80 {
        Some(RecordType::THEADR)
    } else if num == 0x88 {
        Some(RecordType::COMENT)
    } else if num == 0x8a {
        Some(RecordType::MODEND)
    } else if num == 0x8c {
        Some(RecordType::EXTDEF)
    } else if num == 0x8e {
        Some(RecordType::TYPDEF)
    } else if num == 0x90 {
        Some(RecordType::PUBDEF)
    } else if num == 0x94 {
        Some(RecordType::LINNUM)
    } else if num == 0x96 {
        Some(RecordType::LNAMES)
    } else if num == 0x98 {
        Some(RecordType::SEGDEF)
    } else if num == 0x9a {
        Some(RecordType::GRPDEF)
    } else if num == 0x9c {
        Some(RecordType::FIXUPP)
    } else if num == 0xa0 {
        Some(RecordType::LEDATA)
    } else {
        None
    }
}

/// Maps a record type byte to its kind; unrecognized bytes are an error,
/// never a silent default.
pub fn const_to_type(num: u8) -> (r: Result<RecordType, DecodeError>)
    ensures
        code_to_type(num) matches Some(t) ==> r == Ok::<RecordType, DecodeError>(t),
        code_to_type(num) is None ==> r == Err::<RecordType, DecodeError>(
            DecodeError::UnknownRecordType(num),
        ),
{
    match num {
        0x70 => Ok(RecordType::REGINT),
        0x7a => Ok(RecordType::BLKDEF),
        0x7c => Ok(RecordType::BLKEND),
        0x7e => Ok(RecordType::DEBSYM),
        0x80 => Ok(RecordType::THEADR),
        0x88 => Ok(RecordType::COMENT),
        0x8a => Ok(RecordType::MODEND),
        0x8c => Ok(RecordType::EXTDEF),
        0x8e => Ok(RecordType::TYPDEF),
        0x90 => Ok(RecordType::PUBDEF),
        0x94 => Ok(RecordType::LINNUM),
        0x96 => Ok(RecordType::LNAMES),
        0x98 => Ok(RecordType::SEGDEF),
        0x9a => Ok(RecordType::GRPDEF),
        0x9c => Ok(RecordType::FIXUPP),
        0xa0 => Ok(RecordType::LEDATA),
        n => Err(DecodeError::UnknownRecordType(n)),
    }
}

/// The wire type byte of a record kind.
pub fn record_type_code(t: RecordType) -> (c: u8)
    ensures
        c == type_code(t),
{
    match t {
        RecordType::REGINT => 0x70,
        RecordType::BLKDEF => 0x7a,
        RecordType::BLKEND => 0x7c,
        RecordType::DEBSYM => 0x7e,
        RecordType::THEADR => 0x80,
        RecordType::COMENT => 0x88,
        RecordType::MODEND => 0x8a,
        RecordType::EXTDEF => 0x8c,
        RecordType::TYPDEF => 0x8e,
        RecordType::PUBDEF => 0x90,
        RecordType::LINNUM => 0x94,
        RecordType::LNAMES => 0x96,
        RecordType::SEGDEF => 0x98,
        RecordType::GRPDEF => 0x9a,
        RecordType::FIXUPP => 0x9c,
        RecordType::LEDATA => 0xa0,
    }
}

/// The unsigned sum of a byte sequence, as an unbounded integer.
pub open spec fn sum_bytes(s: Seq<u8>) -> int
    decreases s.len(),
{
    if s.len() == 0 {
        0
    } else {
        sum_bytes(s.drop_last()) + s.last()
    }
}

/// Appending one byte adds its value to the sum.
pub proof fn lemma_sum_push(s: Seq<u8>, b: u8)
    ensures
        sum_bytes(s.push(b)) == sum_bytes(s) + b,
{
    assert(s.push(b).drop_last() =~= s);
}

/// A byte sum is never negative and never exceeds 255 per byte.
pub proof fn lemma_sum_bounds(s: Seq<u8>)
    ensures
        0 <= sum_bytes(s) <= 255 * s.len(),
    decreases s.len(),
{
    if s.len() > 0 {
        lemma_sum_bounds(s.drop_last());
    }
}

/// What one framing step yields at a given position in the stream.
pub enum RecordStep {
    /// The source is exhausted at a record boundary.
    End,
    /// The record at this position is malformed.
    Fail(DecodeError),
    /// A well-formed record: its kind, its payload, and the position of the
    /// next record boundary.
    Rec(RecordType, Seq<u8>, int),
}

/// Parses the single record starting at `pos`: type byte, little-endian
/// length, `length - 1` payload bytes, and a checksum byte whose addition
/// makes the whole record sum to 0 modulo 256.
pub open spec fn parse_record_at(data: Seq<u8>, pos: int) -> RecordStep {
    if pos >= data.len() {
        RecordStep::End
    } else if pos + 3 > data.len() {
        RecordStep::Fail(DecodeError::Truncated)
    } else {
        match code_to_type(data[pos]) {
            None => RecordStep::Fail(DecodeError::UnknownRecordType(data[pos])),
            Some(t) => {
                let len = data[pos + 1] + 0x100 * data[pos + 2];
                if len < 1 {
                    RecordStep::Fail(DecodeError::Truncated)
                } else if pos + 3 + len > data.len() {
                    RecordStep::Fail(DecodeError::Truncated)
                } else if sum_bytes(data.subrange(pos, pos + 3 + len)) % 256 != 0 {
                    RecordStep::Fail(DecodeError::BadChecksum)
                } else {
                    RecordStep::Rec(t, data.subrange(pos + 3, pos + 2 + len), pos + 3 + len)
                }
            },
        }
    }
}

/// The checksum byte that makes a window with byte sum `s` sum to 0 modulo 256.
pub open spec fn check_byte(s: int) -> u8 {
    ((256 - s % 256) % 256) as u8
}

/// The wire encoding of a record: type byte, little-endian length counting
/// the payload plus the checksum byte, the payload, and the checksum byte.
pub open spec fn encode_bytes(t: RecordType, payload: Seq<u8>) -> Seq<u8> {
    let len = payload.len() + 1;
    let body = seq![type_code(t), (len % 256) as u8, (len / 256) as u8] + payload;
    body.push(check_byte(sum_bytes(body)))
}

/// Builds the wire form of a record, choosing the checksum byte so that the
/// checksum invariant holds.
pub fn encode_record(t: RecordType, payload: &[u8]) -> (r: Vec<u8>)
    requires
        payload@.len() + 1 < 0x10000,
    ensures
        r@ == encode_bytes(t, payload@),
{
    let plen = payload.len();
    let len_field = plen + 1;
    let mut out: Vec<u8> = Vec::new();
    out.push(record_type_code(t));
    out.push((len_field % 256) as u8);
    out.push((len_field / 256) as u8);
    let ghost body = seq![
        type_code(t),
        ((payload@.len() + 1) % 256) as u8,
        ((payload@.len() + 1) / 256) as u8,
    ] + payload@;
    let mut k: usize = 0;
    while k < plen
        invariant
            k <= plen == payload@.len() < 0x10000,
            out@.len() == 3 + k,
            out@ =~= body.subrange(0, 3 + k),
            body.len() == 3 + payload@.len(),
            body =~= seq![
                type_code(t),
                ((payload@.len() + 1) % 256) as u8,
                ((payload@.len() + 1) / 256) as u8,
            ] + payload@,
        decreases plen - k,
    {
        out.push(payload[k]);
        proof {
            assert(out@ =~= body.subrange(0, 3 + k + 1));
        }
        k = k + 1;
    }
    proof {
        assert(out@ =~= body);
    }
    let total = out.len();
    let mut sum: u32 = 0;
    let mut i: usize = 0;
    while i < total
        invariant
            i <= total == out@.len(),
            out@.len() <= 0x10001,
            sum == sum_bytes(out@.subrange(0, i as int)),
            sum <= 255 * i,
        decreases total - i,
    {
        proof {
            lemma_sum_push(out@.subrange(0, i as int), out@[i as int]);
            assert(out@.subrange(0, i + 1) =~= out@.subrange(0, i as int).push(out@[i as int]));
        }
        sum = sum + out[i] as u32;
        i = i + 1;
    }
    proof {
        assert(out@.subrange(0, out@.len() as int) =~= out@);
    }
    let cb = ((256 - (sum % 256)) % 256) as u8;
    out.push(cb);
    proof {
        assert(out@ =~= encode_bytes(t, payload@));
    }
    out
}

/// Framing round trip: the wire form of any record with a representable
/// length decodes back to exactly the original kind and payload, consuming
/// the whole encoding.
pub proof fn lemma_record_round_trip(t: RecordType, payload: Seq<u8>)
    requires
        payload.len() + 1 < 0x10000,
    ensures
        parse_record_at(encode_bytes(t, payload), 0) == RecordStep::Rec(
            t,
            payload,
            encode_bytes(t, payload).len() as int,
        ),
{
    let len = payload.len() + 1;
    let body = seq![type_code(t), (len % 256) as u8, (len / 256) as u8] + payload;
    let s = sum_bytes(body);
    let w = encode_bytes(t, payload);
    lemma_sum_bounds(body);
    vstd::arithmetic::div_mod::lemma_fundamental_div_mod(len as int, 256);
    vstd::arithmetic::div_mod::lemma_mod_bound(len as int, 256);
    vstd::arithmetic::div_mod::lemma_div_pos_is_pos(len as int, 256);
    assert(w.len() == len + 3);
    assert(code_to_type(w[0]) == Some(t));
    assert(w[1] + 0x100 * w[2] == len);
    lemma_sum_push(body, check_byte(s));
    assert(sum_bytes(w) == s + check_byte(s));
    vstd::arithmetic::div_mod::lemma_mod_bound(s, 256);
    let m = s % 256;
    if m == 0 {
        vstd::arithmetic::div_mod::lemma_mod_self_0(256);
        assert(check_byte(s) == 0);
        assert(sum_bytes(w) % 256 == 0);
    } else {
        vstd::arithmetic::div_mod::lemma_small_mod((256 - m) as nat, 256);
        assert(check_byte(s) == 256 - m);
        vstd::arithmetic::div_mod::lemma_fundamental_div_mod(s, 256);
        vstd::arithmetic::div_mod::lemma_fundamental_div_mod_converse(
            s + 256 - m,
            256,
            s / 256 + 1,
            0,
        );
        assert(sum_bytes(w) % 256 == 0);
    }
    assert(w.subrange(0, w.len() as int) =~= w);
    assert(w.subrange(3, 2 + len as int) =~= payload);
}

/// The record at `pos` has a known type byte and a complete window of
/// `3 + declared length` bytes; only the checksum can still reject it.
pub open spec fn well_framed_at(data: Seq<u8>, pos: int) -> bool {
    &&& 0 <= pos
    &&& pos + 3 <= data.len()
    &&& code_to_type(data[pos]) is Some
    &&& data[pos + 1] + 0x100 * data[pos + 2] >= 1
    &&& pos + 3 + (data[pos + 1] + 0x100 * data[pos + 2]) <= data.len()
}

/// The full byte window of the record at `pos`: header, payload and
/// checksum byte.
pub open spec fn record_window(data: Seq<u8>, pos: int) -> Seq<u8> {
    data.subrange(pos, pos + 3 + (data[pos + 1] + 0x100 * data[pos + 2]))
}

/// Checksum property, first half: at a well-framed position, decoding
/// succeeds exactly when the window sums to 0 modulo 256, and fails with
/// BadChecksum otherwise.
pub proof fn lemma_checksum_decides(data: Seq<u8>, pos: int)
    requires
        well_framed_at(data, pos),
    ensures
        parse_record_at(data, pos) is Rec <==> sum_bytes(record_window(data, pos)) % 256 == 0,
        sum_bytes(record_window(data, pos)) % 256 != 0 ==> parse_record_at(data, pos)
            == RecordStep::Fail(DecodeError::BadChecksum),
{
}

/// Overwriting one position changes the sum by the difference of the bytes.
pub proof fn lemma_sum_update(s: Seq<u8>, i: int, b: u8)
    requires
        0 <= i < s.len(),
    ensures
        sum_bytes(s.update(i, b)) == sum_bytes(s) - s[i] + b,
    decreases s.len(),
{
    if i == s.len() - 1 {
        assert(s.update(i, b).drop_last() =~= s.drop_last());
    } else {
        assert(s.update(i, b).drop_last() =~= s.drop_last().update(i, b));
        lemma_sum_update(s.drop_last(), i, b);
    }
}

/// Changing a single byte of a window that sums to 0 modulo 256 always
/// breaks that sum.
pub proof fn lemma_byte_flip_breaks_sum(w: Seq<u8>, i: int, b: u8)
    requires
        0 <= i < w.len(),
        b != w[i],
        sum_bytes(w) % 256 == 0,
    ensures
        sum_bytes(w.update(i, b)) % 256 != 0,
{
    lemma_sum_update(w, i, b);
    let s = sum_bytes(w);
    let d = b - w[i];
    vstd::arithmetic::div_mod::lemma_add_mod_noop(s, d, 256);
    vstd::arithmetic::div_mod::lemma_mod_twice(d, 256);
    if d > 0 {
        vstd::arithmetic::div_mod::lemma_small_mod(d as nat, 256);
    } else {
        vstd::arithmetic::div_mod::lemma_fundamental_div_mod_converse(d, 256, -1, d + 256);
    }
    assert((s + d) % 256 == d % 256);
}

/// Checksum property, second half: mutating a single byte of a record that
/// decodes — the type byte (to another known code), a payload byte, or the
/// checksum byte — makes decoding fail with BadChecksum. A changed length
/// byte is excluded: it re-frames the window rather than merely breaking
/// the sum.
pub proof fn lemma_mutation_yields_bad_checksum(data: Seq<u8>, pos: int, i: int, b: u8)
    requires
        well_framed_at(data, pos),
        parse_record_at(data, pos) is Rec,
        pos <= i < pos + 3 + (data[pos + 1] + 0x100 * data[pos + 2]),
        i != pos + 1 && i != pos + 2,
        i == pos ==> code_to_type(b) is Some,
        b != data[i],
    ensures
        parse_record_at(data.update(i, b), pos) == RecordStep::Fail(DecodeError::BadChecksum),
{
    let data2 = data.update(i, b);
    let len = data[pos + 1] + 0x100 * data[pos + 2];
    assert(data2[pos + 1] == data[pos + 1] && data2[pos + 2] == data[pos + 2]);
    assert(well_framed_at(data2, pos));
    assert(record_window(data2, pos) =~= record_window(data, pos).update(i - pos, b));
    lemma_checksum_decides(data, pos);
    lemma_byte_flip_breaks_sum(record_window(data, pos), i - pos, b);
    lemma_checksum_decides(data2, pos);
}

/// A forward-only reader over an in-memory object module stream. Each call
/// to [`ObjReader::next`] advances past exactly one record.
#[derive(Debug, PartialEq, Eq)]
pub struct ObjReader {
    pub data: Vec<u8>,
    pub pos: usize,
}

impl ObjReader {
    /// Frames the next record, or reports end of stream at a boundary.
    pub fn next(&mut self) -> (r: Result<Option<ObjectRecord>, DecodeError>)
        ensures
            final(self).data@ == old(self).data@,
            match parse_record_at(old(self).data@, old(self).pos as int) {
                RecordStep::End => {
                    &&& r matches Ok(o) && o is None
                    &&& final(self).pos == old(self).pos
                },
                RecordStep::Fail(e) => {
                    &&& r == Err::<Option<ObjectRecord>, DecodeError>(e)
                    &&& final(self).pos == old(self).pos
                },
                RecordStep::Rec(t, p, np) => {
                    &&& r matches Ok(o) && o matches Some(rec) && rec.rtype == t && rec.data@ == p
                    &&& final(self).pos == np
                },
            },
    {
        let n = self.data.len();
        if self.pos >= n {
            return Ok(None);
        }
        if n - self.pos < 3 {
            return Err(DecodeError::Truncated);
        }
        let rtype = match const_to_type(self.data[self.pos]) {
            Ok(t) => t,
            Err(e) => { return Err(e); },
        };
        let len: usize = self.data[self.pos + 1] as usize + 0x100 * self.data[self.pos + 2] as usize;
        if len < 1 {
            return Err(DecodeError::Truncated);
        }
        if n - (self.pos + 3) < len {
            return Err(DecodeError::Truncated);
        }
        let end = self.pos + 3 + len;
        let mut sum: u32 = 0;
        let mut i = self.pos;
        while i < end
            invariant
                self.pos <= i <= end <= self.data@.len(),
                end - self.pos <= 0x10002,
                sum == sum_bytes(self.data@.subrange(self.pos as int, i as int)),
                sum <= 255 * (i - self.pos),
            decreases end - i,
        {
            proof {
                lemma_sum_push(self.data@.subrange(self.pos as int, i as int), self.data@[i as int]);
                assert(self.data@.subrange(self.pos as int, i + 1).drop_last() =~= self.data@
                    .subrange(self.pos as int, i as int));
                assert(self.data@.subrange(self.pos as int, i + 1) =~= self.data@.subrange(
                    self.pos as int,
                    i as int,
                ).push(self.data@[i as int]));
            }
            sum = sum + self.data[i] as u32;
            i = i + 1;
        }
        if sum % 256 != 0 {
            return Err(DecodeError::BadChecksum);
        }
        let mut payload: Vec<u8> = Vec::new();
        let mut j = self.pos + 3;
        while j < end - 1
            invariant
                self.pos + 3 <= j <= end - 1,
                end <= self.data@.len(),
                payload@ =~= self.data@.subrange(self.pos + 3, j as int),
            decreases end - j,
        {
            payload.push(self.data[j]);
            proof {
                assert(payload@ =~= self.data@.subrange(self.pos + 3, j + 1));
            }
            j = j + 1;
        }
        self.pos = end;
        Ok(Some(ObjectRecord { rtype, data: payload }))
    }
}

/// Wraps a byte buffer as a record reader, rejecting a stream whose first
/// byte is not the THEADR tag before any record is framed.
pub fn make_obj_reader(data: Vec<u8>) -> (r: Result<ObjReader, DecodeError>)
    ensures
        (data@.len() > 0 && data@[0] == 0x80) <==> r is Ok,
        r matches Ok(reader) ==> reader.data@ == data@ && reader.pos == 0,
        r is Err ==> r == Err::<ObjReader, DecodeError>(DecodeError::BadFormat),
{
    if data.len() == 0 || data[0] != 0x80 {
        return Err(DecodeError::BadFormat);
    }
    Ok(ObjReader { data, pos: 0 })
}

} // verus!
