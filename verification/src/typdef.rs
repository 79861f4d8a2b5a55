//! The tagged-leaf micro-format of TYPDEF payloads, and the composite
//! type-definition grammar built on it.
//!
//! A TYPDEF payload is a sequence of self-tagged scalar "leaves". One quirk
//! is preserved exactly: before every 8th leaf, counting from the first, one
//! extra byte is skipped and discarded before the tag byte is read.

use vstd::prelude::*;
use vstd::slice::slice_subrange;
use vstd::utf8::decode_utf8;
use vstd::utf8::valid_utf8;

use crate::error::DecodeError;
use crate::text::bytes_to_string;

verus! {

/// One self-tagged scalar value of the micro-format.
#[derive(Debug, PartialEq, Eq)]
pub enum Leaf {
    Number(u16),
    Str(String),
    TypeIndex(u8),
    Null,
}

/// The mathematical value of a [`Leaf`]: its text as a character sequence.
pub enum LeafV {
    Number(u16),
    Str(Seq<char>),
    TypeIndex(u8),
    Null,
}

impl View for Leaf {
    type V = LeafV;

    open spec fn view(&self) -> LeafV {
        match self {
            Leaf::Number(n) => LeafV::Number(*n),
            Leaf::Str(s) => LeafV::Str(s@),
            Leaf::TypeIndex(i) => LeafV::TypeIndex(*i),
            Leaf::Null => LeafV::Null,
        }
    }
}

/// What one decoding step yields at a leaf boundary.
pub enum LeafStep {
    /// The payload is exhausted at a leaf boundary.
    End,
    /// The next leaf is malformed.
    Fail(DecodeError),
    /// The next leaf's value, and the byte position just past it.
    Step(LeafV, int),
}

/// Decodes the single leaf at byte position `index`, where `counter` leaves
/// have been decoded before it. Before every 8th leaf, counting from the
/// first, one extra byte is skipped before the tag byte is read.
pub open spec fn leaf_step(data: Seq<u8>, index: int, counter: nat) -> LeafStep {
    if index >= data.len() {
        LeafStep::End
    } else {
        let i = if counter % 8 == 0 {
            index + 1
        } else {
            index
        };
        if i >= data.len() {
            LeafStep::Fail(DecodeError::Truncated)
        } else {
            let tag = data[i];
            if tag <= 0x7f {
                LeafStep::Step(LeafV::Number(tag as u16), i + 1)
            } else if tag == 0x80 {
                LeafStep::Step(LeafV::Null, i + 1)
            } else if tag == 0x81 {
                if i + 3 <= data.len() {
                    LeafStep::Step(LeafV::Number((data[i + 1] + 0x100 * data[i + 2]) as u16), i + 3)
                } else {
                    LeafStep::Fail(DecodeError::Truncated)
                }
            } else if tag == 0x82 {
                if i + 2 <= data.len() {
                    let n = data[i + 1] as int;
                    if i + 2 + n <= data.len() {
                        let bytes = data.subrange(i + 2, i + 2 + n);
                        if valid_utf8(bytes) {
                            LeafStep::Step(LeafV::Str(decode_utf8(bytes)), i + 2 + n)
                        } else {
                            LeafStep::Fail(DecodeError::TextDecodeError)
                        }
                    } else {
                        LeafStep::Fail(DecodeError::Truncated)
                    }
                } else {
                    LeafStep::Fail(DecodeError::Truncated)
                }
            } else if tag == 0x83 {
                if i + 2 <= data.len() {
                    LeafStep::Step(LeafV::TypeIndex(data[i + 1]), i + 2)
                } else {
                    LeafStep::Fail(DecodeError::Truncated)
                }
            } else {
                LeafStep::Fail(DecodeError::BadLeafTag(tag))
            }
        }
    }
}

/// A position-tracked cursor over a TYPDEF payload, yielding leaves one at
/// a time. Restartable from the start by building a fresh reader.
pub struct LeafReader<'a> {
    pub vec: &'a [u8],
    pub index: usize,
    pub leaf_counter: usize,
}

impl<'a> LeafReader<'a> {
    /// Before every 8th leaf: skip the extra byte preceding the tag.
    fn check_index(&mut self)
        requires
            old(self).index < old(self).vec@.len() <= usize::MAX,
        ensures
            final(self).vec == old(self).vec,
            final(self).leaf_counter == old(self).leaf_counter,
            final(self).index == if old(self).leaf_counter % 8 == 0 {
                old(self).index + 1
            } else {
                old(self).index as int
            },
    {
        if self.leaf_counter % 8 == 0 {
            self.index = self.index + 1;
        }
    }

    fn read_null(&mut self) -> (r: Leaf)
        requires
            old(self).index < old(self).vec@.len() <= usize::MAX,
            old(self).leaf_counter < usize::MAX,
        ensures
            final(self).vec == old(self).vec,
            final(self).index == old(self).index + 1,
            final(self).leaf_counter == old(self).leaf_counter + 1,
            r@ == LeafV::Null,
    {
        self.index = self.index + 1;
        self.leaf_counter = self.leaf_counter + 1;
        Leaf::Null
    }

    fn read_index(&mut self) -> (r: Leaf)
        requires
            old(self).index + 2 <= old(self).vec@.len() <= usize::MAX,
            old(self).leaf_counter < usize::MAX,
        ensures
            final(self).vec == old(self).vec,
            final(self).index == old(self).index + 2,
            final(self).leaf_counter == old(self).leaf_counter + 1,
            r@ == LeafV::TypeIndex(old(self).vec@[old(self).index + 1]),
    {
        let result = self.vec[self.index + 1];
        self.index = self.index + 2;
        self.leaf_counter = self.leaf_counter + 1;
        Leaf::TypeIndex(result)
    }

    fn read_u8(&mut self) -> (r: Leaf)
        requires
            old(self).index < old(self).vec@.len() <= usize::MAX,
            old(self).leaf_counter < usize::MAX,
        ensures
            final(self).vec == old(self).vec,
            final(self).index == old(self).index + 1,
            final(self).leaf_counter == old(self).leaf_counter + 1,
            r@ == LeafV::Number(old(self).vec@[old(self).index as int] as u16),
    {
        let result = self.vec[self.index] as u16;
        self.index = self.index + 1;
        self.leaf_counter = self.leaf_counter + 1;
        Leaf::Number(result)
    }

    fn read_u16(&mut self) -> (r: Leaf)
        requires
            old(self).index + 3 <= old(self).vec@.len() <= usize::MAX,
            old(self).leaf_counter < usize::MAX,
        ensures
            final(self).vec == old(self).vec,
            final(self).index == old(self).index + 3,
            final(self).leaf_counter == old(self).leaf_counter + 1,
            r@ == LeafV::Number(
                (old(self).vec@[old(self).index + 1] + 0x100 * old(self).vec@[old(self).index + 2])
                    as u16,
            ),
    {
        let result = (self.vec[self.index + 1] as u16) + 256 * (self.vec[self.index + 2] as u16);
        self.index = self.index + 3;
        self.leaf_counter = self.leaf_counter + 1;
        Leaf::Number(result)
    }

    fn read_string(&mut self) -> (r: Result<Leaf, DecodeError>)
        requires
            old(self).index + 2 <= old(self).vec@.len() <= usize::MAX,
            old(self).index + 2 + old(self).vec@[old(self).index + 1] <= old(self).vec@.len(),
            old(self).leaf_counter < usize::MAX,
        ensures
            final(self).vec == old(self).vec,
            ({
                let bytes = old(self).vec@.subrange(
                    old(self).index + 2,
                    old(self).index + 2 + old(self).vec@[old(self).index + 1],
                );
                if valid_utf8(bytes) {
                    &&& r matches Ok(l) && l@ == LeafV::Str(decode_utf8(bytes))
                    &&& final(self).index == old(self).index + 2 + old(self).vec@[old(self).index
                        + 1]
                    &&& final(self).leaf_counter == old(self).leaf_counter + 1
                } else {
                    &&& r == Err::<Leaf, DecodeError>(DecodeError::TextDecodeError)
                    &&& final(self).index == old(self).index
                    &&& final(self).leaf_counter == old(self).leaf_counter
                }
            }),
    {
        let length = self.vec[self.index + 1] as usize;
        let bytes = slice_subrange(self.vec, self.index + 2, self.index + 2 + length);
        match bytes_to_string(bytes) {
            Some(s) => {
                self.index = self.index + 2 + length;
                self.leaf_counter = self.leaf_counter + 1;
                Ok(Leaf::Str(s))
            },
            None => Err(DecodeError::TextDecodeError),
        }
    }

    /// Decodes the next leaf, or reports exhaustion at a leaf boundary. A
    /// malformed leaf leaves the counter where it was; at most the one
    /// skipped byte is consumed.
    pub fn next(&mut self) -> (r: Result<Option<Leaf>, DecodeError>)
        requires
            old(self).leaf_counter <= old(self).index,
        ensures
            final(self).vec == old(self).vec,
            final(self).leaf_counter <= final(self).index,
            match leaf_step(old(self).vec@, old(self).index as int, old(self).leaf_counter as nat) {
                LeafStep::End => {
                    &&& r matches Ok(o) && o is None
                    &&& final(self).index == old(self).index
                    &&& final(self).leaf_counter == old(self).leaf_counter
                },
                LeafStep::Fail(e) => {
                    &&& r == Err::<Option<Leaf>, DecodeError>(e)
                    &&& final(self).leaf_counter == old(self).leaf_counter
                    &&& old(self).index <= final(self).index <= old(self).index + 1
                },
                LeafStep::Step(l, ni) => {
                    &&& r matches Ok(o) && o matches Some(leaf) && leaf@ == l
                    &&& final(self).index == ni
                    &&& final(self).leaf_counter == old(self).leaf_counter + 1
                },
            },
    {
        if self.index >= self.vec.len() {
            return Ok(None);
        }
        self.check_index();
        if self.index >= self.vec.len() {
            return Err(DecodeError::Truncated);
        }
        let tag = self.vec[self.index];
        if tag <= 0x7f {
            Ok(Some(self.read_u8()))
        } else if tag == 0x80 {
            Ok(Some(self.read_null()))
        } else if tag == 0x81 {
            if self.vec.len() - self.index < 3 {
                return Err(DecodeError::Truncated);
            }
            Ok(Some(self.read_u16()))
        } else if tag == 0x82 {
            if self.vec.len() - self.index < 2 {
                return Err(DecodeError::Truncated);
            }
            let length = self.vec[self.index + 1] as usize;
            if self.vec.len() - (self.index + 2) < length {
                return Err(DecodeError::Truncated);
            }
            match self.read_string() {
                Ok(l) => Ok(Some(l)),
                Err(e) => Err(e),
            }
        } else if tag == 0x83 {
            if self.vec.len() - self.index < 2 {
                return Err(DecodeError::Truncated);
            }
            Ok(Some(self.read_index()))
        } else {
            Err(DecodeError::BadLeafTag(tag))
        }
    }
}

/// The whole leaf sequence from byte position `index` onward, with
/// `counter` leaves already decoded, or the first decode error met.
pub open spec fn leaves_from(data: Seq<u8>, index: int, counter: nat) -> Result<
    Seq<LeafV>,
    DecodeError,
>
    decreases data.len() - index,
{
    match leaf_step(data, index, counter) {
        LeafStep::End => Ok(Seq::empty()),
        LeafStep::Fail(e) => Err(e),
        LeafStep::Step(l, ni) => match leaves_from(data, ni, counter + 1) {
            Ok(rest) => Ok(seq![l] + rest),
            Err(e) => Err(e),
        },
    }
}

/// How many extra skip bytes are consumed when decoding leaves from
/// `index` onward: one before each leaf whose running 0-based count is a
/// multiple of 8.
pub open spec fn skip_count(data: Seq<u8>, index: int, counter: nat) -> int
    decreases data.len() - index,
{
    match leaf_step(data, index, counter) {
        LeafStep::End => 0,
        LeafStep::Fail(_) => 0,
        LeafStep::Step(_, ni) => (if counter % 8 == 0 {
            1int
        } else {
            0int
        }) + skip_count(data, ni, counter + 1),
    }
}

/// How many multiples of 8 lie in `[counter, counter + n)`.
pub open spec fn skips_in(counter: nat, n: nat) -> int
    decreases n,
{
    if n == 0 {
        0
    } else {
        (if counter % 8 == 0 {
            1int
        } else {
            0int
        }) + skips_in(counter + 1, (n - 1) as nat)
    }
}

/// Closed form: the multiples of 8 in `[c, c + n)` number
/// `(c + n + 7) / 8 - (c + 7) / 8`.
proof fn lemma_skips_in_closed(c: nat, n: nat)
    ensures
        skips_in(c, n) == (c + n + 7) / 8 - (c + 7) / 8,
    decreases n,
{
    if n > 0 {
        lemma_skips_in_closed(c + 1, (n - 1) as nat);
        let k = c as int / 8;
        let r = c as int % 8;
        vstd::arithmetic::div_mod::lemma_fundamental_div_mod(c as int, 8);
        vstd::arithmetic::div_mod::lemma_mod_bound(c as int, 8);
        vstd::arithmetic::div_mod::lemma_fundamental_div_mod_converse(c as int + 8, 8, k + 1, r);
        if r == 0 {
            vstd::arithmetic::div_mod::lemma_fundamental_div_mod_converse(c as int + 7, 8, k, 7);
        } else {
            vstd::arithmetic::div_mod::lemma_fundamental_div_mod_converse(c as int + 7, 8, k + 1, r - 1);
        }
    }
}

/// The skip bytes consumed while decoding leaves are one per leaf whose
/// running count is a multiple of 8.
proof fn lemma_skip_count_is_skips_in(data: Seq<u8>, index: int, counter: nat)
    requires
        leaves_from(data, index, counter) is Ok,
    ensures
        skip_count(data, index, counter) == skips_in(
            counter,
            leaves_from(data, index, counter)->Ok_0.len(),
        ),
    decreases data.len() - index,
{
    match leaf_step(data, index, counter) {
        LeafStep::End => {
        },
        LeafStep::Fail(_) => {
        },
        LeafStep::Step(l, ni) => {
            lemma_skip_count_is_skips_in(data, ni, counter + 1);
        },
    }
}

/// Leaf stride property: decoding a whole payload of `n` leaves consumes
/// exactly `(n + 7) / 8` extra skip bytes — the ceiling of `n / 8` — one
/// immediately before each leaf with 0-based running count 0, 8, 16, and
/// so on.
pub proof fn lemma_leaf_stride(data: Seq<u8>)
    requires
        leaves_from(data, 0, 0) is Ok,
    ensures
        skip_count(data, 0, 0) == (leaves_from(data, 0, 0)->Ok_0.len() + 7) / 8,
{
    let n = leaves_from(data, 0, 0)->Ok_0.len();
    lemma_skip_count_is_skips_in(data, 0, 0);
    lemma_skips_in_closed(0, n);
}

/// Wraps a payload slice as a leaf reader positioned at the first leaf.
pub fn make_leaf_reader<'a>(vec: &'a [u8]) -> (r: LeafReader<'a>)
    ensures
        r.vec == vec,
        r.index == 0,
        r.leaf_counter == 0,
{
    LeafReader { vec, index: 0, leaf_counter: 0 }
}

/// The "long"/"short" marker of label and procedure definitions; any other
/// leaf is reported as unknown rather than erroring.
#[derive(Debug, PartialEq, Eq, Clone, Copy, Structural)]
pub enum ReturnKind {
    Long,
    Short,
    Unknown,
}

/// The unit of a scalar definition: unsigned, signed or real.
#[derive(Debug, PartialEq, Eq, Clone, Copy, Structural)]
pub enum ScalarUnit {
    Unsigned,
    Signed,
    Real,
}

/// One composite type definition, decoded from a TYPDEF payload.
#[derive(Debug, PartialEq, Eq)]
#[allow(inconsistent_fields)]
pub enum TypeDefinition {
    Label { kind: ReturnKind },
    Procedure { type_index: Option<u8>, ret: ReturnKind, param_count: u16, param_list: Option<u8> },
    Parameter { type_index: u8 },
    Array { bits: u16, element_type: u8 },
    Struct { bits: u16, member_count: u16, types_index: u8, names_index: u8 },
    Scalar { bits: u16, unit: ScalarUnit },
    List { items: Vec<Leaf> },
    Unknown { leading: Leaf },
}

/// The mathematical value of a [`TypeDefinition`].
#[allow(inconsistent_fields)]
pub enum TypeDefinitionV {
    Label { kind: ReturnKind },
    Procedure { type_index: Option<u8>, ret: ReturnKind, param_count: u16, param_list: Option<u8> },
    Parameter { type_index: u8 },
    Array { bits: u16, element_type: u8 },
    Struct { bits: u16, member_count: u16, types_index: u8, names_index: u8 },
    Scalar { bits: u16, unit: ScalarUnit },
    List { items: Seq<LeafV> },
    Unknown { leading: LeafV },
}

impl View for TypeDefinition {
    type V = TypeDefinitionV;

    open spec fn view(&self) -> TypeDefinitionV {
        match self {
            TypeDefinition::Label { kind } => TypeDefinitionV::Label { kind: *kind },
            TypeDefinition::Procedure { type_index, ret, param_count, param_list }
                => TypeDefinitionV::Procedure {
                type_index: *type_index,
                ret: *ret,
                param_count: *param_count,
                param_list: *param_list,
            },
            TypeDefinition::Parameter { type_index } => TypeDefinitionV::Parameter {
                type_index: *type_index,
            },
            TypeDefinition::Array { bits, element_type } => TypeDefinitionV::Array {
                bits: *bits,
                element_type: *element_type,
            },
            TypeDefinition::Struct { bits, member_count, types_index, names_index }
                => TypeDefinitionV::Struct {
                bits: *bits,
                member_count: *member_count,
                types_index: *types_index,
                names_index: *names_index,
            },
            TypeDefinition::Scalar { bits, unit } => TypeDefinitionV::Scalar {
                bits: *bits,
                unit: *unit,
            },
            TypeDefinition::List { items } => TypeDefinitionV::List {
                items: items@.map_values(|l: Leaf| l@),
            },
            TypeDefinition::Unknown { leading } => TypeDefinitionV::Unknown { leading: leading@ },
        }
    }
}

/// The next leaf of the sequence; exhaustion before a required leaf is
/// Truncated.
pub open spec fn next_leaf(data: Seq<u8>, index: int, counter: nat) -> Result<
    (LeafV, int, nat),
    DecodeError,
> {
    match leaf_step(data, index, counter) {
        LeafStep::End => Err(DecodeError::Truncated),
        LeafStep::Fail(e) => Err(e),
        LeafStep::Step(l, ni) => Ok((l, ni, counter + 1)),
    }
}

/// The return kind a leaf selects: 0x72 is long, 0x73 is short, anything
/// else is reported as unknown.
pub open spec fn return_kind_of(l: LeafV) -> ReturnKind {
    if l == LeafV::Number(0x72) {
        ReturnKind::Long
    } else if l == LeafV::Number(0x73) {
        ReturnKind::Short
    } else {
        ReturnKind::Unknown
    }
}

/// A label definition: a leading null leaf, then the return kind.
pub open spec fn spec_label(data: Seq<u8>, index: int, counter: nat) -> Result<
    TypeDefinitionV,
    DecodeError,
> {
    match next_leaf(data, index, counter) {
        Err(e) => Err(e),
        Ok((l0, i1, c1)) => {
            if !(l0 is Null) {
                Err(DecodeError::FieldOutOfRange)
            } else {
                match next_leaf(data, i1, c1) {
                    Err(e) => Err(e),
                    Ok((l1, _, _)) => Ok(TypeDefinitionV::Label { kind: return_kind_of(l1) }),
                }
            }
        },
    }
}

/// A procedure definition: a leading null leaf; a return-type index leaf
/// (a type index, or null for none); the return kind; the parameter
/// count; and, when the count is positive, the parameter-list index.
pub open spec fn spec_procedure(data: Seq<u8>, index: int, counter: nat) -> Result<
    TypeDefinitionV,
    DecodeError,
> {
    match next_leaf(data, index, counter) {
        Err(e) => Err(e),
        Ok((l0, i1, c1)) => {
            if !(l0 is Null) {
                Err(DecodeError::FieldOutOfRange)
            } else {
                match next_leaf(data, i1, c1) {
                    Err(e) => Err(e),
                    Ok((l1, i2, c2)) => {
                        if !(l1 is TypeIndex || l1 is Null) {
                            Err(DecodeError::FieldOutOfRange)
                        } else {
                            let type_index = match l1 {
                                LeafV::TypeIndex(ti) => Some(ti),
                                _ => None,
                            };
                            match next_leaf(data, i2, c2) {
                                Err(e) => Err(e),
                                Ok((l2, i3, c3)) => match next_leaf(data, i3, c3) {
                                    Err(e) => Err(e),
                                    Ok((l3, i4, c4)) => match l3 {
                                        LeafV::Number(num) => {
                                            if num > 0 {
                                                match next_leaf(data, i4, c4) {
                                                    Err(e) => Err(e),
                                                    Ok((l4, _, _)) => match l4 {
                                                        LeafV::TypeIndex(li) => Ok(
                                                            TypeDefinitionV::Procedure {
                                                                type_index,
                                                                ret: return_kind_of(l2),
                                                                param_count: num,
                                                                param_list: Some(li),
                                                            },
                                                        ),
                                                        _ => Err(DecodeError::FieldOutOfRange),
                                                    },
                                                }
                                            } else {
                                                Ok(
                                                    TypeDefinitionV::Procedure {
                                                        type_index,
                                                        ret: return_kind_of(l2),
                                                        param_count: num,
                                                        param_list: None,
                                                    },
                                                )
                                            }
                                        },
                                        _ => Err(DecodeError::FieldOutOfRange),
                                    },
                                },
                            }
                        }
                    },
                }
            }
        },
    }
}

/// A parameter definition: a single type-index leaf.
pub open spec fn spec_parameter(data: Seq<u8>, index: int, counter: nat) -> Result<
    TypeDefinitionV,
    DecodeError,
> {
    match next_leaf(data, index, counter) {
        Err(e) => Err(e),
        Ok((l0, _, _)) => match l0 {
            LeafV::TypeIndex(ti) => Ok(TypeDefinitionV::Parameter { type_index: ti }),
            _ => Err(DecodeError::FieldOutOfRange),
        },
    }
}

/// An array definition: a bit length, then the element type index.
pub open spec fn spec_array(data: Seq<u8>, index: int, counter: nat) -> Result<
    TypeDefinitionV,
    DecodeError,
> {
    match next_leaf(data, index, counter) {
        Err(e) => Err(e),
        Ok((l0, i1, c1)) => match l0 {
            LeafV::Number(bits) => match next_leaf(data, i1, c1) {
                Err(e) => Err(e),
                Ok((l1, _, _)) => match l1 {
                    LeafV::TypeIndex(ti) => Ok(
                        TypeDefinitionV::Array { bits, element_type: ti },
                    ),
                    _ => Err(DecodeError::FieldOutOfRange),
                },
            },
            _ => Err(DecodeError::FieldOutOfRange),
        },
    }
}

/// A structure definition: a bit length, a member count, the member-type
/// list index and the member-name list index.
pub open spec fn spec_struct(data: Seq<u8>, index: int, counter: nat) -> Result<
    TypeDefinitionV,
    DecodeError,
> {
    match next_leaf(data, index, counter) {
        Err(e) => Err(e),
        Ok((l0, i1, c1)) => match l0 {
            LeafV::Number(bits) => match next_leaf(data, i1, c1) {
                Err(e) => Err(e),
                Ok((l1, i2, c2)) => match l1 {
                    LeafV::Number(num) => match next_leaf(data, i2, c2) {
                        Err(e) => Err(e),
                        Ok((l2, i3, c3)) => match l2 {
                            LeafV::TypeIndex(ti) => match next_leaf(data, i3, c3) {
                                Err(e) => Err(e),
                                Ok((l3, _, _)) => match l3 {
                                    LeafV::TypeIndex(ni) => Ok(
                                        TypeDefinitionV::Struct {
                                            bits,
                                            member_count: num,
                                            types_index: ti,
                                            names_index: ni,
                                        },
                                    ),
                                    _ => Err(DecodeError::FieldOutOfRange),
                                },
                            },
                            _ => Err(DecodeError::FieldOutOfRange),
                        },
                    },
                    _ => Err(DecodeError::FieldOutOfRange),
                },
            },
            _ => Err(DecodeError::FieldOutOfRange),
        },
    }
}

/// A scalar definition: a bit length, then a number selecting the unit —
/// 0x7c unsigned, 0x7d signed, 0x7e real; anything else is an error.
pub open spec fn spec_scalar(data: Seq<u8>, index: int, counter: nat) -> Result<
    TypeDefinitionV,
    DecodeError,
> {
    match next_leaf(data, index, counter) {
        Err(e) => Err(e),
        Ok((l0, i1, c1)) => match l0 {
            LeafV::Number(bits) => match next_leaf(data, i1, c1) {
                Err(e) => Err(e),
                Ok((l1, _, _)) => {
                    if l1 == LeafV::Number(0x7c) {
                        Ok(TypeDefinitionV::Scalar { bits, unit: ScalarUnit::Unsigned })
                    } else if l1 == LeafV::Number(0x7d) {
                        Ok(TypeDefinitionV::Scalar { bits, unit: ScalarUnit::Signed })
                    } else if l1 == LeafV::Number(0x7e) {
                        Ok(TypeDefinitionV::Scalar { bits, unit: ScalarUnit::Real })
                    } else {
                        Err(DecodeError::FieldOutOfRange)
                    }
                },
            },
            _ => Err(DecodeError::FieldOutOfRange),
        },
    }
}

/// A list definition: all remaining leaves, in order.
pub open spec fn spec_list(data: Seq<u8>, index: int, counter: nat) -> Result<
    TypeDefinitionV,
    DecodeError,
> {
    match leaves_from(data, index, counter) {
        Ok(items) => Ok(TypeDefinitionV::List { items }),
        Err(e) => Err(e),
    }
}

/// Dispatches a composite shape by the leading number leaf's value; any
/// unlisted value is an unknown definition, not an error.
pub open spec fn spec_typdef_by_number(data: Seq<u8>, index: int, counter: nat, n: u16) -> Result<
    TypeDefinitionV,
    DecodeError,
> {
    if n == 0x71 {
        spec_label(data, index, counter)
    } else if n == 0x74 {
        spec_procedure(data, index, counter)
    } else if n == 0x75 {
        spec_parameter(data, index, counter)
    } else if n == 0x77 {
        spec_array(data, index, counter)
    } else if n == 0x79 {
        spec_struct(data, index, counter)
    } else if n == 0x7b {
        spec_scalar(data, index, counter)
    } else if n == 0x7f {
        spec_list(data, index, counter)
    } else {
        Ok(TypeDefinitionV::Unknown { leading: LeafV::Number(n) })
    }
}

/// A whole TYPDEF payload as a composite type definition: the first leaf,
/// when it is a number, selects the shape; any other leading leaf is kept
/// as an unknown definition for diagnostics.
pub open spec fn spec_typdef(data: Seq<u8>) -> Result<TypeDefinitionV, DecodeError> {
    match next_leaf(data, 0, 0) {
        Err(e) => Err(e),
        Ok((l0, i1, c1)) => match l0 {
            LeafV::Number(n) => spec_typdef_by_number(data, i1, c1, n),
            other => Ok(TypeDefinitionV::Unknown { leading: other }),
        },
    }
}

/// The return kind a leaf selects.
pub fn return_kind(l: &Leaf) -> (r: ReturnKind)
    ensures
        r == return_kind_of(l@),
{
    match l {
        Leaf::Number(n) => {
            if *n == 0x72 {
                ReturnKind::Long
            } else if *n == 0x73 {
                ReturnKind::Short
            } else {
                ReturnKind::Unknown
            }
        },
        _ => ReturnKind::Unknown,
    }
}

/// Decodes a label definition from the leaves after the shape selector.
pub fn typdef_label(leaf_reader: LeafReader<'_>) -> (r: Result<TypeDefinition, DecodeError>)
    requires
        leaf_reader.leaf_counter <= leaf_reader.index,
    ensures
        match r {
            Ok(td) => spec_label(
                leaf_reader.vec@,
                leaf_reader.index as int,
                leaf_reader.leaf_counter as nat,
            ) == Ok::<TypeDefinitionV, DecodeError>(td@),
            Err(e) => spec_label(
                leaf_reader.vec@,
                leaf_reader.index as int,
                leaf_reader.leaf_counter as nat,
            ) == Err::<TypeDefinitionV, DecodeError>(e),
        },
{
    let mut lr = leaf_reader;
    let leaf = match lr.next() {
        Ok(Some(l)) => l,
        Ok(None) => { return Err(DecodeError::Truncated); },
        Err(e) => { return Err(e); },
    };
    match leaf {
        Leaf::Null => {},
        _ => { return Err(DecodeError::FieldOutOfRange); },
    }
    let ret = match lr.next() {
        Ok(Some(l)) => l,
        Ok(None) => { return Err(DecodeError::Truncated); },
        Err(e) => { return Err(e); },
    };
    Ok(TypeDefinition::Label { kind: return_kind(&ret) })
}

/// Decodes a procedure definition from the leaves after the shape selector.
pub fn typdef_procedure(leaf_reader: LeafReader<'_>) -> (r: Result<TypeDefinition, DecodeError>)
    requires
        leaf_reader.leaf_counter <= leaf_reader.index,
    ensures
        match r {
            Ok(td) => spec_procedure(
                leaf_reader.vec@,
                leaf_reader.index as int,
                leaf_reader.leaf_counter as nat,
            ) == Ok::<TypeDefinitionV, DecodeError>(td@),
            Err(e) => spec_procedure(
                leaf_reader.vec@,
                leaf_reader.index as int,
                leaf_reader.leaf_counter as nat,
            ) == Err::<TypeDefinitionV, DecodeError>(e),
        },
{
    let mut lr = leaf_reader;
    let null_leaf = match lr.next() {
        Ok(Some(l)) => l,
        Ok(None) => { return Err(DecodeError::Truncated); },
        Err(e) => { return Err(e); },
    };
    match null_leaf {
        Leaf::Null => {},
        _ => { return Err(DecodeError::FieldOutOfRange); },
    }
    let typ_leaf = match lr.next() {
        Ok(Some(l)) => l,
        Ok(None) => { return Err(DecodeError::Truncated); },
        Err(e) => { return Err(e); },
    };
    let type_index = match typ_leaf {
        Leaf::TypeIndex(ti) => Some(ti),
        Leaf::Null => None,
        _ => { return Err(DecodeError::FieldOutOfRange); },
    };
    let ret_leaf = match lr.next() {
        Ok(Some(l)) => l,
        Ok(None) => { return Err(DecodeError::Truncated); },
        Err(e) => { return Err(e); },
    };
    let ret = return_kind(&ret_leaf);
    let num_leaf = match lr.next() {
        Ok(Some(l)) => l,
        Ok(None) => { return Err(DecodeError::Truncated); },
        Err(e) => { return Err(e); },
    };
    let num = match num_leaf {
        Leaf::Number(n) => n,
        _ => { return Err(DecodeError::FieldOutOfRange); },
    };
    if num > 0 {
        let lst_leaf = match lr.next() {
            Ok(Some(l)) => l,
            Ok(None) => { return Err(DecodeError::Truncated); },
            Err(e) => { return Err(e); },
        };
        let lst_index = match lst_leaf {
            Leaf::TypeIndex(li) => li,
            _ => { return Err(DecodeError::FieldOutOfRange); },
        };
        Ok(
            TypeDefinition::Procedure {
                type_index,
                ret,
                param_count: num,
                param_list: Some(lst_index),
            },
        )
    } else {
        Ok(TypeDefinition::Procedure { type_index, ret, param_count: num, param_list: None })
    }
}

/// Decodes a parameter definition from the leaves after the shape selector.
pub fn typdef_parameter(leaf_reader: LeafReader<'_>) -> (r: Result<TypeDefinition, DecodeError>)
    requires
        leaf_reader.leaf_counter <= leaf_reader.index,
    ensures
        match r {
            Ok(td) => spec_parameter(
                leaf_reader.vec@,
                leaf_reader.index as int,
                leaf_reader.leaf_counter as nat,
            ) == Ok::<TypeDefinitionV, DecodeError>(td@),
            Err(e) => spec_parameter(
                leaf_reader.vec@,
                leaf_reader.index as int,
                leaf_reader.leaf_counter as nat,
            ) == Err::<TypeDefinitionV, DecodeError>(e),
        },
{
    let mut lr = leaf_reader;
    let index_leaf = match lr.next() {
        Ok(Some(l)) => l,
        Ok(None) => { return Err(DecodeError::Truncated); },
        Err(e) => { return Err(e); },
    };
    match index_leaf {
        Leaf::TypeIndex(ti) => Ok(TypeDefinition::Parameter { type_index: ti }),
        _ => Err(DecodeError::FieldOutOfRange),
    }
}

/// Decodes an array definition from the leaves after the shape selector.
pub fn typdef_array(leaf_reader: LeafReader<'_>) -> (r: Result<TypeDefinition, DecodeError>)
    requires
        leaf_reader.leaf_counter <= leaf_reader.index,
    ensures
        match r {
            Ok(td) => spec_array(
                leaf_reader.vec@,
                leaf_reader.index as int,
                leaf_reader.leaf_counter as nat,
            ) == Ok::<TypeDefinitionV, DecodeError>(td@),
            Err(e) => spec_array(
                leaf_reader.vec@,
                leaf_reader.index as int,
                leaf_reader.leaf_counter as nat,
            ) == Err::<TypeDefinitionV, DecodeError>(e),
        },
{
    let mut lr = leaf_reader;
    let length_leaf = match lr.next() {
        Ok(Some(l)) => l,
        Ok(None) => { return Err(DecodeError::Truncated); },
        Err(e) => { return Err(e); },
    };
    let bits = match length_leaf {
        Leaf::Number(n) => n,
        _ => { return Err(DecodeError::FieldOutOfRange); },
    };
    let index_leaf = match lr.next() {
        Ok(Some(l)) => l,
        Ok(None) => { return Err(DecodeError::Truncated); },
        Err(e) => { return Err(e); },
    };
    match index_leaf {
        Leaf::TypeIndex(ti) => Ok(TypeDefinition::Array { bits, element_type: ti }),
        _ => Err(DecodeError::FieldOutOfRange),
    }
}

/// Decodes a structure definition from the leaves after the shape selector.
pub fn typdef_struct(leaf_reader: LeafReader<'_>) -> (r: Result<TypeDefinition, DecodeError>)
    requires
        leaf_reader.leaf_counter <= leaf_reader.index,
    ensures
        match r {
            Ok(td) => spec_struct(
                leaf_reader.vec@,
                leaf_reader.index as int,
                leaf_reader.leaf_counter as nat,
            ) == Ok::<TypeDefinitionV, DecodeError>(td@),
            Err(e) => spec_struct(
                leaf_reader.vec@,
                leaf_reader.index as int,
                leaf_reader.leaf_counter as nat,
            ) == Err::<TypeDefinitionV, DecodeError>(e),
        },
{
    let mut lr = leaf_reader;
    let length_leaf = match lr.next() {
        Ok(Some(l)) => l,
        Ok(None) => { return Err(DecodeError::Truncated); },
        Err(e) => { return Err(e); },
    };
    let bits = match length_leaf {
        Leaf::Number(n) => n,
        _ => { return Err(DecodeError::FieldOutOfRange); },
    };
    let num_leaf = match lr.next() {
        Ok(Some(l)) => l,
        Ok(None) => { return Err(DecodeError::Truncated); },
        Err(e) => { return Err(e); },
    };
    let num = match num_leaf {
        Leaf::Number(n) => n,
        _ => { return Err(DecodeError::FieldOutOfRange); },
    };
    let type_leaf = match lr.next() {
        Ok(Some(l)) => l,
        Ok(None) => { return Err(DecodeError::Truncated); },
        Err(e) => { return Err(e); },
    };
    let types_index = match type_leaf {
        Leaf::TypeIndex(ti) => ti,
        _ => { return Err(DecodeError::FieldOutOfRange); },
    };
    let name_leaf = match lr.next() {
        Ok(Some(l)) => l,
        Ok(None) => { return Err(DecodeError::Truncated); },
        Err(e) => { return Err(e); },
    };
    let names_index = match name_leaf {
        Leaf::TypeIndex(ni) => ni,
        _ => { return Err(DecodeError::FieldOutOfRange); },
    };
    Ok(TypeDefinition::Struct { bits, member_count: num, types_index, names_index })
}

/// Decodes a scalar definition from the leaves after the shape selector.
pub fn typdef_scalar(leaf_reader: LeafReader<'_>) -> (r: Result<TypeDefinition, DecodeError>)
    requires
        leaf_reader.leaf_counter <= leaf_reader.index,
    ensures
        match r {
            Ok(td) => spec_scalar(
                leaf_reader.vec@,
                leaf_reader.index as int,
                leaf_reader.leaf_counter as nat,
            ) == Ok::<TypeDefinitionV, DecodeError>(td@),
            Err(e) => spec_scalar(
                leaf_reader.vec@,
                leaf_reader.index as int,
                leaf_reader.leaf_counter as nat,
            ) == Err::<TypeDefinitionV, DecodeError>(e),
        },
{
    let mut lr = leaf_reader;
    let length_leaf = match lr.next() {
        Ok(Some(l)) => l,
        Ok(None) => { return Err(DecodeError::Truncated); },
        Err(e) => { return Err(e); },
    };
    let bits = match length_leaf {
        Leaf::Number(n) => n,
        _ => { return Err(DecodeError::FieldOutOfRange); },
    };
    let type_leaf = match lr.next() {
        Ok(Some(l)) => l,
        Ok(None) => { return Err(DecodeError::Truncated); },
        Err(e) => { return Err(e); },
    };
    let unit = match type_leaf {
        Leaf::Number(n) => {
            if n == 0x7c {
                ScalarUnit::Unsigned
            } else if n == 0x7d {
                ScalarUnit::Signed
            } else if n == 0x7e {
                ScalarUnit::Real
            } else {
                return Err(DecodeError::FieldOutOfRange);
            }
        },
        _ => { return Err(DecodeError::FieldOutOfRange); },
    };
    Ok(TypeDefinition::Scalar { bits, unit })
}

/// Decodes a list definition: every remaining leaf, in order.
pub fn typdef_list(leaf_reader: LeafReader<'_>) -> (r: Result<TypeDefinition, DecodeError>)
    requires
        leaf_reader.leaf_counter <= leaf_reader.index,
    ensures
        match r {
            Ok(td) => spec_list(
                leaf_reader.vec@,
                leaf_reader.index as int,
                leaf_reader.leaf_counter as nat,
            ) == Ok::<TypeDefinitionV, DecodeError>(td@),
            Err(e) => spec_list(
                leaf_reader.vec@,
                leaf_reader.index as int,
                leaf_reader.leaf_counter as nat,
            ) == Err::<TypeDefinitionV, DecodeError>(e),
        },
{
    let mut lr = leaf_reader;
    let mut items: Vec<Leaf> = Vec::new();
    loop
        invariant
            lr.vec == leaf_reader.vec,
            lr.leaf_counter <= lr.index,
            match leaves_from(lr.vec@, lr.index as int, lr.leaf_counter as nat) {
                Ok(rest) => leaves_from(
                    leaf_reader.vec@,
                    leaf_reader.index as int,
                    leaf_reader.leaf_counter as nat,
                ) == Ok::<Seq<LeafV>, DecodeError>(items@.map_values(|l: Leaf| l@) + rest),
                Err(e) => leaves_from(
                    leaf_reader.vec@,
                    leaf_reader.index as int,
                    leaf_reader.leaf_counter as nat,
                ) == Err::<Seq<LeafV>, DecodeError>(e),
            },
        decreases lr.vec@.len() - lr.index,
    {
        let ghost prev = items@.map_values(|l: Leaf| l@);
        let ghost prev_lr = lr;
        match lr.next() {
            Ok(Some(l)) => {
                let ghost lv = l@;
                items.push(l);
                proof {
                    assert(items@.map_values(|x: Leaf| x@) =~= prev.push(lv));
                    match leaves_from(lr.vec@, lr.index as int, lr.leaf_counter as nat) {
                        Ok(rest2) => {
                            assert(leaves_from(
                                prev_lr.vec@,
                                prev_lr.index as int,
                                prev_lr.leaf_counter as nat,
                            ) == Ok::<Seq<LeafV>, DecodeError>(seq![lv] + rest2));
                            assert(prev.push(lv) + rest2 =~= prev + (seq![lv] + rest2));
                        },
                        Err(_) => {},
                    }
                }
            },
            Ok(None) => {
                proof {
                    assert(prev + Seq::<LeafV>::empty() =~= prev);
                }
                return Ok(TypeDefinition::List { items });
            },
            Err(e) => { return Err(e); },
        }
    }
}

/// Dispatches the composite shape selected by the leading number leaf.
pub fn typdef_by_number(leaf_reader: LeafReader<'_>, n: u16) -> (r: Result<
    TypeDefinition,
    DecodeError,
>)
    requires
        leaf_reader.leaf_counter <= leaf_reader.index,
    ensures
        match r {
            Ok(td) => spec_typdef_by_number(
                leaf_reader.vec@,
                leaf_reader.index as int,
                leaf_reader.leaf_counter as nat,
                n,
            ) == Ok::<TypeDefinitionV, DecodeError>(td@),
            Err(e) => spec_typdef_by_number(
                leaf_reader.vec@,
                leaf_reader.index as int,
                leaf_reader.leaf_counter as nat,
                n,
            ) == Err::<TypeDefinitionV, DecodeError>(e),
        },
{
    if n == 0x71 {
        typdef_label(leaf_reader)
    } else if n == 0x74 {
        typdef_procedure(leaf_reader)
    } else if n == 0x75 {
        typdef_parameter(leaf_reader)
    } else if n == 0x77 {
        typdef_array(leaf_reader)
    } else if n == 0x79 {
        typdef_struct(leaf_reader)
    } else if n == 0x7b {
        typdef_scalar(leaf_reader)
    } else if n == 0x7f {
        typdef_list(leaf_reader)
    } else {
        Ok(TypeDefinition::Unknown { leading: Leaf::Number(n) })
    }
}

/// Decodes a whole TYPDEF payload into a composite type definition.
pub fn typdef_value(vec: &[u8]) -> (r: Result<TypeDefinition, DecodeError>)
    ensures
        match r {
            Ok(td) => spec_typdef(vec@) == Ok::<TypeDefinitionV, DecodeError>(td@),
            Err(e) => spec_typdef(vec@) == Err::<TypeDefinitionV, DecodeError>(e),
        },
{
    let mut lr = make_leaf_reader(vec);
    let leaf = match lr.next() {
        Ok(Some(l)) => l,
        Ok(None) => { return Err(DecodeError::Truncated); },
        Err(e) => { return Err(e); },
    };
    match leaf {
        Leaf::Number(n) => typdef_by_number(lr, n),
        other => Ok(TypeDefinition::Unknown { leading: other }),
    }
}

/// The decimal digit character for a value below ten.
pub open spec fn digit_char(d: int) -> char {
    if d == 0 {
        '0'
    } else if d == 1 {
        '1'
    } else if d == 2 {
        '2'
    } else if d == 3 {
        '3'
    } else if d == 4 {
        '4'
    } else if d == 5 {
        '5'
    } else if d == 6 {
        '6'
    } else if d == 7 {
        '7'
    } else if d == 8 {
        '8'
    } else {
        '9'
    }
}

/// The decimal digits of a non-negative number, most significant first.
pub open spec fn dec_chars(n: int) -> Seq<char>
    decreases n,
{
    if n < 10 {
        seq![digit_char(n)]
    } else {
        dec_chars(n / 10).push(digit_char(n % 10))
    }
}

/// The one-character string for a decimal digit.
fn digit_str(d: u16) -> (r: &'static str)
    requires
        d < 10,
    ensures
        r@ == seq![digit_char(d as int)],
{
    proof {
        reveal_strlit("0");
        reveal_strlit("1");
        reveal_strlit("2");
        reveal_strlit("3");
        reveal_strlit("4");
        reveal_strlit("5");
        reveal_strlit("6");
        reveal_strlit("7");
        reveal_strlit("8");
        reveal_strlit("9");
    }
    let r = match d {
        0 => "0",
        1 => "1",
        2 => "2",
        3 => "3",
        4 => "4",
        5 => "5",
        6 => "6",
        7 => "7",
        8 => "8",
        _ => "9",
    };
    proof {
        assert(r@ =~= seq![digit_char(d as int)]);
    }
    r
}

/// Renders a number in decimal, most significant digit first.
pub fn dec_string(n: u16) -> (r: String)
    ensures
        r@ == dec_chars(n as int),
    decreases n,
{
    if n < 10 {
        String::from_str(digit_str(n))
    } else {
        let mut s = dec_string(n / 10);
        s.append(digit_str(n % 10));
        proof {
            assert(s@ =~= dec_chars((n / 10) as int).push(digit_char((n % 10) as int)));
        }
        s
    }
}

/// The text of a return kind.
pub open spec fn return_kind_chars(k: ReturnKind) -> Seq<char> {
    match k {
        ReturnKind::Long => "long"@,
        ReturnKind::Short => "short"@,
        ReturnKind::Unknown => "unknown"@,
    }
}

/// The unit letter of a scalar definition.
pub open spec fn scalar_unit_chars(u: ScalarUnit) -> Seq<char> {
    match u {
        ScalarUnit::Unsigned => "u"@,
        ScalarUnit::Signed => "i"@,
        ScalarUnit::Real => "r"@,
    }
}

/// The text of one leaf inside a rendered list.
pub open spec fn leaf_item_chars(l: LeafV) -> Seq<char> {
    match l {
        LeafV::Number(n) => "number:"@ + dec_chars(n as int),
        LeafV::Str(s) => "'"@ + s + "'"@,
        LeafV::TypeIndex(i) => "index:"@ + dec_chars(i as int),
        LeafV::Null => "null"@,
    }
}

/// The text of every list item after the first, each preceded by a
/// comma separator.
pub open spec fn list_tail_chars(items: Seq<LeafV>) -> Seq<char>
    decreases items.len(),
{
    if items.len() == 0 {
        Seq::empty()
    } else {
        ", "@ + leaf_item_chars(items[0]) + list_tail_chars(items.drop_first())
    }
}

/// The comma-separated text of a list's items.
pub open spec fn list_items_chars(items: Seq<LeafV>) -> Seq<char> {
    if items.len() == 0 {
        Seq::empty()
    } else {
        leaf_item_chars(items[0]) + list_tail_chars(items.drop_first())
    }
}

/// Appending an item to a non-empty list appends a separator and its text.
proof fn lemma_list_tail_snoc(items: Seq<LeafV>, x: LeafV)
    ensures
        list_tail_chars(items.push(x)) == list_tail_chars(items) + ", "@ + leaf_item_chars(x),
    decreases items.len(),
{
    if items.len() == 0 {
        assert(items.push(x)[0] == x);
        assert(items.push(x).drop_first() =~= Seq::<LeafV>::empty());
        assert(list_tail_chars(Seq::<LeafV>::empty()) == Seq::<char>::empty());
        assert(list_tail_chars(items.push(x)) == ", "@ + leaf_item_chars(x) + Seq::<char>::empty());
        assert((", "@ + leaf_item_chars(x) + Seq::<char>::empty()) =~= (list_tail_chars(items)
            + ", "@ + leaf_item_chars(x)));
    } else {
        let t0 = items[0];
        let rest = items.drop_first();
        lemma_list_tail_snoc(rest, x);
        assert(items.push(x).drop_first() =~= rest.push(x));
        assert(items.push(x)[0] == t0);
        assert(list_tail_chars(items.push(x)) == ", "@ + leaf_item_chars(t0) + list_tail_chars(
            rest.push(x),
        ));
        assert((", "@ + leaf_item_chars(t0) + (list_tail_chars(rest) + ", "@ + leaf_item_chars(x)))
            =~= ((", "@ + leaf_item_chars(t0) + list_tail_chars(rest)) + ", "@ + leaf_item_chars(
            x,
        )));
    }
}

/// The text of an unknown leading leaf.
pub open spec fn unknown_chars(l: LeafV) -> Seq<char> {
    match l {
        LeafV::Number(_) => "???"@,
        LeafV::Str(s) => "string: "@ + s,
        LeafV::TypeIndex(i) => "index: "@ + dec_chars(i as int),
        LeafV::Null => "null"@,
    }
}

/// The canonical one-line text of a composite type definition.
pub open spec fn spec_render(td: TypeDefinitionV) -> Seq<char> {
    match td {
        TypeDefinitionV::Label { kind } => "label ("@ + return_kind_chars(kind) + ")"@,
        TypeDefinitionV::Procedure { type_index, ret, param_count, param_list } => {
            let typ = match type_index {
                Some(i) => "T"@ + dec_chars(i as int) + " "@,
                None => Seq::<char>::empty(),
            };
            match param_list {
                Some(li) => "procedure ("@ + dec_chars(param_count as int) + ", L"@ + dec_chars(
                    li as int,
                ) + ") "@ + typ + return_kind_chars(ret),
                None => "procedure ("@ + dec_chars(param_count as int) + ") "@ + typ
                    + return_kind_chars(ret),
            }
        },
        TypeDefinitionV::Parameter { type_index } => "parameter T"@ + dec_chars(type_index as int),
        TypeDefinitionV::Array { bits, element_type } => "array ("@ + dec_chars(bits as int)
            + "-bit) T"@ + dec_chars(element_type as int),
        TypeDefinitionV::Struct { bits, member_count, types_index, names_index } => "structure ("@
            + dec_chars(bits as int) + "-bit, "@ + dec_chars(member_count as int) + ") Types:L"@
            + dec_chars(types_index as int) + " Names:L"@ + dec_chars(names_index as int),
        TypeDefinitionV::Scalar { bits, unit } => scalar_unit_chars(unit) + dec_chars(bits as int),
        TypeDefinitionV::List { items } => "list ("@ + list_items_chars(items) + ")"@,
        TypeDefinitionV::Unknown { leading } => unknown_chars(leading),
    }
}

/// The text of one leaf inside a rendered list.
fn leaf_item_string(l: &Leaf) -> (r: String)
    ensures
        r@ == leaf_item_chars(l@),
{
    match l {
        Leaf::Number(n) => {
            let mut s = String::from_str("number:");
            s.append(dec_string(*n).as_str());
            proof {
                assert(s@ =~= leaf_item_chars(l@));
            }
            s
        },
        Leaf::Str(t) => {
            let mut s = String::from_str("'");
            s.append(t.as_str());
            s.append("'");
            proof {
                assert(s@ =~= leaf_item_chars(l@));
            }
            s
        },
        Leaf::TypeIndex(i) => {
            let mut s = String::from_str("index:");
            s.append(dec_string(*i as u16).as_str());
            proof {
                assert(s@ =~= leaf_item_chars(l@));
            }
            s
        },
        Leaf::Null => String::from_str("null"),
    }
}

/// The comma-separated text of a list's items.
fn list_items_string(items: &Vec<Leaf>) -> (r: String)
    ensures
        r@ == list_items_chars(items@.map_values(|l: Leaf| l@)),
{
    let ghost model = items@.map_values(|l: Leaf| l@);
    let mut s = String::new();
    let mut first = true;
    let mut k: usize = 0;
    while k < items.len()
        invariant
            k <= items@.len(),
            model == items@.map_values(|l: Leaf| l@),
            model.len() == items@.len(),
            forall|j: int| 0 <= j < items@.len() ==> model[j] == items@[j]@,
            first <==> k == 0,
            s@ == list_items_chars(model.subrange(0, k as int)),
        decreases items@.len() - k,
    {
        if !first {
            s.append(", ");
        }
        first = false;
        s.append(leaf_item_string(&items[k]).as_str());
        proof {
            let prefix = model.subrange(0, k as int);
            assert(model.subrange(0, k + 1) =~= prefix.push(model[k as int]));
            if k == 0 {
                assert(model.subrange(0, 1).drop_first() =~= Seq::<LeafV>::empty());
                assert(s@ =~= list_items_chars(model.subrange(0, k + 1)));
            } else {
                lemma_list_tail_snoc(prefix.drop_first(), model[k as int]);
                assert(prefix.push(model[k as int]).drop_first() =~= prefix.drop_first().push(
                    model[k as int],
                ));
                assert(s@ =~= list_items_chars(model.subrange(0, k + 1)));
            }
        }
        k = k + 1;
    }
    proof {
        assert(model.subrange(0, model.len() as int) =~= model);
    }
    s
}

/// The canonical one-line text of a composite type definition.
pub fn render_typdef(td: &TypeDefinition) -> (r: String)
    ensures
        r@ == spec_render(td@),
{
    match td {
        TypeDefinition::Label { kind } => {
            let mut s = String::from_str("label (");
            s.append(match kind {
                ReturnKind::Long => "long",
                ReturnKind::Short => "short",
                ReturnKind::Unknown => "unknown",
            });
            s.append(")");
            proof {
                assert(s@ =~= spec_render(td@));
            }
            s
        },
        TypeDefinition::Procedure { type_index, ret, param_count, param_list } => {
            let mut s = String::from_str("procedure (");
            s.append(dec_string(*param_count).as_str());
            match param_list {
                Some(li) => {
                    s.append(", L");
                    s.append(dec_string(*li as u16).as_str());
                },
                None => {},
            }
            s.append(") ");
            match type_index {
                Some(i) => {
                    s.append("T");
                    s.append(dec_string(*i as u16).as_str());
                    s.append(" ");
                },
                None => {},
            }
            s.append(match ret {
                ReturnKind::Long => "long",
                ReturnKind::Short => "short",
                ReturnKind::Unknown => "unknown",
            });
            proof {
                assert(s@ =~= spec_render(td@));
            }
            s
        },
        TypeDefinition::Parameter { type_index } => {
            let mut s = String::from_str("parameter T");
            s.append(dec_string(*type_index as u16).as_str());
            proof {
                assert(s@ =~= spec_render(td@));
            }
            s
        },
        TypeDefinition::Array { bits, element_type } => {
            let mut s = String::from_str("array (");
            s.append(dec_string(*bits).as_str());
            s.append("-bit) T");
            s.append(dec_string(*element_type as u16).as_str());
            proof {
                assert(s@ =~= spec_render(td@));
            }
            s
        },
        TypeDefinition::Struct { bits, member_count, types_index, names_index } => {
            let mut s = String::from_str("structure (");
            s.append(dec_string(*bits).as_str());
            s.append("-bit, ");
            s.append(dec_string(*member_count).as_str());
            s.append(") Types:L");
            s.append(dec_string(*types_index as u16).as_str());
            s.append(" Names:L");
            s.append(dec_string(*names_index as u16).as_str());
            proof {
                assert(s@ =~= spec_render(td@));
            }
            s
        },
        TypeDefinition::Scalar { bits, unit } => {
            let mut s = String::from_str(
                match unit {
                    ScalarUnit::Unsigned => "u",
                    ScalarUnit::Signed => "i",
                    ScalarUnit::Real => "r",
                },
            );
            s.append(dec_string(*bits).as_str());
            proof {
                assert(s@ =~= spec_render(td@));
            }
            s
        },
        TypeDefinition::List { items } => {
            let mut s = String::from_str("list (");
            s.append(list_items_string(items).as_str());
            s.append(")");
            proof {
                assert(s@ =~= spec_render(td@));
            }
            s
        },
        TypeDefinition::Unknown { leading } => {
            match leading {
                Leaf::Number(_) => String::from_str("???"),
                Leaf::Str(t) => {
                    let mut s = String::from_str("string: ");
                    s.append(t.as_str());
                    proof {
                        assert(s@ =~= spec_render(td@));
                    }
                    s
                },
                Leaf::TypeIndex(i) => {
                    let mut s = String::from_str("index: ");
                    s.append(dec_string(*i as u16).as_str());
                    proof {
                        assert(s@ =~= spec_render(td@));
                    }
                    s
                },
                Leaf::Null => String::from_str("null"),
            }
        },
    }
}

/// Decodes a whole TYPDEF payload and renders it as its canonical
/// one-line text.
pub fn typdef_to_string(vec: &[u8]) -> (r: Result<String, DecodeError>)
    ensures
        match r {
            Ok(s) => spec_typdef(vec@) matches Ok(td) && s@ == spec_render(td),
            Err(e) => spec_typdef(vec@) == Err::<TypeDefinitionV, DecodeError>(e),
        },
{
    match typdef_value(vec) {
        Ok(td) => Ok(render_typdef(&td)),
        Err(e) => Err(e),
    }
}

} // verus!
