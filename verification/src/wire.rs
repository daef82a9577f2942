//! The field-tagged binary encoding that trade records travel in: base-128
//! varints, field keys, fixed-width and length-delimited values, and how a
//! reader steps over a field it does not know.
//!
//! Every function reads at a position of an unchanged byte sequence and says
//! where the value ends, so a caller can go on from there.

use vstd::arithmetic::div_mod::lemma_div_denominator;
use vstd::prelude::*;

verus! {

/// Why a payload could not be decoded.
#[derive(Debug, Clone, Copy, PartialEq, Eq)]
pub enum DecodeError {
    /// A varint ran past the end of the payload, or past ten bytes, or past 64 bits.
    InvalidVarint,
    /// A field key does not fit in 32 bits.
    InvalidKey,
    /// A field key names a wire type that does not exist.
    InvalidWireType,
    /// A field key has tag zero.
    InvalidTag,
    /// A field of the record came with the wire type of another kind of value.
    UnexpectedWireType,
    /// A value is longer than what is left of the payload.
    BufferUnderflow,
    /// The symbol is not UTF-8.
    InvalidUtf8,
    /// A group was closed that was not open, or under another tag than it was opened with.
    UnexpectedEndGroup,
    /// Groups are nested deeper than a reader follows.
    RecursionLimitReached,
}

/// How a field's value is laid out.
#[derive(Debug, Clone, Copy, PartialEq, Eq)]
pub enum WireType {
    Varint,
    SixtyFourBit,
    LengthDelimited,
    StartGroup,
    EndGroup,
    ThirtyTwoBit,
}

/// How many groups may be open around a field that is stepped over.
pub const RECURSION_LIMIT: usize = 100;

/// The wire type with the given code, if there is one.
pub open spec fn wire_type_of(code: nat) -> Option<WireType> {
    if code == 0 {
        Some(WireType::Varint)
    } else if code == 1 {
        Some(WireType::SixtyFourBit)
    } else if code == 2 {
        Some(WireType::LengthDelimited)
    } else if code == 3 {
        Some(WireType::StartGroup)
    } else if code == 4 {
        Some(WireType::EndGroup)
    } else if code == 5 {
        Some(WireType::ThirtyTwoBit)
    } else {
        None
    }
}

/// The code of a wire type.
pub open spec fn code_of(wire_type: WireType) -> nat {
    match wire_type {
        WireType::Varint => 0,
        WireType::SixtyFourBit => 1,
        WireType::LengthDelimited => 2,
        WireType::StartGroup => 3,
        WireType::EndGroup => 4,
        WireType::ThirtyTwoBit => 5,
    }
}

/// The varint that starts at `at`, read from its byte number `index` on: the value of that byte
/// and of those after it, and the position after the last one. Each byte gives seven bits, lowest
/// first; a byte below `0x80` ends the varint. There is none if the payload ends first, if ten
/// bytes do not end it, or if the tenth byte holds more than the one bit that is left of 64.
pub open spec fn varint_tail(bytes: Seq<u8>, at: int, index: nat) -> Option<(nat, int)>
    decreases 10 - index,
{
    if index >= 10 || at + index >= bytes.len() {
        None
    } else {
        let byte = bytes[at + index];
        if byte < 0x80 {
            if index == 9 && byte >= 2 {
                None
            } else {
                Some((byte as nat, at + index + 1))
            }
        } else {
            match varint_tail(bytes, at, index + 1) {
                Some((high, end)) => Some(((byte - 0x80) as nat + 128 * high, end)),
                None => None,
            }
        }
    }
}

/// The varint at `at`: its value and the position after it.
pub open spec fn varint(bytes: Seq<u8>, at: int) -> Option<(nat, int)> {
    varint_tail(bytes, at, 0)
}

/// The field key at `at`: the tag, the wire type, and the position after the key.
pub open spec fn key(bytes: Seq<u8>, at: int) -> Result<(u32, WireType, int), DecodeError> {
    match varint(bytes, at) {
        None => Err(DecodeError::InvalidVarint),
        Some((value, end)) => if value > u32::MAX {
            Err(DecodeError::InvalidKey)
        } else {
            match wire_type_of(value % 8) {
                None => Err(DecodeError::InvalidWireType),
                Some(wire_type) => if value / 8 == 0 {
                    Err(DecodeError::InvalidTag)
                } else {
                    Ok(((value / 8) as u32, wire_type, end))
                },
            }
        },
    }
}

/// The 64-bit value whose eight bytes stand at `at`, lowest byte first.
pub open spec fn fixed64(bytes: Seq<u8>, at: int) -> Option<u64> {
    if 0 <= at && at + 8 <= bytes.len() {
        Some(
            (bytes[at] as nat + 0x100 * bytes[at + 1] as nat + 0x1_0000 * bytes[at + 2] as nat
                + 0x100_0000 * bytes[at + 3] as nat + 0x1_0000_0000 * bytes[at + 4] as nat
                + 0x100_0000_0000 * bytes[at + 5] as nat + 0x1_0000_0000_0000 * bytes[at
                + 6] as nat + 0x100_0000_0000_0000 * bytes[at + 7] as nat) as u64,
        )
    } else {
        None
    }
}

/// The length-delimited value at `at`: where its bytes start and where they end.
pub open spec fn delimited(bytes: Seq<u8>, at: int) -> Result<(int, int), DecodeError> {
    match varint(bytes, at) {
        None => Err(DecodeError::InvalidVarint),
        Some((length, start)) => if length > bytes.len() - start {
            Err(DecodeError::BufferUnderflow)
        } else {
            Ok((start, start + length))
        },
    }
}

/// The position after the value at `at`, for a wire type that is not a group.
pub open spec fn skip_scalar(bytes: Seq<u8>, at: int, wire_type: WireType) -> Result<
    int,
    DecodeError,
> {
    match wire_type {
        WireType::Varint => match varint(bytes, at) {
            Some((_, end)) => Ok(end),
            None => Err(DecodeError::InvalidVarint),
        },
        WireType::SixtyFourBit => if at + 8 <= bytes.len() {
            Ok(at + 8)
        } else {
            Err(DecodeError::BufferUnderflow)
        },
        WireType::ThirtyTwoBit => if at + 4 <= bytes.len() {
            Ok(at + 4)
        } else {
            Err(DecodeError::BufferUnderflow)
        },
        WireType::LengthDelimited => match delimited(bytes, at) {
            Ok((_, end)) => Ok(end),
            Err(e) => Err(e),
        },
        WireType::StartGroup => Err(DecodeError::UnexpectedEndGroup),
        WireType::EndGroup => Err(DecodeError::UnexpectedEndGroup),
    }
}

/// The position after the groups in `open`, the innermost last, when the reader stands at `at`
/// inside them. A field inside is stepped over whatever its tag. A group ends at the end-group key
/// with its own tag. A field other than an end-group key is refused once `RECURSION_LIMIT` groups
/// are open around it. Outside the payload there is no key to read.
pub open spec fn skip_groups(bytes: Seq<u8>, at: int, open: Seq<u32>) -> Result<int, DecodeError>
    decreases bytes.len() - at, open.len(),
{
    if open.len() == 0 {
        Ok(at)
    } else if at < 0 || at > bytes.len() {
        Err(DecodeError::InvalidVarint)
    } else {
        match key(bytes, at) {
            Err(e) => Err(e),
            Ok((tag, wire_type, next)) => {
                proof {
                    lemma_key_bounds(bytes, at);
                    lemma_skip_scalar_bounds(bytes, next, wire_type);
                }
                if wire_type == WireType::EndGroup {
                    if tag != open.last() {
                        Err(DecodeError::UnexpectedEndGroup)
                    } else {
                        skip_groups(bytes, next, open.drop_last())
                    }
                } else if open.len() >= RECURSION_LIMIT {
                    Err(DecodeError::RecursionLimitReached)
                } else if wire_type == WireType::StartGroup {
                    skip_groups(bytes, next, open.push(tag))
                } else {
                    match skip_scalar(bytes, next, wire_type) {
                        Err(e) => Err(e),
                        Ok(after) => skip_groups(bytes, after, open),
                    }
                }
            },
        }
    }
}

/// The position after the value at `at` of a field that the reader does not know, whose key gave
/// `tag` and `wire_type`.
pub open spec fn skip_field(bytes: Seq<u8>, at: int, wire_type: WireType, tag: u32) -> Result<
    int,
    DecodeError,
> {
    match wire_type {
        WireType::StartGroup => skip_groups(bytes, at, seq![tag]),
        WireType::EndGroup => Err(DecodeError::UnexpectedEndGroup),
        _ => skip_scalar(bytes, at, wire_type),
    }
}

/// What the byte number `index` of a varint counts for: 128 to the power `index`.
pub open spec fn digit_weight(index: nat) -> nat {
    if index == 0 {
        1
    } else if index == 1 {
        0x80
    } else if index == 2 {
        0x4000
    } else if index == 3 {
        0x20_0000
    } else if index == 4 {
        0x1000_0000
    } else if index == 5 {
        0x8_0000_0000
    } else if index == 6 {
        0x400_0000_0000
    } else if index == 7 {
        0x2_0000_0000_0000
    } else if index == 8 {
        0x100_0000_0000_0000
    } else {
        0x8000_0000_0000_0000
    }
}

/// What the bytes of a varint from number `index` on can hold at most, plus one: two to the power
/// of the bits that are left of 64.
pub open spec fn digit_room(index: nat) -> nat {
    if index == 0 {
        0x1_0000_0000_0000_0000
    } else if index == 1 {
        0x200_0000_0000_0000
    } else if index == 2 {
        0x4_0000_0000_0000
    } else if index == 3 {
        0x800_0000_0000
    } else if index == 4 {
        0x10_0000_0000
    } else if index == 5 {
        0x2000_0000
    } else if index == 6 {
        0x40_0000
    } else if index == 7 {
        0x8000
    } else if index == 8 {
        0x100
    } else {
        2
    }
}

/// A varint ends after where it starts and inside the payload, and the value of its bytes from
/// `index` on fits in the bits that are left for them.
pub proof fn lemma_varint_tail_bounds(bytes: Seq<u8>, at: int, index: nat)
    requires
        0 <= at,
        index <= 9,
    ensures
        varint_tail(bytes, at, index) matches Some((value, end)) ==> at + index < end
            <= bytes.len() && end <= at + 10 && value < digit_room(index),
    decreases 10 - index,
{
    if index < 9 && at + index < bytes.len() && bytes[at + index] >= 0x80 {
        lemma_varint_tail_bounds(bytes, at, index + 1);
        assert(digit_room(index) == 128 * digit_room(index + 1));
    } else if index == 9 {
        assert(varint_tail(bytes, at, 10) is None);
    }
}

/// The value of a varint fits in 64 bits, and the varint takes between one and ten bytes of the
/// payload.
pub proof fn lemma_varint_bounds(bytes: Seq<u8>, at: int)
    requires
        0 <= at,
    ensures
        varint(bytes, at) matches Some((value, end)) ==> at < end <= bytes.len() && end <= at
            + 10 && value <= u64::MAX,
{
    lemma_varint_tail_bounds(bytes, at, 0);
}

/// A key ends after where it starts and inside the payload.
pub proof fn lemma_key_bounds(bytes: Seq<u8>, at: int)
    requires
        0 <= at,
    ensures
        key(bytes, at) matches Ok((tag, wire_type, end)) ==> at < end <= bytes.len() && tag >= 1,
{
    lemma_varint_bounds(bytes, at);
}

/// A value that is stepped over ends at or after where it starts, inside the payload.
pub proof fn lemma_skip_scalar_bounds(bytes: Seq<u8>, at: int, wire_type: WireType)
    requires
        0 <= at <= bytes.len(),
    ensures
        skip_scalar(bytes, at, wire_type) matches Ok(end) ==> at <= end <= bytes.len(),
{
    lemma_varint_bounds(bytes, at);
}

/// Open groups end at or after the reader's position, inside the payload.
pub proof fn lemma_skip_groups_bounds(bytes: Seq<u8>, at: int, open: Seq<u32>)
    requires
        0 <= at <= bytes.len(),
    ensures
        skip_groups(bytes, at, open) matches Ok(end) ==> at <= end <= bytes.len(),
    decreases bytes.len() - at, open.len(),
{
    if open.len() > 0 {
        lemma_key_bounds(bytes, at);
        match key(bytes, at) {
            Err(_) => {},
            Ok((tag, wire_type, next)) => {
                lemma_skip_scalar_bounds(bytes, next, wire_type);
                if wire_type == WireType::EndGroup {
                    if tag == open.last() {
                        lemma_skip_groups_bounds(bytes, next, open.drop_last());
                    }
                } else if open.len() >= RECURSION_LIMIT {
                } else if wire_type == WireType::StartGroup {
                    lemma_skip_groups_bounds(bytes, next, open.push(tag));
                } else {
                    match skip_scalar(bytes, next, wire_type) {
                        Err(_) => {},
                        Ok(after) => {
                            lemma_skip_groups_bounds(bytes, after, open);
                        },
                    }
                }
            },
        }
    }
}

/// A field that is stepped over ends at or after where its value starts, inside the payload.
pub proof fn lemma_skip_field_bounds(bytes: Seq<u8>, at: int, wire_type: WireType, tag: u32)
    requires
        0 <= at <= bytes.len(),
    ensures
        skip_field(bytes, at, wire_type, tag) matches Ok(end) ==> at <= end <= bytes.len(),
{
    lemma_skip_scalar_bounds(bytes, at, wire_type);
    lemma_skip_groups_bounds(bytes, at, seq![tag]);
}

/// The bytes of a varint with the given value: seven bits a byte, lowest first, every byte but
/// the last marked with `0x80`.
pub open spec fn varint_bytes(value: nat) -> Seq<u8>
    decreases value,
{
    if value < 0x80 {
        seq![value as u8]
    } else {
        seq![(0x80 + value % 0x80) as u8] + varint_bytes(value / 0x80)
    }
}

/// The eight bytes of a 64-bit value, lowest first.
pub open spec fn fixed64_bytes(value: u64) -> Seq<u8> {
    seq![
        (value % 0x100) as u8,
        (value / 0x100 % 0x100) as u8,
        (value / 0x1_0000 % 0x100) as u8,
        (value / 0x100_0000 % 0x100) as u8,
        (value / 0x1_0000_0000 % 0x100) as u8,
        (value / 0x100_0000_0000 % 0x100) as u8,
        (value / 0x1_0000_0000_0000 % 0x100) as u8,
        (value / 0x100_0000_0000_0000 % 0x100) as u8,
    ]
}

/// The key of a field.
pub open spec fn key_bytes(tag: u32, wire_type: WireType) -> Seq<u8> {
    varint_bytes(tag as nat * 8 + code_of(wire_type))
}

/// Whether `part` stands in `bytes` at `at`.
pub open spec fn stands_at(bytes: Seq<u8>, at: int, part: Seq<u8>) -> bool {
    &&& 0 <= at
    &&& at + part.len() <= bytes.len()
    &&& forall|i: int| 0 <= i < part.len() ==> bytes[at + i] == #[trigger] part[i]
}

/// Where two parts stand one after the other as a whole, each of them stands in its place.
pub proof fn lemma_stands_at_split(bytes: Seq<u8>, at: int, front: Seq<u8>, back: Seq<u8>)
    requires
        stands_at(bytes, at, front + back),
    ensures
        stands_at(bytes, at, front),
        stands_at(bytes, at + front.len(), back),
{
    let whole = front + back;
    assert forall|i: int| 0 <= i < front.len() implies bytes[at + i] == #[trigger] front[i] by {
        assert(whole[i] == front[i]);
    }
    assert forall|i: int| 0 <= i < back.len() implies bytes[at + front.len() + i]
        == #[trigger] back[i] by {
        assert(whole[front.len() + i] == back[i]);
    }
}

/// A varint that a writer put at byte `index` of the varint at `at` is read back with its value.
pub proof fn lemma_varint_tail_reads_back(bytes: Seq<u8>, at: int, index: nat, value: nat)
    requires
        index <= 9,
        value < digit_room(index),
        stands_at(bytes, at + index, varint_bytes(value)),
    ensures
        varint_tail(bytes, at, index) == Some((value, at + index + varint_bytes(value).len())),
    decreases value,
{
    let written = varint_bytes(value);
    assert(bytes[at + index + 0] == written[0]);
    if value >= 0x80 {
        let high = value / 0x80;
        assert(index < 9);
        assert(digit_room(index) == 128 * digit_room(index + 1));
        assert(written == seq![(0x80 + value % 0x80) as u8] + varint_bytes(high));
        lemma_stands_at_split(
            bytes,
            at + index,
            seq![(0x80 + value % 0x80) as u8],
            varint_bytes(high),
        );
        lemma_varint_tail_reads_back(bytes, at, index + 1, high);
    }
}

/// The eight bytes of a 64-bit value add up to it again.
proof fn lemma_fixed64_bytes_sum(value: u64)
    ensures
        value == (value % 0x100) + 0x100 * (value / 0x100 % 0x100) + 0x1_0000 * (value / 0x1_0000
            % 0x100) + 0x100_0000 * (value / 0x100_0000 % 0x100) + 0x1_0000_0000 * (value
            / 0x1_0000_0000 % 0x100) + 0x100_0000_0000 * (value / 0x100_0000_0000 % 0x100)
            + 0x1_0000_0000_0000 * (value / 0x1_0000_0000_0000 % 0x100) + 0x100_0000_0000_0000 * (
        value / 0x100_0000_0000_0000 % 0x100),
{
    let q0 = value as int;
    let q1 = q0 / 0x100;
    let q2 = q1 / 0x100;
    let q3 = q2 / 0x100;
    let q4 = q3 / 0x100;
    let q5 = q4 / 0x100;
    let q6 = q5 / 0x100;
    let q7 = q6 / 0x100;
    lemma_div_denominator(q0, 0x100, 0x100);
    lemma_div_denominator(q0, 0x1_0000, 0x100);
    lemma_div_denominator(q0, 0x100_0000, 0x100);
    lemma_div_denominator(q0, 0x1_0000_0000, 0x100);
    lemma_div_denominator(q0, 0x100_0000_0000, 0x100);
    lemma_div_denominator(q0, 0x1_0000_0000_0000, 0x100);
    assert(q2 == q0 / 0x1_0000);
    assert(q3 == q0 / 0x100_0000);
    assert(q4 == q0 / 0x1_0000_0000);
    assert(q5 == q0 / 0x100_0000_0000);
    assert(q6 == q0 / 0x1_0000_0000_0000);
    assert(q7 == q0 / 0x100_0000_0000_0000);
    assert(q7 < 0x100);
    assert(q0 == q0 % 0x100 + 0x100 * q1);
    assert(q1 == q1 % 0x100 + 0x100 * q2);
    assert(q2 == q2 % 0x100 + 0x100 * q3);
    assert(q3 == q3 % 0x100 + 0x100 * q4);
    assert(q4 == q4 % 0x100 + 0x100 * q5);
    assert(q5 == q5 % 0x100 + 0x100 * q6);
    assert(q6 == q6 % 0x100 + 0x100 * q7);
    assert(q7 == q7 % 0x100);
}

/// A 64-bit value that a writer put at `at` is read back.
pub proof fn lemma_fixed64_reads_back(bytes: Seq<u8>, at: int, value: u64)
    requires
        stands_at(bytes, at, fixed64_bytes(value)),
    ensures
        fixed64(bytes, at) == Some(value),
{
    let written = fixed64_bytes(value);
    lemma_fixed64_bytes_sum(value);
    assert(bytes[at + 0] == written[0]);
    assert(bytes[at + 1] == written[1]);
    assert(bytes[at + 2] == written[2]);
    assert(bytes[at + 3] == written[3]);
    assert(bytes[at + 4] == written[4]);
    assert(bytes[at + 5] == written[5]);
    assert(bytes[at + 6] == written[6]);
    assert(bytes[at + 7] == written[7]);
}

/// A key with a tag below sixteen is one byte, and is read back.
pub proof fn lemma_key_reads_back(bytes: Seq<u8>, at: int, tag: u32, wire_type: WireType)
    requires
        1 <= tag <= 15,
        stands_at(bytes, at, key_bytes(tag, wire_type)),
    ensures
        key_bytes(tag, wire_type).len() == 1,
        key(bytes, at) == Ok::<_, DecodeError>((tag, wire_type, at + 1)),
{
    let written = key_bytes(tag, wire_type);
    assert(written == seq![(tag * 8 + code_of(wire_type)) as u8]);
    assert(bytes[at + 0] == written[0]);
}

/// A varint that a writer put at `at` is read back: its value, and the position after it.
pub proof fn lemma_varint_reads_back(bytes: Seq<u8>, at: int, value: u64)
    requires
        stands_at(bytes, at, varint_bytes(value as nat)),
    ensures
        varint(bytes, at) == Some((value as nat, at + varint_bytes(value as nat).len())),
{
    lemma_varint_tail_reads_back(bytes, at, 0, value as nat);
}

/// Reads the varint at `at`.
pub fn read_varint(bytes: &[u8], at: usize) -> (found: Option<(u64, usize)>)
    ensures
        match found {
            Some((value, end)) => varint(bytes@, at as int) == Some((value as nat, end as int)),
            None => varint(bytes@, at as int) is None,
        },
{
    let mut value: u64 = 0;
    let mut weight: u64 = 1;
    let mut index: usize = 0;
    while index < 10
        invariant
            index <= 10,
            index < 10 ==> weight == digit_weight(index as nat),
            index < 10 ==> value < weight,
            index == 10 ==> varint(bytes@, at as int) is None,
            index < 10 ==> varint(bytes@, at as int) == match varint_tail(
                bytes@,
                at as int,
                index as nat,
            ) {
                Some((rest, end)) => Some(((value + weight * rest) as nat, end)),
                None => None,
            },
        decreases 10 - index,
    {
        if at >= bytes.len() || index >= bytes.len() - at {
            return None;
        }
        let byte: u8 = bytes[at + index];
        if byte < 0x80 {
            if index == 9 && byte >= 2 {
                return None;
            }
            assert(weight * byte + value <= u64::MAX) by (nonlinear_arith)
                requires
                    value < weight,
                    byte < 0x80,
                    weight <= 0x100_0000_0000_0000 || (weight == 0x8000_0000_0000_0000 && byte
                        < 2),
            ;
            assert(weight * byte == weight * (byte as nat)) by (nonlinear_arith);
            return Some((value + weight * (byte as u64), at + index + 1));
        }
        if index == 9 {
            return None;
        }
        let low: u64 = (byte - 0x80) as u64;
        assert(weight * low + value < weight * 128 <= 0x8000_0000_0000_0000) by (nonlinear_arith)
            requires
                value < weight,
                low < 0x80,
                weight <= 0x100_0000_0000_0000,
        ;
        proof {
            match varint_tail(bytes@, at as int, (index + 1) as nat) {
                Some((high, end)) => {
                    assert(value + weight * (low as nat + 128 * high) == (value + weight * low)
                        + (weight * 128) * high) by (nonlinear_arith);
                },
                None => {},
            }
        }
        value = value + weight * low;
        weight = weight * 128;
        index += 1;
    }
    None
}

/// Reads the field key at `at`.
pub fn read_key(bytes: &[u8], at: usize) -> (found: Result<(u32, WireType, usize), DecodeError>)
    ensures
        match found {
            Ok((tag, wire_type, end)) => key(bytes@, at as int) == Ok::<_, DecodeError>(
                (tag, wire_type, end as int),
            ),
            Err(e) => key(bytes@, at as int) == Err::<(u32, WireType, int), _>(e),
        },
{
    match read_varint(bytes, at) {
        None => Err(DecodeError::InvalidVarint),
        Some((value, end)) => {
            if value > 0xffff_ffff {
                return Err(DecodeError::InvalidKey);
            }
            let code: u64 = value % 8;
            let wire_type = if code == 0 {
                WireType::Varint
            } else if code == 1 {
                WireType::SixtyFourBit
            } else if code == 2 {
                WireType::LengthDelimited
            } else if code == 3 {
                WireType::StartGroup
            } else if code == 4 {
                WireType::EndGroup
            } else if code == 5 {
                WireType::ThirtyTwoBit
            } else {
                return Err(DecodeError::InvalidWireType);
            };
            let tag: u64 = value / 8;
            if tag == 0 {
                return Err(DecodeError::InvalidTag);
            }
            Ok((tag as u32, wire_type, end))
        },
    }
}

/// Reads the 64-bit value at `at`.
pub fn read_fixed64(bytes: &[u8], at: usize) -> (found: Option<u64>)
    ensures
        found == fixed64(bytes@, at as int),
{
    if at > bytes.len() || bytes.len() - at < 8 {
        return None;
    }
    let b0: u64 = bytes[at] as u64;
    let b1: u64 = bytes[at + 1] as u64;
    let b2: u64 = bytes[at + 2] as u64;
    let b3: u64 = bytes[at + 3] as u64;
    let b4: u64 = bytes[at + 4] as u64;
    let b5: u64 = bytes[at + 5] as u64;
    let b6: u64 = bytes[at + 6] as u64;
    let b7: u64 = bytes[at + 7] as u64;
    Some(
        b0 + 0x100 * b1 + 0x1_0000 * b2 + 0x100_0000 * b3 + 0x1_0000_0000 * b4
            + 0x100_0000_0000 * b5 + 0x1_0000_0000_0000 * b6 + 0x100_0000_0000_0000 * b7,
    )
}

/// Reads the bounds of the length-delimited value at `at`.
pub fn read_delimited(bytes: &[u8], at: usize) -> (found: Result<(usize, usize), DecodeError>)
    ensures
        match found {
            Ok((start, end)) => delimited(bytes@, at as int) == Ok::<_, DecodeError>(
                (start as int, end as int),
            ) && start <= end <= bytes@.len(),
            Err(e) => delimited(bytes@, at as int) == Err::<(int, int), _>(e),
        },
{
    match read_varint(bytes, at) {
        None => Err(DecodeError::InvalidVarint),
        Some((length, start)) => {
            proof {
                lemma_varint_bounds(bytes@, at as int);
            }
            if length > (bytes.len() - start) as u64 {
                Err(DecodeError::BufferUnderflow)
            } else {
                Ok((start, start + length as usize))
            }
        },
    }
}

/// Steps over the value at `at` of a wire type that is not a group.
pub fn pass_scalar(bytes: &[u8], at: usize, wire_type: WireType) -> (found: Result<
    usize,
    DecodeError,
>)
    ensures
        match found {
            Ok(end) => skip_scalar(bytes@, at as int, wire_type) == Ok::<_, DecodeError>(
                end as int,
            ) && at <= end <= bytes@.len(),
            Err(e) => skip_scalar(bytes@, at as int, wire_type) == Err::<int, _>(e),
        },
{
    proof {
        lemma_varint_bounds(bytes@, at as int);
    }
    match wire_type {
        WireType::Varint => match read_varint(bytes, at) {
            Some((_, end)) => Ok(end),
            None => Err(DecodeError::InvalidVarint),
        },
        WireType::SixtyFourBit => if at <= bytes.len() && bytes.len() - at >= 8 {
            Ok(at + 8)
        } else {
            Err(DecodeError::BufferUnderflow)
        },
        WireType::ThirtyTwoBit => if at <= bytes.len() && bytes.len() - at >= 4 {
            Ok(at + 4)
        } else {
            Err(DecodeError::BufferUnderflow)
        },
        WireType::LengthDelimited => match read_delimited(bytes, at) {
            Ok((_, end)) => Ok(end),
            Err(e) => Err(e),
        },
        WireType::StartGroup => Err(DecodeError::UnexpectedEndGroup),
        WireType::EndGroup => Err(DecodeError::UnexpectedEndGroup),
    }
}

/// Steps over the value at `at` of a field that the reader does not know.
pub fn pass_field(bytes: &[u8], at: usize, wire_type: WireType, tag: u32) -> (found: Result<
    usize,
    DecodeError,
>)
    ensures
        match found {
            Ok(end) => skip_field(bytes@, at as int, wire_type, tag) == Ok::<_, DecodeError>(
                end as int,
            ) && at <= end <= bytes@.len(),
            Err(e) => skip_field(bytes@, at as int, wire_type, tag) == Err::<int, _>(e),
        },
{
    match wire_type {
        WireType::EndGroup => Err(DecodeError::UnexpectedEndGroup),
        WireType::StartGroup => {
            if at > bytes.len() {
                return Err(DecodeError::InvalidVarint);
            }
            let mut open: Vec<u32> = Vec::new();
            open.push(tag);
            let mut position: usize = at;
            assert(open@ == seq![tag]);
            while open.len() > 0
                invariant
                    at <= position <= bytes@.len(),
                    skip_field(bytes@, at as int, wire_type, tag) == skip_groups(
                        bytes@,
                        position as int,
                        open@,
                    ),
                decreases bytes@.len() - position, open@.len(),
            {
                proof {
                    lemma_key_bounds(bytes@, position as int);
                }
                let (inner_tag, inner_type, next) = match read_key(bytes, position) {
                    Ok(found) => found,
                    Err(e) => {
                        return Err(e);
                    },
                };
                match inner_type {
                    WireType::EndGroup => {
                        let innermost: u32 = open[open.len() - 1];
                        if inner_tag != innermost {
                            return Err(DecodeError::UnexpectedEndGroup);
                        }
                        open.pop();
                        position = next;
                    },
                    WireType::StartGroup => {
                        if open.len() >= RECURSION_LIMIT {
                            return Err(DecodeError::RecursionLimitReached);
                        }
                        open.push(inner_tag);
                        position = next;
                    },
                    _ => {
                        if open.len() >= RECURSION_LIMIT {
                            return Err(DecodeError::RecursionLimitReached);
                        }
                        match pass_scalar(bytes, next, inner_type) {
                            Ok(after) => {
                                position = after;
                            },
                            Err(e) => {
                                return Err(e);
                            },
                        }
                    },
                }
            }
            Ok(position)
        },
        _ => pass_scalar(bytes, at, wire_type),
    }
}

/// Appends the varint of `value` to `out`.
pub fn write_varint(value: u64, out: &mut Vec<u8>)
    ensures
        final(out)@ == old(out)@ + varint_bytes(value as nat),
{
    let mut rest: u64 = value;
    while rest >= 0x80
        invariant
            out@ + varint_bytes(rest as nat) == old(out)@ + varint_bytes(value as nat),
        decreases rest,
    {
        let ghost before = out@;
        out.push((0x80 + rest % 0x80) as u8);
        assert(out@ + varint_bytes((rest / 0x80) as nat) == before + varint_bytes(rest as nat));
        rest = rest / 0x80;
    }
    let ghost before = out@;
    out.push(rest as u8);
    assert(out@ == before + varint_bytes(rest as nat));
}

/// Appends the eight bytes of `value` to `out`, lowest first.
pub fn write_fixed64(value: u64, out: &mut Vec<u8>)
    ensures
        final(out)@ == old(out)@ + fixed64_bytes(value),
{
    out.push((value % 0x100) as u8);
    out.push((value / 0x100 % 0x100) as u8);
    out.push((value / 0x1_0000 % 0x100) as u8);
    out.push((value / 0x100_0000 % 0x100) as u8);
    out.push((value / 0x1_0000_0000 % 0x100) as u8);
    out.push((value / 0x100_0000_0000 % 0x100) as u8);
    out.push((value / 0x1_0000_0000_0000 % 0x100) as u8);
    out.push((value / 0x100_0000_0000_0000 % 0x100) as u8);
    assert(out@ == old(out)@ + fixed64_bytes(value));
}

} // verus!
