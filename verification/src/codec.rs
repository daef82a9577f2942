//! The trade record on the wire.
//!
//! A record is a sequence of tagged fields: the symbol as a length-delimited
//! string under tag 1, the price and the quantity as 64-bit values under tags
//! 2 and 3, the event time as a varint under tag 4. Fields may come in any
//! order and more than once, in which case the last one counts; a field that
//! is absent has its zero value; a field under any other tag is stepped over,
//! so that a reader of today takes the records of a later writer.

use crate::record::{TradeRecord, TradeView};
use crate::wire::{
    delimited, fixed64, fixed64_bytes, key, key_bytes, lemma_fixed64_reads_back, lemma_key_bounds,
    lemma_key_reads_back, lemma_skip_field_bounds, lemma_stands_at_split, lemma_varint_bounds,
    lemma_varint_reads_back, pass_field, read_delimited, read_fixed64, read_key, read_varint,
    skip_field, stands_at, varint, varint_bytes, write_fixed64, write_varint, DecodeError,
    WireType,
};
use vstd::prelude::*;
use vstd::slice::{slice_subrange, slice_to_vec};
use vstd::utf8::{decode_utf8, encode_utf8, valid_utf8};

verus! {

/// The tag of the symbol.
pub const SYMBOL_TAG: u32 = 1;

/// The tag of the price.
pub const PRICE_TAG: u32 = 2;

/// The tag of the quantity.
pub const QUANTITY_TAG: u32 = 3;

/// The tag of the event time.
pub const EVENT_TIME_TAG: u32 = 4;

/// The record that an empty payload stands for: every field at its zero value.
pub open spec fn blank() -> TradeView {
    TradeView { symbol: Seq::empty(), price: 0, quantity: 0, event_time: 0 }
}

/// The record `into` after the field whose key gave `tag` and `wire_type` and whose value stands
/// at `at` is read into it, and the position after that value.
pub open spec fn merge_field(
    bytes: Seq<u8>,
    at: int,
    tag: u32,
    wire_type: WireType,
    into: TradeView,
) -> Result<(TradeView, int), DecodeError> {
    if tag == SYMBOL_TAG {
        if wire_type != WireType::LengthDelimited {
            Err(DecodeError::UnexpectedWireType)
        } else {
            match delimited(bytes, at) {
                Err(e) => Err(e),
                Ok((start, end)) => if valid_utf8(bytes.subrange(start, end)) {
                    Ok((TradeView { symbol: decode_utf8(bytes.subrange(start, end)), ..into }, end))
                } else {
                    Err(DecodeError::InvalidUtf8)
                },
            }
        }
    } else if tag == PRICE_TAG || tag == QUANTITY_TAG {
        if wire_type != WireType::SixtyFourBit {
            Err(DecodeError::UnexpectedWireType)
        } else {
            match fixed64(bytes, at) {
                None => Err(DecodeError::BufferUnderflow),
                Some(bits) => if tag == PRICE_TAG {
                    Ok((TradeView { price: bits, ..into }, at + 8))
                } else {
                    Ok((TradeView { quantity: bits, ..into }, at + 8))
                },
            }
        }
    } else if tag == EVENT_TIME_TAG {
        if wire_type != WireType::Varint {
            Err(DecodeError::UnexpectedWireType)
        } else {
            match varint(bytes, at) {
                None => Err(DecodeError::InvalidVarint),
                Some((millis, end)) => Ok((TradeView { event_time: millis as u64, ..into }, end)),
            }
        }
    } else {
        match skip_field(bytes, at, wire_type, tag) {
            Err(e) => Err(e),
            Ok(end) => Ok((into, end)),
        }
    }
}

/// The record `into` after all the fields from `at` to the end of the payload are read into it.
pub open spec fn merge_from(bytes: Seq<u8>, at: int, into: TradeView) -> Result<
    TradeView,
    DecodeError,
>
    decreases bytes.len() - at,
    when 0 <= at <= bytes.len()
{
    if at >= bytes.len() {
        Ok(into)
    } else {
        match key(bytes, at) {
            Err(e) => Err(e),
            Ok((tag, wire_type, next)) => {
                proof {
                    lemma_key_bounds(bytes, at);
                    lemma_merge_field_bounds(bytes, next, tag, wire_type, into);
                }
                match merge_field(bytes, next, tag, wire_type, into) {
                    Err(e) => Err(e),
                    Ok((merged, after)) => merge_from(bytes, after, merged),
                }
            },
        }
    }
}

/// The record that a payload holds, or why it holds none.
pub open spec fn decoded(bytes: Seq<u8>) -> Result<TradeView, DecodeError> {
    merge_from(bytes, 0, blank())
}

/// A field's value ends at or after where it starts, inside the payload.
pub proof fn lemma_merge_field_bounds(
    bytes: Seq<u8>,
    at: int,
    tag: u32,
    wire_type: WireType,
    into: TradeView,
)
    requires
        0 <= at <= bytes.len(),
    ensures
        merge_field(bytes, at, tag, wire_type, into) matches Ok((_, end)) ==> at <= end
            <= bytes.len(),
{
    lemma_varint_bounds(bytes, at);
    lemma_skip_field_bounds(bytes, at, wire_type, tag);
}

/// Calls `String::from_utf8` of std. It gives a string exactly when the bytes are well-formed
/// UTF-8, and the string then holds the characters that the bytes encode.
#[verifier::external_body]
fn text_from_utf8(bytes: Vec<u8>) -> (text: Option<String>)
    ensures
        text is Some <==> valid_utf8(bytes@),
        text matches Some(s) ==> s@ == decode_utf8(bytes@),
{
    String::from_utf8(bytes).ok()
}

/// Decodes a trade record from a payload of the log. Fails on a malformed payload, with the
/// first fault met from the front.
pub fn decode(payload: &[u8]) -> (outcome: Result<TradeRecord, DecodeError>)
    ensures
        match outcome {
            Ok(trade) => decoded(payload@) == Ok::<_, DecodeError>(trade@),
            Err(e) => decoded(payload@) == Err::<TradeView, _>(e),
        },
{
    let mut symbol: String = String::new();
    let mut price: u64 = 0;
    let mut quantity: u64 = 0;
    let mut event_time: u64 = 0;
    let mut position: usize = 0;
    while position < payload.len()
        invariant
            position <= payload@.len(),
            decoded(payload@) == merge_from(
                payload@,
                position as int,
                TradeView { symbol: symbol@, price, quantity, event_time },
            ),
        decreases payload@.len() - position,
    {
        let ghost into = TradeView { symbol: symbol@, price, quantity, event_time };
        proof {
            lemma_key_bounds(payload@, position as int);
        }
        let (tag, wire_type, next) = match read_key(payload, position) {
            Ok(found) => found,
            Err(e) => {
                return Err(e);
            },
        };
        proof {
            lemma_merge_field_bounds(payload@, next as int, tag, wire_type, into);
            lemma_varint_bounds(payload@, next as int);
        }
        if tag == SYMBOL_TAG {
            match wire_type {
                WireType::LengthDelimited => {},
                _ => {
                    return Err(DecodeError::UnexpectedWireType);
                },
            }
            let (start, end) = match read_delimited(payload, next) {
                Ok(found) => found,
                Err(e) => {
                    return Err(e);
                },
            };
            let raw = slice_to_vec(slice_subrange(payload, start, end));
            match text_from_utf8(raw) {
                Some(text) => {
                    symbol = text;
                },
                None => {
                    return Err(DecodeError::InvalidUtf8);
                },
            }
            position = end;
        } else if tag == PRICE_TAG || tag == QUANTITY_TAG {
            match wire_type {
                WireType::SixtyFourBit => {},
                _ => {
                    return Err(DecodeError::UnexpectedWireType);
                },
            }
            match read_fixed64(payload, next) {
                Some(bits) => {
                    if tag == PRICE_TAG {
                        price = bits;
                    } else {
                        quantity = bits;
                    }
                },
                None => {
                    return Err(DecodeError::BufferUnderflow);
                },
            }
            position = next + 8;
        } else if tag == EVENT_TIME_TAG {
            match wire_type {
                WireType::Varint => {},
                _ => {
                    return Err(DecodeError::UnexpectedWireType);
                },
            }
            match read_varint(payload, next) {
                Some((millis, end)) => {
                    event_time = millis;
                    position = end;
                },
                None => {
                    return Err(DecodeError::InvalidVarint);
                },
            }
        } else {
            match pass_field(payload, next, wire_type, tag) {
                Ok(end) => {
                    position = end;
                },
                Err(e) => {
                    return Err(e);
                },
            }
        }
    }
    Ok(TradeRecord { symbol, price, quantity, event_time })
}

/// Whether a binary64 bit pattern is a zero, of either sign: the number that a writer leaves
/// out.
pub open spec fn is_zero_number(bits: u64) -> bool {
    bits == 0 || bits == 0x8000_0000_0000_0000
}

/// The symbol's field; nothing for an empty symbol.
pub open spec fn symbol_field(symbol: Seq<char>) -> Seq<u8> {
    if symbol.len() == 0 {
        Seq::empty()
    } else {
        key_bytes(SYMBOL_TAG, WireType::LengthDelimited) + varint_bytes(encode_utf8(symbol).len())
            + encode_utf8(symbol)
    }
}

/// The field of a price or a quantity under `tag`; nothing for a zero.
pub open spec fn number_field(tag: u32, bits: u64) -> Seq<u8> {
    if is_zero_number(bits) {
        Seq::empty()
    } else {
        key_bytes(tag, WireType::SixtyFourBit) + fixed64_bytes(bits)
    }
}

/// The event time's field; nothing for zero.
pub open spec fn event_time_field(event_time: u64) -> Seq<u8> {
    if event_time == 0 {
        Seq::empty()
    } else {
        key_bytes(EVENT_TIME_TAG, WireType::Varint) + varint_bytes(event_time as nat)
    }
}

/// The payload that a writer makes of a record: its fields in the order of their tags, those at
/// their zero value left out.
pub open spec fn encoded(trade: TradeView) -> Seq<u8> {
    symbol_field(trade.symbol) + number_field(PRICE_TAG, trade.price) + number_field(
        QUANTITY_TAG,
        trade.quantity,
    ) + event_time_field(trade.event_time)
}

/// The record that comes back when `trade` has gone over the wire: the same, but that a negative
/// zero, which the writer leaves out like any zero, comes back positive.
pub open spec fn canonical(trade: TradeView) -> TradeView {
    TradeView {
        symbol: trade.symbol,
        price: if is_zero_number(trade.price) {
            0
        } else {
            trade.price
        },
        quantity: if is_zero_number(trade.quantity) {
            0
        } else {
            trade.quantity
        },
        event_time: trade.event_time,
    }
}

/// A symbol's field that stands at `at` is read into the record, and reading goes on after it.
proof fn lemma_symbol_reads_back(bytes: Seq<u8>, at: int, into: TradeView, symbol: Seq<char>)
    requires
        stands_at(bytes, at, symbol_field(symbol)),
        encode_utf8(symbol).len() <= u64::MAX,
        into.symbol.len() == 0,
    ensures
        merge_from(bytes, at, into) == merge_from(
            bytes,
            at + symbol_field(symbol).len(),
            (TradeView { symbol, ..into }),
        ),
{
    if symbol.len() == 0 {
        assert(symbol =~= into.symbol);
        return ;
    }
    let text = encode_utf8(symbol);
    let head = key_bytes(SYMBOL_TAG, WireType::LengthDelimited);
    let length = varint_bytes(text.len());
    lemma_stands_at_split(bytes, at, head + length, text);
    lemma_stands_at_split(bytes, at, head, length);
    lemma_key_reads_back(bytes, at, SYMBOL_TAG, WireType::LengthDelimited);
    lemma_varint_reads_back(bytes, at + 1, text.len() as u64);
    let start = at + 1 + length.len();
    assert(bytes.subrange(start, start + text.len()) =~= text);
    vstd::utf8::encode_utf8_valid_utf8(symbol);
    vstd::utf8::encode_utf8_decode_utf8(symbol);
    assert(merge_field(bytes, at + 1, SYMBOL_TAG, WireType::LengthDelimited, into) == Ok::<
        _,
        DecodeError,
    >((TradeView { symbol, ..into }, start + text.len())));
}

/// The record `into` with the price or the quantity, whichever `tag` names, set to what comes
/// back of `bits`.
spec fn with_number(into: TradeView, tag: u32, bits: u64) -> TradeView {
    let number = if is_zero_number(bits) {
        0
    } else {
        bits
    };
    if tag == PRICE_TAG {
        TradeView { price: number, ..into }
    } else {
        TradeView { quantity: number, ..into }
    }
}

/// A price's or a quantity's field that stands at `at` is read into the record.
proof fn lemma_number_reads_back(bytes: Seq<u8>, at: int, into: TradeView, tag: u32, bits: u64)
    requires
        stands_at(bytes, at, number_field(tag, bits)),
        tag == PRICE_TAG || tag == QUANTITY_TAG,
        into.price == 0 || tag != PRICE_TAG,
        into.quantity == 0 || tag != QUANTITY_TAG,
    ensures
        merge_from(bytes, at, into) == merge_from(
            bytes,
            at + number_field(tag, bits).len(),
            with_number(into, tag, bits),
        ),
{
    if is_zero_number(bits) {
        return ;
    }
    let head = key_bytes(tag, WireType::SixtyFourBit);
    lemma_stands_at_split(bytes, at, head, fixed64_bytes(bits));
    lemma_key_reads_back(bytes, at, tag, WireType::SixtyFourBit);
    lemma_fixed64_reads_back(bytes, at + 1, bits);
}

/// An event time's field that stands at `at` is read into the record.
proof fn lemma_event_time_reads_back(bytes: Seq<u8>, at: int, into: TradeView, event_time: u64)
    requires
        stands_at(bytes, at, event_time_field(event_time)),
        into.event_time == 0,
    ensures
        merge_from(bytes, at, into) == merge_from(
            bytes,
            at + event_time_field(event_time).len(),
            (TradeView { event_time, ..into }),
        ),
{
    if event_time == 0 {
        return ;
    }
    let head = key_bytes(EVENT_TIME_TAG, WireType::Varint);
    lemma_stands_at_split(bytes, at, head, varint_bytes(event_time as nat));
    lemma_key_reads_back(bytes, at, EVENT_TIME_TAG, WireType::Varint);
    lemma_varint_reads_back(bytes, at + 1, event_time);
}

/// The four fields of a payload stand in it one after the other.
proof fn lemma_fields_stand(trade: TradeView)
    ensures
        ({
            let bytes = encoded(trade);
            let symbol = symbol_field(trade.symbol);
            let price = number_field(PRICE_TAG, trade.price);
            let quantity = number_field(QUANTITY_TAG, trade.quantity);
            let event_time = event_time_field(trade.event_time);
            &&& stands_at(bytes, 0, symbol)
            &&& stands_at(bytes, symbol.len() as int, price)
            &&& stands_at(bytes, (symbol.len() + price.len()) as int, quantity)
            &&& stands_at(
                bytes,
                (symbol.len() + price.len() + quantity.len()) as int,
                event_time,
            )
            &&& bytes.len() == symbol.len() + price.len() + quantity.len() + event_time.len()
        }),
{
    let bytes = encoded(trade);
    let symbol = symbol_field(trade.symbol);
    let price = number_field(PRICE_TAG, trade.price);
    let quantity = number_field(QUANTITY_TAG, trade.quantity);
    let event_time = event_time_field(trade.event_time);
    assert(stands_at(bytes, 0, ((symbol + price) + quantity) + event_time));
    lemma_stands_at_split(bytes, 0, (symbol + price) + quantity, event_time);
    lemma_stands_at_split(bytes, 0, symbol + price, quantity);
    lemma_stands_at_split(bytes, 0, symbol, price);
}

/// What a writer encodes, a reader decodes: the payload of a record decodes without error to
/// that record, up to the sign of a zero price or quantity. The symbol must be short enough for
/// its length to be written, which every string in memory is.
pub proof fn lemma_decode_inverts_encode(trade: TradeView)
    requires
        encode_utf8(trade.symbol).len() <= u64::MAX,
    ensures
        decoded(encoded(trade)) == Ok::<_, DecodeError>(canonical(trade)),
{
    let bytes = encoded(trade);
    let after_symbol = symbol_field(trade.symbol).len() as int;
    let after_price = after_symbol + number_field(PRICE_TAG, trade.price).len();
    let after_quantity = after_price + number_field(QUANTITY_TAG, trade.quantity).len();
    let with_symbol = TradeView { symbol: trade.symbol, ..blank() };
    let with_price = TradeView { price: canonical(trade).price, ..with_symbol };
    let with_quantity = TradeView { quantity: canonical(trade).quantity, ..with_price };
    lemma_fields_stand(trade);
    lemma_symbol_reads_back(bytes, 0, blank(), trade.symbol);
    lemma_number_reads_back(bytes, after_symbol, with_symbol, PRICE_TAG, trade.price);
    lemma_number_reads_back(bytes, after_price, with_price, QUANTITY_TAG, trade.quantity);
    lemma_event_time_reads_back(bytes, after_quantity, with_quantity, trade.event_time);
    assert(TradeView { event_time: trade.event_time, ..with_quantity } == canonical(trade));
    assert(merge_from(bytes, bytes.len() as int, canonical(trade)) == Ok::<_, DecodeError>(
        canonical(trade),
    ));
}

fn write_bytes(source: &[u8], out: &mut Vec<u8>)
    ensures
        final(out)@ == old(out)@ + source@,
{
    let mut i: usize = 0;
    while i < source.len()
        invariant
            i <= source@.len(),
            out@ == old(out)@ + source@.subrange(0, i as int),
        decreases source@.len() - i,
    {
        out.push(source[i]);
        i += 1;
    }
}

/// Encodes a trade record for the log.
pub fn encode(trade: &TradeRecord) -> (payload: Vec<u8>)
    ensures
        payload@ == encoded(trade@),
{
    let mut payload: Vec<u8> = Vec::new();
    let text = trade.symbol.as_str();
    if !text.is_empty() {
        let raw = text.as_bytes();
        write_varint(0x0a, &mut payload);
        write_varint(raw.len() as u64, &mut payload);
        write_bytes(raw, &mut payload);
    }
    assert(payload@ == symbol_field(trade@.symbol));
    if trade.price != 0 && trade.price != 0x8000_0000_0000_0000 {
        write_varint(0x11, &mut payload);
        write_fixed64(trade.price, &mut payload);
    }
    assert(payload@ == symbol_field(trade@.symbol) + number_field(PRICE_TAG, trade.price));
    if trade.quantity != 0 && trade.quantity != 0x8000_0000_0000_0000 {
        write_varint(0x19, &mut payload);
        write_fixed64(trade.quantity, &mut payload);
    }
    assert(payload@ == symbol_field(trade@.symbol) + number_field(PRICE_TAG, trade.price)
        + number_field(QUANTITY_TAG, trade.quantity));
    if trade.event_time != 0 {
        write_varint(0x20, &mut payload);
        write_varint(trade.event_time, &mut payload);
    }
    payload
}

} // verus!
