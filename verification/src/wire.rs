//! The wire format, as mathematics: what the encoder emits for every value,
//! and what the decoder yields on every byte string. The executable codec in
//! `encode` and `decode` is proved against these definitions.
//!
//! Every value is a 4-byte header `[tag, 0, flags, 0]` followed by a payload;
//! `flags & 1` selects the 8-byte form of Int and Float payloads. Strings are
//! a little-endian byte length, the UTF-8 bytes, and zero padding to a
//! multiple of four. Containers are a little-endian element count followed by
//! the encodings of their elements; dictionary keys are written as strings.

use crate::variant::{dict_keys_unique, dict_put_v, DictView, FloatBits, Rect2, VariantType,
    VariantView, Vector2, Vector3};
use vstd::prelude::*;
use vstd::utf8::encode_utf8;

verus! {

broadcast use vstd::seq::axiom_seq_index_decreases, vstd::seq::axiom_seq_subrange_decreases;

/// The largest element count and string byte length the format can carry:
/// counts and lengths travel as 32-bit signed integers.
pub const WIRE_MAX: u32 = 0x7fffffff;

/// The numeric tag of each variant kind.
pub open spec fn tag_of(t: VariantType) -> u8 {
    match t {
        VariantType::Nil => 0,
        VariantType::Bool => 1,
        VariantType::Int => 2,
        VariantType::Float => 3,
        VariantType::String => 4,
        VariantType::Vector2 => 5,
        VariantType::Rect2 => 6,
        VariantType::Vector3 => 7,
        VariantType::Dictionary => 18,
        VariantType::Array => 19,
    }
}

/// The 4-byte header of a value.
pub open spec fn header_bytes(tag: u8, wide: bool) -> Seq<u8> {
    seq![tag, 0u8, if wide { 1u8 } else { 0u8 }, 0u8]
}

/// Zero padding of the given length.
pub open spec fn zeros(n: int) -> Seq<u8> {
    Seq::new(if n >= 0 { n as nat } else { 0 }, |i: int| 0u8)
}

/// How many zero bytes follow a string payload of `n` bytes.
pub open spec fn pad_len(n: int) -> int {
    (4 - (n % 4)) % 4
}

/// A u32 as four little-endian bytes.
pub open spec fn le4(x: u32) -> Seq<u8> {
    seq![
        (x & 0xff) as u8,
        ((x >> 8) & 0xff) as u8,
        ((x >> 16) & 0xff) as u8,
        ((x >> 24) & 0xff) as u8,
    ]
}

/// A u64 as eight little-endian bytes.
pub open spec fn le8(x: u64) -> Seq<u8> {
    seq![
        (x & 0xff) as u8,
        ((x >> 8) & 0xff) as u8,
        ((x >> 16) & 0xff) as u8,
        ((x >> 24) & 0xff) as u8,
        ((x >> 32) & 0xff) as u8,
        ((x >> 40) & 0xff) as u8,
        ((x >> 48) & 0xff) as u8,
        ((x >> 56) & 0xff) as u8,
    ]
}

/// The wire body of a string: length, UTF-8 bytes, padding to four.
pub open spec fn str_wire(s: Seq<char>) -> Seq<u8> {
    let b = encode_utf8(s);
    le4(b.len() as u32) + b + zeros(pad_len(b.len() as int))
}

/// The wire bytes of a Vector2 payload.
pub open spec fn v2_wire(v: Vector2) -> Seq<u8> {
    le4(v.x) + le4(v.y)
}

/// The full encoding of a value.
pub open spec fn enc(v: VariantView) -> Seq<u8>
    decreases v, 0nat,
{
    match v {
        VariantView::Nil => header_bytes(0, false),
        VariantView::Bool(b) => header_bytes(1, false) + seq![
            if b { 1u8 } else { 0u8 },
            0u8,
            0u8,
            0u8,
        ],
        VariantView::Int(i) => header_bytes(2, true) + le8(i as u64),
        VariantView::Float(FloatBits::Wide(bits)) => header_bytes(3, true) + le8(bits),
        VariantView::Float(FloatBits::Narrow(bits)) => header_bytes(3, false) + le4(bits),
        VariantView::String(s) => header_bytes(4, false) + str_wire(s),
        VariantView::Vector2(v2) => header_bytes(5, false) + v2_wire(v2),
        VariantView::Rect2(r) => header_bytes(6, false) + v2_wire(r.end) + v2_wire(r.position)
            + v2_wire(r.size),
        VariantView::Vector3(v3) => header_bytes(7, false) + le4(v3.x) + le4(v3.y)
            + le4(v3.z),
        VariantView::Dictionary(es) => header_bytes(18, false) + le4(es.len() as u32)
            + enc_entries(es),
        VariantView::Array(a) => header_bytes(19, false) + le4(a.len() as u32)
            + enc_elems(a),
    }
}

/// The concatenated encodings of array elements.
pub open spec fn enc_elems(a: Seq<VariantView>) -> Seq<u8>
    decreases a, 1nat,
{
    if a.len() == 0 {
        Seq::empty()
    } else {
        enc(a[0]) + enc_elems(a.drop_first())
    }
}

/// The concatenated encodings of dictionary entries: each key as a headered
/// string, then the value.
pub open spec fn enc_entries(es: DictView) -> Seq<u8>
    decreases es, 1nat,
{
    if es.len() == 0 {
        Seq::empty()
    } else {
        header_bytes(4, false) + str_wire(es[0].0) + enc(es[0].1) + enc_entries(es.drop_first())
    }
}

/// Whether a value fits the format: string lengths and element counts must
/// fit a 32-bit signed integer, and dictionary keys must be unique.
pub open spec fn encodable(v: VariantView) -> bool
    decreases v, 0nat,
{
    match v {
        VariantView::String(s) => encode_utf8(s).len() <= WIRE_MAX,
        VariantView::Dictionary(es) => es.len() <= WIRE_MAX && dict_keys_unique(es) && (forall|
            i: int,
        |
            0 <= i < es.len() ==> encode_utf8((#[trigger] es[i]).0).len() <= WIRE_MAX) && (forall|
            i: int,
        |
            0 <= i < es.len() ==> encodable((#[trigger] es[i]).1)),
        VariantView::Array(a) => a.len() <= WIRE_MAX && forall|i: int|
            0 <= i < a.len() ==> encodable(#[trigger] a[i]),
        _ => true,
    }
}

/// The decoder's typed failures. A dictionary entry whose key decodes but is
/// not a string is not a failure: the entry is discarded and decoding goes on.
#[derive(Clone, Copy, PartialEq, Eq, Structural, Debug)]
pub enum DecodeError {
    UnknownTag,
    TruncatedInput,
    BadUtf8,
}

/// Bytes left from `pos`, clamped at zero.
pub open spec fn rem(b: Seq<u8>, pos: int) -> nat {
    if pos <= b.len() {
        (b.len() - pos) as nat
    } else {
        0
    }
}

/// The u16 at `pos`, little-endian.
pub open spec fn u16_at(b: Seq<u8>, pos: int) -> u16 {
    (b[pos] as u16) | ((b[pos + 1] as u16) << 8)
}

/// The u32 at `pos`, little-endian.
pub open spec fn u32_at(b: Seq<u8>, pos: int) -> u32 {
    (b[pos] as u32) | ((b[pos + 1] as u32) << 8) | ((b[pos + 2] as u32) << 16) | ((b[pos
        + 3] as u32) << 24)
}

/// The u64 at `pos`, little-endian.
pub open spec fn u64_at(b: Seq<u8>, pos: int) -> u64 {
    (b[pos] as u64) | ((b[pos + 1] as u64) << 8) | ((b[pos + 2] as u64) << 16) | ((b[pos
        + 3] as u64) << 24) | ((b[pos + 4] as u64) << 32) | ((b[pos + 5] as u64) << 40) | ((b[pos
        + 6] as u64) << 48) | ((b[pos + 7] as u64) << 56)
}

/// Decodes the string body at `pos`: the character sequence and the bytes
/// consumed, length word and padding included.
pub open spec fn dec_str(b: Seq<u8>, pos: int) -> Result<(Seq<char>, nat), DecodeError> {
    if pos + 4 > b.len() {
        Err(DecodeError::TruncatedInput)
    } else {
        let n = u32_at(b, pos) as int;
        if n > WIRE_MAX {
            // A negative length in the 32-bit signed field: nothing can satisfy it.
            Err(DecodeError::TruncatedInput)
        } else {
            let padded = n + pad_len(n);
            if pos + 4 + padded > b.len() {
                Err(DecodeError::TruncatedInput)
            } else {
                let bytes = b.subrange(pos + 4, pos + 4 + n);
                if vstd::utf8::valid_utf8(bytes) {
                    Ok((vstd::utf8::decode_utf8(bytes), (4 + padded) as nat))
                } else {
                    Err(DecodeError::BadUtf8)
                }
            }
        }
    }
}

/// Decodes the value at `pos`: its view and the bytes consumed.
pub open spec fn dec(b: Seq<u8>, pos: int) -> Result<(VariantView, nat), DecodeError>
    decreases rem(b, pos), 0int,
{
    if pos + 4 > b.len() {
        Err(DecodeError::TruncatedInput)
    } else {
        let tag = u16_at(b, pos);
        let wide = u16_at(b, pos + 2) & 1 == 1;
        if tag == 0 {
            Ok((VariantView::Nil, 4))
        } else if tag == 1 {
            if pos + 8 > b.len() {
                Err(DecodeError::TruncatedInput)
            } else {
                Ok((VariantView::Bool(b[pos + 4] != 0), 8))
            }
        } else if tag == 2 {
            if wide {
                if pos + 12 > b.len() {
                    Err(DecodeError::TruncatedInput)
                } else {
                    Ok((VariantView::Int(u64_at(b, pos + 4) as i64), 12))
                }
            } else {
                if pos + 8 > b.len() {
                    Err(DecodeError::TruncatedInput)
                } else {
                    Ok((VariantView::Int(u32_at(b, pos + 4) as i32 as i64), 8))
                }
            }
        } else if tag == 3 {
            if wide {
                if pos + 12 > b.len() {
                    Err(DecodeError::TruncatedInput)
                } else {
                    Ok((VariantView::Float(FloatBits::Wide(u64_at(b, pos + 4))), 12))
                }
            } else {
                if pos + 8 > b.len() {
                    Err(DecodeError::TruncatedInput)
                } else {
                    Ok((VariantView::Float(FloatBits::Narrow(u32_at(b, pos + 4))), 8))
                }
            }
        } else if tag == 4 {
            match dec_str(b, pos + 4) {
                Ok((s, used)) => Ok((VariantView::String(s), 4 + used)),
                Err(e) => Err(e),
            }
        } else if tag == 5 {
            if pos + 12 > b.len() {
                Err(DecodeError::TruncatedInput)
            } else {
                Ok(
                    (
                        VariantView::Vector2(
                            Vector2 { x: u32_at(b, pos + 4), y: u32_at(b, pos + 8) },
                        ),
                        12,
                    ),
                )
            }
        } else if tag == 6 {
            if pos + 28 > b.len() {
                Err(DecodeError::TruncatedInput)
            } else {
                Ok(
                    (
                        VariantView::Rect2(
                            Rect2 {
                                end: Vector2 { x: u32_at(b, pos + 4), y: u32_at(b, pos + 8) },
                                position: Vector2 {
                                    x: u32_at(b, pos + 12),
                                    y: u32_at(b, pos + 16),
                                },
                                size: Vector2 { x: u32_at(b, pos + 20), y: u32_at(b, pos + 24) },
                            },
                        ),
                        28,
                    ),
                )
            }
        } else if tag == 7 {
            if pos + 16 > b.len() {
                Err(DecodeError::TruncatedInput)
            } else {
                Ok(
                    (
                        VariantView::Vector3(
                            Vector3 {
                                x: u32_at(b, pos + 4),
                                y: u32_at(b, pos + 8),
                                z: u32_at(b, pos + 12),
                            },
                        ),
                        16,
                    ),
                )
            }
        } else if tag == 18 {
            if pos + 8 > b.len() {
                Err(DecodeError::TruncatedInput)
            } else {
                let count = u32_at(b, pos + 4) as i32;
                if count <= 0 {
                    Ok((VariantView::Dictionary(Seq::empty()), 8))
                } else {
                    match dec_entries(b, pos + 8, count as int, Seq::empty()) {
                        Ok((es, used)) => Ok((VariantView::Dictionary(es), 8 + used)),
                        Err(e) => Err(e),
                    }
                }
            }
        } else if tag == 19 {
            if pos + 8 > b.len() {
                Err(DecodeError::TruncatedInput)
            } else {
                let count = u32_at(b, pos + 4) as i32;
                if count <= 0 {
                    Ok((VariantView::Array(Seq::empty()), 8))
                } else {
                    match dec_elems(b, pos + 8, count as int, Seq::empty()) {
                        Ok((a, used)) => Ok((VariantView::Array(a), 8 + used)),
                        Err(e) => Err(e),
                    }
                }
            }
        } else {
            Err(DecodeError::UnknownTag)
        }
    }
}

/// Decodes `n` dictionary entries starting at `pos`, accumulating onto `acc`;
/// yields the entries and the bytes consumed. An entry whose key is not a
/// string is discarded; a later entry under an existing key replaces it.
pub open spec fn dec_entries(b: Seq<u8>, pos: int, n: int, acc: DictView) -> Result<
    (DictView, nat),
    DecodeError,
>
    decreases rem(b, pos), n,
{
    if n <= 0 {
        Ok((acc, 0))
    } else {
        match dec(b, pos) {
            Err(e) => Err(e),
            Ok((kv, u1)) => match dec(b, pos + u1) {
                Err(e) => Err(e),
                Ok((vv, u2)) => {
                    let acc2 = if kv is String {
                        dict_put_v(acc, kv->String_0, vv)
                    } else {
                        acc
                    };
                    match dec_entries(b, pos + u1 + u2, n - 1, acc2) {
                        Err(e) => Err(e),
                        Ok((es, u3)) => Ok((es, u1 + u2 + u3)),
                    }
                },
            },
        }
    }
}

/// Decodes `n` array elements starting at `pos`, accumulating onto `acc`;
/// yields the elements and the bytes consumed.
pub open spec fn dec_elems(b: Seq<u8>, pos: int, n: int, acc: Seq<VariantView>) -> Result<
    (Seq<VariantView>, nat),
    DecodeError,
>
    decreases rem(b, pos), n,
{
    if n <= 0 {
        Ok((acc, 0))
    } else {
        match dec(b, pos) {
            Err(e) => Err(e),
            Ok((vv, u1)) => match dec_elems(b, pos + u1, n - 1, acc.push(vv)) {
                Err(e) => Err(e),
                Ok((a, u2)) => Ok((a, u1 + u2)),
            },
        }
    }
}

} // verus!
