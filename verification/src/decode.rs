//! The executable decoder, proved to yield exactly `wire::dec` of its input.

use crate::external::bytes_to_string;
use crate::variant::{elems_view, Dictionary, DictView, FloatBits, Rect2, VariantValue, VariantView,
    Vector2, Vector3};
use crate::wire::{dec, dec_elems, dec_entries, dec_str, pad_len, u16_at, u32_at, u64_at,
    DecodeError, WIRE_MAX};
use vstd::prelude::*;

verus! {

broadcast use vstd::std_specs::vec::axiom_vec_index_decreases, vstd::std_specs::vec::axiom_spec_len;

/// Reads the little-endian u16 at `pos`.
fn read_u16_at(b: &Vec<u8>, pos: usize) -> (x: u16)
    requires
        pos + 2 <= b@.len(),
    ensures
        x == u16_at(b@, pos as int),
{
    proof {
        vstd::std_specs::vec::axiom_spec_len(b);
    }
    (b[pos] as u16) | ((b[pos + 1] as u16) << 8)
}

/// Reads the little-endian u32 at `pos`.
fn read_u32_at(b: &Vec<u8>, pos: usize) -> (x: u32)
    requires
        pos + 4 <= b@.len(),
    ensures
        x == u32_at(b@, pos as int),
{
    proof {
        vstd::std_specs::vec::axiom_spec_len(b);
    }
    (b[pos] as u32) | ((b[pos + 1] as u32) << 8) | ((b[pos + 2] as u32) << 16) | ((b[pos
        + 3] as u32) << 24)
}

/// Reads the little-endian u64 at `pos`.
fn read_u64_at(b: &Vec<u8>, pos: usize) -> (x: u64)
    requires
        pos + 8 <= b@.len(),
    ensures
        x == u64_at(b@, pos as int),
{
    proof {
        vstd::std_specs::vec::axiom_spec_len(b);
    }
    (b[pos] as u64) | ((b[pos + 1] as u64) << 8) | ((b[pos + 2] as u64) << 16) | ((b[pos
        + 3] as u64) << 24) | ((b[pos + 4] as u64) << 32) | ((b[pos + 5] as u64) << 40) | ((b[pos
        + 6] as u64) << 48) | ((b[pos + 7] as u64) << 56)
}

/// Reads a string body at `pos`: length word, UTF-8 bytes, padding to four.
fn read_str_at(b: &Vec<u8>, pos: usize) -> (r: Result<(String, usize), DecodeError>)
    requires
        pos <= b@.len(),
    ensures
        match r {
            Ok(pr) => ({
                &&& dec_str(b@, pos as int) == Ok::<(Seq<char>, nat), DecodeError>(
                    (pr.0@, (pr.1 - pos) as nat),
                )
                &&& pos <= pr.1 <= b@.len()
            }),
            Err(e) => dec_str(b@, pos as int) == Err::<(Seq<char>, nat), DecodeError>(e),
        },
{
    let n = b.len();
    if n - pos < 4 {
        return Err(DecodeError::TruncatedInput);
    }
    let len32 = read_u32_at(b, pos);
    if len32 > WIRE_MAX {
        return Err(DecodeError::TruncatedInput);
    }
    let slen = len32 as usize;
    let pad = (4 - (slen % 4)) % 4;
    let padded = slen + pad;
    if n - pos - 4 < padded {
        return Err(DecodeError::TruncatedInput);
    }
    proof {
        assert(pad == pad_len(len32 as int));
    }
    let bytes = vstd::slice::slice_to_vec(
        vstd::slice::slice_subrange(b.as_slice(), pos + 4, pos + 4 + slen),
    );
    match bytes_to_string(bytes) {
        Some(s) => Ok((s, pos + 4 + padded)),
        None => Err(DecodeError::BadUtf8),
    }
}

/// Reads the value at `pos`. On success, also returns the position just past
/// the value.
pub fn read_variant_at(b: &Vec<u8>, pos: usize) -> (r: Result<(VariantValue, usize), DecodeError>)
    requires
        pos <= b@.len(),
    ensures
        match r {
            Ok(pr) => ({
                &&& dec(b@, pos as int) == Ok::<(VariantView, nat), DecodeError>(
                    (pr.0@, (pr.1 - pos) as nat),
                )
                &&& pos <= pr.1 <= b@.len()
            }),
            Err(e) => dec(b@, pos as int) == Err::<(VariantView, nat), DecodeError>(e),
        },
    decreases b@.len() - pos, 0nat,
{
    let n = b.len();
    if n - pos < 4 {
        return Err(DecodeError::TruncatedInput);
    }
    let tag = read_u16_at(b, pos);
    let flags = read_u16_at(b, pos + 2);
    let wide = flags & 1 == 1;
    if tag == 0 {
        Ok((VariantValue::Nil, pos + 4))
    } else if tag == 1 {
        if n - pos < 8 {
            return Err(DecodeError::TruncatedInput);
        }
        let byte = b[pos + 4];
        Ok((VariantValue::Bool(byte != 0), pos + 8))
    } else if tag == 2 {
        if wide {
            if n - pos < 12 {
                return Err(DecodeError::TruncatedInput);
            }
            let x = read_u64_at(b, pos + 4);
            Ok((VariantValue::Int(x as i64), pos + 12))
        } else {
            if n - pos < 8 {
                return Err(DecodeError::TruncatedInput);
            }
            let x = read_u32_at(b, pos + 4);
            Ok((VariantValue::Int(x as i32 as i64), pos + 8))
        }
    } else if tag == 3 {
        if wide {
            if n - pos < 12 {
                return Err(DecodeError::TruncatedInput);
            }
            let x = read_u64_at(b, pos + 4);
            Ok((VariantValue::Float(FloatBits::Wide(x)), pos + 12))
        } else {
            if n - pos < 8 {
                return Err(DecodeError::TruncatedInput);
            }
            let x = read_u32_at(b, pos + 4);
            Ok((VariantValue::Float(FloatBits::Narrow(x)), pos + 8))
        }
    } else if tag == 4 {
        match read_str_at(b, pos + 4) {
            Ok((s, p2)) => Ok((VariantValue::String(s), p2)),
            Err(e) => Err(e),
        }
    } else if tag == 5 {
        if n - pos < 12 {
            return Err(DecodeError::TruncatedInput);
        }
        let x = read_u32_at(b, pos + 4);
        let y = read_u32_at(b, pos + 8);
        Ok((VariantValue::Vector2(Vector2 { x, y }), pos + 12))
    } else if tag == 6 {
        if n - pos < 28 {
            return Err(DecodeError::TruncatedInput);
        }
        let end = Vector2 { x: read_u32_at(b, pos + 4), y: read_u32_at(b, pos + 8) };
        let position = Vector2 { x: read_u32_at(b, pos + 12), y: read_u32_at(b, pos + 16) };
        let size = Vector2 { x: read_u32_at(b, pos + 20), y: read_u32_at(b, pos + 24) };
        Ok((VariantValue::Rect2(Rect2 { end, position, size }), pos + 28))
    } else if tag == 7 {
        if n - pos < 16 {
            return Err(DecodeError::TruncatedInput);
        }
        let v3 = Vector3 {
            x: read_u32_at(b, pos + 4),
            y: read_u32_at(b, pos + 8),
            z: read_u32_at(b, pos + 12),
        };
        Ok((VariantValue::Vector3(v3), pos + 16))
    } else if tag == 18 {
        if n - pos < 8 {
            return Err(DecodeError::TruncatedInput);
        }
        let count_u = read_u32_at(b, pos + 4);
        let count_i = count_u as i32;
        if count_i <= 0 {
            let d = Dictionary::new();
            proof {
                assert(d@ =~= Seq::<(Seq<char>, VariantView)>::empty());
            }
            return Ok((VariantValue::Dictionary(d), pos + 8));
        }
        let count = count_i as usize;
        match read_entries(b, pos + 8, count) {
            Ok((d, p2)) => Ok((VariantValue::Dictionary(d), p2)),
            Err(e) => Err(e),
        }
    } else if tag == 19 {
        if n - pos < 8 {
            return Err(DecodeError::TruncatedInput);
        }
        let count_u = read_u32_at(b, pos + 4);
        let count_i = count_u as i32;
        if count_i <= 0 {
            let arr: Vec<VariantValue> = Vec::new();
            proof {
                assert(elems_view(arr) =~= Seq::<VariantView>::empty());
            }
            return Ok((VariantValue::Array(arr), pos + 8));
        }
        let count = count_i as usize;
        match read_elems(b, pos + 8, count) {
            Ok((arr, p2)) => Ok((VariantValue::Array(arr), p2)),
            Err(e) => Err(e),
        }
    } else {
        Err(DecodeError::UnknownTag)
    }
}


/// Reads `count` dictionary entries starting at `pos`, building the map in
/// wire order. An entry whose key is not a string is discarded.
fn read_entries(b: &Vec<u8>, pos: usize, count: usize) -> (r: Result<
    (Dictionary, usize),
    DecodeError,
>)
    requires
        pos <= b@.len(),
        1 <= count,
    ensures
        match r {
            Ok(pr) => ({
                &&& dec_entries(b@, pos as int, count as int, Seq::empty()) == Ok::<
                    (DictView, nat),
                    DecodeError,
                >((pr.0@, (pr.1 - pos) as nat))
                &&& pos <= pr.1 <= b@.len()
            }),
            Err(e) => dec_entries(b@, pos as int, count as int, Seq::empty()) == Err::<
                (DictView, nat),
                DecodeError,
            >(e),
        },
    decreases b@.len() - pos, 1nat,
{
    let mut d = Dictionary::new();
    let mut cur = pos;
    let mut i: usize = 0;
    proof {
        assert(d@ =~= Seq::<(Seq<char>, VariantView)>::empty());
    }
    while i < count
        invariant
            pos <= cur <= b@.len(),
            i <= count,
            dec_entries(b@, pos as int, count as int, Seq::empty()) == (match dec_entries(
                b@,
                cur as int,
                count - i,
                d@,
            ) {
                Ok((es, u)) => Ok::<(DictView, nat), DecodeError>((es, ((cur - pos) + u) as nat)),
                Err(e) => Err(e),
            }),
        decreases count - i,
    {
        let ghost pre_d = d@;
        let ghost pre_cur = cur as int;
        let (key, p1) = match read_variant_at(b, cur) {
            Ok(pr) => pr,
            Err(e) => {
                return Err(e);
            },
        };
        let (value, p2) = match read_variant_at(b, p1) {
            Ok(pr) => pr,
            Err(e) => {
                return Err(e);
            },
        };
        match key {
            VariantValue::String(ks) => {
                d.insert(ks, value);
            },
            _ => {},
        }
        proof {
            assert(dec_entries(b@, pre_cur, count - i, pre_d) == (match dec_entries(
                b@,
                p2 as int,
                count - (i + 1),
                d@,
            ) {
                Ok((es, u)) => Ok::<(DictView, nat), DecodeError>(
                    (es, ((p1 - pre_cur) + (p2 - p1) + u) as nat),
                ),
                Err(e) => Err(e),
            }));
        }
        cur = p2;
        i += 1;
    }
    proof {
        assert(dec_entries(b@, cur as int, 0, d@) == Ok::<(DictView, nat), DecodeError>((d@, 0nat)));
    }
    Ok((d, cur))
}

/// Reads `count` array elements starting at `pos`, in wire order.
fn read_elems(b: &Vec<u8>, pos: usize, count: usize) -> (r: Result<
    (Vec<VariantValue>, usize),
    DecodeError,
>)
    requires
        pos <= b@.len(),
        1 <= count,
    ensures
        match r {
            Ok(pr) => ({
                &&& dec_elems(b@, pos as int, count as int, Seq::empty()) == Ok::<
                    (Seq<VariantView>, nat),
                    DecodeError,
                >((elems_view(pr.0), (pr.1 - pos) as nat))
                &&& pos <= pr.1 <= b@.len()
            }),
            Err(e) => dec_elems(b@, pos as int, count as int, Seq::empty()) == Err::<
                (Seq<VariantView>, nat),
                DecodeError,
            >(e),
        },
    decreases b@.len() - pos, 1nat,
{
    let mut arr: Vec<VariantValue> = Vec::new();
    let mut cur = pos;
    let mut i: usize = 0;
    proof {
        assert(elems_view(arr) =~= Seq::<VariantView>::empty());
    }
    while i < count
        invariant
            pos <= cur <= b@.len(),
            i <= count,
            dec_elems(b@, pos as int, count as int, Seq::empty()) == (match dec_elems(
                b@,
                cur as int,
                count - i,
                elems_view(arr),
            ) {
                Ok((es, u)) => Ok::<(Seq<VariantView>, nat), DecodeError>(
                    (es, ((cur - pos) + u) as nat),
                ),
                Err(e) => Err(e),
            }),
        decreases count - i,
    {
        let ghost pre_a = elems_view(arr);
        let ghost pre_cur = cur as int;
        let (value, p1) = match read_variant_at(b, cur) {
            Ok(pr) => pr,
            Err(e) => {
                return Err(e);
            },
        };
        arr.push(value);
        proof {
            assert(elems_view(arr) =~= pre_a.push(value@));
            assert(dec_elems(b@, pre_cur, count - i, pre_a) == (match dec_elems(
                b@,
                p1 as int,
                count - (i + 1),
                elems_view(arr),
            ) {
                Ok((es, u)) => Ok::<(Seq<VariantView>, nat), DecodeError>(
                    (es, ((p1 - pre_cur) + u) as nat),
                ),
                Err(e) => Err(e),
            }));
        }
        cur = p1;
        i += 1;
    }
    proof {
        assert(dec_elems(b@, cur as int, 0, elems_view(arr)) == Ok::<
            (Seq<VariantView>, nat),
            DecodeError,
        >((elems_view(arr), 0nat)));
    }
    Ok((arr, cur))
}

/// Decodes the value at the head of a buffer. Bytes past the first value are
/// ignored, as the transport may pad its frames.
pub fn decode_variant(buffer: &Vec<u8>) -> (r: Result<VariantValue, DecodeError>)
    ensures
        match r {
            Ok(v) => ({
                &&& dec(buffer@, 0) matches Ok(pr)
                &&& dec(buffer@, 0)->Ok_0.0 == v@
            }),
            Err(e) => dec(buffer@, 0) == Err::<(VariantView, nat), DecodeError>(e),
        },
{
    match read_variant_at(buffer, 0) {
        Ok((v, _)) => Ok(v),
        Err(e) => Err(e),
    }
}

} // verus!
