//! The executable encoder, proved to emit exactly `wire::enc` of its input.

use crate::variant::{elems_view, entries_view, Dictionary, DictView, VariantValue, VariantView};
use crate::wire::{enc, enc_elems, enc_entries, encodable, header_bytes, le4, le8, pad_len,
    str_wire, zeros, WIRE_MAX};
use vstd::prelude::*;

verus! {

broadcast use vstd::std_specs::vec::axiom_vec_index_decreases, vstd::seq::axiom_seq_index_decreases;

/// The encoder's one failure: a string or container too large for the
/// format's 32-bit signed length fields, or a dictionary with a repeated key.
#[derive(Clone, Copy, PartialEq, Eq, Structural, Debug)]
pub enum EncodeError {
    TooLong,
}

/// Extends `enc_elems` over a sequence's prefix by one element.
proof fn lemma_enc_elems_step(s: Seq<VariantView>, j: int)
    requires
        0 <= j < s.len(),
    ensures
        enc_elems(s.take(j + 1)) == enc_elems(s.take(j)) + enc(s[j]),
    decreases j,
{
    let a = s.take(j + 1);
    let b = s.take(j);
    if j == 0 {
        assert(a.drop_first() =~= Seq::<VariantView>::empty());
        assert(enc_elems(a) == enc(s[0]) + enc_elems(a.drop_first()));
        assert(enc_elems(b) == Seq::<u8>::empty());
        assert(enc_elems(b) + enc(s[0]) =~= enc(s[0]) + enc_elems(a.drop_first()));
    } else {
        lemma_enc_elems_step(s.drop_first(), j - 1);
        assert(a.drop_first() =~= s.drop_first().take(j));
        assert(b.drop_first() =~= s.drop_first().take(j - 1));
        assert(a[0] == s[0] && b[0] == s[0]);
        assert(enc_elems(a) == enc(s[0]) + enc_elems(s.drop_first().take(j)));
        assert(enc_elems(b) == enc(s[0]) + enc_elems(s.drop_first().take(j - 1)));
        assert(s.drop_first()[j - 1] == s[j]);
        assert(enc(s[0]) + (enc_elems(s.drop_first().take(j - 1)) + enc(s[j])) =~= (enc(s[0])
            + enc_elems(s.drop_first().take(j - 1))) + enc(s[j]));
    }
}

/// Extends `enc_entries` over a prefix by one entry.
proof fn lemma_enc_entries_step(s: DictView, j: int)
    requires
        0 <= j < s.len(),
    ensures
        enc_entries(s.take(j + 1)) == enc_entries(s.take(j)) + (header_bytes(4, false) + str_wire(
            s[j].0,
        ) + enc(s[j].1)),
    decreases j,
{
    let a = s.take(j + 1);
    let b = s.take(j);
    if j == 0 {
        assert(a.drop_first() =~= DictView::empty());
        assert(enc_entries(a) == header_bytes(4, false) + str_wire(a[0].0) + enc(a[0].1)
            + enc_entries(a.drop_first()));
        assert(a[0] == s[0]);
        assert(enc_entries(b) + (header_bytes(4, false) + str_wire(s[0].0) + enc(s[0].1))
            =~= header_bytes(4, false) + str_wire(s[0].0) + enc(s[0].1) + enc_entries(
            a.drop_first(),
        ));
    } else {
        lemma_enc_entries_step(s.drop_first(), j - 1);
        assert(a.drop_first() =~= s.drop_first().take(j));
        assert(b.drop_first() =~= s.drop_first().take(j - 1));
        assert(a[0] == s[0] && b[0] == s[0]);
        assert(s.drop_first()[j - 1] == s[j]);
        let h = header_bytes(4, false) + str_wire(s[0].0) + enc(s[0].1);
        let e = header_bytes(4, false) + str_wire(s[j].0) + enc(s[j].1);
        assert(enc_entries(a) == h + enc_entries(s.drop_first().take(j)));
        assert(enc_entries(b) == h + enc_entries(s.drop_first().take(j - 1)));
        assert(h + (enc_entries(s.drop_first().take(j - 1)) + e) =~= (h + enc_entries(
            s.drop_first().take(j - 1),
        )) + e);
    }
}

/// Appends a little-endian u32.
fn append_le32(out: &mut Vec<u8>, x: u32)
    ensures
        final(out)@ == old(out)@ + le4(x),
{
    let ghost pre = out@;
    out.push((x & 0xff) as u8);
    out.push(((x >> 8) & 0xff) as u8);
    out.push(((x >> 16) & 0xff) as u8);
    out.push(((x >> 24) & 0xff) as u8);
    proof {
        assert(out@ =~= pre + le4(x));
    }
}

/// Appends a little-endian u64.
fn append_le64(out: &mut Vec<u8>, x: u64)
    ensures
        final(out)@ == old(out)@ + le8(x),
{
    let ghost pre = out@;
    out.push((x & 0xff) as u8);
    out.push(((x >> 8) & 0xff) as u8);
    out.push(((x >> 16) & 0xff) as u8);
    out.push(((x >> 24) & 0xff) as u8);
    out.push(((x >> 32) & 0xff) as u8);
    out.push(((x >> 40) & 0xff) as u8);
    out.push(((x >> 48) & 0xff) as u8);
    out.push(((x >> 56) & 0xff) as u8);
    proof {
        assert(out@ =~= pre + le8(x));
    }
}

/// Appends a value header.
fn append_header(out: &mut Vec<u8>, tag: u8, wide: bool)
    ensures
        final(out)@ == old(out)@ + header_bytes(tag, wide),
{
    let ghost pre = out@;
    out.push(tag);
    out.push(0);
    out.push(if wide {
        1
    } else {
        0
    });
    out.push(0);
    proof {
        assert(out@ =~= pre + header_bytes(tag, wide));
    }
}

/// Appends a string body: length word, UTF-8 bytes, zero padding to four.
fn append_str_body(out: &mut Vec<u8>, s: &String) -> (r: Result<(), EncodeError>)
    ensures
        match r {
            Ok(()) => vstd::utf8::encode_utf8(s@).len() <= WIRE_MAX && final(out)@ == old(out)@
                + str_wire(s@),
            Err(_) => vstd::utf8::encode_utf8(s@).len() > WIRE_MAX,
        },
{
    let ghost pre = out@;
    let mut bytes = s.as_str().as_bytes_vec();
    let n = bytes.len();
    if n > WIRE_MAX as usize {
        return Err(EncodeError::TooLong);
    }
    append_le32(out, n as u32);
    out.append(&mut bytes);
    let pad = (4 - (n % 4)) % 4;
    let ghost mid = out@;
    let mut k: usize = 0;
    while k < pad
        invariant
            k <= pad,
            pad < 4,
            out@ == mid + zeros(k as int),
        decreases pad - k,
    {
        out.push(0);
        proof {
            assert(out@ =~= mid + zeros(k + 1));
        }
        k += 1;
    }
    proof {
        assert(pad == pad_len(n as int));
        assert(out@ =~= pre + str_wire(s@));
    }
    Ok(())
}

/// Whether a dictionary's keys are pairwise distinct, checked by scanning.
fn dictionary_keys_unique(d: &Dictionary) -> (r: bool)
    ensures
        r == crate::variant::dict_keys_unique(d@),
{
    let n = d.entries.len();
    let mut i: usize = 0;
    while i < n
        invariant
            i <= n,
            n == d@.len(),
            n == d.entries@.len(),
            forall|p: int, q: int| 0 <= p < q < d@.len() && p < i ==> d@[p].0 != d@[q].0,
        decreases n - i,
    {
        let mut j: usize = i + 1;
        while j < n
            invariant
                i < j <= n,
                n == d@.len(),
                n == d.entries@.len(),
                forall|q: int| i < q < j ==> d@[i as int].0 != d@[q].0,
            decreases n - j,
        {
            if crate::external::str_eq(d.entries[i].0.as_str(), d.entries[j].0.as_str()) {
                proof {
                    assert(d@[i as int].0 == d@[j as int].0);
                    assert(!crate::variant::dict_keys_unique(d@));
                }
                return false;
            }
            j += 1;
        }
        i += 1;
    }
    true
}

/// Encodes one value onto the end of `out`.
fn write_variant(out: &mut Vec<u8>, v: &VariantValue) -> (r: Result<(), EncodeError>)
    ensures
        match r {
            Ok(()) => encodable(v@) && final(out)@ == old(out)@ + enc(v@),
            Err(_) => !encodable(v@),
        },
    decreases v@, 1nat,
{
    let ghost pre = out@;
    match v {
        VariantValue::Nil => {
            append_header(out, 0, false);
            Ok(())
        },
        VariantValue::Bool(b) => {
            append_header(out, 1, false);
            out.push(if *b {
                1
            } else {
                0
            });
            out.push(0);
            out.push(0);
            out.push(0);
            proof {
                assert(out@ =~= pre + enc(v@));
            }
            Ok(())
        },
        VariantValue::Int(i) => {
            append_header(out, 2, true);
            append_le64(out, *i as u64);
            proof {
                assert(out@ =~= pre + enc(v@));
            }
            Ok(())
        },
        VariantValue::Float(f) => {
            match f {
                crate::variant::FloatBits::Wide(bits) => {
                    append_header(out, 3, true);
                    append_le64(out, *bits);
                },
                crate::variant::FloatBits::Narrow(bits) => {
                    append_header(out, 3, false);
                    append_le32(out, *bits);
                },
            }
            proof {
                assert(out@ =~= pre + enc(v@));
            }
            Ok(())
        },
        VariantValue::String(s) => {
            append_header(out, 4, false);
            match append_str_body(out, s) {
                Ok(()) => {
                    proof {
                        assert(out@ =~= pre + enc(v@));
                    }
                    Ok(())
                },
                Err(e) => Err(e),
            }
        },
        VariantValue::Vector2(v2) => {
            append_header(out, 5, false);
            append_le32(out, v2.x);
            append_le32(out, v2.y);
            proof {
                assert(out@ =~= pre + enc(v@));
            }
            Ok(())
        },
        VariantValue::Rect2(r2) => {
            append_header(out, 6, false);
            append_le32(out, r2.end.x);
            append_le32(out, r2.end.y);
            append_le32(out, r2.position.x);
            append_le32(out, r2.position.y);
            append_le32(out, r2.size.x);
            append_le32(out, r2.size.y);
            proof {
                assert(out@ =~= pre + enc(v@));
            }
            Ok(())
        },
        VariantValue::Vector3(v3) => {
            append_header(out, 7, false);
            append_le32(out, v3.x);
            append_le32(out, v3.y);
            append_le32(out, v3.z);
            proof {
                assert(out@ =~= pre + enc(v@));
            }
            Ok(())
        },
        VariantValue::Dictionary(d) => {
            proof {
                assert(v@ == VariantView::Dictionary(entries_view(d.entries)));
                assert(decreases_to!(v@ => v@->Dictionary_0));
            }
            match write_dictionary(out, d) {
                Ok(()) => {
                    proof {
                        assert(out@ =~= pre + enc(v@));
                    }
                    Ok(())
                },
                Err(e) => Err(e),
            }
        },
        VariantValue::Array(a) => {
            proof {
                assert(v@ == VariantView::Array(elems_view(*a)));
                assert(decreases_to!(v@ => v@->Array_0));
            }
            match write_array(out, a) {
                Ok(()) => {
                    proof {
                        assert(out@ =~= pre + enc(v@));
                    }
                    Ok(())
                },
                Err(e) => Err(e),
            }
        },
    }
}

/// Encodes a dictionary: header, entry count, then each key and value.
fn write_dictionary(out: &mut Vec<u8>, d: &Dictionary) -> (r: Result<(), EncodeError>)
    ensures
        match r {
            Ok(()) => encodable(VariantView::Dictionary(d@)) && final(out)@ == old(out)@ + enc(
                VariantView::Dictionary(d@),
            ),
            Err(_) => !encodable(VariantView::Dictionary(d@)),
        },
    decreases entries_view(d.entries), 0nat,
{
    let ghost pre = out@;
    let ghost es = entries_view(d.entries);
    let count = d.entries.len();
    if count > WIRE_MAX as usize {
        return Err(EncodeError::TooLong);
    }
    if !dictionary_keys_unique(d) {
        return Err(EncodeError::TooLong);
    }
    append_header(out, 18, false);
    append_le32(out, count as u32);
    let ghost mid = out@;
    let mut j: usize = 0;
    proof {
        assert(es.take(0) =~= DictView::empty());
    }
    while j < count
        invariant
            j <= count,
            count == d.entries@.len(),
            count <= WIRE_MAX,
            es == entries_view(d.entries),
            es == d@,
            crate::variant::dict_keys_unique(es),
            es.len() == count,
            mid == pre + header_bytes(18, false) + le4(count as u32),
            pre == old(out)@,
            out@ == mid + enc_entries(es.take(j as int)),
            forall|k: int|
                0 <= k < j ==> vstd::utf8::encode_utf8((#[trigger] es[k]).0).len() <= WIRE_MAX
                    && encodable(es[k].1),
        decreases count - j,
    {
        proof {
            assert(es[j as int] == (d.entries@[j as int].0@, d.entries@[j as int].1.view_rec()));
        }
        append_header(out, 4, false);
        match append_str_body(out, &d.entries[j].0) {
            Ok(()) => {},
            Err(e) => {
                proof {
                    assert(vstd::utf8::encode_utf8(es[j as int].0).len() > WIRE_MAX);
                    assert(!encodable(VariantView::Dictionary(d@)));
                }
                return Err(e);
            },
        }
        proof {
            assert(decreases_to!(es => es[j as int]));
            assert(decreases_to!(es[j as int] => es[j as int].1));
        }
        match write_variant(out, &d.entries[j].1) {
            Ok(()) => {},
            Err(e) => {
                proof {
                    assert(!encodable(es[j as int].1));
                    assert(!encodable(VariantView::Dictionary(d@)));
                }
                return Err(e);
            },
        }
        proof {
            lemma_enc_entries_step(es, j as int);
            assert(out@ =~= mid + enc_entries(es.take(j + 1)));
        }
        j += 1;
    }
    proof {
        assert(es.take(count as int) =~= es);
        assert(out@ =~= pre + enc(VariantView::Dictionary(es)));
        assert(encodable(VariantView::Dictionary(es)));
    }
    Ok(())
}

/// Encodes an array: header, element count, then each element.
fn write_array(out: &mut Vec<u8>, a: &Vec<VariantValue>) -> (r: Result<(), EncodeError>)
    ensures
        match r {
            Ok(()) => encodable(VariantView::Array(elems_view(*a))) && final(out)@ == old(out)@
                + enc(VariantView::Array(elems_view(*a))),
            Err(_) => !encodable(VariantView::Array(elems_view(*a))),
        },
    decreases elems_view(*a), 0nat,
{
    let ghost pre = out@;
    let ghost s = elems_view(*a);
    let count = a.len();
    if count > WIRE_MAX as usize {
        return Err(EncodeError::TooLong);
    }
    append_header(out, 19, false);
    append_le32(out, count as u32);
    let ghost mid = out@;
    let mut j: usize = 0;
    proof {
        assert(s.take(0) =~= Seq::<VariantView>::empty());
    }
    while j < count
        invariant
            j <= count,
            count == a@.len(),
            count <= WIRE_MAX,
            s == elems_view(*a),
            s.len() == count,
            mid == pre + header_bytes(19, false) + le4(count as u32),
            pre == old(out)@,
            out@ == mid + enc_elems(s.take(j as int)),
            forall|k: int| 0 <= k < j ==> encodable(#[trigger] s[k]),
        decreases count - j,
    {
        proof {
            assert(s[j as int] == a@[j as int].view_rec());
        }
        match write_variant(out, &a[j]) {
            Ok(()) => {},
            Err(e) => {
                return Err(e);
            },
        }
        proof {
            lemma_enc_elems_step(s, j as int);
            assert(out@ =~= mid + enc_elems(s.take(j + 1)));
        }
        j += 1;
    }
    proof {
        assert(s.take(count as int) =~= s);
        assert(out@ =~= pre + enc(VariantView::Array(s)));
    }
    Ok(())
}

/// Encodes a value for the wire.
///
/// Returns the exact byte string `wire::enc` gives, and succeeds exactly on
/// the values the format can carry (`wire::encodable`).
pub fn encode_variant(value: &VariantValue) -> (r: Result<Vec<u8>, EncodeError>)
    ensures
        r is Ok <==> encodable(value@),
        match r {
            Ok(bytes) => bytes@ == enc(value@),
            Err(e) => e == EncodeError::TooLong,
        },
{
    let mut out: Vec<u8> = Vec::new();
    match write_variant(&mut out, value) {
        Ok(()) => {
            proof {
                assert(out@ =~= enc(value@));
            }
            Ok(out)
        },
        Err(e) => Err(e),
    }
}

} // verus!
