//! The codec's laws: decoding an encoding yields the encoded value, and the
//! wire size of a string is its length word plus its bytes padded to four.

use crate::variant::{dict_get_v, dict_keys_unique, dict_put_v, lemma_put_fresh, DictView,
    FloatBits, VariantView};
use crate::wire::{dec, dec_elems, dec_entries, dec_str, enc, enc_elems, enc_entries, encodable,
    header_bytes, le4, le8, pad_len, str_wire, u16_at, u32_at, u64_at, zeros, DecodeError,
    WIRE_MAX};
use vstd::prelude::*;
use vstd::utf8::{encode_utf8, decode_utf8, valid_utf8};

verus! {

broadcast use vstd::seq::axiom_seq_index_decreases, vstd::seq::axiom_seq_subrange_decreases;

/// A window of `b` equal to `e` agrees with `e` on sub-windows.
proof fn lemma_sub(b: Seq<u8>, pos: int, e: Seq<u8>, x: int, y: int)
    requires
        0 <= pos,
        pos + e.len() <= b.len(),
        b.subrange(pos, pos + e.len()) == e,
        0 <= x <= y <= e.len(),
    ensures
        b.subrange(pos + x, pos + y) == e.subrange(x, y),
{
    assert(b.subrange(pos + x, pos + y) =~= e.subrange(x, y));
}

/// A window of `b` equal to `e` agrees with `e` pointwise.
proof fn lemma_sub_index(b: Seq<u8>, pos: int, e: Seq<u8>, x: int)
    requires
        0 <= pos,
        pos + e.len() <= b.len(),
        b.subrange(pos, pos + e.len()) == e,
        0 <= x < e.len(),
    ensures
        b[pos + x] == e[x],
{
    assert(b.subrange(pos, pos + e.len())[x] == b[pos + x]);
}

/// Four little-endian bytes of `x` read back as `x`.
proof fn lemma_le4_at(b: Seq<u8>, pos: int, x: u32)
    requires
        0 <= pos,
        pos + 4 <= b.len(),
        b[pos] == le4(x)[0],
        b[pos + 1] == le4(x)[1],
        b[pos + 2] == le4(x)[2],
        b[pos + 3] == le4(x)[3],
    ensures
        u32_at(b, pos) == x,
{
    assert((((x & 0xff) as u8) as u32) | (((((x >> 8) & 0xff) as u8) as u32) << 8) | (((((x >> 16)
        & 0xff) as u8) as u32) << 16) | (((((x >> 24) & 0xff) as u8) as u32) << 24) == x)
        by (bit_vector);
}

/// Eight little-endian bytes of `x` read back as `x`.
proof fn lemma_le8_at(b: Seq<u8>, pos: int, x: u64)
    requires
        0 <= pos,
        pos + 8 <= b.len(),
        forall|k: int| 0 <= k < 8 ==> b[pos + k] == #[trigger] le8(x)[k],
    ensures
        u64_at(b, pos) == x,
{
    assert(b[pos] == le8(x)[0]);
    assert(b[pos + 1] == le8(x)[1]);
    assert(b[pos + 2] == le8(x)[2]);
    assert(b[pos + 3] == le8(x)[3]);
    assert(b[pos + 4] == le8(x)[4]);
    assert(b[pos + 5] == le8(x)[5]);
    assert(b[pos + 6] == le8(x)[6]);
    assert(b[pos + 7] == le8(x)[7]);
    assert((((x & 0xff) as u8) as u64) | (((((x >> 8) & 0xff) as u8) as u64) << 8) | (((((x >> 16)
        & 0xff) as u8) as u64) << 16) | (((((x >> 24) & 0xff) as u8) as u64) << 24) | (((((x >> 32)
        & 0xff) as u8) as u64) << 32) | (((((x >> 40) & 0xff) as u8) as u64) << 40) | (((((x >> 48)
        & 0xff) as u8) as u64) << 48) | (((((x >> 56) & 0xff) as u8) as u64) << 56) == x)
        by (bit_vector);
}

/// A header written at `pos` reads back as its tag and flags.
proof fn lemma_header_at(b: Seq<u8>, pos: int, e: Seq<u8>, tag: u8, wide: bool)
    requires
        0 <= pos,
        pos + e.len() <= b.len(),
        b.subrange(pos, pos + e.len()) == e,
        e.len() >= 4,
        e.subrange(0, 4) == header_bytes(tag, wide),
    ensures
        u16_at(b, pos) == tag as u16,
        u16_at(b, pos + 2) == (if wide { 1u16 } else { 0u16 }),
        u16_at(b, pos + 2) & 1 == (if wide { 1u16 } else { 0u16 }),
{
    lemma_sub_index(b, pos, e, 0);
    lemma_sub_index(b, pos, e, 1);
    lemma_sub_index(b, pos, e, 2);
    lemma_sub_index(b, pos, e, 3);
    assert(e[0] == tag && e[1] == 0u8 && e[2] == (if wide { 1u8 } else { 0u8 }) && e[3] == 0u8);
    let t = tag as u16;
    assert(((tag as u16) | ((0u8 as u16) << 8)) == tag as u16) by (bit_vector);
    assert(((1u8 as u16) | ((0u8 as u16) << 8)) == 1u16) by (bit_vector);
    assert(((0u8 as u16) | ((0u8 as u16) << 8)) == 0u16) by (bit_vector);
    assert(1u16 & 1 == 1u16 && 0u16 & 1 == 0u16) by (bit_vector);
}

/// The padded length is the length rounded up to a multiple of four.
pub proof fn lemma_pad_round(n: int)
    requires
        n >= 0,
    ensures
        n + pad_len(n) == 4 * ((n + 3) / 4),
        0 <= pad_len(n) < 4,
{
    let r = n % 4;
    vstd::arithmetic::div_mod::lemma_fundamental_div_mod(n, 4);
    assert(0 <= r < 4);
    if r == 0 {
        assert(n + pad_len(n) == n);
        assert(4 * ((n + 3) / 4) == n) by (nonlinear_arith)
            requires
                n % 4 == 0 && n >= 0,
        ;
    } else {
        assert(pad_len(n) == 4 - r);
        assert(4 * ((n + 3) / 4) == n + 4 - r) by (nonlinear_arith)
            requires
                n % 4 == r && 1 <= r < 4 && n >= 0,
        ;
    }
}

/// The wire size of a string body: a 4-byte length word plus the UTF-8
/// bytes padded up to a multiple of four.
pub proof fn lemma_string_padding(s: Seq<char>)
    ensures
        str_wire(s).len() == 4 + 4 * ((encode_utf8(s).len() + 3) / 4),
        enc(VariantView::String(s)).len() == 8 + 4 * ((encode_utf8(s).len() + 3) / 4),
{
    let n = encode_utf8(s).len() as int;
    lemma_pad_round(n);
}

/// Decoding the encoding of a string yields the string.
proof fn lemma_dec_string(b: Seq<u8>, pos: int, s: Seq<char>)
    requires
        0 <= pos,
        pos + enc(VariantView::String(s)).len() <= b.len(),
        b.subrange(pos, pos + enc(VariantView::String(s)).len()) == enc(VariantView::String(s)),
        encode_utf8(s).len() <= WIRE_MAX,
    ensures
        dec(b, pos) == Ok::<(VariantView, nat), DecodeError>(
            (VariantView::String(s), enc(VariantView::String(s)).len() as nat),
        ),
{
    broadcast use vstd::utf8::encode_utf8_valid_utf8, vstd::utf8::encode_utf8_decode_utf8;

    let e = enc(VariantView::String(s));
    let bl = encode_utf8(s).len() as int;
    let pad = pad_len(bl);
    lemma_pad_round(bl);
    assert(e =~= header_bytes(4, false) + (le4(bl as u32) + encode_utf8(s) + zeros(pad)));
    assert(e.len() == 8 + bl + pad);
    assert(e.subrange(0, 4) =~= header_bytes(4, false));
    lemma_header_at(b, pos, e, 4, false);
    // The length word.
    lemma_sub_index(b, pos, e, 4);
    lemma_sub_index(b, pos, e, 5);
    lemma_sub_index(b, pos, e, 6);
    lemma_sub_index(b, pos, e, 7);
    assert(e[4] == le4(bl as u32)[0] && e[5] == le4(bl as u32)[1] && e[6] == le4(bl as u32)[2]
        && e[7] == le4(bl as u32)[3]);
    lemma_le4_at(b, pos + 4, bl as u32);
    assert(u32_at(b, pos + 4) == bl as u32);
    assert(u32_at(b, pos + 4) as int == bl);
    // The byte payload.
    lemma_sub(b, pos, e, 8, 8 + bl);
    assert(e.subrange(8, 8 + bl) =~= encode_utf8(s));
    assert(b.subrange(pos + 8, pos + 8 + bl) == encode_utf8(s));
    assert(valid_utf8(encode_utf8(s)));
    assert(decode_utf8(encode_utf8(s)) == s);
    assert(dec_str(b, pos + 4) == Ok::<(Seq<char>, nat), DecodeError>(
        (s, (4 + bl + pad) as nat),
    ));
    assert(u16_at(b, pos) == 4 ==> true);
    assert(dec(b, pos) == Ok::<(VariantView, nat), DecodeError>(
        (VariantView::String(s), (8 + bl + pad) as nat),
    ));
}

/// Pushing an entry under a fresh key keeps other lookups empty.
proof fn lemma_get_push_none(s: DictView, e: (Seq<char>, VariantView), k: Seq<char>)
    requires
        dict_get_v(s, k) is None,
        e.0 != k,
    ensures
        dict_get_v(s.push(e), k) is None,
    decreases s.len(),
{
    if s.len() == 0 {
        assert(s.push(e)[0] == e);
        assert(s.push(e).drop_first() =~= Seq::<(Seq<char>, VariantView)>::empty());
        assert(dict_get_v(Seq::<(Seq<char>, VariantView)>::empty(), k) is None);
        assert(dict_get_v(s.push(e), k) == dict_get_v(s.push(e).drop_first(), k));
    } else {
        assert(s.push(e)[0] == s[0]);
        assert(s[0].0 != k);
        assert(dict_get_v(s, k) == dict_get_v(s.drop_first(), k));
        assert(s.push(e).drop_first() =~= s.drop_first().push(e));
        lemma_get_push_none(s.drop_first(), e, k);
        assert(dict_get_v(s.push(e), k) == dict_get_v(s.drop_first().push(e), k));
    }
}

/// Decoding the concatenated encodings of entries extends the accumulator by
/// exactly those entries.
proof fn lemma_round_trip_entries(es: DictView, b: Seq<u8>, pos: int, acc: DictView)
    requires
        0 <= pos,
        pos + enc_entries(es).len() <= b.len(),
        b.subrange(pos, pos + enc_entries(es).len()) == enc_entries(es),
        forall|i: int|
            0 <= i < es.len() ==> encode_utf8((#[trigger] es[i]).0).len() <= WIRE_MAX,
        forall|i: int| 0 <= i < es.len() ==> encodable((#[trigger] es[i]).1),
        forall|i: int| 0 <= i < es.len() ==> dict_get_v(acc, (#[trigger] es[i]).0) is None,
        dict_keys_unique(es),
    ensures
        dec_entries(b, pos, es.len() as int, acc) == Ok::<(DictView, nat), DecodeError>(
            (acc + es, enc_entries(es).len() as nat),
        ),
    decreases es, 0nat,
{
    if es.len() == 0 {
        assert(acc + es =~= acc);
    } else {
        let k = es[0].0;
        let v = es[0].1;
        let ek = enc(VariantView::String(k));
        let ev = enc(v);
        let rest = es.drop_first();
        let er = enc_entries(rest);
        assert(enc_entries(es) =~= ek + ev + er) by {
            assert(enc_entries(es) == header_bytes(4, false) + str_wire(k) + enc(v) + er);
            assert(ek =~= header_bytes(4, false) + str_wire(k));
        }
        let e = enc_entries(es);
        lemma_sub(b, pos, e, 0, ek.len() as int);
        assert(e.subrange(0, ek.len() as int) =~= ek);
        lemma_dec_string(b, pos, k);
        let p1 = pos + ek.len();
        lemma_sub(b, pos, e, ek.len() as int, (ek.len() + ev.len()) as int);
        assert(e.subrange(ek.len() as int, (ek.len() + ev.len()) as int) =~= ev);
        lemma_round_trip(v, b, p1);
        let p2 = p1 + ev.len();
        lemma_sub(b, pos, e, (ek.len() + ev.len()) as int, e.len() as int);
        assert(e.subrange((ek.len() + ev.len()) as int, e.len() as int) =~= er);
        let acc2 = dict_put_v(acc, k, v);
        lemma_put_fresh(acc, k, v);
        assert(acc2 == acc.push(es[0]));
        assert forall|i: int| 0 <= i < rest.len() implies dict_get_v(
            acc2,
            (#[trigger] rest[i]).0,
        ) is None by {
            assert(rest[i] == es[i + 1]);
            assert(es[0].0 != es[i + 1].0);
            lemma_get_push_none(acc, es[0], rest[i].0);
        }
        assert(dict_keys_unique(rest)) by {
            assert(forall|i: int, j: int|
                0 <= i < j < rest.len() ==> rest[i] == es[i + 1] && rest[j] == es[j + 1]);
        }
        lemma_round_trip_entries(rest, b, p2, acc2);
        assert(acc2 + rest =~= acc + es);
        assert(dec_entries(b, pos, es.len() as int, acc) == Ok::<(DictView, nat), DecodeError>(
            (acc + es, enc_entries(es).len() as nat),
        ));
    }
}

/// Decoding the concatenated encodings of elements extends the accumulator by
/// exactly those elements.
proof fn lemma_round_trip_elems(a: Seq<VariantView>, b: Seq<u8>, pos: int, acc: Seq<VariantView>)
    requires
        0 <= pos,
        pos + enc_elems(a).len() <= b.len(),
        b.subrange(pos, pos + enc_elems(a).len()) == enc_elems(a),
        forall|i: int| 0 <= i < a.len() ==> encodable(#[trigger] a[i]),
    ensures
        dec_elems(b, pos, a.len() as int, acc) == Ok::<(Seq<VariantView>, nat), DecodeError>(
            (acc + a, enc_elems(a).len() as nat),
        ),
    decreases a, 0nat,
{
    if a.len() == 0 {
        assert(acc + a =~= acc);
    } else {
        let v = a[0];
        let ev = enc(v);
        let rest = a.drop_first();
        let er = enc_elems(rest);
        let e = enc_elems(a);
        assert(e == ev + er);
        lemma_sub(b, pos, e, 0, ev.len() as int);
        assert(e.subrange(0, ev.len() as int) =~= ev);
        lemma_round_trip(v, b, pos);
        let p1 = pos + ev.len();
        lemma_sub(b, pos, e, ev.len() as int, e.len() as int);
        assert(e.subrange(ev.len() as int, e.len() as int) =~= er);
        lemma_round_trip_elems(rest, b, p1, acc.push(v));
        assert(acc.push(v) + rest =~= acc + a);
    }
}

/// Decoding an encoding embedded in a larger buffer yields the encoded value
/// and consumes exactly the encoding.
#[verifier::rlimit(100)]
pub proof fn lemma_round_trip(v: VariantView, b: Seq<u8>, pos: int)
    requires
        encodable(v),
        0 <= pos,
        pos + enc(v).len() <= b.len(),
        b.subrange(pos, pos + enc(v).len()) == enc(v),
    ensures
        dec(b, pos) == Ok::<(VariantView, nat), DecodeError>((v, enc(v).len() as nat)),
    decreases v, 1nat,
{
    let e = enc(v);
    match v {
        VariantView::Nil => {
            assert(e.subrange(0, 4) =~= header_bytes(0, false));
            lemma_header_at(b, pos, e, 0, false);
        },
        VariantView::Bool(bv) => {
            assert(e.subrange(0, 4) =~= header_bytes(1, false));
            lemma_header_at(b, pos, e, 1, false);
            lemma_sub_index(b, pos, e, 4);
            assert(e[4] == (if bv { 1u8 } else { 0u8 }));
            assert((b[pos + 4] != 0) == bv);
        },
        VariantView::Int(i) => {
            assert(e.subrange(0, 4) =~= header_bytes(2, true));
            lemma_header_at(b, pos, e, 2, true);
            assert forall|k: int| 0 <= k < 8 implies b[pos + 4 + k] == #[trigger] le8(i as u64)[k] by {
                lemma_sub_index(b, pos, e, 4 + k);
            }
            lemma_le8_at(b, pos + 4, i as u64);
            assert((i as u64) as i64 == i) by (bit_vector);
        },
        VariantView::Float(fb) => {
            match fb {
                FloatBits::Wide(bits) => {
                    assert(e.subrange(0, 4) =~= header_bytes(3, true));
                    lemma_header_at(b, pos, e, 3, true);
                    assert forall|k: int| 0 <= k < 8 implies b[pos + 4 + k] == #[trigger] le8(bits)[k] by {
                        lemma_sub_index(b, pos, e, 4 + k);
                    }
                    lemma_le8_at(b, pos + 4, bits);
                },
                FloatBits::Narrow(bits) => {
                    assert(e.subrange(0, 4) =~= header_bytes(3, false));
                    lemma_header_at(b, pos, e, 3, false);
                    lemma_sub_index(b, pos, e, 4);
                    lemma_sub_index(b, pos, e, 5);
                    lemma_sub_index(b, pos, e, 6);
                    lemma_sub_index(b, pos, e, 7);
                    lemma_le4_at(b, pos + 4, bits);
                },
            }
        },
        VariantView::String(s) => {
            lemma_dec_string(b, pos, s);
        },
        VariantView::Vector2(v2) => {
            assert(e.subrange(0, 4) =~= header_bytes(5, false));
            lemma_header_at(b, pos, e, 5, false);
            assert forall|k: int| 4 <= k < 12 implies b[pos + k] == #[trigger] e[k] by {
                lemma_sub_index(b, pos, e, k);
            }
            assert(e[4] == le4(v2.x)[0] && e[5] == le4(v2.x)[1] && e[6] == le4(v2.x)[2] && e[7]
                == le4(v2.x)[3]);
            lemma_le4_at(b, pos + 4, v2.x);
            assert(e[8] == le4(v2.y)[0] && e[9] == le4(v2.y)[1] && e[10] == le4(v2.y)[2] && e[11]
                == le4(v2.y)[3]);
            lemma_le4_at(b, pos + 8, v2.y);
        },
        VariantView::Rect2(r) => {
            assert(e.subrange(0, 4) =~= header_bytes(6, false));
            lemma_header_at(b, pos, e, 6, false);
            assert forall|k: int| 4 <= k < 28 implies b[pos + k] == #[trigger] e[k] by {
                lemma_sub_index(b, pos, e, k);
            }
            assert(e[4] == le4(r.end.x)[0] && e[5] == le4(r.end.x)[1] && e[6] == le4(r.end.x)[2]
                && e[7] == le4(r.end.x)[3]);
            lemma_le4_at(b, pos + 4, r.end.x);
            assert(e[8] == le4(r.end.y)[0] && e[9] == le4(r.end.y)[1] && e[10] == le4(r.end.y)[2]
                && e[11] == le4(r.end.y)[3]);
            lemma_le4_at(b, pos + 8, r.end.y);
            assert(e[12] == le4(r.position.x)[0] && e[13] == le4(r.position.x)[1] && e[14] == le4(
                r.position.x,
            )[2] && e[15] == le4(r.position.x)[3]);
            lemma_le4_at(b, pos + 12, r.position.x);
            assert(e[16] == le4(r.position.y)[0] && e[17] == le4(r.position.y)[1] && e[18] == le4(
                r.position.y,
            )[2] && e[19] == le4(r.position.y)[3]);
            lemma_le4_at(b, pos + 16, r.position.y);
            assert(e[20] == le4(r.size.x)[0] && e[21] == le4(r.size.x)[1] && e[22] == le4(
                r.size.x,
            )[2] && e[23] == le4(r.size.x)[3]);
            lemma_le4_at(b, pos + 20, r.size.x);
            assert(e[24] == le4(r.size.y)[0] && e[25] == le4(r.size.y)[1] && e[26] == le4(
                r.size.y,
            )[2] && e[27] == le4(r.size.y)[3]);
            lemma_le4_at(b, pos + 24, r.size.y);
        },
        VariantView::Vector3(v3) => {
            assert(e.subrange(0, 4) =~= header_bytes(7, false));
            lemma_header_at(b, pos, e, 7, false);
            assert forall|k: int| 4 <= k < 16 implies b[pos + k] == #[trigger] e[k] by {
                lemma_sub_index(b, pos, e, k);
            }
            assert(e[4] == le4(v3.x)[0] && e[5] == le4(v3.x)[1] && e[6] == le4(v3.x)[2] && e[7]
                == le4(v3.x)[3]);
            lemma_le4_at(b, pos + 4, v3.x);
            assert(e[8] == le4(v3.y)[0] && e[9] == le4(v3.y)[1] && e[10] == le4(v3.y)[2] && e[11]
                == le4(v3.y)[3]);
            lemma_le4_at(b, pos + 8, v3.y);
            assert(e[12] == le4(v3.z)[0] && e[13] == le4(v3.z)[1] && e[14] == le4(v3.z)[2] && e[15]
                == le4(v3.z)[3]);
            lemma_le4_at(b, pos + 12, v3.z);
        },
        VariantView::Dictionary(es) => {
            assert(e.subrange(0, 4) =~= header_bytes(18, false));
            lemma_header_at(b, pos, e, 18, false);
            let cnt = es.len() as u32;
            assert forall|k: int| 4 <= k < 8 implies b[pos + k] == #[trigger] e[k] by {
                lemma_sub_index(b, pos, e, k);
            }
            assert(e[4] == le4(cnt)[0] && e[5] == le4(cnt)[1] && e[6] == le4(cnt)[2] && e[7]
                == le4(cnt)[3]);
            lemma_le4_at(b, pos + 4, cnt);
            assert(cnt <= 0x7fffffffu32 ==> cnt as i32 == cnt as int) by (bit_vector);
            if es.len() == 0 {
                assert(dec(b, pos) == Ok::<(VariantView, nat), DecodeError>(
                    (VariantView::Dictionary(Seq::empty()), 8nat),
                ));
                assert(es =~= Seq::<(Seq<char>, VariantView)>::empty());
            } else {
                lemma_sub(b, pos, e, 8, e.len() as int);
                assert(e.subrange(8, e.len() as int) =~= enc_entries(es));
                assert forall|i: int| 0 <= i < es.len() implies dict_get_v(
                    Seq::empty(),
                    (#[trigger] es[i]).0,
                ) is None by {}
                lemma_round_trip_entries(es, b, pos + 8, Seq::empty());
                assert(Seq::empty() + es =~= es);
            }
        },
        VariantView::Array(a) => {
            assert(e.subrange(0, 4) =~= header_bytes(19, false));
            lemma_header_at(b, pos, e, 19, false);
            let cnt = a.len() as u32;
            assert forall|k: int| 4 <= k < 8 implies b[pos + k] == #[trigger] e[k] by {
                lemma_sub_index(b, pos, e, k);
            }
            assert(e[4] == le4(cnt)[0] && e[5] == le4(cnt)[1] && e[6] == le4(cnt)[2] && e[7]
                == le4(cnt)[3]);
            lemma_le4_at(b, pos + 4, cnt);
            assert(cnt <= 0x7fffffffu32 ==> cnt as i32 == cnt as int) by (bit_vector);
            if a.len() == 0 {
                assert(a =~= Seq::<VariantView>::empty());
            } else {
                lemma_sub(b, pos, e, 8, e.len() as int);
                assert(e.subrange(8, e.len() as int) =~= enc_elems(a));
                lemma_round_trip_elems(a, b, pos + 8, Seq::empty());
                assert(Seq::empty() + a =~= a);
            }
        },
    }
}

/// The codec round trip: decoding the encoding of any encodable value yields
/// that value, and consumes the whole encoding.
pub proof fn lemma_codec_round_trip(v: VariantView)
    requires
        encodable(v),
    ensures
        dec(enc(v), 0) == Ok::<(VariantView, nat), DecodeError>((v, enc(v).len() as nat)),
{
    let b = enc(v);
    assert(b.subrange(0, b.len() as int) =~= b);
    lemma_round_trip(v, b, 0);
}

} // verus!
