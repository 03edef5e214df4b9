//! The tagged value tree carried by every wire message.
//!
//! Numeric payloads that the wire format stores as IEEE 754 floats are held
//! here as their raw bit patterns (`u32` for binary32, `u64` for binary64).
//! The codec moves those bits to and from the wire unchanged; interpreting
//! them as numbers is left to unverified callers.

use crate::external::str_eq;
use vstd::prelude::*;

verus! {

broadcast use vstd::std_specs::vec::axiom_vec_index_decreases;

/// A pair of binary32 bit patterns.
#[derive(Clone, Copy, PartialEq, Eq, Structural, Debug)]
pub struct Vector2 {
    pub x: u32,
    pub y: u32,
}

/// Three Vector2 values in wire order: end, position, size.
#[derive(Clone, Copy, PartialEq, Eq, Structural, Debug)]
pub struct Rect2 {
    pub end: Vector2,
    pub position: Vector2,
    pub size: Vector2,
}

/// A triple of binary32 bit patterns.
#[derive(Clone, Copy, PartialEq, Eq, Structural, Debug)]
pub struct Vector3 {
    pub x: u32,
    pub y: u32,
    pub z: u32,
}

/// A float payload, kept at the width it had (or will have) on the wire:
/// `Wide` is a binary64 bit pattern, `Narrow` a binary32 bit pattern.
#[derive(Clone, Copy, PartialEq, Eq, Structural, Debug)]
pub enum FloatBits {
    Wide(u64),
    Narrow(u32),
}

/// The closed set of variant kinds the wire format knows.
#[derive(Clone, Copy, PartialEq, Eq, Structural, Debug)]
pub enum VariantType {
    Nil,
    Bool,
    Int,
    Float,
    String,
    Vector2,
    Rect2,
    Vector3,
    Dictionary,
    Array,
}

/// A decoded wire value.
#[derive(Debug)]
pub enum VariantValue {
    Nil,
    Bool(bool),
    Int(i64),
    Float(FloatBits),
    String(String),
    Vector2(Vector2),
    Rect2(Rect2),
    Vector3(Vector3),
    Dictionary(Dictionary),
    Array(Vec<VariantValue>),
}

/// The mathematical shape of a `VariantValue`: strings become character
/// sequences and containers become sequences, so contracts can speak of
/// values without regard to allocation.
pub enum VariantView {
    Nil,
    Bool(bool),
    Int(i64),
    Float(FloatBits),
    String(Seq<char>),
    Vector2(Vector2),
    Rect2(Rect2),
    Vector3(Vector3),
    Dictionary(Seq<(Seq<char>, VariantView)>),
    Array(Seq<VariantView>),
}

impl VariantValue {
    pub open spec fn view_rec(self) -> VariantView
        decreases self, 1nat,
    {
        match self {
            VariantValue::Nil => VariantView::Nil,
            VariantValue::Bool(b) => VariantView::Bool(b),
            VariantValue::Int(i) => VariantView::Int(i),
            VariantValue::Float(f) => VariantView::Float(f),
            VariantValue::String(s) => VariantView::String(s@),
            VariantValue::Vector2(v) => VariantView::Vector2(v),
            VariantValue::Rect2(r) => VariantView::Rect2(r),
            VariantValue::Vector3(v) => VariantView::Vector3(v),
            VariantValue::Dictionary(d) => VariantView::Dictionary(entries_view(d.entries)),
            VariantValue::Array(a) => VariantView::Array(elems_view(a)),
        }
    }
}

/// The views of a vector of values, elementwise.
pub open spec fn elems_view(a: Vec<VariantValue>) -> Seq<VariantView>
    decreases a, 0nat,
{
    Seq::new(
        a@.len(),
        |i: int|
            if 0 <= i < a.len() {
                a[i].view_rec()
            } else {
                VariantView::Nil
            },
    )
}

/// The views of dictionary entries, in order.
pub open spec fn entries_view(es: Vec<(String, VariantValue)>) -> Seq<(Seq<char>, VariantView)>
    decreases es, 0nat,
{
    Seq::new(
        es@.len(),
        |i: int|
            if 0 <= i < es.len() {
                (es[i].0@, es[i].1.view_rec())
            } else {
                (Seq::<char>::empty(), VariantView::Nil)
            },
    )
}

impl View for VariantValue {
    type V = VariantView;

    open spec fn view(&self) -> VariantView {
        self.view_rec()
    }
}

impl VariantView {
    /// The kind of this value.
    pub open spec fn kind(self) -> VariantType {
        match self {
            VariantView::Nil => VariantType::Nil,
            VariantView::Bool(_) => VariantType::Bool,
            VariantView::Int(_) => VariantType::Int,
            VariantView::Float(_) => VariantType::Float,
            VariantView::String(_) => VariantType::String,
            VariantView::Vector2(_) => VariantType::Vector2,
            VariantView::Rect2(_) => VariantType::Rect2,
            VariantView::Vector3(_) => VariantType::Vector3,
            VariantView::Dictionary(_) => VariantType::Dictionary,
            VariantView::Array(_) => VariantType::Array,
        }
    }
}

impl VariantValue {
    /// The kind of this value.
    pub fn get_type(&self) -> (t: VariantType)
        ensures
            t == self@.kind(),
    {
        match self {
            VariantValue::Nil => VariantType::Nil,
            VariantValue::Bool(_) => VariantType::Bool,
            VariantValue::Int(_) => VariantType::Int,
            VariantValue::Float(_) => VariantType::Float,
            VariantValue::String(_) => VariantType::String,
            VariantValue::Vector2(_) => VariantType::Vector2,
            VariantValue::Rect2(_) => VariantType::Rect2,
            VariantValue::Vector3(_) => VariantType::Vector3,
            VariantValue::Dictionary(_) => VariantType::Dictionary,
            VariantValue::Array(_) => VariantType::Array,
        }
    }

    /// Whether this value is of the given kind.
    pub fn is_type_of(&self, other: VariantType) -> (r: bool)
        ensures
            r == (self@.kind() == other),
    {
        self.get_type() == other
    }

    pub fn as_int(&self) -> (r: Option<i64>)
        ensures
            match r {
                Some(i) => self@ == VariantView::Int(i),
                None => !(self@ is Int),
            },
    {
        match self {
            VariantValue::Int(i) => Some(*i),
            _ => None,
        }
    }

    pub fn as_bool(&self) -> (r: Option<bool>)
        ensures
            match r {
                Some(b) => self@ == VariantView::Bool(b),
                None => !(self@ is Bool),
            },
    {
        match self {
            VariantValue::Bool(b) => Some(*b),
            _ => None,
        }
    }

    pub fn as_str(&self) -> (r: Option<&String>)
        ensures
            match r {
                Some(s) => self@ == VariantView::String(s@),
                None => !(self@ is String),
            },
    {
        match self {
            VariantValue::String(s) => Some(s),
            _ => None,
        }
    }

    pub fn as_vector3(&self) -> (r: Option<Vector3>)
        ensures
            match r {
                Some(v) => self@ == VariantView::Vector3(v),
                None => !(self@ is Vector3),
            },
    {
        match self {
            VariantValue::Vector3(v) => Some(*v),
            _ => None,
        }
    }

    pub fn as_dictionary(&self) -> (r: Option<&Dictionary>)
        ensures
            match r {
                Some(d) => self@ == VariantView::Dictionary(d@),
                None => !(self@ is Dictionary),
            },
    {
        match self {
            VariantValue::Dictionary(d) => Some(d),
            _ => None,
        }
    }

    pub fn as_array(&self) -> (r: Option<&Vec<VariantValue>>)
        ensures
            match r {
                Some(a) => self@ == VariantView::Array(elems_view(*a)),
                None => !(self@ is Array),
            },
    {
        match self {
            VariantValue::Array(a) => Some(a),
            _ => None,
        }
    }
}

/// The view of a dictionary: its entries in insertion order.
pub type DictView = Seq<(Seq<char>, VariantView)>;

/// Looks a key up among entries, first match wins.
pub open spec fn dict_get_v(s: DictView, k: Seq<char>) -> Option<VariantView>
    decreases s.len(),
{
    if s.len() == 0 {
        None
    } else if s[0].0 == k {
        Some(s[0].1)
    } else {
        dict_get_v(s.drop_first(), k)
    }
}

/// Replaces the value under an existing key, or appends a new entry.
pub open spec fn dict_put_v(s: DictView, k: Seq<char>, v: VariantView) -> DictView
    decreases s.len(),
{
    if s.len() == 0 {
        seq![(k, v)]
    } else if s[0].0 == k {
        seq![(k, v)] + s.drop_first()
    } else {
        seq![s[0]] + dict_put_v(s.drop_first(), k, v)
    }
}

/// Whether no two entries share a key.
pub open spec fn dict_keys_unique(s: DictView) -> bool {
    forall|i: int, j: int| 0 <= i < j < s.len() ==> s[i].0 != s[j].0
}

/// A key under no entry is not found.
pub proof fn lemma_get_missing(s: DictView, k: Seq<char>)
    requires
        forall|j: int| 0 <= j < s.len() ==> (#[trigger] s[j]).0 != k,
    ensures
        dict_get_v(s, k) is None,
    decreases s.len(),
{
    if s.len() > 0 {
        lemma_get_missing(s.drop_first(), k);
    }
}

/// Putting a key that is not present appends the entry.
pub proof fn lemma_put_fresh(s: DictView, k: Seq<char>, v: VariantView)
    requires
        dict_get_v(s, k) is None,
    ensures
        dict_put_v(s, k, v) == s.push((k, v)),
    decreases s.len(),
{
    if s.len() == 0 {
        assert(dict_put_v(s, k, v) =~= s.push((k, v)));
    } else {
        lemma_put_fresh(s.drop_first(), k, v);
        assert(dict_put_v(s, k, v) =~= s.push((k, v)));
    }
}

/// Putting preserves key uniqueness.
pub proof fn lemma_put_keeps_unique(s: DictView, k: Seq<char>, v: VariantView)
    requires
        dict_keys_unique(s),
    ensures
        dict_keys_unique(dict_put_v(s, k, v)),
        forall|k2: Seq<char>| k2 != k ==> dict_get_v(dict_put_v(s, k, v), k2) == dict_get_v(s, k2),
        dict_get_v(dict_put_v(s, k, v), k) == Some(v),
    decreases s.len(),
{
    if s.len() == 0 {
        assert forall|k2: Seq<char>| k2 != k implies dict_get_v(dict_put_v(s, k, v), k2)
            == dict_get_v(s, k2) by {
            assert(dict_put_v(s, k, v)[0].0 == k);
            assert(dict_put_v(s, k, v).drop_first() =~= s);
        }
    } else if s[0].0 == k {
        let t = dict_put_v(s, k, v);
        assert(t.drop_first() =~= s.drop_first());
        assert forall|i: int, j: int| 0 <= i < j < t.len() implies t[i].0 != t[j].0 by {
            if i > 0 {
                assert(s[i].0 != s[j].0);
            } else {
                assert(s[0].0 != s[j].0);
            }
        }
        assert forall|k2: Seq<char>| k2 != k implies dict_get_v(t, k2) == dict_get_v(s, k2) by {
            assert(t[0].0 == k);
            assert(s[0].0 == k);
        }
    } else {
        assert(dict_keys_unique(s.drop_first()));
        lemma_put_keeps_unique(s.drop_first(), k, v);
        let t = dict_put_v(s, k, v);
        let t1 = dict_put_v(s.drop_first(), k, v);
        assert(t.drop_first() =~= t1);
        assert forall|j: int| 0 <= j < t1.len() implies t1[j].0 == k || dict_get_v(s.drop_first(), t1[j].0) is Some by {
            lemma_member_key_found(s.drop_first(), k, v, j);
        }
        assert forall|i: int, j: int| 0 <= i < j < t.len() implies t[i].0 != t[j].0 by {
            if i > 0 {
                assert(t1[i - 1].0 != t1[j - 1].0);
            } else {
                assert(t[0] == s[0]);
                assert(t1[j - 1].0 == k || dict_get_v(s.drop_first(), t1[j - 1].0) is Some);
                if t1[j - 1].0 == s[0].0 {
                    lemma_get_some_member(s.drop_first(), s[0].0);
                }
            }
        }
        assert forall|k2: Seq<char>| k2 != k implies dict_get_v(t, k2) == dict_get_v(s, k2) by {
            assert(t[0] == s[0]);
            if s[0].0 != k2 {
                assert(dict_get_v(t, k2) == dict_get_v(t1, k2));
                assert(dict_get_v(s, k2) == dict_get_v(s.drop_first(), k2));
            }
        }
        assert(dict_get_v(t, k) == dict_get_v(t1, k));
    }
}

/// Every key of `dict_put_v(s, k, v)` is `k` or a key of `s`.
proof fn lemma_member_key_found(s: DictView, k: Seq<char>, v: VariantView, j: int)
    requires
        0 <= j < dict_put_v(s, k, v).len(),
    ensures
        dict_put_v(s, k, v)[j].0 == k || dict_get_v(s, dict_put_v(s, k, v)[j].0) is Some,
    decreases s.len(),
{
    if s.len() == 0 {
    } else if s[0].0 == k {
        if j > 0 {
            lemma_get_from_index(s, j);
        }
    } else {
        if j > 0 {
            lemma_member_key_found(s.drop_first(), k, v, j - 1);
            let key = dict_put_v(s, k, v)[j].0;
            assert(dict_put_v(s, k, v).drop_first() =~= dict_put_v(s.drop_first(), k, v));
        }
    }
}

/// A key that appears at some index is found by `dict_get_v`.
pub proof fn lemma_get_from_index(s: DictView, i: int)
    requires
        0 <= i < s.len(),
    ensures
        dict_get_v(s, s[i].0) is Some,
    decreases s.len(),
{
    if i > 0 && s[0].0 != s[i].0 {
        lemma_get_from_index(s.drop_first(), i - 1);
    }
}

/// A key that `dict_get_v` finds appears at some index.
pub proof fn lemma_get_some_member(s: DictView, k: Seq<char>)
    requires
        dict_get_v(s, k) is Some,
    ensures
        exists|i: int| 0 <= i < s.len() && s[i].0 == k && s[i].1 == dict_get_v(s, k)->Some_0,
    decreases s.len(),
{
    if s.len() > 0 && s[0].0 != k {
        lemma_get_some_member(s.drop_first(), k);
        let i = choose|i: int|
            0 <= i < s.drop_first().len() && s.drop_first()[i].0 == k && s.drop_first()[i].1
                == dict_get_v(s.drop_first(), k)->Some_0;
        assert(s[i + 1].0 == k && s[i + 1].1 == dict_get_v(s, k)->Some_0);
    }
}

/// A string-keyed map of variants, kept in insertion order with unique keys.
#[derive(Debug)]
pub struct Dictionary {
    pub entries: Vec<(String, VariantValue)>,
}

impl View for Dictionary {
    type V = DictView;

    open spec fn view(&self) -> DictView {
        entries_view(self.entries)
    }
}

impl Dictionary {
    /// Whether no two entries share a key. Every constructor of this type
    /// establishes it and every method preserves it.
    pub open spec fn wf(&self) -> bool {
        dict_keys_unique(self@)
    }

    pub fn new() -> (d: Dictionary)
        ensures
            d@ =~= Seq::<(Seq<char>, VariantView)>::empty(),
            d.wf(),
    {
        Dictionary { entries: Vec::new() }
    }

    pub fn len(&self) -> (n: usize)
        ensures
            n == self@.len(),
    {
        self.entries.len()
    }

    /// The key of the entry at the given position.
    pub fn key_at(&self, i: usize) -> (k: &String)
        requires
            i < self@.len(),
        ensures
            k@ == self@[i as int].0,
    {
        &self.entries[i].0
    }

    /// The value of the entry at the given position.
    pub fn value_at(&self, i: usize) -> (v: &VariantValue)
        requires
            i < self@.len(),
        ensures
            v@ == self@[i as int].1,
    {
        &self.entries[i].1
    }

    pub fn get(&self, key: &str) -> (r: Option<&VariantValue>)
        ensures
            match r {
                Some(v) => dict_get_v(self@, key@) == Some(v@),
                None => dict_get_v(self@, key@) is None,
            },
    {
        let n = self.entries.len();
        let mut i: usize = 0;
        proof {
            assert(self@.skip(0) =~= self@);
        }
        while i < n
            invariant
                n == self@.len(),
                i <= n,
                dict_get_v(self@, key@) == dict_get_v(self@.skip(i as int), key@),
            decreases n - i,
        {
            proof {
                assert(self@.skip(i as int)[0] == self@[i as int]);
                assert(self@.skip(i as int).drop_first() =~= self@.skip(i + 1));
            }
            if str_eq(self.entries[i].0.as_str(), key) {
                return Some(&self.entries[i].1);
            }
            i += 1;
        }
        proof {
            assert(self@.skip(n as int) =~= Seq::<(Seq<char>, VariantView)>::empty());
        }
        None
    }

    /// Replaces the value under an existing key, or appends a new entry,
    /// as the wire protocol's map type does.
    pub fn insert(&mut self, key: String, value: VariantValue)
        ensures
            final(self)@ == dict_put_v(old(self)@, key@, value@),
            old(self).wf() ==> final(self).wf(),
    {
        let ghost orig = self@;
        let n = self.entries.len();
        let mut i: usize = 0;
        proof {
            assert(orig.skip(0) =~= orig);
            assert(orig.take(0) =~= Seq::<(Seq<char>, VariantView)>::empty());
        }
        while i < n
            invariant
                n == self@.len(),
                i <= n,
                orig == old(self)@,
                self@ == orig,
                self.entries@.len() == orig.len(),
                dict_put_v(orig, key@, value@) == orig.take(i as int) + dict_put_v(
                    orig.skip(i as int),
                    key@,
                    value@,
                ),
                forall|j: int| 0 <= j < i ==> orig[j].0 != key@,
            decreases n - i,
        {
            proof {
                assert(orig.skip(i as int)[0] == orig[i as int]);
                assert(orig.skip(i as int).drop_first() =~= orig.skip(i + 1));
            }
            if str_eq(self.entries[i].0.as_str(), key.as_str()) {
                self.entries[i] = (key, value);
                proof {
                    assert(orig.skip(i as int)[0].0 == key@);
                    assert(dict_put_v(orig.skip(i as int), key@, value@) =~= seq![
                        (key@, value@),
                    ] + orig.skip(i + 1));
                    assert(self@ =~= orig.take(i as int) + (seq![(key@, value@)] + orig.skip(
                        i + 1,
                    )));
                    if dict_keys_unique(orig) {
                        lemma_put_keeps_unique(orig, key@, value@);
                    }
                }
                return ;
            }
            proof {
                assert(orig.take(i + 1) =~= orig.take(i as int) + seq![orig[i as int]]);
                assert(orig.take(i as int) + (seq![orig[i as int]] + dict_put_v(
                    orig.skip(i + 1),
                    key@,
                    value@,
                )) =~= orig.take(i + 1) + dict_put_v(orig.skip(i + 1), key@, value@));
            }
            i += 1;
        }
        proof {
            assert(orig.skip(n as int) =~= Seq::<(Seq<char>, VariantView)>::empty());
            assert(dict_put_v(orig, key@, value@) =~= orig.take(n as int) + seq![(key@, value@)]);
            if dict_keys_unique(orig) {
                lemma_put_keeps_unique(orig, key@, value@);
            }
        }
        self.entries.push((key, value));
        proof {
            assert(self@ =~= orig.take(n as int) + seq![(key@, value@)]);
        }
    }
}

} // verus!
