//! Encoding: the trait that every schema type implements, and arrays of
//! such types.

use crate::codec::{
    compact_prefix, i32_be_bytes, lemma_be_bytes_len, write_compact_length, write_i32,
    MAX_COMPACT_LEN,
};
use crate::deserialize::views;
use vstd::prelude::*;

verus! {

/// A type with a byte layout on the wire.
pub trait Serialize: View {
    /// The bytes of a value, field by field in the order of the schema.
    spec fn wire(value: Self::V) -> Seq<u8>;

    /// Every array and string in the value is short enough for its length
    /// prefix.
    spec fn encodable(value: Self::V) -> bool;

    /// Tests whether the value can be encoded.
    fn is_encodable(&self) -> (ok: bool)
        ensures
            ok == Self::encodable(self@),
    ;

    /// Encodes the value.
    fn to_bytes(&self) -> (out: Vec<u8>)
        requires
            Self::encodable(self@),
        ensures
            out@ == Self::wire(self@),
    ;

    /// The most bytes that an encodable value takes.
    spec fn max_wire_len() -> nat;

    /// No encodable value takes more bytes than that.
    proof fn lemma_wire_len(value: Self::V)
        requires
            Self::encodable(value),
        ensures
            Self::wire(value).len() <= Self::max_wire_len(),
    ;
}

/// The layouts of the elements, one after the other.
pub open spec fn wire_items<T: Serialize>(items: Seq<T::V>) -> Seq<u8>
    decreases items.len(),
{
    if items.len() == 0 {
        Seq::empty()
    } else {
        wire_items::<T>(items.drop_last()) + T::wire(items.last())
    }
}

/// Every element can be encoded.
pub open spec fn items_encodable<T: Serialize>(items: Seq<T::V>) -> bool {
    forall|i: int| 0 <= i < items.len() ==> T::encodable(#[trigger] items[i])
}

/// An array in the compact form: the number of elements plus one in a single
/// byte, then the elements.
pub open spec fn compact_array_wire<T: Serialize>(items: Seq<T::V>) -> Seq<u8> {
    seq![compact_prefix(items.len())] + wire_items::<T>(items)
}

/// The array is short enough for a compact length prefix of one byte, and
/// every element can be encoded.
pub open spec fn compact_array_encodable<T: Serialize>(items: Seq<T::V>) -> bool {
    items.len() <= MAX_COMPACT_LEN && items_encodable::<T>(items)
}

/// The most bytes that an encodable compact array takes.
pub open spec fn max_compact_array_len<T: Serialize>() -> nat {
    1 + MAX_COMPACT_LEN as nat * T::max_wire_len()
}

/// Elements in a row take no more bytes than their number times the most
/// that one of them takes.
pub proof fn lemma_wire_items_len<T: Serialize>(items: Seq<T::V>)
    requires
        items_encodable::<T>(items),
    ensures
        wire_items::<T>(items).len() <= items.len() * T::max_wire_len(),
    decreases items.len(),
{
    if items.len() > 0 {
        let front = items.drop_last();
        assert forall|i: int| 0 <= i < front.len() implies T::encodable(#[trigger] front[i]) by {
            assert(front[i] == items[i]);
        }
        lemma_wire_items_len::<T>(front);
        T::lemma_wire_len(items.last());
        assert(front.len() * T::max_wire_len() + T::max_wire_len() == items.len()
            * T::max_wire_len()) by (nonlinear_arith)
            requires
                front.len() + 1 == items.len(),
        ;
    }
}

/// An encodable compact array takes no more bytes than the longest one.
pub proof fn lemma_compact_array_wire_len<T: Serialize>(items: Seq<T::V>)
    requires
        compact_array_encodable::<T>(items),
    ensures
        compact_array_wire::<T>(items).len() <= max_compact_array_len::<T>(),
{
    lemma_wire_items_len::<T>(items);
    assert(items.len() * T::max_wire_len() <= MAX_COMPACT_LEN as nat * T::max_wire_len())
        by (nonlinear_arith)
        requires
            items.len() <= MAX_COMPACT_LEN as nat,
    ;
}

/// Tests whether every element can be encoded.
pub fn are_items_encodable<T: Serialize>(items: &Vec<T>) -> (ok: bool)
    ensures
        ok == items_encodable::<T>(views(items@)),
{
    let mut at: usize = 0;
    while at < items.len()
        invariant
            at <= items@.len(),
            forall|i: int| 0 <= i < at ==> T::encodable(#[trigger] views(items@)[i]),
        decreases items@.len() - at,
    {
        if !items[at].is_encodable() {
            assert(!T::encodable(views(items@)[at as int]));
            return false;
        }
        at += 1;
    }
    true
}

/// Tests whether an array can be encoded in the compact form.
pub fn is_compact_array_encodable<T: Serialize>(items: &Vec<T>) -> (ok: bool)
    ensures
        ok == compact_array_encodable::<T>(views(items@)),
{
    items.len() <= MAX_COMPACT_LEN && are_items_encodable(items)
}

/// Appends the layouts of the elements, one after the other.
pub fn write_items<T: Serialize>(out: &mut Vec<u8>, items: &Vec<T>)
    requires
        items_encodable::<T>(views(items@)),
    ensures
        final(out)@ == old(out)@ + wire_items::<T>(views(items@)),
{
    let ghost start = out@;
    let ghost all = views(items@);
    let mut at: usize = 0;
    assert(all.take(0) =~= Seq::<T::V>::empty());
    while at < items.len()
        invariant
            at <= items@.len(),
            all == views(items@),
            items_encodable::<T>(all),
            out@ == start + wire_items::<T>(all.take(at as int)),
        decreases items@.len() - at,
    {
        assert(T::encodable(all[at as int]));
        let part = items[at].to_bytes();
        out.extend_from_slice(part.as_slice());
        proof {
            let next = all.take(at + 1);
            assert(next.drop_last() =~= all.take(at as int));
            assert(next.last() == all[at as int]);
            assert(out@ =~= start + wire_items::<T>(next));
        }
        at += 1;
    }
    assert(all.take(at as int) =~= all);
}

/// Appends an array in the compact form: the number of elements plus one,
/// then the elements.
pub fn write_compact_array<T: Serialize>(out: &mut Vec<u8>, items: &Vec<T>)
    requires
        compact_array_encodable::<T>(views(items@)),
    ensures
        final(out)@ == old(out)@ + compact_array_wire::<T>(views(items@)),
{
    let ghost start = out@;
    write_compact_length(out, items.len());
    write_items(out, items);
    assert(out@ =~= start + compact_array_wire::<T>(views(items@)));
}

/// A signed 32-bit integer is four big-endian bytes.
impl Serialize for i32 {
    open spec fn wire(value: i32) -> Seq<u8> {
        i32_be_bytes(value)
    }

    open spec fn encodable(value: i32) -> bool {
        true
    }

    fn is_encodable(&self) -> (ok: bool) {
        true
    }

    fn to_bytes(&self) -> (out: Vec<u8>) {
        let mut out = Vec::new();
        write_i32(&mut out, *self);
        assert(out@ =~= i32_be_bytes(*self));
        out
    }

    open spec fn max_wire_len() -> nat {
        4
    }

    proof fn lemma_wire_len(value: i32) {
        lemma_be_bytes_len();
    }
}

} // verus!
