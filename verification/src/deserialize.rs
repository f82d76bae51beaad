//! Decoding: the trait that every schema type implements, and arrays of
//! such types.

use crate::codec::{
    parse_array_length, parse_i32, parse_string, read_array_length, read_i32, read_string,
    DecodeError, Encoding, Parsed, MAX_COMPACT_LEN,
};
use vstd::prelude::*;

verus! {

/// A type that can be decoded from the front of a byte cursor.
///
/// Decoding is positional: the fields are read in the order of the schema,
/// and the cursor is left at the first byte after the value.
pub trait Deserialize: Sized + View {
    /// What the bytes hold: the value at their front and the bytes after it,
    /// or the reason why no value is there.
    spec fn parse(bytes: Seq<u8>) -> Parsed<Self::V>;

    /// Decodes one value and moves the cursor past it. After a failure the
    /// cursor may stand anywhere in what it held.
    fn from_bytes(buffer: &mut &[u8]) -> (outcome: Result<Self, DecodeError>)
        ensures
            match outcome {
                Ok(value) => Self::parse(old(buffer)@) == Ok::<(Self::V, Seq<u8>), DecodeError>(
                    (value@, final(buffer)@),
                ),
                Err(error) => Self::parse(old(buffer)@) == Err::<
                    (Self::V, Seq<u8>),
                    DecodeError,
                >(error),
            },
    ;
}

/// The views of a sequence of values, element by element.
pub open spec fn views<T: View>(items: Seq<T>) -> Seq<T::V> {
    items.map_values(|item: T| item@)
}

/// `count` values in a row: the first failure among them ends the parse.
pub open spec fn parse_items<T: Deserialize>(bytes: Seq<u8>, count: nat) -> Parsed<Seq<T::V>>
    decreases count,
{
    if count == 0 {
        Ok((Seq::empty(), bytes))
    } else {
        match parse_items::<T>(bytes, (count - 1) as nat) {
            Err(error) => Err(error),
            Ok((items, rest)) => match T::parse(rest) {
                Err(error) => Err(error),
                Ok((item, rest)) => Ok((items.push(item), rest)),
            },
        }
    }
}

/// An array: its length prefix in the given convention, then that many
/// elements. A prefix that announces no elements is followed by none.
pub open spec fn parse_array<T: Deserialize>(bytes: Seq<u8>, encoding: Encoding) -> Parsed<
    Seq<T::V>,
> {
    match parse_array_length(bytes, encoding) {
        Err(error) => Err(error),
        Ok((count, rest)) => parse_items::<T>(rest, count),
    }
}

/// Once a run of values has failed, asking for more of them fails in the
/// same way.
pub proof fn lemma_parse_items_failure<T: Deserialize>(bytes: Seq<u8>, failed: nat, count: nat)
    requires
        failed <= count,
        parse_items::<T>(bytes, failed) is Err,
    ensures
        parse_items::<T>(bytes, count) == parse_items::<T>(bytes, failed),
    decreases count - failed,
{
    if failed < count {
        lemma_parse_items_failure::<T>(bytes, failed, (count - 1) as nat);
    }
}

/// Decodes `count` values in a row.
pub fn read_items<T: Deserialize>(buffer: &mut &[u8], count: usize) -> (outcome: Result<
    Vec<T>,
    DecodeError,
>)
    ensures
        match outcome {
            Ok(items) => parse_items::<T>(old(buffer)@, count as nat) == Ok::<
                (Seq<T::V>, Seq<u8>),
                DecodeError,
            >((views(items@), final(buffer)@)),
            Err(error) => parse_items::<T>(old(buffer)@, count as nat) == Err::<
                (Seq<T::V>, Seq<u8>),
                DecodeError,
            >(error),
        },
{
    let ghost start = buffer@;
    let mut items: Vec<T> = Vec::new();
    let mut done: usize = 0;
    assert(views(items@) =~= Seq::<T::V>::empty());
    while done < count
        invariant
            done <= count,
            start == old(buffer)@,
            parse_items::<T>(start, done as nat) == Ok::<(Seq<T::V>, Seq<u8>), DecodeError>(
                (views(items@), buffer@),
            ),
        decreases count - done,
    {
        let ghost before = items@;
        match T::from_bytes(buffer) {
            Err(error) => {
                proof {
                    let failed = (done + 1) as nat;
                    assert(parse_items::<T>(start, (failed - 1) as nat) is Ok);
                    assert(parse_items::<T>(start, failed) == Err::<
                        (Seq<T::V>, Seq<u8>),
                        DecodeError,
                    >(error));
                    lemma_parse_items_failure::<T>(start, failed, count as nat);
                }
                return Err(error);
            },
            Ok(item) => {
                items.push(item);
                assert(views(items@) =~= views(before).push(item@));
            },
        }
        done += 1;
    }
    Ok(items)
}

/// Decodes an array: its length prefix in the given convention, then the
/// elements. No element is read after a prefix that announces none.
pub fn read_array<T: Deserialize>(buffer: &mut &[u8], encoding: Encoding) -> (outcome: Result<
    Vec<T>,
    DecodeError,
>)
    ensures
        match outcome {
            Ok(items) => parse_array::<T>(old(buffer)@, encoding) == Ok::<
                (Seq<T::V>, Seq<u8>),
                DecodeError,
            >((views(items@), final(buffer)@)),
            Err(error) => parse_array::<T>(old(buffer)@, encoding) == Err::<
                (Seq<T::V>, Seq<u8>),
                DecodeError,
            >(error),
        },
        outcome is Ok ==> outcome->Ok_0@.len() <= MAX_COMPACT_LEN,
{
    let count = match read_array_length(buffer, encoding) {
        Err(error) => { return Err(error); },
        Ok(count) => count,
    };
    let ghost elements = buffer@;
    let outcome = read_items::<T>(buffer, count);
    proof {
        if outcome is Ok {
            lemma_parse_items_len::<T>(elements, count as nat);
        }
    }
    outcome
}

/// A run of `count` values that parses holds `count` values.
pub proof fn lemma_parse_items_len<T: Deserialize>(bytes: Seq<u8>, count: nat)
    requires
        parse_items::<T>(bytes, count) is Ok,
    ensures
        parse_items::<T>(bytes, count)->Ok_0.0.len() == count,
    decreases count,
{
    if count > 0 {
        lemma_parse_items_len::<T>(bytes, (count - 1) as nat);
    }
}

/// A signed 32-bit integer decodes from four big-endian bytes.
impl Deserialize for i32 {
    open spec fn parse(bytes: Seq<u8>) -> Parsed<i32> {
        parse_i32(bytes)
    }

    fn from_bytes(buffer: &mut &[u8]) -> (outcome: Result<i32, DecodeError>) {
        read_i32(buffer)
    }
}

/// A string on its own decodes as a compact string.
impl Deserialize for String {
    open spec fn parse(bytes: Seq<u8>) -> Parsed<Seq<char>> {
        parse_string(bytes, Encoding::Compact)
    }

    fn from_bytes(buffer: &mut &[u8]) -> (outcome: Result<String, DecodeError>) {
        read_string(buffer, Encoding::Compact)
    }
}

} // verus!
