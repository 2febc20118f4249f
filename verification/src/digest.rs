//! The digest by which enum types are compared.
//!
//! A digest is the hash of an enum's schema, name and values under std's
//! `DefaultHasher`, written in hexadecimal.
use std::collections::hash_map::DefaultHasher;
use std::hash::{Hash, Hasher};
use vstd::prelude::*;
use vstd::std_specs::hash::DefaultHasherAdditionalSpecFns;
use vstd::string::*;

use crate::enum_type::EnumType;
use crate::text::texts;

verus! {

/// The writes that hashing a string performs on a `DefaultHasher`, in one build of the program.
pub uninterp spec fn string_writes(s: Seq<char>) -> Seq<Seq<u8>>;

/// The writes that hashing a list of strings performs on a `DefaultHasher`, in one build of the
/// program.
pub uninterp spec fn list_writes(values: Seq<Seq<char>>) -> Seq<Seq<u8>>;

/// Hashes a string with `<str as Hash>::hash`.
///
/// Trusted: the call appends to the hasher's writes a sequence that the string's characters
/// alone decide. Which bytes these are is not stated: std keeps them the same within one build of
/// a program, but lets them change with the compiler version and the target.
#[verifier::external_body]
fn hash_string(s: &str, state: &mut DefaultHasher)
    ensures
        final(state)@ == old(state)@ + string_writes(s@),
{
    s.hash(state)
}

/// Hashes a list of strings with `<Vec<String> as Hash>::hash`.
///
/// Trusted: the call appends to the hasher's writes a sequence that the characters of the
/// listed strings alone decide. Which bytes these are is not stated, for the same reason as for a
/// single string.
#[verifier::external_body]
fn hash_list(values: &Vec<String>, state: &mut DefaultHasher)
    ensures
        final(state)@ == old(state)@ + list_writes(texts(values@)),
{
    values.hash(state)
}

/// The hash of an enum's schema, name and values, in this order.
pub open spec fn fingerprint(schema: Seq<char>, name: Seq<char>, values: Seq<Seq<char>>) -> u64 {
    DefaultHasher::spec_finish(string_writes(schema) + string_writes(name) + list_writes(values))
}

/// The digest of an enum with the given schema, name and values.
pub open spec fn digest_of(
    schema: Seq<char>,
    name: Seq<char>,
    values: Seq<Seq<char>>,
) -> Seq<char> {
    lower_hex(fingerprint(schema, name, values) as nat)
}

/// The hexadecimal digit of a number below sixteen.
pub open spec fn hex_digit(d: nat) -> char {
    seq!['0', '1', '2', '3', '4', '5', '6', '7', '8', '9', 'a', 'b', 'c', 'd', 'e', 'f'][d as int]
}

/// A number in lower-case hexadecimal, without leading zeros.
pub open spec fn lower_hex(n: nat) -> Seq<char>
    decreases n,
{
    if n < 16 {
        seq![hex_digit(n)]
    } else {
        lower_hex(n / 16).push(hex_digit(n % 16))
    }
}

/// The hexadecimal digit of a number below sixteen, as a string.
fn digit(d: u64) -> (r: &'static str)
    requires
        d < 16,
    ensures
        r@ == seq![hex_digit(d as nat)],
{
    proof {
        reveal_strlit("0");
        reveal_strlit("1");
        reveal_strlit("2");
        reveal_strlit("3");
        reveal_strlit("4");
        reveal_strlit("5");
        reveal_strlit("6");
        reveal_strlit("7");
        reveal_strlit("8");
        reveal_strlit("9");
        reveal_strlit("a");
        reveal_strlit("b");
        reveal_strlit("c");
        reveal_strlit("d");
        reveal_strlit("e");
        reveal_strlit("f");
    }
    match d {
        0 => "0",
        1 => "1",
        2 => "2",
        3 => "3",
        4 => "4",
        5 => "5",
        6 => "6",
        7 => "7",
        8 => "8",
        9 => "9",
        10 => "a",
        11 => "b",
        12 => "c",
        13 => "d",
        14 => "e",
        _ => "f",
    }
}

/// Writes a number in lower-case hexadecimal, without leading zeros.
pub fn to_lower_hex(n: u64) -> (r: String)
    ensures
        r@ == lower_hex(n as nat),
    decreases n,
{
    if n < 16 {
        digit(n).to_string()
    } else {
        let mut r = to_lower_hex(n / 16);
        r.append(digit(n % 16));
        r
    }
}

impl EnumType {
    /// Compute a digest of the schema, name and values of an enum for quick comparison.
    /// This is not intended to be a secure hash, just a way to quickly check if the values have
    /// changed.
    pub fn compute_digest(schema: &str, name: &str, values: &Vec<String>) -> (r: String)
        ensures
            r@ == digest_of(schema@, name@, texts(values@)),
            r@ == lower_hex(
                DefaultHasher::spec_finish(
                    string_writes(schema@) + string_writes(name@) + list_writes(texts(values@)),
                ) as nat,
            ),
    {
        let mut hasher = DefaultHasher::new();
        hash_string(schema, &mut hasher);
        hash_string(name, &mut hasher);
        hash_list(values, &mut hasher);
        assert(hasher@ =~= string_writes(schema@) + string_writes(name@) + list_writes(
            texts(values@),
        ));
        to_lower_hex(hasher.finish())
    }
}

} // verus!
