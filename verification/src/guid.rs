//! Device ids: the `DefaultHasher` digest of a device's identifying fields,
//! written in decimal.

use vstd::prelude::*;
use crate::text::push_char;
use std::collections::hash_map::DefaultHasher;
use std::hash::Hasher;
use vstd::std_specs::hash::DefaultHasherAdditionalSpecFns;

verus! {

/// The character of a decimal digit.
pub open spec fn digit_char(d: nat) -> char {
    (48 + d) as char
}

/// The decimal text of a number, without leading zeros.
pub open spec fn decimal(n: nat) -> Seq<char>
    decreases n,
{
    if n < 10 {
        seq![digit_char(n)]
    } else {
        decimal(n / 10).push(digit_char(n % 10))
    }
}

/// A decimal text has at least one digit.
proof fn lemma_decimal_len(n: nat)
    ensures
        decimal(n).len() >= 1,
        n >= 10 ==> decimal(n).len() >= 2,
    decreases n,
{
    if n >= 10 {
        lemma_decimal_len(n / 10);
    }
}

/// Different numbers have different decimal texts.
pub proof fn lemma_decimal_injective(a: nat, b: nat)
    requires
        decimal(a) == decimal(b),
    ensures
        a == b,
    decreases a,
{
    lemma_decimal_len(a);
    lemma_decimal_len(b);
    if a < 10 && b < 10 {
        assert(decimal(a)[0] == digit_char(a));
        assert(decimal(b)[0] == digit_char(b));
    } else if a >= 10 && b >= 10 {
        assert(decimal(a).last() == digit_char(a % 10));
        assert(decimal(b).last() == digit_char(b % 10));
        assert(decimal(a).drop_last() == decimal(a / 10));
        assert(decimal(b).drop_last() == decimal(b / 10));
        lemma_decimal_injective(a / 10, b / 10);
    }
}

/// The decimal text of a number (`u64::to_string`).
pub fn decimal_text(n: u64) -> (r: String)
    ensures
        r@ == decimal(n as nat),
    decreases n,
{
    let d = (n % 10) as u8;
    let c = (48u8 + d) as char;
    if n < 10 {
        let mut s = String::new();
        push_char(&mut s, c);
        s
    } else {
        let mut s = decimal_text(n / 10);
        push_char(&mut s, c);
        s
    }
}

/// The digest `DefaultHasher` gives for these writes, made after `DefaultHasher::new`.
pub open spec fn digest(writes: Seq<Seq<u8>>) -> u64 {
    DefaultHasher::spec_finish(writes)
}

/// The digest of a sequence of byte-string writes to a fresh `DefaultHasher`.
pub fn digest_of(parts: &Vec<String>) -> (r: u64)
    ensures
        r == digest(parts@.map_values(|p: String| vstd::utf8::encode_utf8(p@))),
{
    let mut h = DefaultHasher::new();
    let ghost target = parts@.map_values(|p: String| vstd::utf8::encode_utf8(p@));
    let mut i: usize = 0;
    while i < parts.len()
        invariant
            i <= parts.len(),
            target == parts@.map_values(|p: String| vstd::utf8::encode_utf8(p@)),
            h@ == target.take(i as int),
        decreases parts.len() - i,
    {
        let bytes = parts[i].as_str().as_bytes();
        h.write(bytes);
        proof {
            assert(target.take(i + 1) == target.take(i as int).push(target[i as int]));
        }
        i = i + 1;
    }
    proof {
        assert(target.take(parts.len() as int) == target);
    }
    h.finish()
}

} // verus!
