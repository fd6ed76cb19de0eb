//! The fingerprint function: a 64-bit FNV-style mix over a sequence of words,
//! rendered as a fixed-width hexadecimal string.
//!
//! The whole digest is a pure specification function, so determinism is by
//! construction: the result depends on the mixed words alone.

use vstd::prelude::*;
use vstd::string::StringExecFns;

verus! {

/// Offset basis of the 64-bit FNV hash family; the state every mix starts from.
pub const MIX_SEED: u64 = 0xcbf2_9ce4_8422_2325;

/// Multiplier of the 64-bit FNV hash family (an odd prime).
pub const MIX_PRIME: u64 = 0x100_0000_01b3;

/// One round of the mix: fold a word into the running state.
pub open spec fn mix_step(h: u64, v: u64) -> u64 {
    vstd::wrapping::u64_specs::wrapping_mul(h ^ v, MIX_PRIME)
}

/// Fold a whole sequence of words into the running state, front to back.
pub open spec fn mix_fold(h: u64, vs: Seq<u64>) -> u64
    decreases vs.len(),
{
    if vs.len() == 0 {
        h
    } else {
        mix_fold(mix_step(h, vs[0]), vs.drop_first())
    }
}

/// Folding a concatenation is folding the two parts in turn.
pub proof fn lemma_mix_fold_concat(h: u64, a: Seq<u64>, b: Seq<u64>)
    ensures
        mix_fold(h, a + b) == mix_fold(mix_fold(h, a), b),
    decreases a.len(),
{
    if a.len() == 0 {
        assert(a + b =~= b);
    } else {
        assert((a + b).drop_first() =~= a.drop_first() + b);
        lemma_mix_fold_concat(mix_step(h, a[0]), a.drop_first(), b);
    }
}

/// Folding a single word is one round of the mix.
pub proof fn lemma_mix_fold_singleton(h: u64, v: u64)
    ensures
        mix_fold(h, seq![v]) == mix_step(h, v),
{
    assert(seq![v].drop_first() =~= Seq::<u64>::empty());
    assert(mix_fold(mix_step(h, v), Seq::<u64>::empty()) == mix_step(h, v));
}

/// Folding one more word at the back is one round on the folded front.
pub proof fn lemma_mix_fold_push(h: u64, vs: Seq<u64>, v: u64)
    ensures
        mix_fold(h, vs.push(v)) == mix_step(mix_fold(h, vs), v),
{
    assert(vs.push(v) =~= vs + seq![v]);
    lemma_mix_fold_concat(h, vs, seq![v]);
    lemma_mix_fold_singleton(mix_fold(h, vs), v);
}

/// One round of the mix, executable.
pub fn mix_one(h: u64, v: u64) -> (r: u64)
    ensures
        r == mix_step(h, v),
{
    (h ^ v).wrapping_mul(MIX_PRIME)
}

/// The character standing for one hexadecimal digit value.
pub open spec fn hex_digit(d: u64) -> char {
    if d % 16 < 10 {
        ((48 + d % 16) as u8) as char
    } else {
        ((87 + d % 16) as u8) as char
    }
}

/// The value rendered in hexadecimal with exactly `digits` characters,
/// most significant digit first (leading zeroes kept).
pub open spec fn hex_render(h: u64, digits: nat) -> Seq<char>
    decreases digits,
{
    if digits == 0 {
        Seq::empty()
    } else {
        hex_render(h / 16, (digits - 1) as nat) + seq![hex_digit(h % 16)]
    }
}

/// The full digest: fold the words from the seed, render as 16 hex digits.
pub open spec fn digest_of(vs: Seq<u64>) -> Seq<char> {
    hex_render(mix_fold(MIX_SEED, vs), 16)
}

/// The one-character string for a hexadecimal digit value.
fn hex_digit_str(d: u64) -> (r: &'static str)
    requires
        d < 16,
    ensures
        r@ == seq![hex_digit(d)],
{
    proof {
        reveal_strlit("0");
        reveal_strlit("1");
        reveal_strlit("2");
        reveal_strlit("3");
        reveal_strlit("4");
        reveal_strlit("5");
        reveal_strlit("6");
        reveal_strlit("7");
        reveal_strlit("8");
        reveal_strlit("9");
        reveal_strlit("a");
        reveal_strlit("b");
        reveal_strlit("c");
        reveal_strlit("d");
        reveal_strlit("e");
        reveal_strlit("f");
    }
    match d {
        0 => "0",
        1 => "1",
        2 => "2",
        3 => "3",
        4 => "4",
        5 => "5",
        6 => "6",
        7 => "7",
        8 => "8",
        9 => "9",
        10 => "a",
        11 => "b",
        12 => "c",
        13 => "d",
        14 => "e",
        _ => "f",
    }
}

/// Render a value in hexadecimal with exactly `digits` characters.
pub fn hex_string(h: u64, digits: usize) -> (r: String)
    ensures
        r@ == hex_render(h, digits as nat),
        r@.len() == digits,
    decreases digits,
{
    if digits == 0 {
        String::new()
    } else {
        let mut s = hex_string(h / 16, digits - 1);
        s.append(hex_digit_str(h % 16));
        s
    }
}

} // verus!
