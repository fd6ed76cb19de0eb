//! A rotating-substitution text cipher.
//!
//! Each character of the input is shifted within its alphabetic case by the
//! code of one character of the key; the key position rotates through the
//! key's characters. Characters outside the ASCII alphabet pass through
//! unchanged.

use vstd::prelude::*;
use vstd::string::StrSliceExecFns;

verus! {

/// The base code of the alphabetic case `c` belongs to: the code of `'a'`
/// for ASCII lower case, of `'A'` for ASCII upper case, none otherwise.
pub open spec fn base_code(c: char) -> Option<u8> {
    if 97 <= c as int <= 122 {
        Option::Some(97u8)
    } else if 65 <= c as int <= 90 {
        Option::Some(65u8)
    } else {
        Option::None
    }
}

/// The character `c` shifted by `shift` places within the 26 letters of its
/// case, starting at `base`; meaningful when `c` is an ASCII letter of that
/// case.
pub open spec fn shifted_char(c: char, shift: u8, base: int) -> char
    recommends
        base <= c as int <= base + 25,
{
    ((((c as int - base) + shift) % 26) + base) as char
}

/// One ciphered character: an ASCII letter is shifted within its case, any
/// other character passes through unchanged.
pub open spec fn cipher_char(c: char, shift: u8) -> char {
    match base_code(c) {
        Option::None => c,
        Option::Some(b) => shifted_char(c, shift, b as int),
    }
}

/// The shift the key supplies at position `ki`: the low byte of the key
/// character there.
pub open spec fn key_shift(key: &str, ki: int) -> u8 {
    if 0 <= ki < key@.len() {
        ((key@[ki] as int) % 256) as u8
    } else {
        0
    }
}

/// The key position after `ki`: one further, wrapped around at the key's
/// length.
pub open spec fn rotated_key_index(key: &str, ki: int) -> int {
    if key@.len() == 0 {
        0
    } else {
        (ki + 1) % (key@.len() as int)
    }
}

/// The whole text ciphered with the key, starting from key position `ki`.
pub open spec fn cipher_text(clean: Seq<char>, key: &str, ki: int) -> Seq<char>
    decreases clean.len(),
{
    if clean.len() == 0 {
        Seq::empty()
    } else {
        seq![cipher_char(clean[0], key_shift(key, ki))] + cipher_text(
            clean.drop_first(),
            key,
            rotated_key_index(key, ki),
        )
    }
}

/// The base code for a character, when it is an ASCII alphabetic character.
pub fn get_base_code_option(the_char: char) -> (r: Option<u8>)
    ensures
        r == base_code(the_char),
{
    let code: u32 = the_char as u32;
    if 97 <= code && code <= 122 {
        Some(97)
    } else if 65 <= code && code <= 90 {
        Some(65)
    } else {
        None
    }
}

/// Cipher one character: shift an ASCII letter by `shift` places within its
/// case, wrapping around; leave any other character unchanged.
pub fn caesar_cipher_char(clean_char: char, shift: u8) -> (r: char)
    ensures
        r == cipher_char(clean_char, shift),
{
    let base: u8 = match get_base_code_option(clean_char) {
        None => {
            return clean_char;
        },
        Some(base) => base,
    };
    let code: u32 = clean_char as u32;
    let offset: u32 = code - base as u32;
    let shifted: u32 = (offset + shift as u32) % 26;
    let out_code: u32 = shifted + base as u32;
    assert(out_code < 256);
    let ciphered: char = (out_code as u8) as char;
    assert(ciphered == shifted_char(clean_char, shift, base as int));
    ciphered
}

/// The next rotating key position: one further, wrapped around at the key's
/// length.
pub fn get_next_key_index(current_index: usize, key_string: &str) -> (r: usize)
    requires
        key_string@.len() > 0,
        current_index < usize::MAX,
    ensures
        r as int == rotated_key_index(key_string, current_index as int),
        r < key_string@.len(),
{
    let next_index: usize = current_index + 1;
    let rotated_index: usize = next_index % key_string.unicode_len();
    rotated_index
}

/// Cipher a whole text with a key: each character is shifted by the code of
/// the key character at the rotating key position. A key position past the
/// key's characters supplies a shift of zero.
///
/// The key may be empty only for an empty text, where no position is ever
/// taken.
pub fn caesar_cipher_text(clean_string: &str, key_string: &str) -> (r: String)
    requires
        clean_string@.len() == 0 || key_string@.len() > 0,
    ensures
        r@ == cipher_text(clean_string@, key_string, 0),
{
    let clean_len: usize = clean_string.unicode_len();
    let key_char_len: usize = key_string.unicode_len();
    let mut key_index: usize = 0;
    let mut ciphered_string: String = String::new();
    proof {
        assert(clean_string@.skip(0) =~= clean_string@);
        assert(ciphered_string@ + cipher_text(clean_string@, key_string, 0) =~= cipher_text(
            clean_string@,
            key_string,
            0,
        ));
    }
    let mut i: usize = 0;
    while i < clean_len
        invariant
            i <= clean_len,
            clean_len == clean_string@.len(),
            key_char_len == key_string@.len(),
            clean_len > 0 ==> key_index < key_char_len,
            ciphered_string@ + cipher_text(clean_string@.skip(i as int), key_string, key_index as int)
                == cipher_text(clean_string@, key_string, 0),
        decreases clean_len - i,
    {
        let clean_char: char = clean_string.get_char(i);
        let key_char: char = key_string.get_char(key_index);
        let key_code: u32 = key_char as u32;
        let shift: u8 = (key_code % 256) as u8;
        assert(shift == key_shift(key_string, key_index as int));
        let ciphered_char: char = caesar_cipher_char(clean_char, shift);
        proof {
            let rest = clean_string@.skip(i as int);
            assert(rest[0] == clean_string@[i as int]);
            assert(rest.drop_first() =~= clean_string@.skip(i as int + 1));
            assert(cipher_text(rest, key_string, key_index as int) == seq![
                cipher_char(rest[0], key_shift(key_string, key_index as int)),
            ] + cipher_text(
                rest.drop_first(),
                key_string,
                rotated_key_index(key_string, key_index as int),
            ));
        }
        push_char(&mut ciphered_string, ciphered_char);
        key_index = get_next_key_index(key_index, key_string);
        i += 1;
        proof {
            assert(ciphered_string@ + cipher_text(
                clean_string@.skip(i as int),
                key_string,
                key_index as int,
            ) =~= cipher_text(clean_string@, key_string, 0));
        }
    }
    proof {
        assert(clean_string@.skip(clean_len as int) =~= Seq::<char>::empty());
        assert(ciphered_string@ =~= ciphered_string@ + Seq::<char>::empty());
    }
    ciphered_string
}

/// Append one character at the end of a text.
///
/// Relies on `String::push`: the string afterwards holds its old characters
/// followed by the pushed one.
#[verifier::external_body]
fn push_char(s: &mut String, c: char)
    ensures
        final(s)@ == old(s)@.push(c),
{
    s.push(c);
}

} // verus!
