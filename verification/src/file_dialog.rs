//! Help for file dialogs that match file extensions letter for letter.

use vstd::prelude::*;
use vstd::string::*;

verus! {

/// Two to the power of `exponent`.
pub open spec fn power_of_two(exponent: nat) -> nat
    decreases exponent,
{
    if exponent == 0 {
        1
    } else {
        2 * power_of_two((exponent - 1) as nat)
    }
}

/// The upper-case form of an ASCII letter; any other character as it is.
pub open spec fn ascii_upper(ch: char) -> char {
    if 'a' <= ch <= 'z' {
        ((ch as u8) - 32) as u8 as char
    } else {
        ch
    }
}

/// The lower-case form of an ASCII letter; any other character as it is.
pub open spec fn ascii_lower(ch: char) -> char {
    if 'A' <= ch <= 'Z' {
        ((ch as u8) + 32) as u8 as char
    } else {
        ch
    }
}

/// Whether the bit at `index` is set in `mask`.
pub open spec fn bit_is_set(mask: u64, index: u64) -> bool
    recommends
        index < 64,
{
    mask & (1u64 << index) > 0
}

/// The capitalisation of a text that a mask selects: the character at each
/// place in upper case where the bit of that place is set, else in lower case.
pub open spec fn capitalisation(text: Seq<char>, mask: u64) -> Seq<char> {
    Seq::new(
        text.len(),
        |i: int|
            if bit_is_set(mask, i as u64) {
                ascii_upper(text[i])
            } else {
                ascii_lower(text[i])
            },
    )
}

/// Gets all of the possible capitalisations of a string.
///
/// File dialogs do not match file extensions case-insensitively, so they are
/// given every capitalisation of the extensions that matter, in case files
/// have bizarrely capitalised extensions.
///
/// The text must be ASCII and at most 31 characters long: there are two to
/// the power of its length capitalisations, one for each mask of that many bits.
pub fn all_capitalisations_of(input: &str) -> (result: Vec<String>)
    requires
        is_ascii(input),
        input@.len() <= 31,
    ensures
        result@.len() == power_of_two(input@.len()),
        forall|mask: int|
            0 <= mask < result@.len() ==> (#[trigger] result@[mask])@ == capitalisation(
                input@,
                mask as u64,
            ),
{
    broadcast use is_ascii_spec_bytes;

    let len = input.as_bytes().len();
    let mut count: u64 = 1;
    let mut doubled: usize = 0;
    while doubled < len
        invariant
            doubled <= len <= 31,
            count == power_of_two(doubled as nat),
            count <= 0x8000_0000,
            doubled < 31 ==> count <= 0x4000_0000,
        decreases len - doubled,
    {
        proof {
            lemma_power_of_two_bound(doubled as nat);
            lemma_power_of_two_bound((doubled + 1) as nat);
        }
        count = count * 2;
        doubled += 1;
    }
    let mut result: Vec<String> = Vec::new();
    let mut mask: u64 = 0;
    while mask < count
        invariant
            mask <= count,
            len == input@.len(),
            len <= 31,
            is_ascii(input),
            result@.len() == mask,
            forall|done: int|
                0 <= done < mask ==> (#[trigger] result@[done])@ == capitalisation(
                    input@,
                    done as u64,
                ),
        decreases count - mask,
    {
        let mut new_str = String::new();
        let mut i: usize = 0;
        while i < len
            invariant
                i <= len,
                len == input@.len(),
                len <= 31,
                is_ascii(input),
                new_str@ == capitalisation(input@, mask).take(i as int),
            decreases len - i,
        {
            let byte = input.get_ascii(i);
            let ghost ch = input@[i as int];
            assert(ch as u32 <= 127) by {
                assert(vstd::utf8::is_ascii_chars(input@));
            }
            let cased: u8 = if mask & (1u64 << (i as u64)) > 0 {
                if 97 <= byte && byte <= 122 {
                    byte - 32
                } else {
                    byte
                }
            } else {
                if 65 <= byte && byte <= 90 {
                    byte + 32
                } else {
                    byte
                }
            };
            new_str.push(cased as char);
            proof {
                assert(byte as char == ch);
                assert(new_str@ =~= capitalisation(input@, mask).take(i as int + 1));
            }
            i += 1;
        }
        assert(capitalisation(input@, mask).take(len as int) =~= capitalisation(input@, mask));
        result.push(new_str);
        mask += 1;
    }
    result
}

/// Two to the power of at most 31 fits in 32 bits.
proof fn lemma_power_of_two_bound(exponent: nat)
    requires
        exponent <= 31,
    ensures
        power_of_two(exponent) <= 0x8000_0000,
        exponent < 31 ==> power_of_two(exponent) <= 0x4000_0000,
{
    reveal_with_fuel(power_of_two, 32);
}

} // verus!
