//! Names as the control surface spells them: in ASCII, in capitals or small letters.

use vstd::prelude::*;
use vstd::string::StringSliceAdditionalSpecFns;
use vstd::utf8::{is_ascii_chars, is_ascii_chars_encode_utf8};

verus! {

/// The byte `b`, with a small ASCII letter turned into its capital.
pub open spec fn ascii_upper(b: u8) -> u8 {
    if 97 <= b <= 122 {
        (b - 32) as u8
    } else {
        b
    }
}

/// Whether two byte strings are the same but for the case of their ASCII letters.
pub open spec fn same_ignoring_case(a: Seq<u8>, b: Seq<u8>) -> bool {
    &&& a.len() == b.len()
    &&& forall|i: int| 0 <= i < a.len() ==> ascii_upper(#[trigger] a[i]) == ascii_upper(b[i])
}

/// The bytes of a string of ASCII characters.
pub open spec fn ascii_bytes(chars: Seq<char>) -> Seq<u8> {
    Seq::new(chars.len(), |i: int| chars[i] as u8)
}

/// Whether `input` spells the ASCII name `name`, in whatever case.
pub open spec fn spells(input: &str, name: Seq<char>) -> bool {
    same_ignoring_case(input.spec_bytes(), ascii_bytes(name))
}

/// The byte `b`, with a small ASCII letter turned into its capital.
pub fn upper(b: u8) -> (r: u8)
    ensures
        r == ascii_upper(b),
{
    if 97 <= b && b <= 122 {
        b - 32
    } else {
        b
    }
}

/// Whether two texts are the same but for the case of their ASCII letters.
pub fn names_match(input: &str, name: &str) -> (b: bool)
    ensures
        b == same_ignoring_case(input.spec_bytes(), name.spec_bytes()),
{
    let given: &[u8] = input.as_bytes();
    let wanted: &[u8] = name.as_bytes();
    if given.len() != wanted.len() {
        return false;
    }
    let n: usize = given.len();
    let mut i: usize = 0;
    while i < n
        invariant
            i <= n,
            n == given@.len(),
            n == wanted@.len(),
            given@ == input.spec_bytes(),
            wanted@ == name.spec_bytes(),
            forall|j: int| 0 <= j < i ==> ascii_upper(#[trigger] given@[j]) == ascii_upper(wanted@[j]),
        decreases n - i,
    {
        if upper(given[i]) != upper(wanted[i]) {
            assert(ascii_upper(given@[i as int]) != ascii_upper(wanted@[i as int]));
            return false;
        }
        i = i + 1;
    }
    true
}

/// The bytes of a text of ASCII characters are its characters, one byte each.
pub proof fn lemma_ascii_text_bytes(name: &str)
    requires
        is_ascii_chars(name@),
    ensures
        name.spec_bytes() == ascii_bytes(name@),
{
    is_ascii_chars_encode_utf8(name@);
    assert(name.spec_bytes() =~= ascii_bytes(name@));
}

} // verus!
