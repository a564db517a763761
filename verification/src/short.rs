//! Short strings that are stored without an allocation.

use vstd::prelude::*;
use vstd::utf8::*;
use crate::trusted::str_from_utf8;

verus! {

/// The longest string, in bytes, that a [`Short`] holds.
pub const MAX_LEN: usize = 30;

/// A string of at most [`MAX_LEN`] bytes, stored inline.
#[derive(Clone, Copy, Debug)]
pub struct Short {
    value: [u8; 30],
    len: u8,
}

impl View for Short {
    type V = Seq<char>;

    /// The characters of the string.
    closed spec fn view(&self) -> Seq<char> {
        decode_utf8(self.value@.take(self.len as int))
    }
}

impl Short {
    #[verifier::type_invariant]
    spec fn inv(&self) -> bool {
        &&& self.len <= MAX_LEN
        &&& valid_utf8(self.value@.take(self.len as int))
    }

    /// Whether a string is short enough to be stored inline.
    pub open spec fn fits(text: Seq<char>) -> bool {
        encode_utf8(text).len() <= MAX_LEN
    }

    /// Stores a copy of `slice`, which must not be longer than [`MAX_LEN`]
    /// bytes.
    pub fn from_slice(slice: &str) -> (short: Short)
        requires
            Short::fits(slice@),
        ensures
            short@ == slice@,
    {
        let bytes = slice.as_bytes();
        let len = bytes.len();
        let mut value = [0u8; 30];
        let mut i: usize = 0;
        while i < len
            invariant
                i <= len <= MAX_LEN,
                len == bytes@.len(),
                value@.take(i as int) == bytes@.take(i as int),
            decreases len - i,
        {
            value[i] = bytes[i];
            proof {
                assert(value@.take(i + 1) =~= bytes@.take(i + 1));
            }
            i += 1;
        }
        proof {
            assert(bytes@.take(len as int) =~= bytes@);
            encode_utf8_valid_utf8(slice@);
            encode_utf8_decode_utf8(slice@);
        }
        Short { value, len: len as u8 }
    }

    /// The string as a slice.
    pub fn as_str(&self) -> (slice: &str)
        ensures
            slice@ == self@,
    {
        proof {
            use_type_invariant(self);
        }
        let bytes = vstd::slice::slice_subrange(self.value.as_slice(), 0, self.len as usize);
        match str_from_utf8(bytes) {
            Some(slice) => {
                proof {
                    encode_utf8_decode_utf8(slice@);
                }
                slice
            },
            None => "",
        }
    }
}

} // verus!
