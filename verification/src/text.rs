//! Text: an 8-byte count of the bytes of the UTF-8 encoding, then those
//! bytes. Bytes that are no valid UTF-8 do not decode. Text defaults to the
//! empty string.

use crate::codec::{frame, Format, OnChain};
use crate::le::lemma_digits_len;
use vstd::prelude::*;
use vstd::slice::slice_to_vec;
use vstd::string::StrSliceExecFns;
use vstd::utf8::{
    decode_utf8, encode_utf8, encode_utf8_decode_utf8, encode_utf8_valid_utf8, valid_utf8,
};

verus! {

/// `String::from_utf8`, with the error dropped: the string whose UTF-8
/// encoding is `bytes`, and nothing exactly where `bytes` is no valid UTF-8.
#[verifier::external_body]
fn text_from_utf8(bytes: Vec<u8>) -> (r: Option<String>)
    ensures
        r is Some <==> valid_utf8(bytes@),
        r matches Some(s) ==> encode_utf8(s@) == bytes@,
{
    match String::from_utf8(bytes) {
        Ok(s) => Some(s),
        Err(_) => None,
    }
}

/// Whether two strings hold the same text.
pub fn same_text(a: &str, b: &str) -> (r: bool)
    ensures
        r == (a@ == b@),
{
    let x = a.as_bytes();
    let y = b.as_bytes();
    proof {
        encode_utf8_decode_utf8(a@);
        encode_utf8_decode_utf8(b@);
    }
    if x.len() != y.len() {
        return false;
    }
    let mut i: usize = 0;
    while i < x.len()
        invariant
            i <= x.len(),
            x.len() == y.len(),
            x@ == encode_utf8(a@),
            y@ == encode_utf8(b@),
            forall|j: int| 0 <= j < i ==> x@[j] == y@[j],
        decreases x.len() - i,
    {
        if x[i] != y[i] {
            return false;
        }
        i = i + 1;
    }
    assert(x@ =~= y@);
    true
}

impl Format for String {
    open spec fn fixed_width() -> Option<u64> {
        None
    }

    open spec fn body(v: Seq<char>) -> Seq<u8> {
        encode_utf8(v)
    }

    open spec fn parse(bytes: Seq<u8>) -> Option<Seq<char>> {
        if valid_utf8(bytes) {
            Some(decode_utf8(bytes))
        } else {
            None
        }
    }

    open spec fn default_value() -> Seq<char> {
        Seq::empty()
    }

    open spec fn encodable(v: Seq<char>) -> bool {
        encode_utf8(v).len() <= u64::MAX
    }

    open spec fn logical_id() -> Option<Seq<char>> {
        None
    }

    open spec fn user_input() -> bool {
        false
    }

    proof fn lemma_round_trip(v: Seq<char>) {
        encode_utf8_valid_utf8(v);
        encode_utf8_decode_utf8(v);
    }
}

impl OnChain for String {
    fn _capacity(&self) -> u64 {
        proof {
            lemma_digits_len(encode_utf8(self@).len(), 8);
        }
        self.as_str().as_bytes().len() as u64 + 8
    }

    fn _id() -> Option<&'static str> {
        None
    }

    fn _to_bytes(&self) -> Vec<u8> {
        frame(self.as_str().as_bytes_vec())
    }

    fn _from_bytes(bytes: &[u8]) -> Option<Self> {
        let r = text_from_utf8(slice_to_vec(bytes));
        proof {
            if r is Some {
                encode_utf8_decode_utf8(r->0@);
            }
        }
        r
    }

    fn _fixed_size() -> Option<u64> {
        None
    }

    fn _eq(&self, other: &Self) -> bool {
        *self == *other
    }

    fn _default() -> Self {
        String::new()
    }

    fn _user_input() -> bool {
        false
    }
}

} // verus!
