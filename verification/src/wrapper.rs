//! The tagged cell: a one-byte discriminant that says which logical cell a
//! blob is, and the encoded value behind it.

use crate::codec::{Format, OnChain};
use crate::le::lemma_digits_len;
use crate::record::{
    lemma_pair_round_trip, pair_body, pair_parse, put_field, read_pair, seal,
};
use vstd::prelude::*;

verus! {

/// A discriminant with the bytes of one encoded value.
pub struct OnChainWrapper {
    pub idx: u8,
    pub data: Vec<u8>,
}

impl DeepView for OnChainWrapper {
    type V = (u8, Seq<u8>);

    open spec fn deep_view(&self) -> (u8, Seq<u8>) {
        (self.idx, self.data@)
    }
}

impl Format for OnChainWrapper {
    open spec fn fixed_width() -> Option<u64> {
        None
    }

    open spec fn body(v: (u8, Seq<u8>)) -> Seq<u8> {
        pair_body::<u8, Vec<u8>>(v.0, v.1)
    }

    open spec fn parse(bytes: Seq<u8>) -> Option<(u8, Seq<u8>)> {
        pair_parse::<u8, Vec<u8>>(bytes)
    }

    open spec fn default_value() -> (u8, Seq<u8>) {
        (u8::default_value(), Vec::<u8>::default_value())
    }

    open spec fn encodable(v: (u8, Seq<u8>)) -> bool {
        &&& Vec::<u8>::encodable(v.1)
        &&& pair_body::<u8, Vec<u8>>(v.0, v.1).len() <= u64::MAX
    }

    open spec fn logical_id() -> Option<Seq<char>> {
        None
    }

    open spec fn user_input() -> bool {
        false
    }

    proof fn lemma_round_trip(v: (u8, Seq<u8>)) {
        lemma_pair_round_trip::<u8, Vec<u8>>(v.0, v.1);
    }
}

impl OnChain for OnChainWrapper {
    fn _capacity(&self) -> u64 {
        proof {
            let body = pair_body::<u8, Vec<u8>>(self.idx, self.data@);
            lemma_digits_len(body.len(), 8);
            assert(self.data.deep_view() =~= self.data@);
        }
        8 + self.idx._capacity() + self.data._capacity()
    }

    fn _id() -> Option<&'static str> {
        None
    }

    fn _to_bytes(&self) -> Vec<u8> {
        let mut result: Vec<u8> = Vec::new();
        proof {
            assert(self.data.deep_view() =~= self.data@);
        }
        put_field::<u8>(&mut result, &self.idx);
        put_field::<Vec<u8>>(&mut result, &self.data);
        seal(OnChainWrapper::_fixed_size(), result)
    }

    fn _from_bytes(bytes: &[u8]) -> Option<Self> {
        match read_pair::<u8, Vec<u8>>(bytes) {
            Some((idx, data)) => {
                proof {
                    assert(data.deep_view() =~= data@);
                }
                Some(OnChainWrapper { idx, data })
            },
            None => None,
        }
    }

    fn _fixed_size() -> Option<u64> {
        None
    }

    fn _eq(&self, other: &Self) -> bool {
        if !self.idx._eq(&other.idx) {
            return false;
        }
        proof {
            assert(self.data.deep_view() =~= self.data@);
            assert(other.data.deep_view() =~= other.data@);
        }
        if !self.data._eq(&other.data) {
            return false;
        }
        true
    }

    fn _default() -> Self {
        let data = Vec::<u8>::_default();
        proof {
            assert(data.deep_view() =~= data@);
        }
        OnChainWrapper { idx: u8::_default(), data }
    }

    fn _user_input() -> bool {
        false
    }
}

} // verus!
