//! The cell types of the travelling-frog application.

use crate::codec::{lemma_encoding_len, Format, OnChain};
use crate::record::{
    default_or, field_default, lemma_pair_round_trip, pair_body, pair_fixed_size, pair_parse,
    pair_width, put_field, read_pair, seal,
};
use vstd::prelude::*;

verus! {

/// A frog: the strength it has left, and the travels it has made.
pub struct Frog {
    pub physical: u8,
    pub traval_cnt: u8,
}

impl DeepView for Frog {
    type V = (u8, u8);

    open spec fn deep_view(&self) -> (u8, u8) {
        (self.physical, self.traval_cnt)
    }
}

impl Frog {
    /// A frog of the given fields.
    pub fn onchain_new(physical: u8, traval_cnt: u8) -> (r: Frog)
        ensures
            r.deep_view() == (physical, traval_cnt),
    {
        Frog { physical, traval_cnt }
    }
}

/// The default frog is the composition of its fields' defaults: the
/// explicit strength of 100, and the count of travels that `u8` defaults
/// to.
pub proof fn lemma_frog_default()
    ensures
        Frog::default_value() == (100u8, u8::default_value()),
        Frog::default_value() == (100u8, 0u8),
{
}

impl Format for Frog {
    open spec fn fixed_width() -> Option<u64> {
        pair_width::<u8, u8>()
    }

    open spec fn body(v: (u8, u8)) -> Seq<u8> {
        pair_body::<u8, u8>(v.0, v.1)
    }

    open spec fn parse(bytes: Seq<u8>) -> Option<(u8, u8)> {
        pair_parse::<u8, u8>(bytes)
    }

    /// A frog starts with a strength of 100, set explicitly, and with the
    /// count of travels that its type defaults to.
    open spec fn default_value() -> (u8, u8) {
        (default_or::<u8>(Some(100u8)), default_or::<u8>(None))
    }

    open spec fn encodable(v: (u8, u8)) -> bool {
        true
    }

    open spec fn logical_id() -> Option<Seq<char>> {
        Some("frog"@)
    }

    open spec fn user_input() -> bool {
        false
    }

    proof fn lemma_round_trip(v: (u8, u8)) {
        lemma_pair_round_trip::<u8, u8>(v.0, v.1);
        lemma_encoding_len::<u8>(v.0);
        lemma_encoding_len::<u8>(v.1);
    }
}

impl OnChain for Frog {
    fn _capacity(&self) -> u64 {
        proof {
            lemma_encoding_len::<u8>(self.physical);
            lemma_encoding_len::<u8>(self.traval_cnt);
        }
        self.physical._capacity() + self.traval_cnt._capacity()
    }

    fn _id() -> Option<&'static str> {
        Some("frog")
    }

    fn _to_bytes(&self) -> Vec<u8> {
        let mut result: Vec<u8> = Vec::new();
        put_field::<u8>(&mut result, &self.physical);
        put_field::<u8>(&mut result, &self.traval_cnt);
        seal(Frog::_fixed_size(), result)
    }

    fn _from_bytes(bytes: &[u8]) -> Option<Self> {
        match read_pair::<u8, u8>(bytes) {
            Some((physical, traval_cnt)) => Some(Frog { physical, traval_cnt }),
            None => None,
        }
    }

    fn _fixed_size() -> Option<u64> {
        pair_fixed_size::<u8, u8>()
    }

    fn _eq(&self, other: &Self) -> bool {
        if !self.physical._eq(&other.physical) {
            return false;
        }
        if !self.traval_cnt._eq(&other.traval_cnt) {
            return false;
        }
        true
    }

    fn _default() -> Self {
        Frog { physical: field_default::<u8>(Some(100)), traval_cnt: field_default::<u8>(None) }
    }

    fn _user_input() -> bool {
        false
    }
}

} // verus!
