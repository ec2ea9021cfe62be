//! The fixed-width integers: little-endian, as many bytes as the type is
//! wide, signed ones in two's complement. They default to zero.

use crate::codec::{Format, OnChain};
use crate::le::{
    from_twos_complement, le_digits, le_number, le_read, le_write, lemma_digits_len,
    lemma_number_bound, lemma_number_of_digits, lemma_radix_pow_values,
    lemma_twos_complement_round_trip, twos_complement,
};
use vstd::prelude::*;

verus! {

impl Format for u8 {
    open spec fn fixed_width() -> Option<u64> {
        Some(1)
    }

    open spec fn body(v: u8) -> Seq<u8> {
        le_digits(v as nat, 1)
    }

    open spec fn parse(bytes: Seq<u8>) -> Option<u8> {
        if bytes.len() >= 1 {
            Some(le_number(bytes.subrange(0, 1)) as u8)
        } else {
            None
        }
    }

    open spec fn default_value() -> u8 {
        0
    }

    open spec fn encodable(v: u8) -> bool {
        true
    }

    open spec fn logical_id() -> Option<Seq<char>> {
        None
    }

    open spec fn user_input() -> bool {
        false
    }

    proof fn lemma_round_trip(v: u8) {
        lemma_radix_pow_values();
        lemma_digits_len(v as nat, 1);
        lemma_number_of_digits(v as nat, 1);
        assert(le_digits(v as nat, 1).subrange(0, 1) =~= le_digits(v as nat, 1));
    }
}

impl OnChain for u8 {
    fn _capacity(&self) -> u64 {
        proof {
            lemma_digits_len(*self as nat, 1);
        }
        1
    }

    fn _id() -> Option<&'static str> {
        None
    }

    fn _to_bytes(&self) -> Vec<u8> {
        le_write(*self as u128, 1)
    }

    fn _from_bytes(bytes: &[u8]) -> Option<Self> {
        if bytes.len() < 1 {
            return None;
        }
        let x = le_read(bytes, 1);
        proof {
            lemma_number_bound(bytes@.subrange(0, 1));
            lemma_radix_pow_values();
        }
        Some(x as u8)
    }

    fn _fixed_size() -> Option<u64> {
        Some(1)
    }

    fn _eq(&self, other: &Self) -> bool {
        *self == *other
    }

    fn _default() -> Self {
        0
    }

    fn _user_input() -> bool {
        false
    }
}

impl Format for u16 {
    open spec fn fixed_width() -> Option<u64> {
        Some(2)
    }

    open spec fn body(v: u16) -> Seq<u8> {
        le_digits(v as nat, 2)
    }

    open spec fn parse(bytes: Seq<u8>) -> Option<u16> {
        if bytes.len() >= 2 {
            Some(le_number(bytes.subrange(0, 2)) as u16)
        } else {
            None
        }
    }

    open spec fn default_value() -> u16 {
        0
    }

    open spec fn encodable(v: u16) -> bool {
        true
    }

    open spec fn logical_id() -> Option<Seq<char>> {
        None
    }

    open spec fn user_input() -> bool {
        false
    }

    proof fn lemma_round_trip(v: u16) {
        lemma_radix_pow_values();
        lemma_digits_len(v as nat, 2);
        lemma_number_of_digits(v as nat, 2);
        assert(le_digits(v as nat, 2).subrange(0, 2) =~= le_digits(v as nat, 2));
    }
}

impl OnChain for u16 {
    fn _capacity(&self) -> u64 {
        proof {
            lemma_digits_len(*self as nat, 2);
        }
        2
    }

    fn _id() -> Option<&'static str> {
        None
    }

    fn _to_bytes(&self) -> Vec<u8> {
        le_write(*self as u128, 2)
    }

    fn _from_bytes(bytes: &[u8]) -> Option<Self> {
        if bytes.len() < 2 {
            return None;
        }
        let x = le_read(bytes, 2);
        proof {
            lemma_number_bound(bytes@.subrange(0, 2));
            lemma_radix_pow_values();
        }
        Some(x as u16)
    }

    fn _fixed_size() -> Option<u64> {
        Some(2)
    }

    fn _eq(&self, other: &Self) -> bool {
        *self == *other
    }

    fn _default() -> Self {
        0
    }

    fn _user_input() -> bool {
        false
    }
}

impl Format for u32 {
    open spec fn fixed_width() -> Option<u64> {
        Some(4)
    }

    open spec fn body(v: u32) -> Seq<u8> {
        le_digits(v as nat, 4)
    }

    open spec fn parse(bytes: Seq<u8>) -> Option<u32> {
        if bytes.len() >= 4 {
            Some(le_number(bytes.subrange(0, 4)) as u32)
        } else {
            None
        }
    }

    open spec fn default_value() -> u32 {
        0
    }

    open spec fn encodable(v: u32) -> bool {
        true
    }

    open spec fn logical_id() -> Option<Seq<char>> {
        None
    }

    open spec fn user_input() -> bool {
        false
    }

    proof fn lemma_round_trip(v: u32) {
        lemma_radix_pow_values();
        lemma_digits_len(v as nat, 4);
        lemma_number_of_digits(v as nat, 4);
        assert(le_digits(v as nat, 4).subrange(0, 4) =~= le_digits(v as nat, 4));
    }
}

impl OnChain for u32 {
    fn _capacity(&self) -> u64 {
        proof {
            lemma_digits_len(*self as nat, 4);
        }
        4
    }

    fn _id() -> Option<&'static str> {
        None
    }

    fn _to_bytes(&self) -> Vec<u8> {
        le_write(*self as u128, 4)
    }

    fn _from_bytes(bytes: &[u8]) -> Option<Self> {
        if bytes.len() < 4 {
            return None;
        }
        let x = le_read(bytes, 4);
        proof {
            lemma_number_bound(bytes@.subrange(0, 4));
            lemma_radix_pow_values();
        }
        Some(x as u32)
    }

    fn _fixed_size() -> Option<u64> {
        Some(4)
    }

    fn _eq(&self, other: &Self) -> bool {
        *self == *other
    }

    fn _default() -> Self {
        0
    }

    fn _user_input() -> bool {
        false
    }
}

impl Format for u64 {
    open spec fn fixed_width() -> Option<u64> {
        Some(8)
    }

    open spec fn body(v: u64) -> Seq<u8> {
        le_digits(v as nat, 8)
    }

    open spec fn parse(bytes: Seq<u8>) -> Option<u64> {
        if bytes.len() >= 8 {
            Some(le_number(bytes.subrange(0, 8)) as u64)
        } else {
            None
        }
    }

    open spec fn default_value() -> u64 {
        0
    }

    open spec fn encodable(v: u64) -> bool {
        true
    }

    open spec fn logical_id() -> Option<Seq<char>> {
        None
    }

    open spec fn user_input() -> bool {
        false
    }

    proof fn lemma_round_trip(v: u64) {
        lemma_radix_pow_values();
        lemma_digits_len(v as nat, 8);
        lemma_number_of_digits(v as nat, 8);
        assert(le_digits(v as nat, 8).subrange(0, 8) =~= le_digits(v as nat, 8));
    }
}

impl OnChain for u64 {
    fn _capacity(&self) -> u64 {
        proof {
            lemma_digits_len(*self as nat, 8);
        }
        8
    }

    fn _id() -> Option<&'static str> {
        None
    }

    fn _to_bytes(&self) -> Vec<u8> {
        le_write(*self as u128, 8)
    }

    fn _from_bytes(bytes: &[u8]) -> Option<Self> {
        if bytes.len() < 8 {
            return None;
        }
        let x = le_read(bytes, 8);
        proof {
            lemma_number_bound(bytes@.subrange(0, 8));
            lemma_radix_pow_values();
        }
        Some(x as u64)
    }

    fn _fixed_size() -> Option<u64> {
        Some(8)
    }

    fn _eq(&self, other: &Self) -> bool {
        *self == *other
    }

    fn _default() -> Self {
        0
    }

    fn _user_input() -> bool {
        false
    }
}

impl Format for u128 {
    open spec fn fixed_width() -> Option<u64> {
        Some(16)
    }

    open spec fn body(v: u128) -> Seq<u8> {
        le_digits(v as nat, 16)
    }

    open spec fn parse(bytes: Seq<u8>) -> Option<u128> {
        if bytes.len() >= 16 {
            Some(le_number(bytes.subrange(0, 16)) as u128)
        } else {
            None
        }
    }

    open spec fn default_value() -> u128 {
        0
    }

    open spec fn encodable(v: u128) -> bool {
        true
    }

    open spec fn logical_id() -> Option<Seq<char>> {
        None
    }

    open spec fn user_input() -> bool {
        false
    }

    proof fn lemma_round_trip(v: u128) {
        lemma_radix_pow_values();
        lemma_digits_len(v as nat, 16);
        lemma_number_of_digits(v as nat, 16);
        assert(le_digits(v as nat, 16).subrange(0, 16) =~= le_digits(v as nat, 16));
    }
}

impl OnChain for u128 {
    fn _capacity(&self) -> u64 {
        proof {
            lemma_digits_len(*self as nat, 16);
        }
        16
    }

    fn _id() -> Option<&'static str> {
        None
    }

    fn _to_bytes(&self) -> Vec<u8> {
        le_write(*self as u128, 16)
    }

    fn _from_bytes(bytes: &[u8]) -> Option<Self> {
        if bytes.len() < 16 {
            return None;
        }
        let x = le_read(bytes, 16);
        proof {
            lemma_number_bound(bytes@.subrange(0, 16));
            lemma_radix_pow_values();
        }
        Some(x as u128)
    }

    fn _fixed_size() -> Option<u64> {
        Some(16)
    }

    fn _eq(&self, other: &Self) -> bool {
        *self == *other
    }

    fn _default() -> Self {
        0
    }

    fn _user_input() -> bool {
        false
    }
}

impl Format for i8 {
    open spec fn fixed_width() -> Option<u64> {
        Some(1)
    }

    open spec fn body(v: i8) -> Seq<u8> {
        le_digits(twos_complement(v as int, 1), 1)
    }

    open spec fn parse(bytes: Seq<u8>) -> Option<i8> {
        if bytes.len() >= 1 {
            Some(from_twos_complement(le_number(bytes.subrange(0, 1)), 1) as i8)
        } else {
            None
        }
    }

    open spec fn default_value() -> i8 {
        0
    }

    open spec fn encodable(v: i8) -> bool {
        true
    }

    open spec fn logical_id() -> Option<Seq<char>> {
        None
    }

    open spec fn user_input() -> bool {
        false
    }

    proof fn lemma_round_trip(v: i8) {
        let u = twos_complement(v as int, 1);
        lemma_radix_pow_values();
        lemma_twos_complement_round_trip(v as int, 1);
        lemma_digits_len(u, 1);
        lemma_number_of_digits(u, 1);
        assert(le_digits(u, 1).subrange(0, 1) =~= le_digits(u, 1));
    }
}

impl OnChain for i8 {
    fn _capacity(&self) -> u64 {
        proof {
            lemma_digits_len(twos_complement(*self as int, 1), 1);
        }
        1
    }

    fn _id() -> Option<&'static str> {
        None
    }

    fn _to_bytes(&self) -> Vec<u8> {
        let x = *self;
        proof {
            lemma_radix_pow_values();
        }
        let u: u128 = if x >= 0 {
            x as u128
        } else {
            (x as i128 + 0x100) as u128
        };
        le_write(u, 1)
    }

    fn _from_bytes(bytes: &[u8]) -> Option<Self> {
        if bytes.len() < 1 {
            return None;
        }
        let u = le_read(bytes, 1);
        proof {
            lemma_number_bound(bytes@.subrange(0, 1));
            lemma_radix_pow_values();
        }
        let x: i8 = if u < 0x80 {
            u as i8
        } else {
            (u as i128 - 0x100) as i8
        };
        Some(x)
    }

    fn _fixed_size() -> Option<u64> {
        Some(1)
    }

    fn _eq(&self, other: &Self) -> bool {
        *self == *other
    }

    fn _default() -> Self {
        0
    }

    fn _user_input() -> bool {
        false
    }
}

impl Format for i16 {
    open spec fn fixed_width() -> Option<u64> {
        Some(2)
    }

    open spec fn body(v: i16) -> Seq<u8> {
        le_digits(twos_complement(v as int, 2), 2)
    }

    open spec fn parse(bytes: Seq<u8>) -> Option<i16> {
        if bytes.len() >= 2 {
            Some(from_twos_complement(le_number(bytes.subrange(0, 2)), 2) as i16)
        } else {
            None
        }
    }

    open spec fn default_value() -> i16 {
        0
    }

    open spec fn encodable(v: i16) -> bool {
        true
    }

    open spec fn logical_id() -> Option<Seq<char>> {
        None
    }

    open spec fn user_input() -> bool {
        false
    }

    proof fn lemma_round_trip(v: i16) {
        let u = twos_complement(v as int, 2);
        lemma_radix_pow_values();
        lemma_twos_complement_round_trip(v as int, 2);
        lemma_digits_len(u, 2);
        lemma_number_of_digits(u, 2);
        assert(le_digits(u, 2).subrange(0, 2) =~= le_digits(u, 2));
    }
}

impl OnChain for i16 {
    fn _capacity(&self) -> u64 {
        proof {
            lemma_digits_len(twos_complement(*self as int, 2), 2);
        }
        2
    }

    fn _id() -> Option<&'static str> {
        None
    }

    fn _to_bytes(&self) -> Vec<u8> {
        let x = *self;
        proof {
            lemma_radix_pow_values();
        }
        let u: u128 = if x >= 0 {
            x as u128
        } else {
            (x as i128 + 0x1_0000) as u128
        };
        le_write(u, 2)
    }

    fn _from_bytes(bytes: &[u8]) -> Option<Self> {
        if bytes.len() < 2 {
            return None;
        }
        let u = le_read(bytes, 2);
        proof {
            lemma_number_bound(bytes@.subrange(0, 2));
            lemma_radix_pow_values();
        }
        let x: i16 = if u < 0x8000 {
            u as i16
        } else {
            (u as i128 - 0x1_0000) as i16
        };
        Some(x)
    }

    fn _fixed_size() -> Option<u64> {
        Some(2)
    }

    fn _eq(&self, other: &Self) -> bool {
        *self == *other
    }

    fn _default() -> Self {
        0
    }

    fn _user_input() -> bool {
        false
    }
}

impl Format for i32 {
    open spec fn fixed_width() -> Option<u64> {
        Some(4)
    }

    open spec fn body(v: i32) -> Seq<u8> {
        le_digits(twos_complement(v as int, 4), 4)
    }

    open spec fn parse(bytes: Seq<u8>) -> Option<i32> {
        if bytes.len() >= 4 {
            Some(from_twos_complement(le_number(bytes.subrange(0, 4)), 4) as i32)
        } else {
            None
        }
    }

    open spec fn default_value() -> i32 {
        0
    }

    open spec fn encodable(v: i32) -> bool {
        true
    }

    open spec fn logical_id() -> Option<Seq<char>> {
        None
    }

    open spec fn user_input() -> bool {
        false
    }

    proof fn lemma_round_trip(v: i32) {
        let u = twos_complement(v as int, 4);
        lemma_radix_pow_values();
        lemma_twos_complement_round_trip(v as int, 4);
        lemma_digits_len(u, 4);
        lemma_number_of_digits(u, 4);
        assert(le_digits(u, 4).subrange(0, 4) =~= le_digits(u, 4));
    }
}

impl OnChain for i32 {
    fn _capacity(&self) -> u64 {
        proof {
            lemma_digits_len(twos_complement(*self as int, 4), 4);
        }
        4
    }

    fn _id() -> Option<&'static str> {
        None
    }

    fn _to_bytes(&self) -> Vec<u8> {
        let x = *self;
        proof {
            lemma_radix_pow_values();
        }
        let u: u128 = if x >= 0 {
            x as u128
        } else {
            (x as i128 + 0x1_0000_0000) as u128
        };
        le_write(u, 4)
    }

    fn _from_bytes(bytes: &[u8]) -> Option<Self> {
        if bytes.len() < 4 {
            return None;
        }
        let u = le_read(bytes, 4);
        proof {
            lemma_number_bound(bytes@.subrange(0, 4));
            lemma_radix_pow_values();
        }
        let x: i32 = if u < 0x8000_0000 {
            u as i32
        } else {
            (u as i128 - 0x1_0000_0000) as i32
        };
        Some(x)
    }

    fn _fixed_size() -> Option<u64> {
        Some(4)
    }

    fn _eq(&self, other: &Self) -> bool {
        *self == *other
    }

    fn _default() -> Self {
        0
    }

    fn _user_input() -> bool {
        false
    }
}

impl Format for i64 {
    open spec fn fixed_width() -> Option<u64> {
        Some(8)
    }

    open spec fn body(v: i64) -> Seq<u8> {
        le_digits(twos_complement(v as int, 8), 8)
    }

    open spec fn parse(bytes: Seq<u8>) -> Option<i64> {
        if bytes.len() >= 8 {
            Some(from_twos_complement(le_number(bytes.subrange(0, 8)), 8) as i64)
        } else {
            None
        }
    }

    open spec fn default_value() -> i64 {
        0
    }

    open spec fn encodable(v: i64) -> bool {
        true
    }

    open spec fn logical_id() -> Option<Seq<char>> {
        None
    }

    open spec fn user_input() -> bool {
        false
    }

    proof fn lemma_round_trip(v: i64) {
        let u = twos_complement(v as int, 8);
        lemma_radix_pow_values();
        lemma_twos_complement_round_trip(v as int, 8);
        lemma_digits_len(u, 8);
        lemma_number_of_digits(u, 8);
        assert(le_digits(u, 8).subrange(0, 8) =~= le_digits(u, 8));
    }
}

impl OnChain for i64 {
    fn _capacity(&self) -> u64 {
        proof {
            lemma_digits_len(twos_complement(*self as int, 8), 8);
        }
        8
    }

    fn _id() -> Option<&'static str> {
        None
    }

    fn _to_bytes(&self) -> Vec<u8> {
        let x = *self;
        proof {
            lemma_radix_pow_values();
        }
        let u: u128 = if x >= 0 {
            x as u128
        } else {
            (x as i128 + 0x1_0000_0000_0000_0000) as u128
        };
        le_write(u, 8)
    }

    fn _from_bytes(bytes: &[u8]) -> Option<Self> {
        if bytes.len() < 8 {
            return None;
        }
        let u = le_read(bytes, 8);
        proof {
            lemma_number_bound(bytes@.subrange(0, 8));
            lemma_radix_pow_values();
        }
        let x: i64 = if u < 0x8000_0000_0000_0000 {
            u as i64
        } else {
            (u as i128 - 0x1_0000_0000_0000_0000) as i64
        };
        Some(x)
    }

    fn _fixed_size() -> Option<u64> {
        Some(8)
    }

    fn _eq(&self, other: &Self) -> bool {
        *self == *other
    }

    fn _default() -> Self {
        0
    }

    fn _user_input() -> bool {
        false
    }
}

impl Format for i128 {
    open spec fn fixed_width() -> Option<u64> {
        Some(16)
    }

    open spec fn body(v: i128) -> Seq<u8> {
        le_digits(twos_complement(v as int, 16), 16)
    }

    open spec fn parse(bytes: Seq<u8>) -> Option<i128> {
        if bytes.len() >= 16 {
            Some(from_twos_complement(le_number(bytes.subrange(0, 16)), 16) as i128)
        } else {
            None
        }
    }

    open spec fn default_value() -> i128 {
        0
    }

    open spec fn encodable(v: i128) -> bool {
        true
    }

    open spec fn logical_id() -> Option<Seq<char>> {
        None
    }

    open spec fn user_input() -> bool {
        false
    }

    proof fn lemma_round_trip(v: i128) {
        let u = twos_complement(v as int, 16);
        lemma_radix_pow_values();
        lemma_twos_complement_round_trip(v as int, 16);
        lemma_digits_len(u, 16);
        lemma_number_of_digits(u, 16);
        assert(le_digits(u, 16).subrange(0, 16) =~= le_digits(u, 16));
    }
}

impl OnChain for i128 {
    fn _capacity(&self) -> u64 {
        proof {
            lemma_digits_len(twos_complement(*self as int, 16), 16);
        }
        16
    }

    fn _id() -> Option<&'static str> {
        None
    }

    fn _to_bytes(&self) -> Vec<u8> {
        let x = *self;
        proof {
            lemma_radix_pow_values();
        }
        let u: u128 = if x >= 0 {
            x as u128
        } else {
            (x - i128::MIN) as u128 + 0x8000_0000_0000_0000_0000_0000_0000_0000
        };
        le_write(u, 16)
    }

    fn _from_bytes(bytes: &[u8]) -> Option<Self> {
        if bytes.len() < 16 {
            return None;
        }
        let u = le_read(bytes, 16);
        proof {
            lemma_number_bound(bytes@.subrange(0, 16));
            lemma_radix_pow_values();
        }
        let x: i128 = if u < 0x8000_0000_0000_0000_0000_0000_0000_0000 {
            u as i128
        } else {
            (u - 0x8000_0000_0000_0000_0000_0000_0000_0000) as i128 + i128::MIN
        };
        Some(x)
    }

    fn _fixed_size() -> Option<u64> {
        Some(16)
    }

    fn _eq(&self, other: &Self) -> bool {
        *self == *other
    }

    fn _default() -> Self {
        0
    }

    fn _user_input() -> bool {
        false
    }
}

} // verus!
