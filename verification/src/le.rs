//! Little-endian numbers: the base-256 digits of a number, least significant
//! first, and the two's complement that carries a signed number in them.

use vstd::prelude::*;

verus! {

/// 256 to the power `n`: one more than the largest number that `n` bytes hold.
pub open spec fn radix_pow(n: nat) -> nat
    decreases n,
{
    if n == 0 {
        1
    } else {
        256 * radix_pow((n - 1) as nat)
    }
}

/// The `width` low-order base-256 digits of `x`, least significant first.
pub open spec fn le_digits(x: nat, width: nat) -> Seq<u8>
    decreases width,
{
    if width == 0 {
        Seq::empty()
    } else {
        seq![(x % 256) as u8] + le_digits(x / 256, (width - 1) as nat)
    }
}

/// The number whose base-256 digits, least significant first, are `bytes`.
pub open spec fn le_number(bytes: Seq<u8>) -> nat
    decreases bytes.len(),
{
    if bytes.len() == 0 {
        0
    } else {
        bytes[0] as nat + 256 * le_number(bytes.skip(1))
    }
}

/// The unsigned number that stands for `x` in `width` bytes of two's complement.
pub open spec fn twos_complement(x: int, width: nat) -> nat {
    if x >= 0 {
        x as nat
    } else {
        (x + radix_pow(width)) as nat
    }
}

/// The signed number that `u` stands for in `width` bytes of two's complement.
pub open spec fn from_twos_complement(u: nat, width: nat) -> int {
    if 2 * u < radix_pow(width) {
        u as int
    } else {
        u - radix_pow(width)
    }
}

/// The powers of 256 at the widths of the machine integers.
pub proof fn lemma_radix_pow_values()
    ensures
        radix_pow(0) == 1,
        radix_pow(1) == 0x100,
        radix_pow(2) == 0x1_0000,
        radix_pow(4) == 0x1_0000_0000,
        radix_pow(8) == 0x1_0000_0000_0000_0000,
        radix_pow(15) == 0x1_0000_0000_0000_0000_0000_0000_0000_00,
        radix_pow(16) == 0x1_0000_0000_0000_0000_0000_0000_0000_0000,
{
    reveal_with_fuel(radix_pow, 17);
}

/// A higher power of 256 is no smaller.
pub proof fn lemma_radix_pow_monotonic(a: nat, b: nat)
    requires
        a <= b,
    ensures
        0 < radix_pow(a) <= radix_pow(b),
    decreases b,
{
    if b == 0 {
    } else if a == b {
        lemma_radix_pow_monotonic((a - 1) as nat, (b - 1) as nat);
    } else {
        lemma_radix_pow_monotonic(a, (b - 1) as nat);
    }
}

/// `width` digits are `width` bytes.
pub proof fn lemma_digits_len(x: nat, width: nat)
    ensures
        le_digits(x, width).len() == width,
    decreases width,
{
    if width > 0 {
        lemma_digits_len(x / 256, (width - 1) as nat);
    }
}

/// Digits spell a number below the power of 256 at their count.
pub proof fn lemma_number_bound(bytes: Seq<u8>)
    ensures
        le_number(bytes) < radix_pow(bytes.len()),
    decreases bytes.len(),
{
    if bytes.len() > 0 {
        lemma_number_bound(bytes.skip(1));
    }
}

/// A number that fits in `width` bytes is read back from its digits.
pub proof fn lemma_number_of_digits(x: nat, width: nat)
    requires
        x < radix_pow(width),
    ensures
        le_number(le_digits(x, width)) == x,
    decreases width,
{
    if width > 0 {
        let rest = le_digits(x / 256, (width - 1) as nat);
        lemma_number_of_digits(x / 256, (width - 1) as nat);
        assert(le_digits(x, width).skip(1) =~= rest);
    }
}

/// Two's complement in `width` bytes gives the signed number back.
pub proof fn lemma_twos_complement_round_trip(x: int, width: nat)
    requires
        -radix_pow(width) <= 2 * x < radix_pow(width),
    ensures
        twos_complement(x, width) < radix_pow(width),
        from_twos_complement(twos_complement(x, width), width) == x,
{
}

/// Writes the `width` low-order bytes of `x`, least significant first.
pub fn le_write(x: u128, width: usize) -> (out: Vec<u8>)
    requires
        width <= 16,
    ensures
        out@ == le_digits(x as nat, width as nat),
{
    let mut out: Vec<u8> = Vec::new();
    let mut rest: u128 = x;
    let mut i: usize = 0;
    while i < width
        invariant
            i <= width,
            out@ + le_digits(rest as nat, (width - i) as nat) == le_digits(x as nat, width as nat),
        decreases width - i,
    {
        let ghost before = out@;
        let digit: u8 = (rest % 256) as u8;
        out.push(digit);
        assert(before + le_digits(rest as nat, (width - i) as nat) =~= before.push(digit)
            + le_digits((rest / 256) as nat, (width - i - 1) as nat));
        rest = rest / 256;
        i = i + 1;
    }
    assert(out@ + Seq::<u8>::empty() =~= out@);
    out
}

/// Reads the number that the first `width` bytes spell, least significant first.
pub fn le_read(bytes: &[u8], width: usize) -> (x: u128)
    requires
        width <= 16,
        width <= bytes@.len(),
    ensures
        x == le_number(bytes@.subrange(0, width as int)),
{
    let mut acc: u128 = 0;
    let mut i: usize = width;
    while i > 0
        invariant
            i <= width <= 16,
            width <= bytes@.len(),
            acc == le_number(bytes@.subrange(i as int, width as int)),
            acc < radix_pow((width - i) as nat),
        decreases i,
    {
        proof {
            lemma_radix_pow_monotonic((width - i + 1) as nat, 16);
            lemma_radix_pow_values();
            assert(bytes@.subrange(i - 1, width as int).skip(1) =~= bytes@.subrange(
                i as int,
                width as int,
            ));
        }
        i = i - 1;
        acc = acc * 256 + bytes[i] as u128;
    }
    acc
}

} // verus!
