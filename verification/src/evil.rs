use vstd::prelude::*;
use vstd::arithmetic::power2::{pow2, lemma2_to64, lemma_pow2_unfold};

verus! {

/// Multiplier of the bit scan: multiplying a value whose bits below its
/// highest set bit are all set by this constant leaves a distinct pattern in
/// the top five bits for each of the 32 possible highest bits.
pub const MAGIC_NUMBER: u32 = 0x07C4ACDD;

/// Position of the highest set bit of `n`, that is the logarithm to base 2
/// rounded down. It is 0 for `n <= 1`.
pub open spec fn floor_log2(n: nat) -> nat
    decreases n,
{
    if n <= 1 {
        0
    } else {
        1 + floor_log2(n / 2)
    }
}

/// Number of decimal digits of `n`, minus one: the logarithm to base 10
/// rounded down. It is 0 for `n < 10`.
pub open spec fn floor_log10(n: nat) -> nat
    decreases n,
{
    if n < 10 {
        0
    } else {
        1 + floor_log10(n / 10)
    }
}

/// Sets every bit below the highest set bit of `v`.
pub open spec fn smear(v: u32) -> u32 {
    let a = v | (v >> 1u32);
    let b = a | (a >> 2u32);
    let c = b | (b >> 4u32);
    let d = c | (c >> 8u32);
    d | (d >> 16u32)
}

/// The top five bits of the product of `s` and the multiplier, taken modulo
/// 2^32.
pub open spec fn scan_index(s: u32) -> u32 {
    (((((s as u64) * (MAGIC_NUMBER as u64)) as u64) & 0xFFFF_FFFFu64) >> 27u64) as u32
}

/// The bit scan table: the highest set bit that belongs to each index.
pub open spec fn bit_position_spec(index: u32) -> u32 {
    match index {
        0 => 0,
        1 => 9,
        2 => 1,
        3 => 10,
        4 => 13,
        5 => 21,
        6 => 2,
        7 => 29,
        8 => 11,
        9 => 14,
        10 => 16,
        11 => 18,
        12 => 22,
        13 => 25,
        14 => 3,
        15 => 30,
        16 => 8,
        17 => 12,
        18 => 20,
        19 => 28,
        20 => 15,
        21 => 17,
        22 => 24,
        23 => 7,
        24 => 19,
        25 => 27,
        26 => 23,
        27 => 6,
        28 => 26,
        29 => 5,
        30 => 4,
        _ => 31,
    }
}

/// Ten to the power `index`, for the powers that fit in 32 bits.
pub open spec fn power_of_10_spec(index: u32) -> u32 {
    match index {
        0 => 1,
        1 => 10,
        2 => 100,
        3 => 1000,
        4 => 10000,
        5 => 100000,
        6 => 1000000,
        7 => 10000000,
        8 => 100000000,
        _ => 1000000000,
    }
}

fn bit_position(index: u32) -> (result: u32)
    ensures
        result == bit_position_spec(index),
{
    match index {
        0 => 0,
        1 => 9,
        2 => 1,
        3 => 10,
        4 => 13,
        5 => 21,
        6 => 2,
        7 => 29,
        8 => 11,
        9 => 14,
        10 => 16,
        11 => 18,
        12 => 22,
        13 => 25,
        14 => 3,
        15 => 30,
        16 => 8,
        17 => 12,
        18 => 20,
        19 => 28,
        20 => 15,
        21 => 17,
        22 => 24,
        23 => 7,
        24 => 19,
        25 => 27,
        26 => 23,
        27 => 6,
        28 => 26,
        29 => 5,
        30 => 4,
        _ => 31,
    }
}

fn power_of_10(index: u32) -> (result: u32)
    ensures
        result == power_of_10_spec(index),
{
    match index {
        0 => 1,
        1 => 10,
        2 => 100,
        3 => 1000,
        4 => 10000,
        5 => 100000,
        6 => 1000000,
        7 => 10000000,
        8 => 100000000,
        _ => 1000000000,
    }
}

proof fn lemma_bit_scan(v: u32, r: u32)
    by (bit_vector)
    requires
        v != 0,
        r == bit_position_spec(scan_index(smear(v))),
    ensures
        (r == 0 && 1 <= v && v <= 1)
        || (r == 1 && 2 <= v && v <= 3)
        || (r == 2 && 4 <= v && v <= 7)
        || (r == 3 && 8 <= v && v <= 15)
        || (r == 4 && 16 <= v && v <= 31)
        || (r == 5 && 32 <= v && v <= 63)
        || (r == 6 && 64 <= v && v <= 127)
        || (r == 7 && 128 <= v && v <= 255)
        || (r == 8 && 256 <= v && v <= 511)
        || (r == 9 && 512 <= v && v <= 1023)
        || (r == 10 && 1024 <= v && v <= 2047)
        || (r == 11 && 2048 <= v && v <= 4095)
        || (r == 12 && 4096 <= v && v <= 8191)
        || (r == 13 && 8192 <= v && v <= 16383)
        || (r == 14 && 16384 <= v && v <= 32767)
        || (r == 15 && 32768 <= v && v <= 65535)
        || (r == 16 && 65536 <= v && v <= 131071)
        || (r == 17 && 131072 <= v && v <= 262143)
        || (r == 18 && 262144 <= v && v <= 524287)
        || (r == 19 && 524288 <= v && v <= 1048575)
        || (r == 20 && 1048576 <= v && v <= 2097151)
        || (r == 21 && 2097152 <= v && v <= 4194303)
        || (r == 22 && 4194304 <= v && v <= 8388607)
        || (r == 23 && 8388608 <= v && v <= 16777215)
        || (r == 24 && 16777216 <= v && v <= 33554431)
        || (r == 25 && 33554432 <= v && v <= 67108863)
        || (r == 26 && 67108864 <= v && v <= 134217727)
        || (r == 27 && 134217728 <= v && v <= 268435455)
        || (r == 28 && 268435456 <= v && v <= 536870911)
        || (r == 29 && 536870912 <= v && v <= 1073741823)
        || (r == 30 && 1073741824 <= v && v <= 2147483647)
        || (r == 31 && 2147483648 <= v && v <= 4294967295),
{
}

proof fn lemma_floor_log2_between(n: nat, k: nat)
    requires
        pow2(k) <= n < pow2(k + 1),
    ensures
        floor_log2(n) == k,
    decreases k,
{
    lemma_pow2_unfold(k + 1);
    if k == 0 {
        lemma2_to64();
    } else {
        lemma_pow2_unfold(k);
        lemma_floor_log2_between(n / 2, (k - 1) as nat);
    }
}

proof fn lemma_floor_log2_bounds(n: nat)
    requires
        n >= 1,
    ensures
        pow2(floor_log2(n)) <= n < pow2(floor_log2(n) + 1),
    decreases n,
{
    lemma_pow2_unfold(floor_log2(n) + 1);
    if n <= 1 {
        lemma2_to64();
    } else {
        lemma_pow2_unfold(floor_log2(n));
        lemma_floor_log2_bounds(n / 2);
    }
}

/// Logarithm to base 2 of a positive number, rounded down. The highest set
/// bit is found without a loop over the bits: the bits below it are set, and
/// the product with a fixed multiplier then selects an entry of a table.
pub fn log2(value: u32) -> (result: u32)
    requires
        value != 0,
    ensures
        result == floor_log2(value as nat),
        result < 32,
{
    let a: u32 = value | (value >> 1u32);
    let b: u32 = a | (a >> 2u32);
    let c: u32 = b | (b >> 4u32);
    let d: u32 = c | (c >> 8u32);
    let s: u32 = d | (d >> 16u32);
    assert(s == smear(value));
    assert((s as u64) * (MAGIC_NUMBER as u64) <= 0xFFFF_FFFF_FFFF_FFFFu64) by (nonlinear_arith)
        requires
            s <= 0xFFFF_FFFFu32,
            MAGIC_NUMBER == 0x07C4ACDDu32,
    ;
    let product: u64 = (s as u64) * (MAGIC_NUMBER as u64);
    let index: u64 = (product & 0xFFFF_FFFFu64) >> 27u64;
    assert(index <= 0xFFFF_FFFFu64) by (bit_vector)
        requires
            index == (product & 0xFFFF_FFFFu64) >> 27u64,
    ;
    let result = bit_position(index as u32);
    proof {
        lemma_bit_scan(value, result);
        lemma2_to64();
        lemma_floor_log2_between(value as nat, result as nat);
    }
    result
}

/// Logarithm to base 10 of a positive number, rounded down, computed from
/// `log2` without a division: 1233 / 4096 approximates the logarithm of 2 to
/// base 10, and one comparison with a power of ten corrects the estimate.
pub fn log10(value: u32) -> (result: u32)
    requires
        value != 0,
    ensures
        result == floor_log10(value as nat),
        result < 10,
{
    let binary: u32 = log2(value);
    let scaled: u32 = (binary + 1) * 1233;
    let estimate: u32 = scaled >> 12u32;
    assert(estimate == scaled / 4096) by (bit_vector)
        requires
            estimate == scaled >> 12u32,
    ;
    let power: u32 = power_of_10(estimate);
    proof {
        lemma2_to64();
        lemma_floor_log2_bounds(value as nat);
        reveal_with_fuel(floor_log10, 11);
    }
    if value < power {
        estimate - 1
    } else {
        estimate
    }
}

} // verus!
