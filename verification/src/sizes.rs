//! Size arithmetic: for a target length `n`, the lengths of the hexadecimal,
//! unpadded-base64 and padded-base64 text encodings of an `n`-byte array.

use vstd::prelude::*;

verus! {

/// Length of the hexadecimal encoding of `n` bytes: two digits per byte.
pub open spec fn spec_hex_size(n: nat) -> nat {
    2 * n
}

/// Ceiling division.
pub open spec fn spec_div_ceil(dividend: nat, diviser: nat) -> nat
    recommends
        diviser > 0,
{
    ((dividend + diviser - 1) / (diviser as int)) as nat
}

/// Length of the padded base64 encoding of `n` bytes: four symbols for each
/// started group of three bytes.
pub open spec fn spec_base64_padded_size(n: nat) -> nat {
    spec_div_ceil(n, 3) * 4
}

/// Length of the unpadded base64 encoding of `n` bytes.
pub open spec fn spec_base64_unpadded_size(n: nat) -> nat {
    spec_div_ceil(n * 4, 3)
}

pub fn hex_size(n: usize) -> (r: usize)
    requires
        spec_hex_size(n as nat) <= usize::MAX,
    ensures
        r == spec_hex_size(n as nat),
{
    n * 2
}

pub fn div_ceil(dividend: usize, diviser: usize) -> (r: usize)
    requires
        diviser > 0,
    ensures
        r == spec_div_ceil(dividend as nat, diviser as nat),
{
    if dividend == 0 {
        proof {
            let q = diviser as int;
            assert((q - 1) / q == 0) by (nonlinear_arith)
                requires
                    q >= 1,
            ;
        }
        0
    } else {
        let quotient = (dividend - 1) / diviser;
        proof {
            let d = dividend as int;
            let q = diviser as int;
            assert((d - 1) / q + 1 == (d + q - 1) / q) by (nonlinear_arith)
                requires
                    d >= 1 && q >= 1,
            ;
            assert(quotient == (d - 1) / q);
            assert(spec_div_ceil(dividend as nat, diviser as nat) == (d + q - 1) / q);
        }
        quotient + 1
    }
}

pub fn base64_padded_size(n: usize) -> (r: usize)
    requires
        spec_base64_padded_size(n as nat) <= usize::MAX,
    ensures
        r == spec_base64_padded_size(n as nat),
{
    div_ceil(n, 3) * 4
}

/// Both base64 sizes written over `n / 3` and `n % 3`, and the bounds that
/// keep every size computation within `usize` when `n` does.
pub proof fn lemma_size_relations(n: nat)
    requires
        n <= usize::MAX as nat / 4,
    ensures
        spec_hex_size(n) <= usize::MAX,
        n * 4 <= usize::MAX,
        spec_base64_padded_size(n) <= usize::MAX,
        spec_base64_unpadded_size(n) <= spec_base64_padded_size(n),
        spec_base64_unpadded_size(n) == 4 * (n as int / 3) + (
        if n % 3 == 0 {
            0int
        } else if n % 3 == 1 {
            2int
        } else {
            3int
        }),
        spec_base64_padded_size(n) == 4 * (n as int / 3) + (
        if n % 3 == 0 {
            0int
        } else {
            4int
        }),
{
    let k = n as int / 3;
    let r = n as int % 3;
    vstd::arithmetic::div_mod::lemma_fundamental_div_mod(n as int, 3);
    vstd::arithmetic::div_mod::lemma_mod_bound(n as int, 3);
    let mx = usize::MAX as int;
    assert(4 * n <= mx) by (nonlinear_arith)
        requires
            n <= mx / 4 && n >= 0,
    ;
    assert(spec_base64_unpadded_size(n) == 4 * k + (
    if r == 0 {
        0int
    } else if r == 1 {
        2int
    } else {
        3int
    })) by (nonlinear_arith)
        requires
            n == 3 * k + r && 0 <= r < 3,
    ;
    assert(spec_base64_padded_size(n) == 4 * k + (
    if r == 0 {
        0int
    } else {
        4int
    })) by (nonlinear_arith)
        requires
            n == 3 * k + r && 0 <= r < 3,
    ;
}

/// The hexadecimal and the padded base64 text lengths coincide exactly for
/// the target lengths 0, 2 and 4; everywhere else length alone tells the two
/// encodings apart.
pub proof fn lemma_hex_padded_coincide(n: nat)
    ensures
        spec_hex_size(n) == spec_base64_padded_size(n) <==> (n == 0 || n == 2 || n == 4),
{
    let k = n as int / 3;
    let r = n as int % 3;
    vstd::arithmetic::div_mod::lemma_fundamental_div_mod(n as int, 3);
    vstd::arithmetic::div_mod::lemma_mod_bound(n as int, 3);
    assert(spec_base64_padded_size(n) == 4 * k + (
    if r == 0 {
        0int
    } else {
        4int
    })) by (nonlinear_arith)
        requires
            n == 3 * k + r && 0 <= r < 3,
    ;
}

pub fn base64_unpadded_size(n: usize) -> (r: usize)
    requires
        n * 4 <= usize::MAX,
    ensures
        r == spec_base64_unpadded_size(n as nat),
{
    div_ceil(n * 4, 3)
}

} // verus!
