//! The fee formula.  A transaction's fee is the base fee times its weight,
//! and the weight reads the primary-asset input, output and kernel counts
//! alone: secondary-asset legs are sized alongside the primary legs but are
//! fee-less, so their counts are passed through without altering the fee the
//! sender pays.

use vstd::prelude::*;
use vstd::arithmetic::mul::lemma_mul_upper_bound;

verus! {

/// Base fee per unit of transaction weight.
pub const DEFAULT_BASE_FEE: u64 = 1000000;

/// Largest output or kernel count the fee formula accepts.
pub const MAX_FEE_COUNT: usize = 1000000;

/// Largest base fee the fee formula accepts.
pub const MAX_BASE_FEE: u64 = 1000000000000;

/// Every fee the formula can produce stays below this bound.
pub const MAX_FEE: u64 = 5000001000000000000;

/// Weight of a transaction body: each output weighs four units, each kernel
/// one, and each input offsets one unit, with a floor of one unit.
pub open spec fn spec_tx_weight(input_len: int, output_len: int, kernel_len: int) -> int {
    let body = 4 * output_len + kernel_len - input_len;
    if body < 1 {
        1
    } else {
        body
    }
}

/// The fee for a transaction with the given element counts.  The three
/// secondary-asset counts never influence the result: secondary-asset
/// transfers are fee-less.
pub open spec fn spec_tx_fee(
    input_len: int,
    output_len: int,
    kernel_len: int,
    token_input_len: int,
    token_output_len: int,
    token_kernel_len: int,
    base_fee: int,
) -> int {
    base_fee * spec_tx_weight(input_len, output_len, kernel_len)
}

/// Compute the fee for a transaction with the given element counts; `None`
/// uses the default base fee.
pub fn tx_fee(
    input_len: usize,
    output_len: usize,
    kernel_len: usize,
    token_input_len: usize,
    token_output_len: usize,
    token_kernel_len: usize,
    base_fee: Option<u64>,
) -> (fee: u64)
    requires
        output_len <= MAX_FEE_COUNT,
        kernel_len <= MAX_FEE_COUNT,
        (base_fee matches Some(b) ==> b <= MAX_BASE_FEE),
    ensures
        fee == spec_tx_fee(
            input_len as int,
            output_len as int,
            kernel_len as int,
            token_input_len as int,
            token_output_len as int,
            token_kernel_len as int,
            (match base_fee {
                Some(b) => b as int,
                None => DEFAULT_BASE_FEE as int,
            }),
        ),
        fee <= MAX_FEE,
{
    let base: u64 = match base_fee {
        Some(b) => b,
        None => DEFAULT_BASE_FEE,
    };
    let positive: u64 = 4 * (output_len as u64) + (kernel_len as u64);
    let body: u64 = if positive > (input_len as u64) {
        positive - (input_len as u64)
    } else {
        0
    };
    let weight: u64 = if body < 1 {
        1
    } else {
        body
    };
    proof {
        assert(weight == spec_tx_weight(input_len as int, output_len as int, kernel_len as int));
        assert(weight <= 5000001);
        lemma_mul_upper_bound(base as int, MAX_BASE_FEE as int, weight as int, 5000001);
    }
    base * weight
}

/// Secondary-asset fee neutrality: two fee computations that agree on the
/// primary-asset input, output and kernel counts produce the same fee,
/// whatever secondary-asset legs each carries.
pub proof fn lemma_secondary_fee_neutrality(
    input_len: int,
    output_len: int,
    kernel_len: int,
    token_input_a: int,
    token_output_a: int,
    token_kernel_a: int,
    token_input_b: int,
    token_output_b: int,
    token_kernel_b: int,
    base_fee: int,
)
    ensures
        spec_tx_fee(
            input_len,
            output_len,
            kernel_len,
            token_input_a,
            token_output_a,
            token_kernel_a,
            base_fee,
        ) == spec_tx_fee(
            input_len,
            output_len,
            kernel_len,
            token_input_b,
            token_output_b,
            token_kernel_b,
            base_fee,
        ),
{
}

} // verus!
