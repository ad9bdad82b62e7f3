//! Human-readable rendering of raw amounts.  A raw amount counts base
//! units of one billionth of a whole coin; its display form is the whole
//! part in decimal, a dot, and the fractional part padded to nine digits.
//! Insufficient-funds reports carry the raw magnitudes; this renders them.

use vstd::prelude::*;
use vstd::arithmetic::div_mod::{lemma_div_decreases, lemma_fundamental_div_mod, lemma_mod_bound};

verus! {

/// Base units per whole coin.
pub const UNITS_PER_COIN: u64 = 1000000000;

/// The decimal digits of `n`, most significant first, as ASCII bytes.
pub open spec fn spec_decimal(n: int) -> Seq<u8>
    decreases n when n >= 0
{
    if n < 10 {
        seq![(48 + n) as u8]
    } else {
        spec_decimal(n / 10).push((48 + n % 10) as u8)
    }
}

/// The last `width` decimal digits of `n`, zero-padded, as ASCII bytes.
pub open spec fn spec_padded(n: int, width: nat) -> Seq<u8>
    decreases width,
{
    if width == 0 {
        Seq::empty()
    } else {
        spec_padded(n / 10, (width - 1) as nat).push((48 + n % 10) as u8)
    }
}

/// The display form of a raw amount: whole part, a dot, and nine
/// fractional digits.
pub open spec fn spec_hr_amount(amount: u64) -> Seq<u8> {
    spec_decimal(amount as int / (UNITS_PER_COIN as int)) + seq![46u8] + spec_padded(
        amount as int % (UNITS_PER_COIN as int),
        9,
    )
}

fn push_decimal(out: &mut Vec<u8>, n: u64)
    ensures
        final(out)@ == old(out)@ + spec_decimal(n as int),
    decreases n,
{
    if n < 10 {
        out.push(48 + (n as u8));
        proof {
            assert(out@ =~= old(out)@ + spec_decimal(n as int));
        }
    } else {
        proof {
            lemma_div_decreases(n as int, 10);
            lemma_mod_bound(n as int, 10);
        }
        push_decimal(out, n / 10);
        out.push(48 + ((n % 10) as u8));
        proof {
            assert(out@ =~= old(out)@ + spec_decimal(n as int));
        }
    }
}

fn push_padded(out: &mut Vec<u8>, n: u64, width: u32)
    ensures
        final(out)@ == old(out)@ + spec_padded(n as int, width as nat),
    decreases width,
{
    if width > 0 {
        proof {
            lemma_mod_bound(n as int, 10);
        }
        push_padded(out, n / 10, width - 1);
        out.push(48 + ((n % 10) as u8));
        proof {
            assert(out@ =~= old(out)@ + spec_padded(n as int, width as nat));
        }
    } else {
        proof {
            assert(out@ =~= old(out)@ + spec_padded(n as int, 0));
        }
    }
}

/// Render a raw amount as ASCII text: the whole-coin part, a dot, and the
/// nine fractional digits.
pub fn amount_to_hr_string(amount: u64) -> (r: Vec<u8>)
    ensures
        r@ == spec_hr_amount(amount),
{
    proof {
        lemma_fundamental_div_mod(amount as int, UNITS_PER_COIN as int);
        lemma_mod_bound(amount as int, UNITS_PER_COIN as int);
    }
    let mut out: Vec<u8> = Vec::new();
    push_decimal(&mut out, amount / UNITS_PER_COIN);
    out.push(46);
    push_padded(&mut out, amount % UNITS_PER_COIN, 9);
    proof {
        assert(out@ =~= spec_hr_amount(amount));
    }
    out
}

} // verus!
