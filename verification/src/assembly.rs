//! Turning a finalized coin set, fee and change-output count into
//! transaction elements and change records.  Change is split across the
//! requested number of outputs by integer division: every output but the
//! last receives the quotient, and the last additionally receives the
//! remainder of the change modulo that quotient, so the parts sum back to
//! the change exactly whenever that remainder is smaller than the quotient.

use vstd::prelude::*;
use vstd::arithmetic::div_mod::{
    lemma_div_non_zero, lemma_fundamental_div_mod, lemma_mod_bound, lemma_mod_multiples_vanish,
    lemma_small_mod,
};
use crate::selection::{sum_values, sum_values_exec};
use crate::types::{Error, Identifier, OutputData, TokenOutputData, TxElement, Wallet};

verus! {

/// A change record: the amount, the freshly derived identifier it is bound
/// to, and its (absent) merkle index.
pub type ChangeEntry = (u64, Identifier, Option<u64>);

/// Sum of a sequence of integers.
pub open spec fn sum_ints(s: Seq<int>) -> int
    decreases s.len(),
{
    if s.len() == 0 {
        0
    } else {
        sum_ints(s.drop_last()) + s.last()
    }
}

/// The amount of the `i`-th of `n` change outputs: the quotient for every
/// output but the last, which also carries `change` modulo the quotient.
pub open spec fn spec_change_amount(change: int, n: int, i: int) -> int {
    let part = change / n;
    if i == n - 1 {
        part + change % part
    } else {
        part
    }
}

/// All `n` change amounts, in output order; no outputs when there is no
/// change.
pub open spec fn spec_change_amounts(change: int, n: int) -> Seq<int> {
    if change == 0 {
        Seq::empty()
    } else {
        Seq::new(n as nat, |i: int| spec_change_amount(change, n, i))
    }
}

/// The change records: each amount bound to the next freshly derived child
/// of `parent`, starting at derivation index `start`.
pub open spec fn spec_change_entries(change: int, n: int, parent: Identifier, start: u32) -> Seq<
    ChangeEntry,
> {
    if change == 0 {
        Seq::empty()
    } else {
        Seq::new(
            n as nat,
            |i: int|
                (
                    spec_change_amount(change, n, i) as u64,
                    parent.spec_child((start + i) as u32),
                    None::<u64>,
                ),
        )
    }
}

/// One input element per coin, with coinbase coins distinguished.
pub open spec fn spec_input_elems(coins: Seq<OutputData>) -> Seq<TxElement> {
    coins.map_values(
        |c: OutputData|
            if c.is_coinbase {
                TxElement::CoinbaseInput { value: c.value, key_id: c.key_id }
            } else {
                TxElement::Input { value: c.value, key_id: c.key_id }
            },
    )
}

/// One input element per secondary-asset coin.
pub open spec fn spec_token_input_elems(coins: Seq<TokenOutputData>, token_type: u64) -> Seq<
    TxElement,
> {
    coins.map_values(
        |c: TokenOutputData|
            TxElement::TokenInput {
                value: c.value,
                token_type,
                is_issue: c.is_token_issue,
                key_id: c.key_id,
            },
    )
}

/// One output element per change record.
pub open spec fn spec_change_output_elems(entries: Seq<ChangeEntry>) -> Seq<TxElement> {
    entries.map_values(|e: ChangeEntry| TxElement::Output { value: e.0, key_id: e.1 })
}

/// One secondary-asset output element per change record.
pub open spec fn spec_token_change_output_elems(entries: Seq<ChangeEntry>, token_type: u64) -> Seq<
    TxElement,
> {
    entries.map_values(
        |e: ChangeEntry|
            TxElement::TokenOutput { value: e.0, token_type, is_issue: false, key_id: e.1 },
    )
}

proof fn lemma_sum_repeat(k: int, v: int)
    requires
        0 <= k,
    ensures
        sum_ints(Seq::new(k as nat, |i: int| v)) == k * v,
    decreases k,
{
    let s = Seq::new(k as nat, |i: int| v);
    if k > 0 {
        lemma_sum_repeat(k - 1, v);
        assert(s.drop_last() =~= Seq::new((k - 1) as nat, |i: int| v));
        assert(k * v == (k - 1) * v + v) by (nonlinear_arith);
    } else {
        assert(k * v == 0) by (nonlinear_arith)
            requires
                k == 0,
        ;
    }
}

/// Change-split exactness: splitting positive `change` across `n` outputs
/// yields `n - 1` outputs of `change / n` and a final output of
/// `change / n + change % (change / n)`, and the amounts sum to `change`
/// exactly whenever `change % n < change / n` (in particular whenever
/// `change` is a multiple of `n`, or at least `n * n`).  Zero change yields
/// no outputs, whose empty sum is again exact.
pub proof fn lemma_change_split_exact(change: int, n: int)
    requires
        1 <= n,
        0 <= change,
        change == 0 || change % n < change / n,
    ensures
        sum_ints(spec_change_amounts(change, n)) == change,
        change != 0 ==> spec_change_amounts(change, n).len() == n,
        change != 0 ==> forall|i: int|
            0 <= i < n - 1 ==> spec_change_amounts(change, n)[i] == change / n,
        change != 0 ==> spec_change_amounts(change, n)[n - 1] == change / n + change % (change
            / n),
{
    if change != 0 {
        let part = change / n;
        let rem = change % n;
        lemma_fundamental_div_mod(change, n);
        lemma_mod_bound(change, n);
        assert(part >= 1);
        assert(change == n * part + rem);
        lemma_mod_multiples_vanish(n, rem, part);
        assert(part * n == n * part) by (nonlinear_arith);
        assert(change % part == rem % part);
        lemma_small_mod(rem as nat, part as nat);
        assert(change % part == rem);
        let s = spec_change_amounts(change, n);
        assert(s.drop_last() =~= Seq::new((n - 1) as nat, |i: int| part));
        lemma_sum_repeat(n - 1, part);
        assert(sum_ints(s) == (n - 1) * part + (part + rem));
        assert((n - 1) * part + part == n * part) by (nonlinear_arith);
    }
}

/// The last change output, quotient plus remainder, never exceeds the
/// change itself.
proof fn lemma_last_change_fits(change: int, n: int)
    requires
        1 <= n <= change,
    ensures
        1 <= change / n,
        change / n + change % (change / n) <= change,
{
    let part = change / n;
    lemma_fundamental_div_mod(change, n);
    lemma_mod_bound(change, n);
    lemma_div_non_zero(change, n);
    lemma_mod_bound(change, part);
    if n == 1 {
        assert(part == change);
        lemma_mod_multiples_vanish(1, 0, part);
        lemma_small_mod(0, part as nat);
        assert(change % part == 0);
    } else {
        assert(n * part >= 2 * part) by (nonlinear_arith)
            requires
                n >= 2,
                part >= 0,
        ;
        assert(change >= 2 * part);
    }
}

/// Build the input elements and the change plan for a primary-asset spend.
/// Inputs are emitted only when the caller needs them folded into the
/// aggregate sum; each change output is bound to a freshly derived child
/// key.  Fails on no input: the requirements exclude every panic of the
/// split.
#[verifier::loop_isolation(false)]
pub fn inputs_and_change(
    coins: &Vec<OutputData>,
    wallet: &mut Wallet,
    amount: u64,
    fee: u64,
    num_change_outputs: usize,
    include_inputs_in_sum: bool,
) -> (r: Result<(Vec<TxElement>, Vec<ChangeEntry>), Error>)
    requires
        sum_values(coins@) <= u64::MAX,
        amount + fee <= sum_values(coins@),
        ({
            let change = sum_values(coins@) - amount - fee;
            change == 0 || (1 <= num_change_outputs && num_change_outputs <= change)
        }),
        sum_values(coins@) - amount - fee == 0 || old(wallet).next_child_index
            + num_change_outputs <= u32::MAX,
    ensures
        ({
            let change = sum_values(coins@) - amount - fee;
            let entries = spec_change_entries(
                change,
                num_change_outputs as int,
                old(wallet).parent_key_id,
                old(wallet).next_child_index,
            );
            match r {
                Ok((parts, change_entries)) => {
                    &&& change_entries@ == entries
                    &&& parts@ == (if include_inputs_in_sum {
                        spec_input_elems(coins@)
                    } else {
                        Seq::<TxElement>::empty()
                    }) + spec_change_output_elems(entries)
                    &&& final(wallet).next_child_index == old(wallet).next_child_index
                        + entries.len()
                    &&& final(wallet).parent_key_id == old(wallet).parent_key_id
                    &&& final(wallet).coins == old(wallet).coins
                    &&& final(wallet).token_coins == old(wallet).token_coins
                    &&& final(wallet).tx_log == old(wallet).tx_log
                    &&& final(wallet).token_tx_log == old(wallet).token_tx_log
                    &&& final(wallet).next_log_id == old(wallet).next_log_id
                    &&& final(wallet).stored_tx_keys == old(wallet).stored_tx_keys
                },
                Err(_) => false,
            }
        }),
{
    let mut parts: Vec<TxElement> = Vec::new();
    let total = sum_values_exec(coins);
    let change = total - amount - fee;
    if include_inputs_in_sum {
        let mut i: usize = 0;
        while i < coins.len()
            invariant
                0 <= i <= coins@.len(),
                parts@ == spec_input_elems(coins@.take(i as int)),
            decreases coins@.len() - i,
        {
            let coin = coins[i];
            if coin.is_coinbase {
                parts.push(TxElement::CoinbaseInput { value: coin.value, key_id: coin.key_id });
            } else {
                parts.push(TxElement::Input { value: coin.value, key_id: coin.key_id });
            }
            proof {
                assert(parts@ =~= spec_input_elems(coins@.take(i + 1)));
            }
            i = i + 1;
        }
        proof {
            assert(coins@.take(coins@.len() as int) =~= coins@);
        }
    }
    let ghost input_part: Seq<TxElement> = if include_inputs_in_sum {
        spec_input_elems(coins@)
    } else {
        Seq::<TxElement>::empty()
    };
    let mut change_amounts_derivations: Vec<ChangeEntry> = Vec::new();
    if change != 0 {
        let ghost start = wallet.next_child_index;
        let ghost entries = spec_change_entries(
            change as int,
            num_change_outputs as int,
            wallet.parent_key_id,
            start,
        );
        let n64: u64 = num_change_outputs as u64;
        let part_change: u64 = change / n64;
        proof {
            lemma_fundamental_div_mod(change as int, n64 as int);
            lemma_mod_bound(change as int, n64 as int);
            lemma_div_non_zero(change as int, n64 as int);
        }
        let remainder_change: u64 = change % part_change;
        proof {
            lemma_mod_bound(change as int, part_change as int);
        }
        let mut x: usize = 0;
        while x < num_change_outputs
            invariant
                0 <= x <= num_change_outputs,
                change_amounts_derivations@ == entries.take(x as int),
                parts@ == input_part + spec_change_output_elems(entries.take(x as int)),
                wallet.next_child_index == start + x,
                wallet.parent_key_id == old(wallet).parent_key_id,
                wallet.coins == old(wallet).coins,
                wallet.token_coins == old(wallet).token_coins,
                wallet.tx_log == old(wallet).tx_log,
                wallet.token_tx_log == old(wallet).token_tx_log,
                wallet.next_log_id == old(wallet).next_log_id,
                wallet.stored_tx_keys == old(wallet).stored_tx_keys,
            decreases num_change_outputs - x,
        {
            let change_amount: u64 = if x == num_change_outputs - 1 {
                proof {
                    lemma_last_change_fits(change as int, n64 as int);
                }
                part_change + remainder_change
            } else {
                part_change
            };
            let change_key = wallet.next_child();
            change_amounts_derivations.push((change_amount, change_key, None));
            parts.push(TxElement::Output { value: change_amount, key_id: change_key });
            proof {
                assert(entries[x as int] == (
                    change_amount,
                    change_key,
                    None::<u64>,
                ));
                assert(change_amounts_derivations@ =~= entries.take(x as int + 1));
                assert(spec_change_output_elems(entries.take(x as int + 1)) =~=
                    spec_change_output_elems(entries.take(x as int)).push(
                    (TxElement::Output { value: change_amount, key_id: change_key }),
                ));
            }
            x = x + 1;
        }
        proof {
            assert(entries.take(num_change_outputs as int) =~= entries);
        }
    }
    proof {
        if change == 0 {
            assert(change_amounts_derivations@ =~= spec_change_entries(
                0,
                num_change_outputs as int,
                wallet.parent_key_id,
                wallet.next_child_index,
            ));
            assert(parts@ =~= input_part + spec_change_output_elems(Seq::empty()));
        }
    }
    Ok((parts, change_amounts_derivations))
}

/// Build the input elements and the change plan for a secondary-asset
/// spend: as the primary-asset assembly, but fee-less and tagged with the
/// asset type.
#[verifier::loop_isolation(false)]
pub fn token_inputs_and_change(
    coins: &Vec<TokenOutputData>,
    wallet: &mut Wallet,
    amount: u64,
    token_type: u64,
    num_change_outputs: usize,
    include_inputs_in_sum: bool,
) -> (r: Result<(Vec<TxElement>, Vec<ChangeEntry>), Error>)
    requires
        sum_values(coins@) <= u64::MAX,
        amount <= sum_values(coins@),
        ({
            let change = sum_values(coins@) - amount;
            change == 0 || (1 <= num_change_outputs && num_change_outputs <= change)
        }),
        sum_values(coins@) - amount == 0 || old(wallet).next_child_index + num_change_outputs
            <= u32::MAX,
    ensures
        ({
            let change = sum_values(coins@) - amount;
            let entries = spec_change_entries(
                change,
                num_change_outputs as int,
                old(wallet).parent_key_id,
                old(wallet).next_child_index,
            );
            match r {
                Ok((parts, change_entries)) => {
                    &&& change_entries@ == entries
                    &&& parts@ == (if include_inputs_in_sum {
                        spec_token_input_elems(coins@, token_type)
                    } else {
                        Seq::<TxElement>::empty()
                    }) + spec_token_change_output_elems(entries, token_type)
                    &&& final(wallet).next_child_index == old(wallet).next_child_index
                        + entries.len()
                    &&& final(wallet).parent_key_id == old(wallet).parent_key_id
                    &&& final(wallet).coins == old(wallet).coins
                    &&& final(wallet).token_coins == old(wallet).token_coins
                    &&& final(wallet).tx_log == old(wallet).tx_log
                    &&& final(wallet).token_tx_log == old(wallet).token_tx_log
                    &&& final(wallet).next_log_id == old(wallet).next_log_id
                    &&& final(wallet).stored_tx_keys == old(wallet).stored_tx_keys
                },
                Err(_) => false,
            }
        }),
{
    let mut parts: Vec<TxElement> = Vec::new();
    let total = sum_values_exec(coins);
    let change = total - amount;
    if include_inputs_in_sum {
        let mut i: usize = 0;
        while i < coins.len()
            invariant
                0 <= i <= coins@.len(),
                parts@ == spec_token_input_elems(coins@.take(i as int), token_type),
            decreases coins@.len() - i,
        {
            let coin = coins[i];
            parts.push(TxElement::TokenInput {
                value: coin.value,
                token_type,
                is_issue: coin.is_token_issue,
                key_id: coin.key_id,
            });
            proof {
                assert(parts@ =~= spec_token_input_elems(coins@.take(i + 1), token_type));
            }
            i = i + 1;
        }
        proof {
            assert(coins@.take(coins@.len() as int) =~= coins@);
        }
    }
    let ghost input_part: Seq<TxElement> = if include_inputs_in_sum {
        spec_token_input_elems(coins@, token_type)
    } else {
        Seq::<TxElement>::empty()
    };
    let mut change_amounts_derivations: Vec<ChangeEntry> = Vec::new();
    if change != 0 {
        let ghost start = wallet.next_child_index;
        let ghost entries = spec_change_entries(
            change as int,
            num_change_outputs as int,
            wallet.parent_key_id,
            start,
        );
        let n64: u64 = num_change_outputs as u64;
        let part_change: u64 = change / n64;
        proof {
            lemma_fundamental_div_mod(change as int, n64 as int);
            lemma_mod_bound(change as int, n64 as int);
            lemma_div_non_zero(change as int, n64 as int);
        }
        let remainder_change: u64 = change % part_change;
        proof {
            lemma_mod_bound(change as int, part_change as int);
        }
        let mut x: usize = 0;
        while x < num_change_outputs
            invariant
                0 <= x <= num_change_outputs,
                change_amounts_derivations@ == entries.take(x as int),
                parts@ == input_part + spec_token_change_output_elems(
                    entries.take(x as int),
                    token_type,
                ),
                wallet.next_child_index == start + x,
                wallet.parent_key_id == old(wallet).parent_key_id,
                wallet.coins == old(wallet).coins,
                wallet.token_coins == old(wallet).token_coins,
                wallet.tx_log == old(wallet).tx_log,
                wallet.token_tx_log == old(wallet).token_tx_log,
                wallet.next_log_id == old(wallet).next_log_id,
                wallet.stored_tx_keys == old(wallet).stored_tx_keys,
            decreases num_change_outputs - x,
        {
            let change_amount: u64 = if x == num_change_outputs - 1 {
                proof {
                    lemma_last_change_fits(change as int, n64 as int);
                }
                part_change + remainder_change
            } else {
                part_change
            };
            let change_key = wallet.next_child();
            change_amounts_derivations.push((change_amount, change_key, None));
            parts.push(TxElement::TokenOutput {
                value: change_amount,
                token_type,
                is_issue: false,
                key_id: change_key,
            });
            proof {
                assert(entries[x as int] == (
                    change_amount,
                    change_key,
                    None::<u64>,
                ));
                assert(change_amounts_derivations@ =~= entries.take(x as int + 1));
                assert(spec_token_change_output_elems(entries.take(x as int + 1), token_type) =~=
                    spec_token_change_output_elems(entries.take(x as int), token_type).push(
                    (TxElement::TokenOutput {
                        value: change_amount,
                        token_type,
                        is_issue: false,
                        key_id: change_key,
                    }),
                ));
            }
            x = x + 1;
        }
        proof {
            assert(entries.take(num_change_outputs as int) =~= entries);
        }
    }
    proof {
        if change == 0 {
            assert(change_amounts_derivations@ =~= spec_change_entries(
                0,
                num_change_outputs as int,
                wallet.parent_key_id,
                wallet.next_child_index,
            ));
            assert(parts@ =~= input_part + spec_token_change_output_elems(
                Seq::empty(),
                token_type,
            ));
        }
    }
    Ok((parts, change_amounts_derivations))
}

/// The single mint output of a token issue, bound to a freshly derived
/// child key.
pub fn token_issue_output(wallet: &mut Wallet, amount: u64, token_type: u64) -> (r: Result<
    (Vec<TxElement>, ChangeEntry),
    Error,
>)
    requires
        old(wallet).next_child_index < u32::MAX,
    ensures
        ({
            let key = old(wallet).parent_key_id.spec_child(old(wallet).next_child_index);
            match r {
                Ok((parts, entry)) => {
                    &&& parts@ == seq![
                        (TxElement::TokenOutput { value: amount, token_type, is_issue: true, key_id: key }),
                    ]
                    &&& entry == (amount, key, None::<u64>)
                    &&& final(wallet).next_child_index == old(wallet).next_child_index + 1
                    &&& final(wallet).parent_key_id == old(wallet).parent_key_id
                    &&& final(wallet).coins == old(wallet).coins
                    &&& final(wallet).token_coins == old(wallet).token_coins
                    &&& final(wallet).tx_log == old(wallet).tx_log
                    &&& final(wallet).token_tx_log == old(wallet).token_tx_log
                    &&& final(wallet).next_log_id == old(wallet).next_log_id
                    &&& final(wallet).stored_tx_keys == old(wallet).stored_tx_keys
                },
                Err(_) => false,
            }
        }),
{
    let mut parts: Vec<TxElement> = Vec::new();
    let token_key = wallet.next_child();
    parts.push(TxElement::TokenOutput { value: amount, token_type, is_issue: true, key_id: token_key });
    proof {
        assert(parts@ =~= seq![
            (TxElement::TokenOutput {
                value: amount,
                token_type,
                is_issue: true,
                key_id: token_key,
            }),
        ]);
    }
    Ok((parts, (amount, token_key, None)))
}

} // verus!
