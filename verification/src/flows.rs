//! The build flows: sender, token sender, token issue, and recipient, plus
//! the selection-and-assembly steps they share.  Each flow composes the
//! solver, the assembler and the context; the aggregate blinding secrets and
//! nonces produced by the cryptographic collaborators enter as plain values.

use vstd::prelude::*;
use crate::assembly::{
    inputs_and_change, spec_change_entries, spec_change_output_elems, spec_input_elems,
    spec_token_change_output_elems, spec_token_input_elems, token_inputs_and_change,
    token_issue_output, ChangeEntry,
};
use crate::context::{spec_zero_key, zero_key, Context, Entry};
use crate::finalize::{spec_new_output, spec_new_token_output, spec_ttl};
use crate::fee::MAX_FEE_COUNT;
use crate::selection::{eligible_token, select_result, sort_by_value_spec, sum_values};
use crate::solver::{
    select_coins_and_fee, select_token_coins_and_fee, spec_select_coins_and_fee, MAX_AMOUNT,
};
use crate::types::{
    Error, Identifier, OutputData, Slate, TokenOutputData, TokenTxLogEntry, TokenTxLogEntryType,
    TxElement, TxLogEntry, TxLogEntryType, Wallet,
};

verus! {

/// The context entry registered for one selected coin.
pub open spec fn entries_of_coins(coins: Seq<OutputData>) -> Seq<Entry> {
    coins.map_values(
        |c: OutputData| Entry { key_id: c.key_id, mmr_index: c.mmr_index, value: c.value },
    )
}

/// The context entry registered for one selected token coin.
pub open spec fn entries_of_token_coins(coins: Seq<TokenOutputData>) -> Seq<Entry> {
    coins.map_values(
        |c: TokenOutputData| Entry { key_id: c.key_id, mmr_index: c.mmr_index, value: c.value },
    )
}

/// The context entry registered for one change record.
pub open spec fn entries_of_change(entries: Seq<ChangeEntry>) -> Seq<Entry> {
    entries.map_values(|e: ChangeEntry| Entry { key_id: e.1, mmr_index: e.2, value: e.0 })
}

/// The wallet changed in nothing but its derivation counter.
pub open spec fn only_derivations_advanced(old_w: Wallet, new_w: Wallet) -> bool {
    &&& new_w.parent_key_id == old_w.parent_key_id
    &&& new_w.coins == old_w.coins
    &&& new_w.token_coins == old_w.token_coins
    &&& new_w.tx_log == old_w.tx_log
    &&& new_w.token_tx_log == old_w.token_tx_log
    &&& new_w.next_log_id == old_w.next_log_id
    &&& new_w.stored_tx_keys == old_w.stored_tx_keys
}

/// Select coins and fee for a primary-asset spend and build the transaction
/// skeleton: input elements (when they are to be folded into the aggregate
/// sum) and the change plan with freshly derived identifiers.
pub fn select_send_tx(
    wallet: &mut Wallet,
    amount: u64,
    current_height: u64,
    minimum_confirmations: u64,
    max_outputs: usize,
    change_outputs: usize,
    selection_strategy_is_use_all: bool,
    parent_key_id: &Identifier,
    token_inputs: usize,
    token_outputs: usize,
    include_inputs_in_sum: bool,
) -> (r: Result<(Vec<TxElement>, Vec<OutputData>, Vec<ChangeEntry>, u64), Error>)
    requires
        sum_values(old(wallet).coins@) <= u64::MAX,
        max_outputs >= 1,
        amount <= MAX_AMOUNT,
        change_outputs < MAX_FEE_COUNT,
        (match spec_select_coins_and_fee(
            old(wallet).coins@,
            amount as int,
            current_height,
            minimum_confirmations,
            max_outputs as int,
            change_outputs as int,
            selection_strategy_is_use_all,
            *parent_key_id,
            token_inputs as int,
            token_outputs as int,
        ) {
            Ok((coins, fee)) => {
                let change = sum_values(coins) - amount - fee;
                &&& (change == 0 || (1 <= change_outputs && change_outputs <= change))
                &&& (change == 0 || old(wallet).next_child_index + change_outputs <= u32::MAX)
            },
            Err(_) => true,
        }),
    ensures
        (match spec_select_coins_and_fee(
            old(wallet).coins@,
            amount as int,
            current_height,
            minimum_confirmations,
            max_outputs as int,
            change_outputs as int,
            selection_strategy_is_use_all,
            *parent_key_id,
            token_inputs as int,
            token_outputs as int,
        ) {
            Err((a, n)) => {
                &&& r matches Err(e) && e == (Error::NotEnoughFunds {
                    available: a as u64,
                    needed: n as u64,
                })
                &&& *final(wallet) == *old(wallet)
            },
            Ok((coins_s, fee_s)) => {
                let change = sum_values(coins_s) - amount - fee_s;
                let entries_s = spec_change_entries(
                    change,
                    change_outputs as int,
                    old(wallet).parent_key_id,
                    old(wallet).next_child_index,
                );
                &&& r matches Ok((parts, coins, entries, fee))
                &&& coins@ == coins_s
                &&& fee == fee_s
                &&& entries@ == entries_s
                &&& parts@ == (if include_inputs_in_sum {
                    spec_input_elems(coins_s)
                } else {
                    Seq::<TxElement>::empty()
                }) + spec_change_output_elems(entries_s)
                &&& final(wallet).next_child_index == old(wallet).next_child_index
                    + entries_s.len()
                &&& only_derivations_advanced(*old(wallet), *final(wallet))
            },
        }),
{
    let solved = select_coins_and_fee(
        wallet,
        amount,
        current_height,
        minimum_confirmations,
        max_outputs,
        change_outputs,
        selection_strategy_is_use_all,
        parent_key_id,
        token_inputs,
        token_outputs,
    );
    match solved {
        Err(e) => Err(e),
        Ok((coins, _total, amount_back, fee)) => {
            match inputs_and_change(
                &coins,
                wallet,
                amount_back,
                fee,
                change_outputs,
                include_inputs_in_sum,
            ) {
                Err(e) => Err(e),
                Ok((parts, change_amounts_derivations)) => Ok(
                    (parts, coins, change_amounts_derivations, fee),
                ),
            }
        },
    }
}

/// Select token coins for a secondary-asset spend and build the transaction
/// skeleton: fee-less, tagged with the asset type.
pub fn select_send_token_tx(
    wallet: &mut Wallet,
    amount: u64,
    token_type: u64,
    current_height: u64,
    minimum_confirmations: u64,
    max_outputs: usize,
    change_outputs: usize,
    selection_strategy_is_use_all: bool,
    parent_key_id: &Identifier,
    include_inputs_in_sum: bool,
) -> (r: Result<(Vec<TxElement>, Vec<TokenOutputData>, Vec<ChangeEntry>), Error>)
    requires
        sum_values(old(wallet).token_coins@) <= u64::MAX,
        max_outputs >= 1,
        ({
            let chosen = select_result(
                amount as int,
                selection_strategy_is_use_all,
                sort_by_value_spec(
                    eligible_token(
                        old(wallet).token_coins@,
                        *parent_key_id,
                        token_type,
                        current_height,
                        minimum_confirmations,
                    ),
                ),
                max_outputs as int,
            );
            let total = sum_values(chosen);
            let change = total - amount;
            (total != 0 && total >= amount) ==> {
                &&& (change == 0 || (1 <= change_outputs && change_outputs <= change))
                &&& (change == 0 || old(wallet).next_child_index + change_outputs <= u32::MAX)
            }
        }),
    ensures
        ({
            let chosen = select_result(
                amount as int,
                selection_strategy_is_use_all,
                sort_by_value_spec(
                    eligible_token(
                        old(wallet).token_coins@,
                        *parent_key_id,
                        token_type,
                        current_height,
                        minimum_confirmations,
                    ),
                ),
                max_outputs as int,
            );
            let total = sum_values(chosen);
            let change = total - amount;
            let entries_s = spec_change_entries(
                change,
                change_outputs as int,
                old(wallet).parent_key_id,
                old(wallet).next_child_index,
            );
            if total == 0 || total < amount {
                &&& r matches Err(e) && e == (Error::NotEnoughFunds {
                    available: (if total == 0 {
                        0
                    } else {
                        total as u64
                    }),
                    needed: amount,
                })
                &&& *final(wallet) == *old(wallet)
            } else {
                &&& r matches Ok((parts, coins, entries))
                &&& coins@ == chosen
                &&& entries@ == entries_s
                &&& parts@ == (if include_inputs_in_sum {
                    spec_token_input_elems(chosen, token_type)
                } else {
                    Seq::<TxElement>::empty()
                }) + spec_token_change_output_elems(entries_s, token_type)
                &&& final(wallet).next_child_index == old(wallet).next_child_index
                    + entries_s.len()
                &&& only_derivations_advanced(*old(wallet), *final(wallet))
            }
        }),
{
    let solved = select_token_coins_and_fee(
        wallet,
        amount,
        token_type,
        current_height,
        minimum_confirmations,
        max_outputs,
        selection_strategy_is_use_all,
        parent_key_id,
    );
    match solved {
        Err(e) => Err(e),
        Ok((coins, _total, amount_back)) => {
            match token_inputs_and_change(
                &coins,
                wallet,
                amount_back,
                token_type,
                change_outputs,
                include_inputs_in_sum,
            ) {
                Err(e) => Err(e),
                Ok((parts, change_amounts_derivations)) => Ok(
                    (parts, coins, change_amounts_derivations),
                ),
            }
        },
    }
}

/// The two documents agree on everything but the fee.
pub open spec fn same_slate_but_fee(a: Slate, b: Slate) -> bool {
    &&& b.id == a.id
    &&& b.amount == a.amount
    &&& b.ttl_cutoff_height == a.ttl_cutoff_height
    &&& b.token_type == a.token_type
    &&& b.payment_proof == a.payment_proof
    &&& b.kernel_excess == a.kernel_excess
    &&& b.compact == a.compact
    &&& b.offset == a.offset
    &&& b.tx_offset == a.tx_offset
    &&& b.has_tx == a.has_tx
}

/// Register the selected coins as inputs of the context.
fn register_inputs(context: &mut Context, coins: &Vec<OutputData>)
    ensures
        final(context).input@ == old(context).input@ + entries_of_coins(coins@),
        final(context).output == old(context).output,
        final(context).token_input == old(context).token_input,
        final(context).token_output == old(context).token_output,
        crate::context::same_scalars(*old(context), *final(context)),
{
    let mut k: usize = 0;
    while k < coins.len()
        invariant
            0 <= k <= coins@.len(),
            context.input@ == old(context).input@ + entries_of_coins(coins@.take(k as int)),
            context.output == old(context).output,
            context.token_input == old(context).token_input,
            context.token_output == old(context).token_output,
            crate::context::same_scalars(*old(context), *context),
        decreases coins@.len() - k,
    {
        let c = coins[k];
        context.add_input(&c.key_id, &c.mmr_index, c.value);
        proof {
            assert(context.input@ =~= old(context).input@ + entries_of_coins(
                coins@.take(k as int + 1),
            ));
        }
        k = k + 1;
    }
    proof {
        assert(coins@.take(coins@.len() as int) =~= coins@);
    }
}

/// Register the selected token coins as secondary-asset inputs.
fn register_token_inputs(context: &mut Context, coins: &Vec<TokenOutputData>)
    ensures
        final(context).token_input@ == old(context).token_input@ + entries_of_token_coins(coins@),
        final(context).input == old(context).input,
        final(context).output == old(context).output,
        final(context).token_output == old(context).token_output,
        crate::context::same_scalars(*old(context), *final(context)),
{
    let mut k: usize = 0;
    while k < coins.len()
        invariant
            0 <= k <= coins@.len(),
            context.token_input@ == old(context).token_input@ + entries_of_token_coins(
                coins@.take(k as int),
            ),
            context.input == old(context).input,
            context.output == old(context).output,
            context.token_output == old(context).token_output,
            crate::context::same_scalars(*old(context), *context),
        decreases coins@.len() - k,
    {
        let c = coins[k];
        context.add_token_input(&c.key_id, &c.mmr_index, c.value);
        proof {
            assert(context.token_input@ =~= old(context).token_input@ + entries_of_token_coins(
                coins@.take(k as int + 1),
            ));
        }
        k = k + 1;
    }
    proof {
        assert(coins@.take(coins@.len() as int) =~= coins@);
    }
}

/// Register the change plan as outputs of the context.
fn register_outputs(context: &mut Context, entries: &Vec<ChangeEntry>)
    ensures
        final(context).output@ == old(context).output@ + entries_of_change(entries@),
        final(context).input == old(context).input,
        final(context).token_input == old(context).token_input,
        final(context).token_output == old(context).token_output,
        crate::context::same_scalars(*old(context), *final(context)),
{
    let mut k: usize = 0;
    while k < entries.len()
        invariant
            0 <= k <= entries@.len(),
            context.output@ == old(context).output@ + entries_of_change(
                entries@.take(k as int),
            ),
            context.input == old(context).input,
            context.token_input == old(context).token_input,
            context.token_output == old(context).token_output,
            crate::context::same_scalars(*old(context), *context),
        decreases entries@.len() - k,
    {
        let e = entries[k];
        context.add_output(&e.1, &e.2, e.0);
        proof {
            assert(context.output@ =~= old(context).output@ + entries_of_change(
                entries@.take(k as int + 1),
            ));
        }
        k = k + 1;
    }
    proof {
        assert(entries@.take(entries@.len() as int) =~= entries@);
    }
}

/// Register the token change plan as secondary-asset outputs.
fn register_token_outputs(context: &mut Context, entries: &Vec<ChangeEntry>)
    ensures
        final(context).token_output@ == old(context).token_output@ + entries_of_change(entries@),
        final(context).input == old(context).input,
        final(context).output == old(context).output,
        final(context).token_input == old(context).token_input,
        crate::context::same_scalars(*old(context), *final(context)),
{
    let mut k: usize = 0;
    while k < entries.len()
        invariant
            0 <= k <= entries@.len(),
            context.token_output@ == old(context).token_output@ + entries_of_change(
                entries@.take(k as int),
            ),
            context.input == old(context).input,
            context.output == old(context).output,
            context.token_input == old(context).token_input,
            crate::context::same_scalars(*old(context), *context),
        decreases entries@.len() - k,
    {
        let e = entries[k];
        context.add_token_output(&e.1, &e.2, e.0);
        proof {
            assert(context.token_output@ =~= old(context).token_output@ + entries_of_change(
                entries@.take(k as int + 1),
            ));
        }
        k = k + 1;
    }
    proof {
        assert(entries@.take(entries@.len() as int) =~= entries@);
    }
}

/// Initialize a sender-side build: select inputs and change, record the fee
/// on the document, and produce the private context holding the aggregate
/// blinding secret together with the elements to fold into the document.
pub fn build_send_tx(
    wallet: &mut Wallet,
    slate: &mut Slate,
    current_height: u64,
    minimum_confirmations: u64,
    max_outputs: usize,
    change_outputs: usize,
    selection_strategy_is_use_all: bool,
    parent_key_id: Identifier,
    is_invoice: bool,
    blinding: [u8; 32],
    sec_nonce: [u8; 32],
) -> (r: Result<(Context, Vec<TxElement>), Error>)
    requires
        sum_values(old(wallet).coins@) <= u64::MAX,
        max_outputs >= 1,
        old(slate).amount <= MAX_AMOUNT,
        change_outputs < MAX_FEE_COUNT,
        (match spec_select_coins_and_fee(
            old(wallet).coins@,
            old(slate).amount as int,
            current_height,
            minimum_confirmations,
            max_outputs as int,
            change_outputs as int,
            selection_strategy_is_use_all,
            parent_key_id,
            0,
            0,
        ) {
            Ok((coins, fee)) => {
                let change = sum_values(coins) - old(slate).amount - fee;
                &&& (change == 0 || (1 <= change_outputs && change_outputs <= change))
                &&& (change == 0 || old(wallet).next_child_index + change_outputs <= u32::MAX)
            },
            Err(_) => true,
        }),
    ensures
        (match spec_select_coins_and_fee(
            old(wallet).coins@,
            old(slate).amount as int,
            current_height,
            minimum_confirmations,
            max_outputs as int,
            change_outputs as int,
            selection_strategy_is_use_all,
            parent_key_id,
            0,
            0,
        ) {
            Err((a, n)) => {
                &&& r matches Err(e) && e == (Error::NotEnoughFunds {
                    available: a as u64,
                    needed: n as u64,
                })
                &&& *final(wallet) == *old(wallet)
                &&& *final(slate) == *old(slate)
            },
            Ok((coins_s, fee_s)) => {
                let change = sum_values(coins_s) - old(slate).amount - fee_s;
                let entries_s = spec_change_entries(
                    change,
                    change_outputs as int,
                    old(wallet).parent_key_id,
                    old(wallet).next_child_index,
                );
                &&& r matches Ok((context, parts))
                &&& parts@ == (if !old(slate).compact {
                    spec_input_elems(coins_s)
                } else {
                    Seq::<TxElement>::empty()
                }) + spec_change_output_elems(entries_s)
                &&& context.input@ == entries_of_coins(coins_s)
                &&& context.output@ == entries_of_change(entries_s)
                &&& context.token_input@ == Seq::<Entry>::empty()
                &&& context.token_output@ == Seq::<Entry>::empty()
                &&& context.parent_key_id == parent_key_id
                &&& context.sec_key == blinding
                &&& context.token_sec_key@ == spec_zero_key()
                &&& context.sec_nonce == sec_nonce
                &&& context.amount == old(slate).amount
                &&& context.fee == fee_s
                &&& context.is_invoice == is_invoice
                &&& context.payment_proof_derivation_index is None
                &&& final(slate).fee == fee_s
                &&& same_slate_but_fee(*old(slate), *final(slate))
                &&& final(wallet).next_child_index == old(wallet).next_child_index
                    + entries_s.len()
                &&& only_derivations_advanced(*old(wallet), *final(wallet))
            },
        }),
{
    let include_inputs_in_sum = !slate.is_compact();
    let amount = slate.amount;
    match select_send_tx(
        wallet,
        amount,
        current_height,
        minimum_confirmations,
        max_outputs,
        change_outputs,
        selection_strategy_is_use_all,
        &parent_key_id,
        0,
        0,
        include_inputs_in_sum,
    ) {
        Err(e) => Err(e),
        Ok((elems, inputs, change_amounts_derivations, fee)) => {
            slate.fee = fee;
            let mut context = Context::new(
                blinding,
                zero_key(),
                &parent_key_id,
                sec_nonce,
                is_invoice,
            );
            context.fee = fee;
            context.amount = amount;
            register_inputs(&mut context, &inputs);
            register_outputs(&mut context, &change_amounts_derivations);
            proof {
                assert(context.input@ =~= entries_of_coins(inputs@));
                assert(context.output@ =~= entries_of_change(change_amounts_derivations@));
            }
            Ok((context, elems))
        },
    }
}

/// Initialize a secondary-asset send: the fee-less token legs are selected
/// first, then the fee-paying primary leg is solved around their element
/// counts; the context holds both aggregate secrets.  Fails at once when
/// the document names no asset type.
pub fn build_send_token_tx(
    wallet: &mut Wallet,
    slate: &mut Slate,
    current_height: u64,
    minimum_confirmations: u64,
    max_outputs: usize,
    change_outputs: usize,
    selection_strategy_is_use_all: bool,
    parent_key_id: Identifier,
    is_invoice: bool,
    blinding: [u8; 32],
    token_blinding: [u8; 32],
    sec_nonce: [u8; 32],
) -> (r: Result<(Context, Vec<TxElement>), Error>)
    requires
        sum_values(old(wallet).coins@) <= u64::MAX,
        sum_values(old(wallet).token_coins@) <= u64::MAX,
        max_outputs >= 1,
        change_outputs < MAX_FEE_COUNT,
        ({
            let tt = (match old(slate).token_type {
                Some(t) => t,
                None => 0,
            });
            let tchosen = select_result(
                old(slate).amount as int,
                selection_strategy_is_use_all,
                sort_by_value_spec(
                    eligible_token(
                        old(wallet).token_coins@,
                        parent_key_id,
                        tt,
                        current_height,
                        minimum_confirmations,
                    ),
                ),
                max_outputs as int,
            );
            let ttotal = sum_values(tchosen);
            let tchange = ttotal - old(slate).amount;
            let tentries_len: int = if tchange == 0 {
                0
            } else {
                change_outputs as int
            };
            old(slate).token_type is Some ==> {
                &&& (ttotal != 0 && ttotal >= old(slate).amount) ==> {
                    &&& (tchange == 0 || (1 <= change_outputs && change_outputs <= tchange))
                    &&& (tchange == 0 || old(wallet).next_child_index + change_outputs
                        <= u32::MAX)
                    &&& (match spec_select_coins_and_fee(
                        old(wallet).coins@,
                        0,
                        current_height,
                        minimum_confirmations,
                        max_outputs as int,
                        1,
                        selection_strategy_is_use_all,
                        parent_key_id,
                        tchosen.len() as int,
                        tentries_len + 1,
                    ) {
                        Ok((coins, fee)) => {
                            let change = sum_values(coins) - fee;
                            change == 0 || old(wallet).next_child_index + tentries_len + 1
                                <= u32::MAX
                        },
                        Err(_) => true,
                    })
                }
            }
        }),
    ensures
        old(slate).token_type is None ==> (r matches Err(e) && e == Error::InvalidRequest
            && *final(wallet) == *old(wallet) && *final(slate) == *old(slate)),
        ({
            let tt = (match old(slate).token_type {
                Some(t) => t,
                None => 0,
            });
            let tchosen = select_result(
                old(slate).amount as int,
                selection_strategy_is_use_all,
                sort_by_value_spec(
                    eligible_token(
                        old(wallet).token_coins@,
                        parent_key_id,
                        tt,
                        current_height,
                        minimum_confirmations,
                    ),
                ),
                max_outputs as int,
            );
            let ttotal = sum_values(tchosen);
            let tchange = ttotal - old(slate).amount;
            let tentries = spec_change_entries(
                tchange,
                change_outputs as int,
                old(wallet).parent_key_id,
                old(wallet).next_child_index,
            );
            let token_parts = spec_token_input_elems(tchosen, tt)
                + spec_token_change_output_elems(tentries, tt);
            old(slate).token_type is Some ==> {
                if ttotal == 0 || ttotal < old(slate).amount {
                    &&& r matches Err(e) && e == (Error::NotEnoughFunds {
                        available: (if ttotal == 0 {
                            0
                        } else {
                            ttotal as u64
                        }),
                        needed: old(slate).amount,
                    })
                    &&& *final(wallet) == *old(wallet)
                    &&& *final(slate) == *old(slate)
                } else {
                    match spec_select_coins_and_fee(
                        old(wallet).coins@,
                        0,
                        current_height,
                        minimum_confirmations,
                        max_outputs as int,
                        1,
                        selection_strategy_is_use_all,
                        parent_key_id,
                        tchosen.len() as int,
                        tentries.len() as int + 1,
                    ) {
                        Err((a, n)) => {
                            &&& r matches Err(e) && e == (Error::NotEnoughFunds {
                                available: a as u64,
                                needed: n as u64,
                            })
                            &&& only_derivations_advanced(*old(wallet), *final(wallet))
                            &&& final(wallet).next_child_index == old(wallet).next_child_index
                                + tentries.len()
                            &&& *final(slate) == *old(slate)
                        },
                        Ok((coins_s, fee_s)) => {
                            let change = sum_values(coins_s) - fee_s;
                            let entries_s = spec_change_entries(
                                change,
                                1,
                                old(wallet).parent_key_id,
                                (old(wallet).next_child_index + tentries.len()) as u32,
                            );
                            &&& r matches Ok((context, parts))
                            &&& parts@ == token_parts + ((if !old(slate).compact {
                                spec_input_elems(coins_s)
                            } else {
                                Seq::<TxElement>::empty()
                            }) + spec_change_output_elems(entries_s))
                            &&& context.input@ == entries_of_coins(coins_s)
                            &&& context.output@ == entries_of_change(entries_s)
                            &&& context.token_input@ == entries_of_token_coins(tchosen)
                            &&& context.token_output@ == entries_of_change(tentries)
                            &&& context.parent_key_id == parent_key_id
                            &&& context.sec_key == blinding
                            &&& context.token_sec_key == token_blinding
                            &&& context.sec_nonce == sec_nonce
                            &&& context.amount == old(slate).amount
                            &&& context.fee == fee_s
                            &&& context.is_invoice == is_invoice
                            &&& context.payment_proof_derivation_index is None
                            &&& final(slate).fee == fee_s
                            &&& same_slate_but_fee(*old(slate), *final(slate))
                            &&& final(wallet).next_child_index == old(wallet).next_child_index
                                + tentries.len() + entries_s.len()
                            &&& only_derivations_advanced(*old(wallet), *final(wallet))
                        },
                    }
                }
            }
        }),
{
    let tt = match slate.token_type {
        Some(t) => t,
        None => {
            return Err(Error::InvalidRequest);
        },
    };
    let include_inputs_in_sum = !slate.is_compact();
    let amount = slate.amount;
    let token_selected = select_send_token_tx(
        wallet,
        amount,
        tt,
        current_height,
        minimum_confirmations,
        max_outputs,
        change_outputs,
        selection_strategy_is_use_all,
        &parent_key_id,
        true,
    );
    match token_selected {
        Err(e) => Err(e),
        Ok((token_elems, token_inputs, token_change_amounts_derivations)) => {
            let token_output_len = token_change_amounts_derivations.len() + 1;
            let token_inout_len = token_elems.len() - token_change_amounts_derivations.len();
            proof {
                assert(token_inout_len == token_inputs@.len());
                crate::solver::lemma_solver_ok_covers(
                    wallet.coins@,
                    0,
                    current_height,
                    minimum_confirmations,
                    max_outputs as int,
                    1,
                    selection_strategy_is_use_all,
                    parent_key_id,
                    token_inout_len as int,
                    token_output_len as int,
                );
            }
            match select_send_tx(
                wallet,
                0,
                current_height,
                minimum_confirmations,
                max_outputs,
                1,
                selection_strategy_is_use_all,
                &parent_key_id,
                token_inout_len,
                token_output_len,
                include_inputs_in_sum,
            ) {
                Err(e) => Err(e),
                Ok((elems, inputs, change_amounts_derivations, fee)) => {
                    let mut all_elems = token_elems;
                    let mut elems = elems;
                    all_elems.append(&mut elems);
                    slate.fee = fee;
                    let mut context = Context::new(
                        blinding,
                        token_blinding,
                        &parent_key_id,
                        sec_nonce,
                        is_invoice,
                    );
                    context.fee = fee;
                    context.amount = amount;
                    register_inputs(&mut context, &inputs);
                    register_outputs(&mut context, &change_amounts_derivations);
                    register_token_inputs(&mut context, &token_inputs);
                    register_token_outputs(&mut context, &token_change_amounts_derivations);
                    proof {
                        assert(context.input@ =~= entries_of_coins(inputs@));
                        assert(context.output@ =~= entries_of_change(
                            change_amounts_derivations@,
                        ));
                        assert(context.token_input@ =~= entries_of_token_coins(token_inputs@));
                        assert(context.token_output@ =~= entries_of_change(
                            token_change_amounts_derivations@,
                        ));
                    }
                    Ok((context, all_elems))
                },
            }
        },
    }
}

/// Initialize a token issue: a fee-bearing primary build with one
/// secondary-asset output slot, plus a single mint output under a fresh
/// asset type, recorded on the document.
pub fn build_issue_token_tx(
    wallet: &mut Wallet,
    slate: &mut Slate,
    current_height: u64,
    minimum_confirmations: u64,
    max_outputs: usize,
    change_outputs: usize,
    selection_strategy_is_use_all: bool,
    parent_key_id: Identifier,
    token_type: u64,
    blinding: [u8; 32],
    token_blinding: [u8; 32],
    sec_nonce: [u8; 32],
) -> (r: Result<(Context, Vec<TxElement>), Error>)
    requires
        sum_values(old(wallet).coins@) <= u64::MAX,
        max_outputs >= 1,
        change_outputs < MAX_FEE_COUNT,
        old(wallet).next_child_index < u32::MAX,
        (match spec_select_coins_and_fee(
            old(wallet).coins@,
            0,
            current_height,
            minimum_confirmations,
            max_outputs as int,
            change_outputs as int,
            selection_strategy_is_use_all,
            parent_key_id,
            0,
            1,
        ) {
            Ok((coins, fee)) => {
                let change = sum_values(coins) - fee;
                &&& (change == 0 || (1 <= change_outputs && change_outputs <= change))
                &&& (change == 0 || old(wallet).next_child_index + change_outputs + 1
                    <= u32::MAX)
            },
            Err(_) => true,
        }),
    ensures
        (match spec_select_coins_and_fee(
            old(wallet).coins@,
            0,
            current_height,
            minimum_confirmations,
            max_outputs as int,
            change_outputs as int,
            selection_strategy_is_use_all,
            parent_key_id,
            0,
            1,
        ) {
            Err((a, n)) => {
                &&& r matches Err(e) && e == (Error::NotEnoughFunds {
                    available: a as u64,
                    needed: n as u64,
                })
                &&& *final(wallet) == *old(wallet)
                &&& *final(slate) == *old(slate)
            },
            Ok((coins_s, fee_s)) => {
                let change = sum_values(coins_s) - fee_s;
                let entries_s = spec_change_entries(
                    change,
                    change_outputs as int,
                    old(wallet).parent_key_id,
                    old(wallet).next_child_index,
                );
                let mint_key = old(wallet).parent_key_id.spec_child(
                    (old(wallet).next_child_index + entries_s.len()) as u32,
                );
                &&& r matches Ok((context, parts))
                &&& parts@ == seq![
                    (TxElement::TokenOutput {
                        value: old(slate).amount,
                        token_type,
                        is_issue: true,
                        key_id: mint_key,
                    }),
                ] + (spec_input_elems(coins_s) + spec_change_output_elems(entries_s))
                &&& context.input@ == entries_of_coins(coins_s)
                &&& context.output@ == entries_of_change(entries_s)
                &&& context.token_input@ == Seq::<Entry>::empty()
                &&& context.token_output@ == seq![
                    (Entry { key_id: mint_key, mmr_index: None, value: old(slate).amount }),
                ]
                &&& context.parent_key_id == parent_key_id
                &&& context.sec_key == blinding
                &&& context.token_sec_key == token_blinding
                &&& context.sec_nonce == sec_nonce
                &&& context.amount == 0
                &&& context.fee == fee_s
                &&& context.is_invoice == false
                &&& context.payment_proof_derivation_index is None
                &&& final(slate).fee == fee_s
                &&& final(slate).token_type == Some(token_type)
                &&& final(slate).id == old(slate).id
                &&& final(slate).amount == old(slate).amount
                &&& final(slate).ttl_cutoff_height == old(slate).ttl_cutoff_height
                &&& final(slate).payment_proof == old(slate).payment_proof
                &&& final(slate).kernel_excess == old(slate).kernel_excess
                &&& final(slate).compact == old(slate).compact
                &&& final(slate).offset == old(slate).offset
                &&& final(slate).tx_offset == old(slate).tx_offset
                &&& final(slate).has_tx == old(slate).has_tx
                &&& final(wallet).next_child_index == old(wallet).next_child_index
                    + entries_s.len() + 1
                &&& only_derivations_advanced(*old(wallet), *final(wallet))
            },
        }),
{
    match select_send_tx(
        wallet,
        0,
        current_height,
        minimum_confirmations,
        max_outputs,
        change_outputs,
        selection_strategy_is_use_all,
        &parent_key_id,
        0,
        1,
        true,
    ) {
        Err(e) => Err(e),
        Ok((elems, inputs, change_amounts_derivations, fee)) => {
            let amount = slate.amount;
            match token_issue_output(wallet, amount, token_type) {
                Err(e) => Err(e),
                Ok((token_elems, mint_entry)) => {
                    let mut all_elems = token_elems;
                    let mut elems = elems;
                    all_elems.append(&mut elems);
                    slate.fee = fee;
                    slate.token_type = Some(token_type);
                    let mut context = Context::new(
                        blinding,
                        token_blinding,
                        &parent_key_id,
                        sec_nonce,
                        false,
                    );
                    context.fee = fee;
                    register_inputs(&mut context, &inputs);
                    register_outputs(&mut context, &change_amounts_derivations);
                    context.add_token_output(&mint_entry.1, &mint_entry.2, mint_entry.0);
                    proof {
                        assert(context.input@ =~= entries_of_coins(inputs@));
                        assert(context.output@ =~= entries_of_change(
                            change_amounts_derivations@,
                        ));
                        assert(context.token_output@ =~= seq![
                            (Entry {
                                key_id: mint_entry.1,
                                mmr_index: mint_entry.2,
                                value: mint_entry.0,
                            }),
                        ]);
                    }
                    Ok((context, all_elems))
                },
            }
        },
    }
}

/// The history record a recipient writes for a received primary amount.
pub open spec fn spec_received_log_entry(
    slate: Slate,
    parent: Identifier,
    log_id: u64,
    height: u64,
) -> TxLogEntry {
    TxLogEntry {
        parent_key_id: parent,
        tx_type: TxLogEntryType::TxReceived,
        id: log_id,
        tx_slate_id: Some(slate.id),
        stored_tx: None,
        fee: None,
        ttl_cutoff_height: spec_ttl(slate),
        kernel_excess: slate.kernel_excess,
        kernel_lookup_min_height: Some(height),
        amount_debited: 0,
        amount_credited: slate.amount,
        num_inputs: 0,
        num_outputs: 1,
        payment_proof: None,
    }
}

/// The history record a recipient writes for a received token amount.
pub open spec fn spec_token_received_log_entry(
    slate: Slate,
    parent: Identifier,
    log_id: u64,
    token_type: u64,
    height: u64,
) -> TokenTxLogEntry {
    TokenTxLogEntry {
        parent_key_id: parent,
        tx_type: TokenTxLogEntryType::TokenTxReceived,
        id: log_id,
        tx_slate_id: Some(slate.id),
        token_type,
        stored_tx: None,
        fee: None,
        ttl_cutoff_height: spec_ttl(slate),
        kernel_excess: slate.kernel_excess,
        kernel_lookup_min_height: Some(height),
        amount_debited: 0,
        amount_credited: 0,
        num_inputs: 0,
        num_outputs: 0,
        token_amount_debited: 0,
        token_amount_credited: slate.amount,
        num_token_inputs: 0,
        num_token_outputs: 1,
        payment_proof: None,
    }
}

/// Create the recipient's output for the requested amount, register it in a
/// fresh context, and -- unlike the sender -- persist the output and its
/// Received history record at once: the recipient has no later lock step.
/// The output record, the history record and the derivation advance land
/// together.
pub fn build_recipient_output(
    wallet: &mut Wallet,
    slate: &mut Slate,
    current_height: u64,
    parent_key_id: Identifier,
    is_invoice: bool,
    blinding: [u8; 32],
    token_blinding: [u8; 32],
    sec_nonce: [u8; 32],
) -> (r: Result<(Identifier, Context, Option<TxLogEntry>, Option<TokenTxLogEntry>), Error>)
    requires
        old(wallet).next_child_index < u32::MAX,
        old(wallet).next_log_id < u64::MAX,
    ensures
        *final(slate) == *old(slate),
        ({
            let key_id = old(wallet).parent_key_id.spec_child(old(wallet).next_child_index);
            let log_id = old(wallet).next_log_id;
            let entry = (Entry { key_id, mmr_index: None, value: old(slate).amount });
            &&& r matches Ok((key_back, context, t, token_t))
            &&& key_back == key_id
            &&& context.parent_key_id == parent_key_id
            &&& context.sec_key == blinding
            &&& context.token_sec_key == token_blinding
            &&& context.sec_nonce == sec_nonce
            &&& context.amount == old(slate).amount
            &&& context.fee == old(slate).fee
            &&& context.is_invoice == is_invoice
            &&& context.payment_proof_derivation_index is None
            &&& context.input@ == Seq::<Entry>::empty()
            &&& context.token_input@ == Seq::<Entry>::empty()
            &&& final(wallet).next_child_index == old(wallet).next_child_index + 1
            &&& final(wallet).next_log_id == log_id + 1
            &&& final(wallet).parent_key_id == old(wallet).parent_key_id
            &&& final(wallet).stored_tx_keys == old(wallet).stored_tx_keys
            &&& (match old(slate).token_type {
                Some(tt) => {
                    &&& context.output@ == Seq::<Entry>::empty()
                    &&& context.token_output@ == seq![entry]
                    &&& t is None
                    &&& token_t == Some(
                        spec_token_received_log_entry(
                            *old(slate),
                            parent_key_id,
                            log_id,
                            tt,
                            current_height,
                        ),
                    )
                    &&& final(wallet).coins == old(wallet).coins
                    &&& final(wallet).tx_log == old(wallet).tx_log
                    &&& final(wallet).token_coins@ == old(wallet).token_coins@.push(
                        spec_new_token_output(
                            entry,
                            parent_key_id,
                            tt,
                            false,
                            current_height,
                            log_id,
                        ),
                    )
                    &&& final(wallet).token_tx_log@ == old(wallet).token_tx_log@.push(
                        spec_token_received_log_entry(
                            *old(slate),
                            parent_key_id,
                            log_id,
                            tt,
                            current_height,
                        ),
                    )
                },
                None => {
                    &&& context.output@ == seq![entry]
                    &&& context.token_output@ == Seq::<Entry>::empty()
                    &&& token_t is None
                    &&& t == Some(
                        spec_received_log_entry(*old(slate), parent_key_id, log_id, current_height),
                    )
                    &&& final(wallet).token_coins == old(wallet).token_coins
                    &&& final(wallet).token_tx_log == old(wallet).token_tx_log
                    &&& final(wallet).coins@ == old(wallet).coins@.push(
                        spec_new_output(entry, parent_key_id, current_height, log_id),
                    )
                    &&& final(wallet).tx_log@ == old(wallet).tx_log@.push(
                        spec_received_log_entry(*old(slate), parent_key_id, log_id, current_height),
                    )
                },
            })
        }),
{
    let key_id = wallet.next_child();
    let amount = slate.amount;
    let log_id = wallet.next_log_id;
    let mut context = Context::new(
        blinding,
        token_blinding,
        &parent_key_id,
        sec_nonce,
        is_invoice,
    );
    context.amount = amount;
    context.fee = slate.fee;
    match slate.token_type {
        Some(tt) => {
            context.add_token_output(&key_id, &None, amount);
            let entry = TokenTxLogEntry {
                parent_key_id,
                tx_type: TokenTxLogEntryType::TokenTxReceived,
                id: log_id,
                tx_slate_id: Some(slate.id),
                token_type: tt,
                stored_tx: None,
                fee: None,
                ttl_cutoff_height: (if slate.ttl_cutoff_height == 0 {
                    None
                } else {
                    Some(slate.ttl_cutoff_height)
                }),
                kernel_excess: slate.kernel_excess,
                kernel_lookup_min_height: Some(current_height),
                amount_debited: 0,
                amount_credited: 0,
                num_inputs: 0,
                num_outputs: 0,
                token_amount_debited: 0,
                token_amount_credited: amount,
                num_token_inputs: 0,
                num_token_outputs: 1,
                payment_proof: None,
            };
            wallet.token_coins.push(TokenOutputData {
                root_key_id: parent_key_id,
                key_id,
                n_child: key_id.last_path_index(),
                token_type: tt,
                mmr_index: None,
                value: amount,
                status: crate::types::OutputStatus::Unconfirmed,
                height: current_height,
                lock_height: 0,
                is_token_issue: false,
                tx_log_entry: Some(log_id),
            });
            wallet.token_tx_log.push(entry);
            wallet.next_log_id = log_id + 1;
            Ok((key_id, context, None, Some(entry)))
        },
        None => {
            context.add_output(&key_id, &None, amount);
            let entry = TxLogEntry {
                parent_key_id,
                tx_type: TxLogEntryType::TxReceived,
                id: log_id,
                tx_slate_id: Some(slate.id),
                stored_tx: None,
                fee: None,
                ttl_cutoff_height: (if slate.ttl_cutoff_height == 0 {
                    None
                } else {
                    Some(slate.ttl_cutoff_height)
                }),
                kernel_excess: slate.kernel_excess,
                kernel_lookup_min_height: Some(current_height),
                amount_debited: 0,
                amount_credited: amount,
                num_inputs: 0,
                num_outputs: 1,
                payment_proof: None,
            };
            wallet.coins.push(OutputData {
                root_key_id: parent_key_id,
                key_id,
                n_child: key_id.last_path_index(),
                mmr_index: None,
                value: amount,
                status: crate::types::OutputStatus::Unconfirmed,
                height: current_height,
                lock_height: 0,
                is_coinbase: false,
                tx_log_entry: Some(log_id),
            });
            wallet.tx_log.push(entry);
            wallet.next_log_id = log_id + 1;
            Ok((key_id, context, Some(entry), None))
        },
    }
}

} // verus!
