//! The fee solver.  The fee depends on how many coins are spent, and how
//! many coins must be spent depends on the fee; the solver iterates
//! selection and the fee formula until the selected value covers amount
//! plus fee, or reports insufficient funds.  Every round that continues
//! strictly enlarges the selection, so the loop runs at most one round per
//! eligible coin.

use vstd::prelude::*;
use crate::fee::{spec_tx_fee, tx_fee, DEFAULT_BASE_FEE, MAX_FEE, MAX_FEE_COUNT};
use crate::selection::{
    eligible_primary, eligible_token, lemma_select_result_props, lemma_sort_by_value_props,
    lemma_sum_filter_le, lemma_sum_nonneg, select_coins, select_result, select_token_coins,
    sort_by_value_spec, sum_values, sum_values_exec,
};
use crate::types::{Error, Identifier, OutputData, TokenOutputData, Wallet};

verus! {

/// Largest spend amount the solver accepts; keeps `amount + fee` within
/// the machine word.
pub const MAX_AMOUNT: u64 = 1000000000000000000;

/// The reselection rounds of the solver, starting from the selection
/// `coins`.  A round whose selected total covers amount plus the fee for
/// that selection succeeds; a round that has already taken every eligible
/// coin, or that could not enlarge the selection, fails with the available
/// and needed totals.
pub open spec fn spec_solver_rounds(
    pool: Seq<OutputData>,
    amount: int,
    current_height: u64,
    minimum_confirmations: u64,
    select_all: bool,
    parent_key_id: Identifier,
    max_available: int,
    num_outputs: int,
    token_inputs: int,
    token_outputs: int,
    token_kernels: int,
    coins: Seq<OutputData>,
) -> Result<(Seq<OutputData>, int), (int, int)>
    decreases max_available - coins.len() when coins.len() <= max_available
{
    let fee = spec_tx_fee(
        coins.len() as int,
        num_outputs,
        1,
        token_inputs,
        token_outputs,
        token_kernels,
        DEFAULT_BASE_FEE as int,
    );
    let total = sum_values(coins);
    let needed = amount + fee;
    if total >= needed {
        Ok((coins, fee))
    } else if coins.len() == max_available {
        Err((total, needed))
    } else {
        let next = select_result(
            needed,
            select_all,
            sort_by_value_spec(
                eligible_primary(pool, parent_key_id, current_height, minimum_confirmations),
            ),
            max_available,
        );
        let next_fee = spec_tx_fee(
            next.len() as int,
            num_outputs,
            1,
            token_inputs,
            token_outputs,
            token_kernels,
            DEFAULT_BASE_FEE as int,
        );
        let next_total = sum_values(next);
        if next_total >= amount + next_fee {
            Ok((next, next_fee))
        } else if next.len() <= coins.len() || next.len() > max_available {
            Err((next_total, amount + next_fee))
        } else {
            spec_solver_rounds(
                pool,
                amount,
                current_height,
                minimum_confirmations,
                select_all,
                parent_key_id,
                max_available,
                num_outputs,
                token_inputs,
                token_outputs,
                token_kernels,
                next,
            )
        }
    }
}

/// What the whole solver returns: the initial selection aims at amount
/// plus the base fee; an exact match with the no-change fee ends the
/// solve at once; otherwise the reselection rounds run with the full
/// change-bearing output count.
pub open spec fn spec_select_coins_and_fee(
    pool: Seq<OutputData>,
    amount: int,
    current_height: u64,
    minimum_confirmations: u64,
    max_outputs: int,
    change_outputs: int,
    select_all: bool,
    parent_key_id: Identifier,
    token_inputs: int,
    token_outputs: int,
) -> Result<(Seq<OutputData>, int), (int, int)> {
    let eligible = eligible_primary(pool, parent_key_id, current_height, minimum_confirmations);
    let max_available = eligible.len() as int;
    let coins = select_result(
        amount + DEFAULT_BASE_FEE,
        select_all,
        sort_by_value_spec(eligible),
        max_outputs,
    );
    let output_len: int = if amount == 0 {
        0
    } else {
        1
    };
    let token_kernels: int = if token_outputs == 0 {
        0
    } else {
        1
    };
    let fee = spec_tx_fee(
        coins.len() as int,
        output_len,
        1,
        token_inputs,
        token_outputs,
        token_kernels,
        DEFAULT_BASE_FEE as int,
    );
    let total = sum_values(coins);
    let needed = amount + fee;
    if total == 0 {
        Err((0, needed))
    } else if total < needed && coins.len() == max_available {
        Err((total, needed))
    } else if total == needed {
        Ok((coins, fee))
    } else {
        spec_solver_rounds(
            pool,
            amount,
            current_height,
            minimum_confirmations,
            select_all,
            parent_key_id,
            max_available,
            change_outputs + output_len,
            token_inputs,
            token_outputs,
            token_kernels,
            coins,
        )
    }
}

proof fn lemma_rounds_ok_covers(
    pool: Seq<OutputData>,
    amount: int,
    current_height: u64,
    minimum_confirmations: u64,
    select_all: bool,
    parent_key_id: Identifier,
    max_available: int,
    num_outputs: int,
    token_inputs: int,
    token_outputs: int,
    token_kernels: int,
    coins: Seq<OutputData>,
)
    requires
        coins.len() <= max_available,
    ensures
        spec_solver_rounds(
            pool,
            amount,
            current_height,
            minimum_confirmations,
            select_all,
            parent_key_id,
            max_available,
            num_outputs,
            token_inputs,
            token_outputs,
            token_kernels,
            coins,
        ) matches Ok((c, f)) ==> sum_values(c) >= amount + f,
    decreases max_available - coins.len(),
{
    let fee = spec_tx_fee(
        coins.len() as int,
        num_outputs,
        1,
        token_inputs,
        token_outputs,
        token_kernels,
        DEFAULT_BASE_FEE as int,
    );
    let total = sum_values(coins);
    if total >= amount + fee {
    } else if coins.len() == max_available {
    } else {
        let next = select_result(
            amount + fee,
            select_all,
            sort_by_value_spec(
                eligible_primary(pool, parent_key_id, current_height, minimum_confirmations),
            ),
            max_available,
        );
        if sum_values(next) >= amount + spec_tx_fee(
            next.len() as int,
            num_outputs,
            1,
            token_inputs,
            token_outputs,
            token_kernels,
            DEFAULT_BASE_FEE as int,
        ) {
        } else if next.len() <= coins.len() || next.len() > max_available {
        } else {
            lemma_rounds_ok_covers(
                pool,
                amount,
                current_height,
                minimum_confirmations,
                select_all,
                parent_key_id,
                max_available,
                num_outputs,
                token_inputs,
                token_outputs,
                token_kernels,
                next,
            );
        }
    }
}

/// A successful solve always covers: the selected value is at least the
/// amount plus the returned fee.
pub proof fn lemma_solver_ok_covers(
    pool: Seq<OutputData>,
    amount: int,
    current_height: u64,
    minimum_confirmations: u64,
    max_outputs: int,
    change_outputs: int,
    select_all: bool,
    parent_key_id: Identifier,
    token_inputs: int,
    token_outputs: int,
)
    requires
        1 <= max_outputs,
    ensures
        spec_select_coins_and_fee(
            pool,
            amount,
            current_height,
            minimum_confirmations,
            max_outputs,
            change_outputs,
            select_all,
            parent_key_id,
            token_inputs,
            token_outputs,
        ) matches Ok((c, f)) ==> sum_values(c) >= amount + f,
{
    let eligible = eligible_primary(pool, parent_key_id, current_height, minimum_confirmations);
    let coins = select_result(
        amount + DEFAULT_BASE_FEE,
        select_all,
        sort_by_value_spec(eligible),
        max_outputs,
    );
    lemma_sort_by_value_props(eligible);
    lemma_select_result_props(
        amount + DEFAULT_BASE_FEE,
        select_all,
        sort_by_value_spec(eligible),
        max_outputs,
    );
    let output_len: int = if amount == 0 {
        0
    } else {
        1
    };
    let token_kernels: int = if token_outputs == 0 {
        0
    } else {
        1
    };
    lemma_rounds_ok_covers(
        pool,
        amount,
        current_height,
        minimum_confirmations,
        select_all,
        parent_key_id,
        eligible.len() as int,
        change_outputs + output_len,
        token_inputs,
        token_outputs,
        token_kernels,
        coins,
    );
}

/// Select primary-asset coins and solve the coin-count/fee fixed point.
/// On success the returned total covers amount plus the returned fee; on
/// failure the error carries the available and needed totals.
#[verifier::loop_isolation(false)]
pub fn select_coins_and_fee(
    wallet: &Wallet,
    amount: u64,
    current_height: u64,
    minimum_confirmations: u64,
    max_outputs: usize,
    change_outputs: usize,
    selection_strategy_is_use_all: bool,
    parent_key_id: &Identifier,
    token_inputs: usize,
    token_outputs: usize,
) -> (r: Result<(Vec<OutputData>, u64, u64, u64), Error>)
    requires
        sum_values(wallet.coins@) <= u64::MAX,
        max_outputs >= 1,
        amount <= MAX_AMOUNT,
        change_outputs < MAX_FEE_COUNT,
    ensures
        ({
            let sp = spec_select_coins_and_fee(
                wallet.coins@,
                amount as int,
                current_height,
                minimum_confirmations,
                max_outputs as int,
                change_outputs as int,
                selection_strategy_is_use_all,
                *parent_key_id,
                token_inputs as int,
                token_outputs as int,
            );
            match r {
                Ok((coins, total, amount_back, fee)) => {
                    &&& sp == Ok::<(Seq<OutputData>, int), (int, int)>((coins@, fee as int))
                    &&& total == sum_values(coins@)
                    &&& amount_back == amount
                    &&& total >= amount + fee
                },
                Err(e) => {
                    &&& e matches Error::NotEnoughFunds { available, needed }
                    &&& sp == Err::<(Seq<OutputData>, int), (int, int)>(
                        (available as int, needed as int),
                    )
                },
            }
        }),
{
    let ghost pool = wallet.coins@;
    let ghost eligible = eligible_primary(
        pool,
        *parent_key_id,
        current_height,
        minimum_confirmations,
    );
    proof {
        lemma_sum_filter_le(pool, |c: OutputData|
            c.root_key_id == *parent_key_id && c.spec_eligible(
                current_height,
                minimum_confirmations,
            ));
        lemma_sum_nonneg(eligible);
        lemma_sort_by_value_props(eligible);
    }
    let selected = select_coins(
        wallet,
        amount + DEFAULT_BASE_FEE,
        current_height,
        minimum_confirmations,
        max_outputs,
        selection_strategy_is_use_all,
        parent_key_id,
    );
    let max_available = selected.0;
    let mut coins = selected.1;
    proof {
        lemma_select_result_props(
            amount + DEFAULT_BASE_FEE as int,
            selection_strategy_is_use_all,
            sort_by_value_spec(eligible),
            max_outputs as int,
        );
    }
    let output_len: usize = if amount == 0 {
        0
    } else {
        1
    };
    let token_kernel_len: usize = if token_outputs == 0 {
        0
    } else {
        1
    };
    let mut fee = tx_fee(
        coins.len(),
        output_len,
        1,
        token_inputs,
        token_outputs,
        token_kernel_len,
        None,
    );
    let mut total = sum_values_exec(&coins);
    let mut amount_with_fee = amount + fee;
    if total == 0 {
        return Err(Error::NotEnoughFunds { available: 0, needed: amount_with_fee });
    }
    if total < amount_with_fee && coins.len() == max_available {
        return Err(Error::NotEnoughFunds { available: total, needed: amount_with_fee });
    }
    let num_outputs = change_outputs + output_len;
    if total != amount_with_fee {
        fee = tx_fee(
            coins.len(),
            num_outputs,
            1,
            token_inputs,
            token_outputs,
            token_kernel_len,
            None,
        );
        amount_with_fee = amount + fee;
        let ghost rounds = spec_solver_rounds(
            pool,
            amount as int,
            current_height,
            minimum_confirmations,
            selection_strategy_is_use_all,
            *parent_key_id,
            max_available as int,
            num_outputs as int,
            token_inputs as int,
            token_outputs as int,
            token_kernel_len as int,
            coins@,
        );
        while total < amount_with_fee
            invariant
                coins@.len() <= max_available,
                max_available == eligible.len(),
                total == sum_values(coins@),
                fee == spec_tx_fee(
                    coins@.len() as int,
                    num_outputs as int,
                    1,
                    token_inputs as int,
                    token_outputs as int,
                    token_kernel_len as int,
                    DEFAULT_BASE_FEE as int,
                ),
                fee <= MAX_FEE,
                amount_with_fee == amount + fee,
                total <= u64::MAX,
                spec_solver_rounds(
                    pool,
                    amount as int,
                    current_height,
                    minimum_confirmations,
                    selection_strategy_is_use_all,
                    *parent_key_id,
                    max_available as int,
                    num_outputs as int,
                    token_inputs as int,
                    token_outputs as int,
                    token_kernel_len as int,
                    coins@,
                ) == rounds,
            decreases max_available - coins@.len(),
        {
            if coins.len() == max_available {
                return Err(Error::NotEnoughFunds { available: total, needed: amount_with_fee });
            }
            let prev_len = coins.len();
            let reselected = select_coins(
                wallet,
                amount_with_fee,
                current_height,
                minimum_confirmations,
                max_available,
                selection_strategy_is_use_all,
                parent_key_id,
            );
            coins = reselected.1;
            proof {
                lemma_select_result_props(
                    amount_with_fee as int,
                    selection_strategy_is_use_all,
                    sort_by_value_spec(eligible),
                    max_available as int,
                );
            }
            fee = tx_fee(
                coins.len(),
                num_outputs,
                1,
                token_inputs,
                token_outputs,
                token_kernel_len,
                None,
            );
            total = sum_values_exec(&coins);
            amount_with_fee = amount + fee;
            if total < amount_with_fee && coins.len() <= prev_len {
                return Err(Error::NotEnoughFunds { available: total, needed: amount_with_fee });
            }
            if total >= amount_with_fee {
                return Ok((coins, total, amount, fee));
            }
        }
    }
    Ok((coins, total, amount, fee))
}

/// Select secondary-asset coins for `amount`.  There is no fee leg to
/// solve: the selection must simply cover the amount, and anything less is
/// insufficient funds.
pub fn select_token_coins_and_fee(
    wallet: &Wallet,
    amount: u64,
    token_type: u64,
    current_height: u64,
    minimum_confirmations: u64,
    max_outputs: usize,
    selection_strategy_is_use_all: bool,
    parent_key_id: &Identifier,
) -> (r: Result<(Vec<TokenOutputData>, u64, u64), Error>)
    requires
        sum_values(wallet.token_coins@) <= u64::MAX,
        max_outputs >= 1,
    ensures
        ({
            let chosen = select_result(
                amount as int,
                selection_strategy_is_use_all,
                sort_by_value_spec(
                    eligible_token(
                        wallet.token_coins@,
                        *parent_key_id,
                        token_type,
                        current_height,
                        minimum_confirmations,
                    ),
                ),
                max_outputs as int,
            );
            let total = sum_values(chosen);
            match r {
                Ok((coins, total_back, amount_back)) => {
                    &&& coins@ == chosen
                    &&& total_back == total
                    &&& amount_back == amount
                    &&& total != 0
                    &&& total >= amount
                },
                Err(e) => {
                    &&& e matches Error::NotEnoughFunds { available, needed }
                    &&& needed == amount
                    &&& (total == 0 || total < amount)
                    &&& available == (if total == 0 {
                        0int
                    } else {
                        total
                    })
                },
            }
        }),
{
    let ghost eligible = eligible_token(
        wallet.token_coins@,
        *parent_key_id,
        token_type,
        current_height,
        minimum_confirmations,
    );
    proof {
        lemma_sum_filter_le(wallet.token_coins@, |c: TokenOutputData|
            c.root_key_id == *parent_key_id && c.token_type == token_type && c.spec_eligible(
                current_height,
                minimum_confirmations,
            ));
        lemma_sum_nonneg(eligible);
        lemma_sort_by_value_props(eligible);
        lemma_select_result_props(
            amount as int,
            selection_strategy_is_use_all,
            sort_by_value_spec(eligible),
            max_outputs as int,
        );
    }
    let selected = select_token_coins(
        wallet,
        amount,
        token_type,
        current_height,
        minimum_confirmations,
        max_outputs,
        selection_strategy_is_use_all,
        parent_key_id,
    );
    let coins = selected.1;
    let total = sum_values_exec(&coins);
    if total == 0 {
        return Err(Error::NotEnoughFunds { available: 0, needed: amount });
    }
    if total < amount {
        return Err(Error::NotEnoughFunds { available: total, needed: amount });
    }
    Ok((coins, total, amount))
}

} // verus!
