//! The commit step of a completed build, and the reconstruction of a
//! document from a stored context.
//!
//! Finalizing locks every registered input, persists every registered change
//! output, and writes exactly one history record, all as one unit: either
//! every write lands, or the wallet is left exactly as it was.  A registered
//! identifier with no matching coin is a typed failure, never an unchecked
//! assumption.

use vstd::prelude::*;
use crate::context::{Context, Entry};
use crate::selection::{lemma_sum_nonneg, lemma_sum_take_le, lemma_sum_take_succ, sum_values};
use crate::types::{
    Error, Identifier, OutputData, OutputStatus, Slate, StoredProofInfo, TokenOutputData,
    TokenTxLogEntry, TokenTxLogEntryType, TxElement, TxLogEntry, TxLogEntryType, Wallet,
};

verus! {

/// Index of the first primary-asset coin carrying `id`, if any.
pub open spec fn find_coin(coins: Seq<OutputData>, id: Identifier) -> Option<int>
    decreases coins.len(),
{
    if coins.len() == 0 {
        None
    } else if coins[0].key_id == id {
        Some(0)
    } else {
        match find_coin(coins.drop_first(), id) {
            None => None,
            Some(i) => Some(i + 1),
        }
    }
}

/// Index of the first secondary-asset coin carrying `id`, if any.
pub open spec fn find_token_coin(coins: Seq<TokenOutputData>, id: Identifier) -> Option<int>
    decreases coins.len(),
{
    if coins.len() == 0 {
        None
    } else if coins[0].key_id == id {
        Some(0)
    } else {
        match find_token_coin(coins.drop_first(), id) {
            None => None,
            Some(i) => Some(i + 1),
        }
    }
}

pub proof fn lemma_find_coin_char(coins: Seq<OutputData>, id: Identifier)
    ensures
        (match find_coin(coins, id) {
            Some(i) => 0 <= i < coins.len() && coins[i].key_id == id && (forall|j: int|
                0 <= j < i ==> coins[j].key_id != id),
            None => forall|j: int| 0 <= j < coins.len() ==> coins[j].key_id != id,
        }),
    decreases coins.len(),
{
    if coins.len() > 0 && coins[0].key_id != id {
        let d = coins.drop_first();
        lemma_find_coin_char(d, id);
        match find_coin(coins, id) {
            Some(i) => {
                assert(coins[i] == d[i - 1]);
                assert forall|j: int| 0 <= j < i implies coins[j].key_id != id by {
                    if j > 0 {
                        assert(coins[j] == d[j - 1]);
                    }
                }
            },
            None => {
                assert forall|j: int| 0 <= j < coins.len() implies coins[j].key_id != id by {
                    if j > 0 {
                        assert(coins[j] == d[j - 1]);
                    }
                }
            },
        }
    }
}

pub proof fn lemma_find_token_coin_char(coins: Seq<TokenOutputData>, id: Identifier)
    ensures
        (match find_token_coin(coins, id) {
            Some(i) => 0 <= i < coins.len() && coins[i].key_id == id && (forall|j: int|
                0 <= j < i ==> coins[j].key_id != id),
            None => forall|j: int| 0 <= j < coins.len() ==> coins[j].key_id != id,
        }),
    decreases coins.len(),
{
    if coins.len() > 0 && coins[0].key_id != id {
        let d = coins.drop_first();
        lemma_find_token_coin_char(d, id);
        match find_token_coin(coins, id) {
            Some(i) => {
                assert(coins[i] == d[i - 1]);
                assert forall|j: int| 0 <= j < i implies coins[j].key_id != id by {
                    if j > 0 {
                        assert(coins[j] == d[j - 1]);
                    }
                }
            },
            None => {
                assert forall|j: int| 0 <= j < coins.len() implies coins[j].key_id != id by {
                    if j > 0 {
                        assert(coins[j] == d[j - 1]);
                    }
                }
            },
        }
    }
}

/// The coin as the lock step leaves it: locked, and pointing at the history
/// record that consumed it.
pub open spec fn spec_locked(c: OutputData, log_id: u64) -> OutputData {
    OutputData {
        root_key_id: c.root_key_id,
        key_id: c.key_id,
        n_child: c.n_child,
        mmr_index: c.mmr_index,
        value: c.value,
        status: OutputStatus::Locked,
        height: c.height,
        lock_height: c.lock_height,
        is_coinbase: c.is_coinbase,
        tx_log_entry: Some(log_id),
    }
}

/// The token coin as the lock step leaves it.
pub open spec fn spec_token_locked(c: TokenOutputData, log_id: u64) -> TokenOutputData {
    TokenOutputData {
        root_key_id: c.root_key_id,
        key_id: c.key_id,
        n_child: c.n_child,
        token_type: c.token_type,
        mmr_index: c.mmr_index,
        value: c.value,
        status: OutputStatus::Locked,
        height: c.height,
        lock_height: c.lock_height,
        is_token_issue: c.is_token_issue,
        tx_log_entry: Some(log_id),
    }
}

/// Lock, in order, the coin matching each registered input, accumulating the
/// debited total; `None` when some input has no matching coin.
pub open spec fn lock_coins_spec(coins: Seq<OutputData>, ids: Seq<Entry>, log_id: u64) -> Option<
    (Seq<OutputData>, int),
>
    decreases ids.len(),
{
    if ids.len() == 0 {
        Some((coins, 0))
    } else {
        match find_coin(coins, ids[0].key_id) {
            None => None,
            Some(i) => match lock_coins_spec(
                coins.update(i, spec_locked(coins[i], log_id)),
                ids.drop_first(),
                log_id,
            ) {
                None => None,
                Some((cs, debited)) => Some((cs, coins[i].value + debited)),
            },
        }
    }
}

/// Lock the token coin matching each registered secondary-asset input.
pub open spec fn lock_token_coins_spec(
    coins: Seq<TokenOutputData>,
    ids: Seq<Entry>,
    log_id: u64,
) -> Option<(Seq<TokenOutputData>, int)>
    decreases ids.len(),
{
    if ids.len() == 0 {
        Some((coins, 0))
    } else {
        match find_token_coin(coins, ids[0].key_id) {
            None => None,
            Some(i) => match lock_token_coins_spec(
                coins.update(i, spec_token_locked(coins[i], log_id)),
                ids.drop_first(),
                log_id,
            ) {
                None => None,
                Some((cs, debited)) => Some((cs, coins[i].value + debited)),
            },
        }
    }
}

/// Locking changes no coin but the registered ones, and each changed coin is
/// exactly its old self, locked and pointing at the new history record.  No
/// coin is removed or added.
pub proof fn lemma_lock_touches_only_registered(
    coins: Seq<OutputData>,
    ids: Seq<Entry>,
    log_id: u64,
)
    ensures
        lock_coins_spec(coins, ids, log_id) matches Some((cs, _d)) ==> {
            &&& cs.len() == coins.len()
            &&& forall|i: int|
                0 <= i < coins.len() ==> (cs[i] == coins[i] || (cs[i] == spec_locked(
                    coins[i],
                    log_id,
                ) && exists|k: int|
                    0 <= k < ids.len() && ids[k].key_id == coins[i].key_id))
        },
    decreases ids.len(),
{
    if ids.len() > 0 {
        match find_coin(coins, ids[0].key_id) {
            None => {},
            Some(i) => {
                lemma_find_coin_char(coins, ids[0].key_id);
                let coins2 = coins.update(i, spec_locked(coins[i], log_id));
                lemma_lock_touches_only_registered(coins2, ids.drop_first(), log_id);
                if lock_coins_spec(coins, ids, log_id) is Some {
                    let (cs, _d) = lock_coins_spec(coins2, ids.drop_first(), log_id)->Some_0;
                    assert forall|j: int| 0 <= j < coins.len() implies (cs[j] == coins[j] || (
                    cs[j] == spec_locked(coins[j], log_id) && exists|k: int|
                        0 <= k < ids.len() && ids[k].key_id == coins[j].key_id)) by {
                        if cs[j] == coins2[j] {
                            if j == i {
                                assert(ids[0].key_id == coins[i].key_id);
                            }
                        } else {
                            assert(cs[j] == spec_locked(coins2[j], log_id));
                            let k0 = choose|k: int|
                                0 <= k < ids.drop_first().len() && ids.drop_first()[k].key_id
                                    == coins2[j].key_id;
                            if j == i {
                                assert(spec_locked(coins2[j], log_id) == spec_locked(
                                    coins[j],
                                    log_id,
                                ));
                                assert(ids[0].key_id == coins[i].key_id);
                            } else {
                                assert(ids[k0 + 1].key_id == coins[j].key_id);
                            }
                        }
                    }
                }
            },
        }
    }
}

/// The secondary-asset twin of the statement above.
pub proof fn lemma_token_lock_touches_only_registered(
    coins: Seq<TokenOutputData>,
    ids: Seq<Entry>,
    log_id: u64,
)
    ensures
        lock_token_coins_spec(coins, ids, log_id) matches Some((cs, _d)) ==> {
            &&& cs.len() == coins.len()
            &&& forall|i: int|
                0 <= i < coins.len() ==> (cs[i] == coins[i] || (cs[i] == spec_token_locked(
                    coins[i],
                    log_id,
                ) && exists|k: int|
                    0 <= k < ids.len() && ids[k].key_id == coins[i].key_id))
        },
    decreases ids.len(),
{
    if ids.len() > 0 {
        match find_token_coin(coins, ids[0].key_id) {
            None => {},
            Some(i) => {
                lemma_find_token_coin_char(coins, ids[0].key_id);
                let coins2 = coins.update(i, spec_token_locked(coins[i], log_id));
                lemma_token_lock_touches_only_registered(coins2, ids.drop_first(), log_id);
                if lock_token_coins_spec(coins, ids, log_id) is Some {
                    let (cs, _d) = lock_token_coins_spec(coins2, ids.drop_first(), log_id)->Some_0;
                    assert forall|j: int| 0 <= j < coins.len() implies (cs[j] == coins[j] || (
                    cs[j] == spec_token_locked(coins[j], log_id) && exists|k: int|
                        0 <= k < ids.len() && ids[k].key_id == coins[j].key_id)) by {
                        if cs[j] == coins2[j] {
                            if j == i {
                                assert(ids[0].key_id == coins[i].key_id);
                            }
                        } else {
                            assert(cs[j] == spec_token_locked(coins2[j], log_id));
                            let k0 = choose|k: int|
                                0 <= k < ids.drop_first().len() && ids.drop_first()[k].key_id
                                    == coins2[j].key_id;
                            if j == i {
                                assert(spec_token_locked(coins2[j], log_id) == spec_token_locked(
                                    coins[j],
                                    log_id,
                                ));
                                assert(ids[0].key_id == coins[i].key_id);
                            } else {
                                assert(ids[k0 + 1].key_id == coins[j].key_id);
                            }
                        }
                    }
                }
            },
        }
    }
}

proof fn lemma_lock_debited_nonneg(coins: Seq<OutputData>, ids: Seq<Entry>, log_id: u64)
    ensures
        lock_coins_spec(coins, ids, log_id) matches Some((_cs, d)) ==> d >= 0,
    decreases ids.len(),
{
    if ids.len() > 0 {
        match find_coin(coins, ids[0].key_id) {
            None => {},
            Some(i) => {
                lemma_lock_debited_nonneg(
                    coins.update(i, spec_locked(coins[i], log_id)),
                    ids.drop_first(),
                    log_id,
                );
            },
        }
    }
}

proof fn lemma_token_lock_debited_nonneg(
    coins: Seq<TokenOutputData>,
    ids: Seq<Entry>,
    log_id: u64,
)
    ensures
        lock_token_coins_spec(coins, ids, log_id) matches Some((_cs, d)) ==> d >= 0,
    decreases ids.len(),
{
    if ids.len() > 0 {
        match find_token_coin(coins, ids[0].key_id) {
            None => {},
            Some(i) => {
                lemma_token_lock_debited_nonneg(
                    coins.update(i, spec_token_locked(coins[i], log_id)),
                    ids.drop_first(),
                    log_id,
                );
            },
        }
    }
}

/// Copy a vector of plain records.
fn copy_vec<T: Copy>(v: &Vec<T>) -> (r: Vec<T>)
    ensures
        r@ == v@,
{
    let mut r: Vec<T> = Vec::new();
    let mut i: usize = 0;
    while i < v.len()
        invariant
            0 <= i <= v@.len(),
            r@ == v@.take(i as int),
        decreases v@.len() - i,
    {
        r.push(v[i]);
        proof {
            assert(r@ =~= v@.take(i + 1));
        }
        i = i + 1;
    }
    proof {
        assert(v@.take(v@.len() as int) =~= v@);
    }
    r
}

fn find_coin_index(coins: &Vec<OutputData>, id: &Identifier) -> (r: Option<usize>)
    ensures
        (match r {
            Some(i) => find_coin(coins@, *id) == Some(i as int),
            None => find_coin(coins@, *id) is None,
        }),
{
    proof {
        lemma_find_coin_char(coins@, *id);
    }
    let mut i: usize = 0;
    while i < coins.len()
        invariant
            0 <= i <= coins@.len(),
            forall|j: int| 0 <= j < i ==> coins@[j].key_id != *id,
        decreases coins@.len() - i,
    {
        if coins[i].key_id == *id {
            proof {
                lemma_find_coin_char(coins@, *id);
            }
            return Some(i);
        }
        i = i + 1;
    }
    None
}

fn find_token_coin_index(coins: &Vec<TokenOutputData>, id: &Identifier) -> (r: Option<usize>)
    ensures
        (match r {
            Some(i) => find_token_coin(coins@, *id) == Some(i as int),
            None => find_token_coin(coins@, *id) is None,
        }),
{
    proof {
        lemma_find_token_coin_char(coins@, *id);
    }
    let mut i: usize = 0;
    while i < coins.len()
        invariant
            0 <= i <= coins@.len(),
            forall|j: int| 0 <= j < i ==> coins@[j].key_id != *id,
        decreases coins@.len() - i,
    {
        if coins[i].key_id == *id {
            proof {
                lemma_find_token_coin_char(coins@, *id);
            }
            return Some(i);
        }
        i = i + 1;
    }
    None
}

/// Lock the coin matching each registered input in the working copy,
/// returning the debited total.
#[verifier::loop_isolation(false)]
fn lock_primary_inputs(coins: &mut Vec<OutputData>, entries: &Vec<Entry>, log_id: u64) -> (r:
    Result<u64, Error>)
    requires
        (match lock_coins_spec(old(coins)@, entries@, log_id) {
            Some((_cs, d)) => d <= u64::MAX,
            None => true,
        }),
    ensures
        (match r {
            Ok(debited) => lock_coins_spec(old(coins)@, entries@, log_id) == Some(
                (final(coins)@, debited as int),
            ),
            Err(e) => e == Error::CoinNotFound && lock_coins_spec(old(coins)@, entries@, log_id)
                is None,
        }),
{
    let ghost orig = coins@;
    proof {
        assert(entries@.skip(0) =~= entries@);
    }
    let mut debited: u64 = 0;
    let mut k: usize = 0;
    while k < entries.len()
        invariant
            0 <= k <= entries@.len(),
            (match lock_coins_spec(coins@, entries@.skip(k as int), log_id) {
                Some((cs, d)) => lock_coins_spec(orig, entries@, log_id) == Some(
                    (cs, d + debited),
                ),
                None => lock_coins_spec(orig, entries@, log_id) is None,
            }),
        decreases entries@.len() - k,
    {
        let ghost rest = entries@.skip(k as int);
        proof {
            assert(rest[0] == entries@[k as int]);
            assert(rest.drop_first() =~= entries@.skip(k as int + 1));
        }
        match find_coin_index(coins, &entries[k].key_id) {
            None => {
                return Err(Error::CoinNotFound);
            },
            Some(i) => {
                proof {
                    lemma_find_coin_char(coins@, entries@[k as int].key_id);
                }
                let c = coins[i];
                let locked = OutputData {
                    root_key_id: c.root_key_id,
                    key_id: c.key_id,
                    n_child: c.n_child,
                    mmr_index: c.mmr_index,
                    value: c.value,
                    status: OutputStatus::Locked,
                    height: c.height,
                    lock_height: c.lock_height,
                    is_coinbase: c.is_coinbase,
                    tx_log_entry: Some(log_id),
                };
                coins.set(i, locked);
                proof {
                    lemma_lock_debited_nonneg(coins@, entries@.skip(k as int + 1), log_id);
                }
                debited = if debited <= u64::MAX - c.value {
                    debited + c.value
                } else {
                    u64::MAX
                };
                k = k + 1;
            },
        }
    }
    proof {
        assert(entries@.skip(entries@.len() as int) =~= Seq::<Entry>::empty());
    }
    Ok(debited)
}

/// Lock the token coin matching each registered secondary-asset input in the
/// working copy, returning the debited total.
#[verifier::loop_isolation(false)]
fn lock_token_inputs(coins: &mut Vec<TokenOutputData>, entries: &Vec<Entry>, log_id: u64) -> (r:
    Result<u64, Error>)
    requires
        (match lock_token_coins_spec(old(coins)@, entries@, log_id) {
            Some((_cs, d)) => d <= u64::MAX,
            None => true,
        }),
    ensures
        (match r {
            Ok(debited) => lock_token_coins_spec(old(coins)@, entries@, log_id) == Some(
                (final(coins)@, debited as int),
            ),
            Err(e) => e == Error::CoinNotFound && lock_token_coins_spec(
                old(coins)@,
                entries@,
                log_id,
            ) is None,
        }),
{
    let ghost orig = coins@;
    proof {
        assert(entries@.skip(0) =~= entries@);
    }
    let mut debited: u64 = 0;
    let mut k: usize = 0;
    while k < entries.len()
        invariant
            0 <= k <= entries@.len(),
            (match lock_token_coins_spec(coins@, entries@.skip(k as int), log_id) {
                Some((cs, d)) => lock_token_coins_spec(orig, entries@, log_id) == Some(
                    (cs, d + debited),
                ),
                None => lock_token_coins_spec(orig, entries@, log_id) is None,
            }),
        decreases entries@.len() - k,
    {
        let ghost rest = entries@.skip(k as int);
        proof {
            assert(rest[0] == entries@[k as int]);
            assert(rest.drop_first() =~= entries@.skip(k as int + 1));
        }
        match find_token_coin_index(coins, &entries[k].key_id) {
            None => {
                return Err(Error::CoinNotFound);
            },
            Some(i) => {
                proof {
                    lemma_find_token_coin_char(coins@, entries@[k as int].key_id);
                }
                let c = coins[i];
                let locked = TokenOutputData {
                    root_key_id: c.root_key_id,
                    key_id: c.key_id,
                    n_child: c.n_child,
                    token_type: c.token_type,
                    mmr_index: c.mmr_index,
                    value: c.value,
                    status: OutputStatus::Locked,
                    height: c.height,
                    lock_height: c.lock_height,
                    is_token_issue: c.is_token_issue,
                    tx_log_entry: Some(log_id),
                };
                coins.set(i, locked);
                proof {
                    lemma_token_lock_debited_nonneg(coins@, entries@.skip(k as int + 1), log_id);
                }
                debited = if debited <= u64::MAX - c.value {
                    debited + c.value
                } else {
                    u64::MAX
                };
                k = k + 1;
            },
        }
    }
    proof {
        assert(entries@.skip(entries@.len() as int) =~= Seq::<Entry>::empty());
    }
    Ok(debited)
}

/// The coin record persisted for one registered change output: unconfirmed,
/// at the current height, pointing at the new history record.
pub open spec fn spec_new_output(e: Entry, parent: Identifier, height: u64, log_id: u64) -> OutputData {
    OutputData {
        root_key_id: parent,
        key_id: e.key_id,
        n_child: e.key_id.spec_last_path_index(),
        mmr_index: None,
        value: e.value,
        status: OutputStatus::Unconfirmed,
        height,
        lock_height: 0,
        is_coinbase: false,
        tx_log_entry: Some(log_id),
    }
}

pub open spec fn spec_new_outputs(entries: Seq<Entry>, parent: Identifier, height: u64, log_id: u64) -> Seq<OutputData> {
    entries.map_values(|e: Entry| spec_new_output(e, parent, height, log_id))
}

/// The token coin record persisted for one registered secondary-asset
/// output.
pub open spec fn spec_new_token_output(
    e: Entry,
    parent: Identifier,
    token_type: u64,
    is_issue: bool,
    height: u64,
    log_id: u64,
) -> TokenOutputData {
    TokenOutputData {
        root_key_id: parent,
        key_id: e.key_id,
        n_child: e.key_id.spec_last_path_index(),
        token_type,
        mmr_index: None,
        value: e.value,
        status: OutputStatus::Unconfirmed,
        height,
        lock_height: 0,
        is_token_issue: is_issue,
        tx_log_entry: Some(log_id),
    }
}

pub open spec fn spec_new_token_outputs(
    entries: Seq<Entry>,
    parent: Identifier,
    token_type: u64,
    is_issue: bool,
    height: u64,
    log_id: u64,
) -> Seq<TokenOutputData> {
    entries.map_values(
        |e: Entry| spec_new_token_output(e, parent, token_type, is_issue, height, log_id),
    )
}

#[verifier::loop_isolation(false)]
fn append_new_outputs(
    coins: &mut Vec<OutputData>,
    entries: &Vec<Entry>,
    parent: Identifier,
    height: u64,
    log_id: u64,
) -> (credited: u64)
    requires
        sum_values(entries@) <= u64::MAX,
    ensures
        final(coins)@ == old(coins)@ + spec_new_outputs(entries@, parent, height, log_id),
        credited == sum_values(entries@),
{
    let mut credited: u64 = 0;
    let mut k: usize = 0;
    while k < entries.len()
        invariant
            0 <= k <= entries@.len(),
            coins@ == old(coins)@ + spec_new_outputs(entries@.take(k as int), parent, height, log_id),
            credited == sum_values(entries@.take(k as int)),
        decreases entries@.len() - k,
    {
        proof {
            lemma_sum_take_succ(entries@, k as int);
            lemma_sum_take_le(entries@, k as int + 1);
            lemma_sum_nonneg(entries@.take(k as int + 1));
        }
        let e = entries[k];
        coins.push(OutputData {
            root_key_id: parent,
            key_id: e.key_id,
            n_child: e.key_id.last_path_index(),
            mmr_index: None,
            value: e.value,
            status: OutputStatus::Unconfirmed,
            height,
            lock_height: 0,
            is_coinbase: false,
            tx_log_entry: Some(log_id),
        });
        credited = credited + e.value;
        proof {
            assert(coins@ =~= old(coins)@ + spec_new_outputs(
                entries@.take(k as int + 1),
                parent,
                height,
                log_id,
            ));
        }
        k = k + 1;
    }
    proof {
        assert(entries@.take(entries@.len() as int) =~= entries@);
    }
    credited
}

#[verifier::loop_isolation(false)]
fn append_new_token_outputs(
    coins: &mut Vec<TokenOutputData>,
    entries: &Vec<Entry>,
    parent: Identifier,
    token_type: u64,
    is_issue: bool,
    height: u64,
    log_id: u64,
) -> (credited: u64)
    requires
        sum_values(entries@) <= u64::MAX,
    ensures
        final(coins)@ == old(coins)@ + spec_new_token_outputs(
            entries@,
            parent,
            token_type,
            is_issue,
            height,
            log_id,
        ),
        credited == sum_values(entries@),
{
    let mut credited: u64 = 0;
    let mut k: usize = 0;
    while k < entries.len()
        invariant
            0 <= k <= entries@.len(),
            coins@ == old(coins)@ + spec_new_token_outputs(
                entries@.take(k as int),
                parent,
                token_type,
                is_issue,
                height,
                log_id,
            ),
            credited == sum_values(entries@.take(k as int)),
        decreases entries@.len() - k,
    {
        proof {
            lemma_sum_take_succ(entries@, k as int);
            lemma_sum_take_le(entries@, k as int + 1);
            lemma_sum_nonneg(entries@.take(k as int + 1));
        }
        let e = entries[k];
        coins.push(TokenOutputData {
            root_key_id: parent,
            key_id: e.key_id,
            n_child: e.key_id.last_path_index(),
            token_type,
            mmr_index: None,
            value: e.value,
            status: OutputStatus::Unconfirmed,
            height,
            lock_height: 0,
            is_token_issue: is_issue,
            tx_log_entry: Some(log_id),
        });
        credited = credited + e.value;
        proof {
            assert(coins@ =~= old(coins)@ + spec_new_token_outputs(
                entries@.take(k as int + 1),
                parent,
                token_type,
                is_issue,
                height,
                log_id,
            ));
        }
        k = k + 1;
    }
    proof {
        assert(entries@.take(entries@.len() as int) =~= entries@);
    }
    credited
}

/// The time-to-live cutoff as a history record stores it: absent when the
/// document carries none.
pub open spec fn spec_ttl(slate: Slate) -> Option<u64> {
    if slate.ttl_cutoff_height == 0 {
        None
    } else {
        Some(slate.ttl_cutoff_height)
    }
}

/// The kernel excess a history record stores: the explicit override when one
/// was supplied, else whatever the document could derive.
pub open spec fn spec_excess(slate: Slate, excess_override: Option<[u8; 33]>) -> Option<
    [u8; 33],
> {
    match excess_override {
        Some(e) => Some(e),
        None => slate.kernel_excess,
    }
}

/// The payment-proof block a history record stores, when the document
/// requested one.
pub open spec fn spec_proof_info(
    slate: Slate,
    derivation_index: Option<u64>,
    sender_address: [u8; 32],
) -> Option<StoredProofInfo> {
    match slate.payment_proof {
        None => None,
        Some(p) => Some(
            StoredProofInfo {
                receiver_address: p.receiver_address,
                receiver_signature: p.receiver_signature,
                sender_address,
                // Only read when the index exists: a finalize without it
                // fails before any record is written.
                sender_address_path: (match derivation_index {
                    Some(x) => x,
                    None => 0,
                }),
                sender_signature: None,
            },
        ),
    }
}

/// The primary-asset history record a finalize writes.
pub open spec fn spec_sent_log_entry(
    slate: Slate,
    parent: Identifier,
    log_id: u64,
    fee: u64,
    height: u64,
    excess_override: Option<[u8; 33]>,
    sender_address: [u8; 32],
    derivation_index: Option<u64>,
    debited: u64,
    credited: u64,
    n_inputs: usize,
    n_outputs: usize,
) -> TxLogEntry {
    TxLogEntry {
        parent_key_id: parent,
        tx_type: TxLogEntryType::TxSent,
        id: log_id,
        tx_slate_id: Some(slate.id),
        stored_tx: Some(slate.id),
        fee: Some(fee),
        ttl_cutoff_height: spec_ttl(slate),
        kernel_excess: spec_excess(slate, excess_override),
        kernel_lookup_min_height: Some(height),
        amount_debited: debited,
        amount_credited: credited,
        num_inputs: n_inputs,
        num_outputs: n_outputs,
        payment_proof: spec_proof_info(slate, derivation_index, sender_address),
    }
}

/// The secondary-asset history record a finalize writes; its kind is
/// TokenIssue exactly when no secondary-asset input was consumed.
pub open spec fn spec_token_sent_log_entry(
    slate: Slate,
    parent: Identifier,
    log_id: u64,
    token_type: u64,
    fee: u64,
    height: u64,
    excess_override: Option<[u8; 33]>,
    sender_address: [u8; 32],
    derivation_index: Option<u64>,
    debited: u64,
    credited: u64,
    n_inputs: usize,
    n_outputs: usize,
    token_debited: u64,
    token_credited: u64,
    n_token_inputs: usize,
    n_token_outputs: usize,
) -> TokenTxLogEntry {
    TokenTxLogEntry {
        parent_key_id: parent,
        tx_type: (if n_token_inputs == 0 {
            TokenTxLogEntryType::TokenIssue
        } else {
            TokenTxLogEntryType::TokenTxSent
        }),
        id: log_id,
        tx_slate_id: Some(slate.id),
        token_type,
        stored_tx: Some(slate.id),
        fee: Some(fee),
        ttl_cutoff_height: spec_ttl(slate),
        kernel_excess: spec_excess(slate, excess_override),
        kernel_lookup_min_height: Some(height),
        amount_debited: debited,
        amount_credited: credited,
        num_inputs: n_inputs,
        num_outputs: n_outputs,
        token_amount_debited: token_debited,
        token_amount_credited: token_credited,
        num_token_inputs: n_token_inputs,
        num_token_outputs: n_token_outputs,
        payment_proof: spec_proof_info(slate, derivation_index, sender_address),
    }
}

/// Which failure, if any, a finalize of this wallet, document and context
/// reports; `None` means the commit goes through.
pub open spec fn spec_finalize_error(w: Wallet, slate: Slate, context: Context) -> Option<Error> {
    let log_id = w.next_log_id;
    if lock_coins_spec(w.coins@, context.input@, log_id) is None {
        Some(Error::CoinNotFound)
    } else if slate.token_type is Some && lock_token_coins_spec(
        w.token_coins@,
        context.token_input@,
        log_id,
    ) is None {
        Some(Error::CoinNotFound)
    } else if slate.payment_proof is Some && context.payment_proof_derivation_index is None {
        Some(Error::PaymentProof)
    } else if !slate.has_tx {
        Some(Error::InvalidRequest)
    } else {
        None
    }
}

/// Commit the side effects of a completed build as one unit: lock every
/// registered input of both assets, persist every registered change output,
/// write exactly one history record, and store the raw transaction under the
/// document's identifier.  On any failure the wallet is left exactly as it
/// was: no coin is ever locked without its history record.
pub fn lock_tx_context(
    wallet: &mut Wallet,
    slate: &Slate,
    current_height: u64,
    context: &Context,
    excess_override: Option<[u8; 33]>,
    sender_address: [u8; 32],
) -> (r: Result<(), Error>)
    requires
        old(wallet).next_log_id < u64::MAX,
        (match lock_coins_spec(old(wallet).coins@, context.input@, old(wallet).next_log_id) {
            Some((_cs, d)) => d <= u64::MAX,
            None => true,
        }),
        (match lock_token_coins_spec(
            old(wallet).token_coins@,
            context.token_input@,
            old(wallet).next_log_id,
        ) {
            Some((_cs, d)) => d <= u64::MAX,
            None => true,
        }),
        sum_values(context.output@) <= u64::MAX,
        sum_values(context.token_output@) <= u64::MAX,
    ensures
        ({
            let log_id = old(wallet).next_log_id;
            match spec_finalize_error(*old(wallet), *slate, *context) {
                Some(e) => r == Err::<(), Error>(e) && *final(wallet) == *old(wallet),
                None => {
                    let locked_p = lock_coins_spec(
                        old(wallet).coins@,
                        context.input@,
                        log_id,
                    )->Some_0;
                    &&& r == Ok::<(), Error>(())
                    &&& final(wallet).parent_key_id == old(wallet).parent_key_id
                    &&& final(wallet).next_child_index == old(wallet).next_child_index
                    &&& final(wallet).next_log_id == log_id + 1
                    &&& final(wallet).stored_tx_keys@ == old(wallet).stored_tx_keys@.push(
                        slate.id,
                    )
                    &&& final(wallet).coins@ == locked_p.0 + spec_new_outputs(
                        context.output@,
                        context.parent_key_id,
                        current_height,
                        log_id,
                    )
                    &&& (match slate.token_type {
                        None => {
                            &&& final(wallet).token_coins == old(wallet).token_coins
                            &&& final(wallet).token_tx_log == old(wallet).token_tx_log
                            &&& final(wallet).tx_log@ == old(wallet).tx_log@.push(
                                spec_sent_log_entry(
                                    *slate,
                                    context.parent_key_id,
                                    log_id,
                                    context.fee,
                                    current_height,
                                    excess_override,
                                    sender_address,
                                    context.payment_proof_derivation_index,
                                    locked_p.1 as u64,
                                    sum_values(context.output@) as u64,
                                    context.input@.len() as usize,
                                    context.output@.len() as usize,
                                ),
                            )
                        },
                        Some(tt) => {
                            let locked_t = lock_token_coins_spec(
                                old(wallet).token_coins@,
                                context.token_input@,
                                log_id,
                            )->Some_0;
                            &&& final(wallet).tx_log == old(wallet).tx_log
                            &&& final(wallet).token_coins@ == locked_t.0
                                + spec_new_token_outputs(
                                context.token_output@,
                                context.parent_key_id,
                                tt,
                                context.token_input@.len() == 0,
                                current_height,
                                log_id,
                            )
                            &&& final(wallet).token_tx_log@ == old(wallet).token_tx_log@.push(
                                spec_token_sent_log_entry(
                                    *slate,
                                    context.parent_key_id,
                                    log_id,
                                    tt,
                                    context.fee,
                                    current_height,
                                    excess_override,
                                    sender_address,
                                    context.payment_proof_derivation_index,
                                    locked_p.1 as u64,
                                    sum_values(context.output@) as u64,
                                    context.input@.len() as usize,
                                    context.output@.len() as usize,
                                    locked_t.1 as u64,
                                    sum_values(context.token_output@) as u64,
                                    context.token_input@.len() as usize,
                                    context.token_output@.len() as usize,
                                ),
                            )
                        },
                    })
                },
            }
        }),
{
    let log_id = wallet.next_log_id;
    let mut new_coins = copy_vec(&wallet.coins);
    let debited = match lock_primary_inputs(&mut new_coins, context.get_inputs(), log_id) {
        Ok(d) => d,
        Err(e) => {
            return Err(e);
        },
    };
    let is_token = slate.token_type.is_some();
    let mut new_token_coins = copy_vec(&wallet.token_coins);
    let mut token_debited: u64 = 0;
    if is_token {
        token_debited = match lock_token_inputs(
            &mut new_token_coins,
            context.get_token_inputs(),
            log_id,
        ) {
            Ok(d) => d,
            Err(e) => {
                return Err(e);
            },
        };
    }
    let payment_proof_info: Option<StoredProofInfo> = match &slate.payment_proof {
        Some(p) => {
            match context.payment_proof_derivation_index {
                Some(idx) => Some(
                    StoredProofInfo {
                        receiver_address: p.receiver_address,
                        receiver_signature: p.receiver_signature,
                        sender_address,
                        sender_address_path: idx,
                        sender_signature: None,
                    },
                ),
                None => {
                    return Err(Error::PaymentProof);
                },
            }
        },
        None => None,
    };
    if !slate.has_tx {
        return Err(Error::InvalidRequest);
    }
    let credited = append_new_outputs(
        &mut new_coins,
        context.get_outputs(),
        context.parent_key_id,
        current_height,
        log_id,
    );
    let num_inputs = context.get_inputs().len();
    let num_outputs = context.get_outputs().len();
    if is_token {
        // Unreachable arm: this branch is only entered when the document
        // names an asset type.
        let tt = match slate.token_type {
            Some(t) => t,
            None => 0,
        };
        let num_token_inputs = context.get_token_inputs().len();
        let is_issue = num_token_inputs == 0;
        let token_credited = append_new_token_outputs(
            &mut new_token_coins,
            context.get_token_outputs(),
            context.parent_key_id,
            tt,
            is_issue,
            current_height,
            log_id,
        );
        let entry = TokenTxLogEntry {
            parent_key_id: context.parent_key_id,
            tx_type: (if is_issue {
                TokenTxLogEntryType::TokenIssue
            } else {
                TokenTxLogEntryType::TokenTxSent
            }),
            id: log_id,
            tx_slate_id: Some(slate.id),
            token_type: tt,
            stored_tx: Some(slate.id),
            fee: Some(context.fee),
            ttl_cutoff_height: (if slate.ttl_cutoff_height == 0 {
                None
            } else {
                Some(slate.ttl_cutoff_height)
            }),
            kernel_excess: (match excess_override {
                Some(e) => Some(e),
                None => slate.kernel_excess,
            }),
            kernel_lookup_min_height: Some(current_height),
            amount_debited: debited,
            amount_credited: credited,
            num_inputs,
            num_outputs,
            token_amount_debited: token_debited,
            token_amount_credited: token_credited,
            num_token_inputs,
            num_token_outputs: context.get_token_outputs().len(),
            payment_proof: payment_proof_info,
        };
        wallet.coins = new_coins;
        wallet.token_coins = new_token_coins;
        wallet.token_tx_log.push(entry);
        wallet.next_log_id = log_id + 1;
        wallet.stored_tx_keys.push(slate.id);
    } else {
        let entry = TxLogEntry {
            parent_key_id: context.parent_key_id,
            tx_type: TxLogEntryType::TxSent,
            id: log_id,
            tx_slate_id: Some(slate.id),
            stored_tx: Some(slate.id),
            fee: Some(context.fee),
            ttl_cutoff_height: (if slate.ttl_cutoff_height == 0 {
                None
            } else {
                Some(slate.ttl_cutoff_height)
            }),
            kernel_excess: (match excess_override {
                Some(e) => Some(e),
                None => slate.kernel_excess,
            }),
            kernel_lookup_min_height: Some(current_height),
            amount_debited: debited,
            amount_credited: credited,
            num_inputs,
            num_outputs,
            payment_proof: payment_proof_info,
        };
        wallet.coins = new_coins;
        wallet.tx_log.push(entry);
        wallet.next_log_id = log_id + 1;
        wallet.stored_tx_keys.push(slate.id);
    }
    Ok(())
}

/// The input elements rebuilt for the registered primary inputs that are
/// still found in the live coin pool; missing identifiers are skipped.
pub open spec fn spec_repopulate_inputs(pool: Seq<OutputData>, entries: Seq<Entry>) -> Seq<
    TxElement,
>
    decreases entries.len(),
{
    if entries.len() == 0 {
        Seq::empty()
    } else {
        let rest = spec_repopulate_inputs(pool, entries.drop_last());
        let e = entries.last();
        match find_coin(pool, e.key_id) {
            None => rest,
            Some(i) => rest.push(
                (if pool[i].is_coinbase {
                    TxElement::CoinbaseInput { value: e.value, key_id: pool[i].key_id }
                } else {
                    TxElement::Input { value: e.value, key_id: pool[i].key_id }
                }),
            ),
        }
    }
}

/// The output elements rebuilt for the registered primary outputs still
/// found in the live coin pool.
pub open spec fn spec_repopulate_outputs(pool: Seq<OutputData>, entries: Seq<Entry>) -> Seq<
    TxElement,
>
    decreases entries.len(),
{
    if entries.len() == 0 {
        Seq::empty()
    } else {
        let rest = spec_repopulate_outputs(pool, entries.drop_last());
        let e = entries.last();
        match find_coin(pool, e.key_id) {
            None => rest,
            Some(i) => rest.push(
                (TxElement::Output { value: e.value, key_id: pool[i].key_id }),
            ),
        }
    }
}

/// The secondary-asset input elements rebuilt from the live token pool.
pub open spec fn spec_repopulate_token_inputs(
    pool: Seq<TokenOutputData>,
    entries: Seq<Entry>,
    token_type: u64,
) -> Seq<TxElement>
    decreases entries.len(),
{
    if entries.len() == 0 {
        Seq::empty()
    } else {
        let rest = spec_repopulate_token_inputs(pool, entries.drop_last(), token_type);
        let e = entries.last();
        match find_token_coin(pool, e.key_id) {
            None => rest,
            Some(i) => rest.push(
                (TxElement::TokenInput {
                    value: e.value,
                    token_type,
                    is_issue: pool[i].is_token_issue,
                    key_id: pool[i].key_id,
                }),
            ),
        }
    }
}

/// The secondary-asset output elements rebuilt from the live token pool.
pub open spec fn spec_repopulate_token_outputs(
    pool: Seq<TokenOutputData>,
    entries: Seq<Entry>,
    token_type: u64,
) -> Seq<TxElement>
    decreases entries.len(),
{
    if entries.len() == 0 {
        Seq::empty()
    } else {
        let rest = spec_repopulate_token_outputs(pool, entries.drop_last(), token_type);
        let e = entries.last();
        match find_token_coin(pool, e.key_id) {
            None => rest,
            Some(i) => rest.push(
                (TxElement::TokenOutput {
                    value: e.value,
                    token_type,
                    is_issue: false,
                    key_id: pool[i].key_id,
                }),
            ),
        }
    }
}

/// Rebuild a negotiation document's elements from a stored context against
/// the live wallet state: restore the recorded amount (and, on request, the
/// fee), look each registered identifier up in the live pools, skipping any
/// that can no longer be found, and hand back the elements together with the
/// signing key the local participant must use -- the secondary-asset secret
/// for a token document, the primary secret otherwise.  Fails when the
/// document carries no transaction to restore the offset into.
#[verifier::loop_isolation(false)]
pub fn repopulate_tx(
    wallet: &Wallet,
    slate: &mut Slate,
    context: &Context,
    update_fee: bool,
) -> (r: Result<(Vec<TxElement>, [u8; 32]), Error>)
    requires
        ((exists|k: int|
            0 <= k < context.token_input@.len() && find_token_coin(
                wallet.token_coins@,
                context.token_input@[k].key_id,
            ) is Some) || (exists|k: int|
            0 <= k < context.token_output@.len() && find_token_coin(
                wallet.token_coins@,
                context.token_output@[k].key_id,
            ) is Some)) ==> old(slate).token_type is Some,
    ensures
        final(slate).amount == context.amount,
        final(slate).fee == (if update_fee {
            context.fee
        } else {
            old(slate).fee
        }),
        final(slate).id == old(slate).id,
        final(slate).ttl_cutoff_height == old(slate).ttl_cutoff_height,
        final(slate).token_type == old(slate).token_type,
        final(slate).payment_proof == old(slate).payment_proof,
        final(slate).kernel_excess == old(slate).kernel_excess,
        final(slate).compact == old(slate).compact,
        final(slate).offset == old(slate).offset,
        final(slate).has_tx == old(slate).has_tx,
        ({
            let tt = (match old(slate).token_type {
                Some(t) => t,
                None => 0,
            });
            match r {
                Ok((parts, key)) => {
                    &&& old(slate).has_tx
                    &&& final(slate).tx_offset == old(slate).offset
                    &&& key == (if old(slate).token_type is Some {
                        context.token_sec_key
                    } else {
                        context.sec_key
                    })
                    &&& parts@ == spec_repopulate_inputs(wallet.coins@, context.input@)
                        + spec_repopulate_outputs(wallet.coins@, context.output@)
                        + spec_repopulate_token_inputs(
                        wallet.token_coins@,
                        context.token_input@,
                        tt,
                    ) + spec_repopulate_token_outputs(
                        wallet.token_coins@,
                        context.token_output@,
                        tt,
                    )
                },
                Err(e) => {
                    &&& e == Error::InvalidRequest
                    &&& !old(slate).has_tx
                    &&& final(slate).tx_offset == old(slate).tx_offset
                },
            }
        }),
{
    slate.amount = context.amount;
    if update_fee {
        slate.fee = context.fee;
    }
    let token_key_needed = slate.token_type.is_some();
    // A document without an asset type reaches no token element: the
    // requirements rule out live token entries in that case, so the
    // placeholder tag is never attached to anything.
    let tt = match slate.token_type {
        Some(t) => t,
        None => 0,
    };
    let key = if token_key_needed {
        context.token_sec_key
    } else {
        context.sec_key
    };
    let mut parts: Vec<TxElement> = Vec::new();
    let ghost in_elems = spec_repopulate_inputs(wallet.coins@, context.input@);
    let ghost out_elems = spec_repopulate_outputs(wallet.coins@, context.output@);
    let ghost tin_elems = spec_repopulate_token_inputs(wallet.token_coins@, context.token_input@, tt);
    let ghost tout_elems = spec_repopulate_token_outputs(
        wallet.token_coins@,
        context.token_output@,
        tt,
    );
    let mut k: usize = 0;
    while k < context.input.len()
        invariant
            0 <= k <= context.input@.len(),
            parts@ == spec_repopulate_inputs(wallet.coins@, context.input@.take(k as int)),
        decreases context.input@.len() - k,
    {
        let e = context.input[k];
        proof {
            assert(context.input@.take(k as int + 1).drop_last() =~= context.input@.take(k as int));
            assert(context.input@.take(k as int + 1).last() == e);
        }
        match find_coin_index(&wallet.coins, &e.key_id) {
            None => {},
            Some(i) => {
                proof {
                    lemma_find_coin_char(wallet.coins@, e.key_id);
                }
                let coin = wallet.coins[i];
                if coin.is_coinbase {
                    parts.push(TxElement::CoinbaseInput { value: e.value, key_id: coin.key_id });
                } else {
                    parts.push(TxElement::Input { value: e.value, key_id: coin.key_id });
                }
            },
        }
        k = k + 1;
    }
    proof {
        assert(context.input@.take(context.input@.len() as int) =~= context.input@);
    }
    let mut k: usize = 0;
    while k < context.output.len()
        invariant
            0 <= k <= context.output@.len(),
            parts@ == in_elems + spec_repopulate_outputs(
                wallet.coins@,
                context.output@.take(k as int),
            ),
        decreases context.output@.len() - k,
    {
        let e = context.output[k];
        proof {
            assert(context.output@.take(k as int + 1).drop_last() =~= context.output@.take(
                k as int,
            ));
            assert(context.output@.take(k as int + 1).last() == e);
        }
        match find_coin_index(&wallet.coins, &e.key_id) {
            None => {},
            Some(i) => {
                proof {
                    lemma_find_coin_char(wallet.coins@, e.key_id);
                }
                let coin = wallet.coins[i];
                parts.push(TxElement::Output { value: e.value, key_id: coin.key_id });
            },
        }
        k = k + 1;
    }
    proof {
        assert(context.output@.take(context.output@.len() as int) =~= context.output@);
    }
    let mut k: usize = 0;
    while k < context.token_input.len()
        invariant
            0 <= k <= context.token_input@.len(),
            parts@ == in_elems + out_elems + spec_repopulate_token_inputs(
                wallet.token_coins@,
                context.token_input@.take(k as int),
                tt,
            ),
        decreases context.token_input@.len() - k,
    {
        let e = context.token_input[k];
        proof {
            assert(context.token_input@.take(k as int + 1).drop_last()
                =~= context.token_input@.take(k as int));
            assert(context.token_input@.take(k as int + 1).last() == e);
        }
        match find_token_coin_index(&wallet.token_coins, &e.key_id) {
            None => {},
            Some(i) => {
                proof {
                    lemma_find_token_coin_char(wallet.token_coins@, e.key_id);
                }
                let coin = wallet.token_coins[i];
                parts.push(TxElement::TokenInput {
                    value: e.value,
                    token_type: tt,
                    is_issue: coin.is_token_issue,
                    key_id: coin.key_id,
                });
            },
        }
        k = k + 1;
    }
    proof {
        assert(context.token_input@.take(context.token_input@.len() as int)
            =~= context.token_input@);
    }
    let mut k: usize = 0;
    while k < context.token_output.len()
        invariant
            0 <= k <= context.token_output@.len(),
            parts@ == in_elems + out_elems + tin_elems + spec_repopulate_token_outputs(
                wallet.token_coins@,
                context.token_output@.take(k as int),
                tt,
            ),
        decreases context.token_output@.len() - k,
    {
        let e = context.token_output[k];
        proof {
            assert(context.token_output@.take(k as int + 1).drop_last()
                =~= context.token_output@.take(k as int));
            assert(context.token_output@.take(k as int + 1).last() == e);
        }
        match find_token_coin_index(&wallet.token_coins, &e.key_id) {
            None => {},
            Some(i) => {
                proof {
                    lemma_find_token_coin_char(wallet.token_coins@, e.key_id);
                }
                let coin = wallet.token_coins[i];
                parts.push(TxElement::TokenOutput {
                    value: e.value,
                    token_type: tt,
                    is_issue: false,
                    key_id: coin.key_id,
                });
            },
        }
        k = k + 1;
    }
    proof {
        assert(context.token_output@.take(context.token_output@.len() as int)
            =~= context.token_output@);
    }
    if !slate.has_tx {
        return Err(Error::InvalidRequest);
    }
    slate.tx_offset = slate.offset;
    Ok((parts, key))
}

} // verus!
