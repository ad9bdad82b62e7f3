use txbuild::selection::{select_coins, select_from, select_token_coins, select_token_from};
use txbuild::types::{Identifier, OutputData, OutputStatus, TokenOutputData, Wallet};

fn root() -> Identifier {
    Identifier { p0: 1, p1: 0, p2: 0, p3: 0 }
}

fn other_root() -> Identifier {
    Identifier { p0: 9, p1: 0, p2: 0, p3: 0 }
}

fn coin(n: u32, value: u64) -> OutputData {
    OutputData {
        root_key_id: root(),
        key_id: Identifier { p0: 1, p1: 0, p2: n, p3: 0 },
        n_child: n,
        mmr_index: None,
        value,
        status: OutputStatus::Unspent,
        height: 1,
        lock_height: 0,
        is_coinbase: false,
        tx_log_entry: None,
    }
}

fn token_coin(n: u32, token_type: u64, value: u64) -> TokenOutputData {
    TokenOutputData {
        root_key_id: root(),
        key_id: Identifier { p0: 1, p1: 0, p2: n, p3: 0 },
        n_child: n,
        token_type,
        mmr_index: None,
        value,
        status: OutputStatus::Unspent,
        height: 1,
        lock_height: 0,
        is_token_issue: false,
        tx_log_entry: None,
    }
}

fn wallet_with(coins: Vec<OutputData>) -> Wallet {
    Wallet {
        parent_key_id: root(),
        coins,
        token_coins: Vec::new(),
        tx_log: Vec::new(),
        token_tx_log: Vec::new(),
        next_child_index: 100,
        next_log_id: 0,
        stored_tx_keys: Vec::new(),
    }
}

fn values(coins: &[OutputData]) -> Vec<u64> {
    coins.iter().map(|c| c.value).collect()
}

#[test]
fn covering_search_takes_shortest_prefix() {
    let coins = vec![coin(0, 10), coin(1, 20), coin(2, 30), coin(3, 50)];
    let picked = select_from(45, false, coins).expect("total covers the target");
    assert!(values(&picked) == vec![10, 20, 30]);
}

#[test]
fn covering_search_includes_crossing_element() {
    let coins = vec![coin(0, 10), coin(1, 20), coin(2, 30), coin(3, 50)];
    let picked = select_from(30, false, coins).expect("total covers the target");
    assert!(values(&picked) == vec![10, 20]);
}

#[test]
fn covering_search_fails_when_total_short() {
    let coins = vec![coin(0, 10), coin(1, 20)];
    assert!(select_from(31, false, coins).is_none());
}

#[test]
fn covering_search_select_all_returns_everything() {
    let coins = vec![coin(0, 10), coin(1, 20), coin(2, 30)];
    let picked = select_from(15, true, coins).expect("total covers the target");
    assert!(values(&picked) == vec![10, 20, 30]);
}

#[test]
fn token_covering_search_matches_primary() {
    let coins = vec![token_coin(0, 7, 10), token_coin(1, 7, 20), token_coin(2, 7, 30)];
    let picked = select_token_from(25, false, coins).expect("total covers the target");
    let vals: Vec<u64> = picked.iter().map(|c| c.value).collect();
    assert!(vals == vec![10, 20]);
}

#[test]
fn selection_sorts_ascending_and_filters() {
    let mut locked = coin(4, 5);
    locked.status = OutputStatus::Locked;
    let mut foreign = coin(5, 6);
    foreign.root_key_id = other_root();
    let mut immature = coin(6, 7);
    immature.lock_height = 50;
    let wallet = wallet_with(vec![coin(0, 30), coin(1, 10), locked, foreign, immature, coin(2, 20)]);
    let (available, picked) = select_coins(&wallet, 60, 10, 0, 10, false, &root());
    assert_eq!(available, 3);
    assert!(values(&picked) == vec![10, 20, 30]);
}

#[test]
fn window_fallback_tries_unrestricted_search() {
    let wallet = wallet_with(vec![coin(0, 5), coin(1, 5), coin(2, 5), coin(3, 30)]);
    let (available, picked) = select_coins(&wallet, 40, 10, 0, 2, false, &root());
    assert_eq!(available, 4);
    assert!(values(&picked) == vec![5, 5, 5, 30]);
}

#[test]
fn window_pass_returns_first_covering_window() {
    let wallet = wallet_with(vec![coin(0, 5), coin(1, 6), coin(2, 7), coin(3, 30)]);
    let (available, picked) = select_coins(&wallet, 13, 10, 0, 2, false, &root());
    assert_eq!(available, 4);
    assert!(values(&picked) == vec![6, 7]);
}

#[test]
fn best_effort_is_descending_and_truncated() {
    let wallet = wallet_with(vec![coin(0, 5), coin(1, 30), coin(2, 5), coin(3, 5)]);
    let (available, picked) = select_coins(&wallet, 1000, 10, 0, 2, false, &root());
    assert_eq!(available, 4);
    assert!(values(&picked) == vec![30, 5]);
}

#[test]
fn confirmation_depth_gates_eligibility() {
    let mut young = coin(0, 10);
    young.height = 10;
    let mut old_enough = coin(1, 10);
    old_enough.height = 2;
    let wallet = wallet_with(vec![young, old_enough]);
    // At height 10 with 5 confirmations required, only the coin confirmed at
    // height 2 (9 confirmations) qualifies; the coin at height 10 has 1.
    let (available, picked) = select_coins(&wallet, 10, 10, 5, 10, false, &root());
    assert_eq!(available, 1);
    assert_eq!(picked.len(), 1);
    assert_eq!(picked[0].n_child, 1);
}

#[test]
fn token_selection_filters_by_asset_type() {
    let wallet = Wallet {
        parent_key_id: root(),
        coins: Vec::new(),
        token_coins: vec![token_coin(0, 7, 10), token_coin(1, 8, 50), token_coin(2, 7, 20)],
        tx_log: Vec::new(),
        token_tx_log: Vec::new(),
        next_child_index: 0,
        next_log_id: 0,
        stored_tx_keys: Vec::new(),
    };
    let (available, picked) = select_token_coins(&wallet, 15, 7, 10, 0, 10, false, &root());
    assert_eq!(available, 2);
    let vals: Vec<u64> = picked.iter().map(|c| c.value).collect();
    assert!(vals == vec![10, 20]);
    assert!(picked.iter().all(|c| c.token_type == 7));
}
