use txbuild::solver::{select_coins_and_fee, select_token_coins_and_fee};
use txbuild::types::{Error, Identifier, OutputData, OutputStatus, TokenOutputData, Wallet};

fn root() -> Identifier {
    Identifier { p0: 1, p1: 0, p2: 0, p3: 0 }
}

fn coin(n: u32, value: u64) -> OutputData {
    OutputData {
        root_key_id: root(),
        key_id: Identifier { p0: 1, p1: 0, p2: n, p3: 0 },
        n_child: n,
        mmr_index: None,
        value,
        status: OutputStatus::Unspent,
        height: 1,
        lock_height: 0,
        is_coinbase: false,
        tx_log_entry: None,
    }
}

fn token_coin(n: u32, token_type: u64, value: u64) -> TokenOutputData {
    TokenOutputData {
        root_key_id: root(),
        key_id: Identifier { p0: 1, p1: 0, p2: n, p3: 0 },
        n_child: n,
        token_type,
        mmr_index: None,
        value,
        status: OutputStatus::Unspent,
        height: 1,
        lock_height: 0,
        is_token_issue: false,
        tx_log_entry: None,
    }
}

fn wallet_with(coins: Vec<OutputData>, token_coins: Vec<TokenOutputData>) -> Wallet {
    Wallet {
        parent_key_id: root(),
        coins,
        token_coins,
        tx_log: Vec::new(),
        token_tx_log: Vec::new(),
        next_child_index: 0,
        next_log_id: 0,
        stored_tx_keys: Vec::new(),
    }
}

#[test]
fn solver_covers_amount_plus_fee() {
    let wallet = wallet_with(vec![coin(0, 10_000_000_000)], Vec::new());
    let (coins, total, amount, fee) =
        select_coins_and_fee(&wallet, 1_000_000_000, 10, 0, 10, 1, false, &root(), 0, 0)
            .unwrap();
    assert_eq!(coins.len(), 1);
    assert_eq!(total, 10_000_000_000);
    assert_eq!(amount, 1_000_000_000);
    // 1 input, 1 spend output + 1 change output, 1 kernel: weight 8.
    assert_eq!(fee, 8_000_000);
    assert!(total >= amount + fee);
}

#[test]
fn solver_stops_without_change_on_exact_match() {
    // One coin whose value is exactly amount + the no-change fee
    // (1 input, 1 output, 1 kernel: weight 4).
    let wallet = wallet_with(vec![coin(0, 1_000_000_000)], Vec::new());
    let amount = 1_000_000_000 - 4_000_000;
    let (coins, total, _amount, fee) =
        select_coins_and_fee(&wallet, amount, 10, 0, 10, 1, false, &root(), 0, 0).unwrap();
    assert_eq!(coins.len(), 1);
    assert_eq!(fee, 4_000_000);
    assert_eq!(total, amount + fee);
}

#[test]
fn solver_reselects_until_fee_is_covered() {
    // Four 5m coins, amount 10m.  The first pass picks three coins, whose
    // change-bearing fee pushes the target past their total; the solver
    // must widen the selection once more and then converge.
    let wallet = wallet_with(
        vec![coin(0, 5_000_000), coin(1, 5_000_000), coin(2, 5_000_000), coin(3, 5_000_000)],
        Vec::new(),
    );
    let (coins, total, amount, fee) =
        select_coins_and_fee(&wallet, 10_000_000, 10, 0, 10, 1, false, &root(), 0, 0).unwrap();
    assert_eq!(coins.len(), 4);
    assert_eq!(total, 20_000_000);
    // 4 inputs, 2 outputs, 1 kernel: weight 8 + 1 - 4 = 5.
    assert_eq!(fee, 5_000_000);
    assert!(total >= amount + fee);
}

#[test]
fn solver_reports_insufficient_funds() {
    let wallet = wallet_with(vec![coin(0, 2_000_000), coin(1, 3_000_000)], Vec::new());
    let r = select_coins_and_fee(&wallet, 100_000_000, 10, 0, 10, 1, false, &root(), 0, 0);
    match r {
        Err(Error::NotEnoughFunds { available, needed }) => {
            assert_eq!(available, 5_000_000);
            assert!(needed > 100_000_000);
        }
        _ => panic!("expected an insufficient-funds failure"),
    }
}

#[test]
fn solver_reports_empty_wallet_as_zero_available() {
    let wallet = wallet_with(Vec::new(), Vec::new());
    let r = select_coins_and_fee(&wallet, 1_000_000_000, 10, 0, 10, 1, false, &root(), 0, 0);
    match r {
        Err(Error::NotEnoughFunds { available, needed }) => {
            assert_eq!(available, 0);
            assert!(needed >= 1_000_000_000);
        }
        _ => panic!("expected an insufficient-funds failure"),
    }
}

#[test]
fn token_solver_requires_full_cover() {
    let wallet = wallet_with(Vec::new(), vec![token_coin(0, 7, 400), token_coin(1, 7, 300)]);
    let (coins, total, amount) =
        select_token_coins_and_fee(&wallet, 500, 7, 10, 0, 10, false, &root()).unwrap();
    assert_eq!(coins.len(), 2);
    assert_eq!(total, 700);
    assert_eq!(amount, 500);
}

#[test]
fn token_solver_fails_whenever_total_is_short() {
    let wallet = wallet_with(Vec::new(), vec![token_coin(0, 7, 400)]);
    let r = select_token_coins_and_fee(&wallet, 500, 7, 10, 0, 10, false, &root());
    match r {
        Err(Error::NotEnoughFunds { available, needed }) => {
            assert_eq!(available, 400);
            assert_eq!(needed, 500);
        }
        _ => panic!("expected an insufficient-funds failure"),
    }
}

#[test]
fn fees_match_between_token_free_and_token_bearing_solves() {
    let make = || wallet_with(vec![coin(0, 10_000_000_000)], Vec::new());
    let w1 = make();
    let w2 = make();
    let (_c1, _t1, _a1, fee_plain) =
        select_coins_and_fee(&w1, 1_000_000_000, 10, 0, 10, 1, false, &root(), 0, 0).unwrap();
    let (_c2, _t2, _a2, fee_with_tokens) =
        select_coins_and_fee(&w2, 1_000_000_000, 10, 0, 10, 1, false, &root(), 5, 7).unwrap();
    assert_eq!(fee_plain, fee_with_tokens);
}
