use txbuild::amount::amount_to_hr_string;
use txbuild::assembly::{inputs_and_change, token_inputs_and_change, token_issue_output};
use txbuild::fee::{tx_fee, DEFAULT_BASE_FEE};
use txbuild::types::{Identifier, OutputData, OutputStatus, TokenOutputData, TxElement, Wallet};

fn root() -> Identifier {
    Identifier { p0: 1, p1: 0, p2: 0, p3: 0 }
}

fn coin(n: u32, value: u64) -> OutputData {
    OutputData {
        root_key_id: root(),
        key_id: Identifier { p0: 1, p1: 0, p2: n, p3: 0 },
        n_child: n,
        mmr_index: None,
        value,
        status: OutputStatus::Unspent,
        height: 1,
        lock_height: 0,
        is_coinbase: false,
        tx_log_entry: None,
    }
}

fn token_coin(n: u32, token_type: u64, value: u64) -> TokenOutputData {
    TokenOutputData {
        root_key_id: root(),
        key_id: Identifier { p0: 1, p1: 0, p2: n, p3: 0 },
        n_child: n,
        token_type,
        mmr_index: None,
        value,
        status: OutputStatus::Unspent,
        height: 1,
        lock_height: 0,
        is_token_issue: false,
        tx_log_entry: None,
    }
}

fn fresh_wallet() -> Wallet {
    Wallet {
        parent_key_id: root(),
        coins: Vec::new(),
        token_coins: Vec::new(),
        tx_log: Vec::new(),
        token_tx_log: Vec::new(),
        next_child_index: 10,
        next_log_id: 0,
        stored_tx_keys: Vec::new(),
    }
}

#[test]
fn fee_is_base_times_weight() {
    // 1 input, 1 output, 1 kernel: weight 4 * 1 + 1 - 1 = 4.
    assert_eq!(tx_fee(1, 1, 1, 0, 0, 0, None), 4 * DEFAULT_BASE_FEE);
    // 2 inputs, 2 outputs, 1 kernel: weight 8 + 1 - 2 = 7.
    assert_eq!(tx_fee(2, 2, 1, 0, 0, 0, None), 7 * DEFAULT_BASE_FEE);
}

#[test]
fn fee_weight_has_floor_of_one() {
    // Many inputs push the body weight below one; the floor holds.
    assert_eq!(tx_fee(10, 1, 1, 0, 0, 0, None), DEFAULT_BASE_FEE);
}

#[test]
fn fee_honours_explicit_base() {
    assert_eq!(tx_fee(1, 1, 1, 0, 0, 0, Some(500)), 4 * 500);
}

#[test]
fn secondary_legs_never_alter_the_fee() {
    let without_tokens = tx_fee(2, 3, 1, 0, 0, 0, None);
    let with_tokens = tx_fee(2, 3, 1, 5, 7, 1, None);
    assert_eq!(without_tokens, with_tokens);
}

#[test]
fn change_splits_evenly() {
    // total 10000, amount 500, fee 500: change 9000 over 2 outputs.
    let coins = vec![coin(0, 10000)];
    let mut wallet = fresh_wallet();
    let (parts, change) = inputs_and_change(&coins, &mut wallet, 500, 500, 2, true).unwrap();
    let amounts: Vec<u64> = change.iter().map(|e| e.0).collect();
    assert!(amounts == vec![4500, 4500]);
    assert_eq!(parts.len(), 3);
    assert_eq!(wallet.next_child_index, 12);
}

#[test]
fn change_split_gives_remainder_to_last_output() {
    // change 9001 over 2 outputs: 4500 and 4501.
    let coins = vec![coin(0, 10001)];
    let mut wallet = fresh_wallet();
    let (_parts, change) = inputs_and_change(&coins, &mut wallet, 500, 500, 2, true).unwrap();
    let amounts: Vec<u64> = change.iter().map(|e| e.0).collect();
    assert!(amounts == vec![4500, 4501]);
    assert_eq!(amounts.iter().sum::<u64>(), 9001);
}

#[test]
fn zero_change_builds_no_outputs() {
    let coins = vec![coin(0, 1000)];
    let mut wallet = fresh_wallet();
    let (parts, change) = inputs_and_change(&coins, &mut wallet, 600, 400, 2, true).unwrap();
    assert!(change.is_empty());
    assert_eq!(parts.len(), 1);
    assert_eq!(wallet.next_child_index, 10);
}

#[test]
fn inputs_left_out_when_not_folded() {
    let coins = vec![coin(0, 1000)];
    let mut wallet = fresh_wallet();
    let (parts, change) = inputs_and_change(&coins, &mut wallet, 400, 100, 1, false).unwrap();
    assert_eq!(change.len(), 1);
    assert_eq!(parts.len(), 1);
    assert!(matches!(parts[0], TxElement::Output { value: 500, .. }));
}

#[test]
fn coinbase_coins_become_coinbase_inputs() {
    let mut cb = coin(0, 1000);
    cb.is_coinbase = true;
    let coins = vec![cb, coin(1, 1000)];
    let mut wallet = fresh_wallet();
    let (parts, _change) = inputs_and_change(&coins, &mut wallet, 2000, 0, 1, true).unwrap();
    assert!(matches!(parts[0], TxElement::CoinbaseInput { value: 1000, .. }));
    assert!(matches!(parts[1], TxElement::Input { value: 1000, .. }));
}

#[test]
fn change_keys_advance_the_derivation_counter() {
    let coins = vec![coin(0, 10000)];
    let mut wallet = fresh_wallet();
    let (_parts, change) = inputs_and_change(&coins, &mut wallet, 1000, 1000, 2, true).unwrap();
    assert_eq!(change[0].1, Identifier { p0: 1, p1: 0, p2: 10, p3: 0 });
    assert_eq!(change[1].1, Identifier { p0: 1, p1: 0, p2: 11, p3: 0 });
    assert_eq!(wallet.next_child_index, 12);
}

#[test]
fn token_change_is_fee_less_and_tagged() {
    let coins = vec![token_coin(0, 7, 1000)];
    let mut wallet = fresh_wallet();
    let (parts, change) =
        token_inputs_and_change(&coins, &mut wallet, 400, 7, 1, true).unwrap();
    assert_eq!(change.len(), 1);
    assert_eq!(change[0].0, 600);
    assert!(matches!(
        parts[0],
        TxElement::TokenInput { value: 1000, token_type: 7, is_issue: false, .. }
    ));
    assert!(matches!(
        parts[1],
        TxElement::TokenOutput { value: 600, token_type: 7, is_issue: false, .. }
    ));
}

#[test]
fn token_issue_mints_one_output() {
    let mut wallet = fresh_wallet();
    let (parts, entry) = token_issue_output(&mut wallet, 5000, 9).unwrap();
    assert_eq!(parts.len(), 1);
    assert!(matches!(
        parts[0],
        TxElement::TokenOutput { value: 5000, token_type: 9, is_issue: true, .. }
    ));
    assert_eq!(entry.0, 5000);
    assert_eq!(entry.1, Identifier { p0: 1, p1: 0, p2: 10, p3: 0 });
    assert_eq!(wallet.next_child_index, 11);
}

#[test]
fn amounts_render_with_nine_decimals() {
    assert_eq!(amount_to_hr_string(0), b"0.000000000".to_vec());
    assert_eq!(amount_to_hr_string(1), b"0.000000001".to_vec());
    assert_eq!(amount_to_hr_string(1_000_000_000), b"1.000000000".to_vec());
    assert_eq!(amount_to_hr_string(2_500_000_001), b"2.500000001".to_vec());
    assert_eq!(amount_to_hr_string(123_456_789), b"0.123456789".to_vec());
    assert_eq!(
        amount_to_hr_string(u64::MAX),
        b"18446744073.709551615".to_vec()
    );
}
