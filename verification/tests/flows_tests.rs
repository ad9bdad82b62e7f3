use txbuild::finalize::lock_tx_context;
use txbuild::flows::{
    build_issue_token_tx, build_recipient_output, build_send_token_tx, build_send_tx,
    select_send_token_tx, select_send_tx,
};
use txbuild::types::{
    Error, Identifier, OutputData, OutputStatus, Slate, TokenOutputData, TokenTxLogEntryType,
    TxElement, TxLogEntryType, Wallet,
};

fn root() -> Identifier {
    Identifier { p0: 1, p1: 0, p2: 0, p3: 0 }
}

fn key(n: u32) -> Identifier {
    Identifier { p0: 1, p1: 0, p2: n, p3: 0 }
}

fn coin(n: u32, value: u64) -> OutputData {
    OutputData {
        root_key_id: root(),
        key_id: key(n),
        n_child: n,
        mmr_index: None,
        value,
        status: OutputStatus::Unspent,
        height: 1,
        lock_height: 0,
        is_coinbase: false,
        tx_log_entry: None,
    }
}

fn token_coin(n: u32, token_type: u64, value: u64) -> TokenOutputData {
    TokenOutputData {
        root_key_id: root(),
        key_id: key(n),
        n_child: n,
        token_type,
        mmr_index: None,
        value,
        status: OutputStatus::Unspent,
        height: 1,
        lock_height: 0,
        is_token_issue: false,
        tx_log_entry: None,
    }
}

fn wallet_with(coins: Vec<OutputData>, token_coins: Vec<TokenOutputData>) -> Wallet {
    Wallet {
        parent_key_id: root(),
        coins,
        token_coins,
        tx_log: Vec::new(),
        token_tx_log: Vec::new(),
        next_child_index: 20,
        next_log_id: 0,
        stored_tx_keys: Vec::new(),
    }
}

fn plain_slate(id: u64, amount: u64) -> Slate {
    Slate {
        id,
        amount,
        fee: 0,
        ttl_cutoff_height: 0,
        token_type: None,
        payment_proof: None,
        kernel_excess: None,
        compact: false,
        offset: [3u8; 32],
        tx_offset: [0u8; 32],
        has_tx: true,
    }
}

#[test]
fn select_send_builds_skeleton_and_change_plan() {
    let mut wallet = wallet_with(vec![coin(0, 10_000_000_000)], Vec::new());
    let (elems, coins, change, fee) = select_send_tx(
        &mut wallet,
        1_000_000_000,
        10,
        0,
        10,
        1,
        false,
        &root(),
        0,
        0,
        true,
    )
    .unwrap();
    assert_eq!(coins.len(), 1);
    assert_eq!(fee, 8_000_000);
    assert_eq!(change.len(), 1);
    assert_eq!(change[0].0, 10_000_000_000 - 1_000_000_000 - 8_000_000);
    assert_eq!(change[0].1, key(20));
    assert_eq!(elems.len(), 2);
    assert!(matches!(elems[0], TxElement::Input { value: 10_000_000_000, .. }));
    assert!(matches!(elems[1], TxElement::Output { .. }));
    assert_eq!(wallet.next_child_index, 21);
}

#[test]
fn build_send_records_context_and_fee() {
    let mut wallet = wallet_with(vec![coin(0, 10_000_000_000)], Vec::new());
    let mut slate = plain_slate(5, 1_000_000_000);
    let (context, elems) = build_send_tx(
        &mut wallet,
        &mut slate,
        10,
        0,
        10,
        1,
        false,
        root(),
        false,
        [1u8; 32],
        [4u8; 32],
    )
    .unwrap();
    assert_eq!(slate.fee, 8_000_000);
    assert_eq!(context.fee, 8_000_000);
    assert_eq!(context.amount, 1_000_000_000);
    assert!(context.sec_key == [1u8; 32]);
    assert!(context.token_sec_key == [0u8; 32]);
    assert_eq!(context.input.len(), 1);
    assert_eq!(context.input[0].key_id, key(0));
    assert_eq!(context.output.len(), 1);
    assert_eq!(context.output[0].key_id, key(20));
    assert!(context.token_input.is_empty());
    assert!(context.token_output.is_empty());
    assert_eq!(elems.len(), 2);
}

#[test]
fn build_send_propagates_insufficient_funds() {
    let mut wallet = wallet_with(vec![coin(0, 1_000)], Vec::new());
    let mut slate = plain_slate(5, 1_000_000_000);
    let r = build_send_tx(
        &mut wallet,
        &mut slate,
        10,
        0,
        10,
        1,
        false,
        root(),
        false,
        [1u8; 32],
        [4u8; 32],
    );
    match r {
        Err(Error::NotEnoughFunds { available, .. }) => assert_eq!(available, 1_000),
        _ => panic!("expected an insufficient-funds failure"),
    }
    assert_eq!(slate.fee, 0);
    assert_eq!(wallet.next_child_index, 20);
}

#[test]
fn compact_documents_fold_no_inputs() {
    let mut wallet = wallet_with(vec![coin(0, 10_000_000_000)], Vec::new());
    let mut slate = plain_slate(5, 1_000_000_000);
    slate.compact = true;
    let (_context, elems) = build_send_tx(
        &mut wallet,
        &mut slate,
        10,
        0,
        10,
        1,
        false,
        root(),
        false,
        [1u8; 32],
        [4u8; 32],
    )
    .unwrap();
    assert_eq!(elems.len(), 1);
    assert!(matches!(elems[0], TxElement::Output { .. }));
}

#[test]
fn select_send_token_is_fee_less() {
    let mut wallet = wallet_with(Vec::new(), vec![token_coin(0, 7, 1_000)]);
    let (elems, coins, change) =
        select_send_token_tx(&mut wallet, 400, 7, 10, 0, 10, 1, false, &root(), true).unwrap();
    assert_eq!(coins.len(), 1);
    assert_eq!(change.len(), 1);
    assert_eq!(change[0].0, 600);
    assert_eq!(elems.len(), 2);
}

#[test]
fn build_send_token_requires_an_asset_type() {
    let mut wallet = wallet_with(Vec::new(), Vec::new());
    let mut slate = plain_slate(6, 100);
    let r = build_send_token_tx(
        &mut wallet,
        &mut slate,
        10,
        0,
        10,
        1,
        false,
        root(),
        false,
        [1u8; 32],
        [2u8; 32],
        [4u8; 32],
    );
    assert!(matches!(r, Err(Error::InvalidRequest)));
}

#[test]
fn build_send_token_carries_both_legs() {
    let mut wallet = wallet_with(
        vec![coin(0, 10_000_000_000)],
        vec![token_coin(1, 7, 1_000)],
    );
    let mut slate = plain_slate(6, 400);
    slate.token_type = Some(7);
    let (context, elems) = build_send_token_tx(
        &mut wallet,
        &mut slate,
        10,
        0,
        10,
        1,
        false,
        root(),
        false,
        [1u8; 32],
        [2u8; 32],
        [4u8; 32],
    )
    .unwrap();
    assert!(context.sec_key == [1u8; 32]);
    assert!(context.token_sec_key == [2u8; 32]);
    assert_eq!(context.token_input.len(), 1);
    assert_eq!(context.token_output.len(), 1);
    assert_eq!(context.token_output[0].value, 600);
    assert_eq!(context.input.len(), 1);
    assert_eq!(context.output.len(), 1);
    // token input + token change + primary input + primary change
    assert_eq!(elems.len(), 4);
    assert!(matches!(
        elems[0],
        TxElement::TokenInput { value: 1_000, token_type: 7, .. }
    ));
    assert!(slate.fee > 0);
    assert_eq!(context.fee, slate.fee);
}

#[test]
fn token_fee_matches_plain_fee_for_equal_primary_legs() {
    // A token send whose primary leg spends one coin into one change output
    // pays the same fee as... the same primary leg alone: the token legs
    // are sized but fee-less.
    let mut w1 = wallet_with(
        vec![coin(0, 10_000_000_000)],
        vec![token_coin(1, 7, 1_000)],
    );
    let mut s1 = plain_slate(6, 400);
    s1.token_type = Some(7);
    let (ctx_token, _) = build_send_token_tx(
        &mut w1, &mut s1, 10, 0, 10, 1, false, root(), false, [1u8; 32], [2u8; 32], [4u8; 32],
    )
    .unwrap();
    let mut w2 = wallet_with(vec![coin(0, 10_000_000_000)], Vec::new());
    let mut s2 = plain_slate(7, 0);
    let (ctx_plain, _) = build_send_tx(
        &mut w2, &mut s2, 10, 0, 10, 1, false, root(), false, [1u8; 32], [4u8; 32],
    )
    .unwrap();
    assert_eq!(ctx_token.fee, ctx_plain.fee);
}

#[test]
fn build_issue_token_mints_under_a_fresh_key() {
    let mut wallet = wallet_with(vec![coin(0, 10_000_000_000)], Vec::new());
    let mut slate = plain_slate(8, 5_000);
    let (context, elems) = build_issue_token_tx(
        &mut wallet,
        &mut slate,
        10,
        0,
        10,
        1,
        false,
        root(),
        9,
        [1u8; 32],
        [2u8; 32],
        [4u8; 32],
    )
    .unwrap();
    assert_eq!(slate.token_type, Some(9));
    assert!(slate.fee > 0);
    assert_eq!(context.amount, 0);
    assert_eq!(context.token_output.len(), 1);
    assert_eq!(context.token_output[0].value, 5_000);
    // change key first, then the mint key
    assert_eq!(context.output[0].key_id, key(20));
    assert_eq!(context.token_output[0].key_id, key(21));
    assert!(matches!(
        elems[0],
        TxElement::TokenOutput { value: 5_000, token_type: 9, is_issue: true, .. }
    ));
    assert_eq!(wallet.next_child_index, 22);
}

#[test]
fn recipient_persists_output_and_record_at_once() {
    let mut wallet = wallet_with(Vec::new(), Vec::new());
    let mut slate = plain_slate(9, 777);
    let (key_id, context, t, token_t) = build_recipient_output(
        &mut wallet,
        &mut slate,
        10,
        root(),
        false,
        [1u8; 32],
        [2u8; 32],
        [4u8; 32],
    )
    .unwrap();
    assert_eq!(key_id, key(20));
    assert_eq!(context.amount, 777);
    assert_eq!(context.output.len(), 1);
    assert!(context.token_output.is_empty());
    assert!(token_t.is_none());
    let entry = t.unwrap();
    assert!(entry.tx_type == TxLogEntryType::TxReceived);
    assert_eq!(entry.amount_credited, 777);
    assert_eq!(entry.num_outputs, 1);
    assert_eq!(wallet.coins.len(), 1);
    assert!(wallet.coins[0].status == OutputStatus::Unconfirmed);
    assert_eq!(wallet.coins[0].value, 777);
    assert_eq!(wallet.coins[0].tx_log_entry, Some(0));
    assert!(wallet.tx_log == vec![entry]);
    assert_eq!(wallet.next_log_id, 1);
}

#[test]
fn token_recipient_writes_to_the_token_ledgers_only() {
    let mut wallet = wallet_with(Vec::new(), Vec::new());
    let mut slate = plain_slate(10, 555);
    slate.token_type = Some(7);
    let (_key_id, context, t, token_t) = build_recipient_output(
        &mut wallet,
        &mut slate,
        10,
        root(),
        false,
        [1u8; 32],
        [2u8; 32],
        [4u8; 32],
    )
    .unwrap();
    assert!(t.is_none());
    let entry = token_t.unwrap();
    assert!(entry.tx_type == TokenTxLogEntryType::TokenTxReceived);
    assert_eq!(entry.token_amount_credited, 555);
    assert_eq!(entry.token_type, 7);
    assert!(context.output.is_empty());
    assert_eq!(context.token_output.len(), 1);
    assert!(wallet.coins.is_empty());
    assert!(wallet.tx_log.is_empty());
    assert_eq!(wallet.token_coins.len(), 1);
    assert_eq!(wallet.token_coins[0].token_type, 7);
    assert!(wallet.token_tx_log == vec![entry]);
}

#[test]
fn sender_build_then_finalize_balances() {
    let mut wallet = wallet_with(vec![coin(0, 10_000_000_000)], Vec::new());
    let mut slate = plain_slate(11, 1_000_000_000);
    let (context, _elems) = build_send_tx(
        &mut wallet,
        &mut slate,
        10,
        0,
        10,
        1,
        false,
        root(),
        false,
        [1u8; 32],
        [4u8; 32],
    )
    .unwrap();
    lock_tx_context(&mut wallet, &slate, 12, &context, None, [0u8; 32]).unwrap();
    // The spent coin is locked and points at the history record.
    assert!(wallet.coins[0].status == OutputStatus::Locked);
    assert_eq!(wallet.coins[0].tx_log_entry, Some(0));
    // The change output returns everything but amount and fee.
    let change = &wallet.coins[1];
    assert!(change.status == OutputStatus::Unconfirmed);
    assert_eq!(change.value, 10_000_000_000 - 1_000_000_000 - slate.fee);
    assert_eq!(change.tx_log_entry, Some(0));
    // Exactly one history record accounts for the whole build.
    assert_eq!(wallet.tx_log.len(), 1);
    let t = &wallet.tx_log[0];
    assert!(t.tx_type == TxLogEntryType::TxSent);
    assert_eq!(t.amount_debited, 10_000_000_000);
    assert_eq!(t.amount_credited, change.value);
    assert_eq!(t.fee, Some(slate.fee));
    assert_eq!(t.stored_tx, Some(11));
    assert!(wallet.stored_tx_keys == vec![11]);
    assert_eq!(wallet.next_log_id, 1);
}
