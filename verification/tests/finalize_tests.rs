use txbuild::context::Context;
use txbuild::finalize::{lock_tx_context, repopulate_tx};
use txbuild::types::{
    Error, Identifier, OutputData, OutputStatus, PaymentProofRequest, Slate, TokenOutputData,
    TokenTxLogEntryType, TxElement, TxLogEntryType, Wallet,
};

fn root() -> Identifier {
    Identifier { p0: 1, p1: 0, p2: 0, p3: 0 }
}

fn key(n: u32) -> Identifier {
    Identifier { p0: 1, p1: 0, p2: n, p3: 0 }
}

fn coin(n: u32, value: u64) -> OutputData {
    OutputData {
        root_key_id: root(),
        key_id: key(n),
        n_child: n,
        mmr_index: None,
        value,
        status: OutputStatus::Unspent,
        height: 1,
        lock_height: 0,
        is_coinbase: false,
        tx_log_entry: None,
    }
}

fn token_coin(n: u32, token_type: u64, value: u64) -> TokenOutputData {
    TokenOutputData {
        root_key_id: root(),
        key_id: key(n),
        n_child: n,
        token_type,
        mmr_index: None,
        value,
        status: OutputStatus::Unspent,
        height: 1,
        lock_height: 0,
        is_token_issue: false,
        tx_log_entry: None,
    }
}

fn wallet_with(coins: Vec<OutputData>, token_coins: Vec<TokenOutputData>) -> Wallet {
    Wallet {
        parent_key_id: root(),
        coins,
        token_coins,
        tx_log: Vec::new(),
        token_tx_log: Vec::new(),
        next_child_index: 50,
        next_log_id: 0,
        stored_tx_keys: Vec::new(),
    }
}

fn plain_slate(id: u64, amount: u64) -> Slate {
    Slate {
        id,
        amount,
        fee: 0,
        ttl_cutoff_height: 0,
        token_type: None,
        payment_proof: None,
        kernel_excess: None,
        compact: false,
        offset: [3u8; 32],
        tx_offset: [0u8; 32],
        has_tx: true,
    }
}

fn context_for(parent: &Identifier) -> Context {
    Context::new([1u8; 32], [2u8; 32], parent, [4u8; 32], false)
}

fn assert_wallets_equal(a: &Wallet, b: &Wallet) {
    assert!(a.parent_key_id == b.parent_key_id);
    assert!(a.coins == b.coins);
    assert!(a.token_coins == b.token_coins);
    assert!(a.tx_log == b.tx_log);
    assert!(a.token_tx_log == b.token_tx_log);
    assert!(a.next_child_index == b.next_child_index);
    assert!(a.next_log_id == b.next_log_id);
    assert!(a.stored_tx_keys == b.stored_tx_keys);
}

#[test]
fn finalize_locks_inputs_and_writes_one_record() {
    let mut wallet = wallet_with(vec![coin(0, 700), coin(1, 300)], Vec::new());
    let slate = plain_slate(42, 500);
    let mut context = context_for(&root());
    context.fee = 100;
    context.amount = 500;
    context.add_input(&key(0), &None, 700);
    context.add_input(&key(1), &None, 300);
    context.add_output(&key(60), &None, 400);
    lock_tx_context(&mut wallet, &slate, 9, &context, None, [0u8; 32]).unwrap();
    assert_eq!(wallet.coins.len(), 3);
    assert!(wallet.coins[0].status == OutputStatus::Locked);
    assert!(wallet.coins[1].status == OutputStatus::Locked);
    assert_eq!(wallet.coins[0].tx_log_entry, Some(0));
    let change = &wallet.coins[2];
    assert!(change.status == OutputStatus::Unconfirmed);
    assert_eq!(change.value, 400);
    assert_eq!(change.key_id, key(60));
    assert_eq!(change.tx_log_entry, Some(0));
    assert_eq!(wallet.tx_log.len(), 1);
    let t = &wallet.tx_log[0];
    assert!(t.tx_type == TxLogEntryType::TxSent);
    assert_eq!(t.amount_debited, 1000);
    assert_eq!(t.amount_credited, 400);
    assert_eq!(t.num_inputs, 2);
    assert_eq!(t.num_outputs, 1);
    assert_eq!(t.fee, Some(100));
    assert_eq!(t.stored_tx, Some(42));
    assert_eq!(wallet.next_log_id, 1);
    assert!(wallet.stored_tx_keys == vec![42]);
}

#[test]
fn finalize_missing_coin_changes_nothing() {
    let mut wallet = wallet_with(vec![coin(0, 700)], Vec::new());
    let before = wallet_with(vec![coin(0, 700)], Vec::new());
    let slate = plain_slate(42, 500);
    let mut context = context_for(&root());
    context.add_input(&key(0), &None, 700);
    context.add_input(&key(99), &None, 300);
    let r = lock_tx_context(&mut wallet, &slate, 9, &context, None, [0u8; 32]);
    assert!(r == Err(Error::CoinNotFound));
    assert_wallets_equal(&wallet, &before);
}

#[test]
fn finalize_without_derivation_index_fails_cleanly() {
    let mut wallet = wallet_with(vec![coin(0, 700)], Vec::new());
    let before = wallet_with(vec![coin(0, 700)], Vec::new());
    let mut slate = plain_slate(42, 500);
    slate.payment_proof = Some(PaymentProofRequest {
        receiver_address: [7u8; 32],
        receiver_signature: None,
    });
    let mut context = context_for(&root());
    context.add_input(&key(0), &None, 700);
    let r = lock_tx_context(&mut wallet, &slate, 9, &context, None, [0u8; 32]);
    assert!(r == Err(Error::PaymentProof));
    assert_wallets_equal(&wallet, &before);
}

#[test]
fn finalize_records_payment_proof() {
    let mut wallet = wallet_with(vec![coin(0, 700)], Vec::new());
    let mut slate = plain_slate(42, 500);
    slate.payment_proof = Some(PaymentProofRequest {
        receiver_address: [7u8; 32],
        receiver_signature: Some([8u8; 64]),
    });
    let mut context = context_for(&root());
    context.payment_proof_derivation_index = Some(11);
    context.add_input(&key(0), &None, 700);
    lock_tx_context(&mut wallet, &slate, 9, &context, None, [9u8; 32]).unwrap();
    let proof = wallet.tx_log[0].payment_proof.as_ref().unwrap();
    assert_eq!(proof.sender_address_path, 11);
    assert_eq!(proof.sender_address, [9u8; 32]);
    assert_eq!(proof.receiver_address, [7u8; 32]);
    assert!(proof.sender_signature.is_none());
}

#[test]
fn finalize_without_transaction_changes_nothing() {
    let mut wallet = wallet_with(vec![coin(0, 700)], Vec::new());
    let before = wallet_with(vec![coin(0, 700)], Vec::new());
    let mut slate = plain_slate(42, 500);
    slate.has_tx = false;
    let mut context = context_for(&root());
    context.add_input(&key(0), &None, 700);
    let r = lock_tx_context(&mut wallet, &slate, 9, &context, None, [0u8; 32]);
    assert!(r == Err(Error::InvalidRequest));
    assert_wallets_equal(&wallet, &before);
}

#[test]
fn finalize_keeps_excess_override() {
    let mut wallet = wallet_with(vec![coin(0, 700)], Vec::new());
    let mut slate = plain_slate(42, 500);
    slate.kernel_excess = Some([1u8; 33]);
    let mut context = context_for(&root());
    context.add_input(&key(0), &None, 700);
    lock_tx_context(&mut wallet, &slate, 9, &context, Some([2u8; 33]), [0u8; 32]).unwrap();
    assert_eq!(wallet.tx_log[0].kernel_excess, Some([2u8; 33]));
}

#[test]
fn token_finalize_separates_the_ledgers() {
    let mut wallet = wallet_with(
        vec![coin(0, 700), coin(1, 55)],
        vec![token_coin(2, 7, 900), token_coin(3, 7, 44)],
    );
    let mut slate = plain_slate(43, 600);
    slate.token_type = Some(7);
    let mut context = context_for(&root());
    context.fee = 100;
    context.add_input(&key(0), &None, 700);
    context.add_token_input(&key(2), &None, 900);
    context.add_output(&key(70), &None, 600);
    context.add_token_output(&key(71), &None, 300);
    lock_tx_context(&mut wallet, &slate, 9, &context, None, [0u8; 32]).unwrap();
    // Only the registered coins changed; the unregistered ones are intact.
    assert!(wallet.coins[0].status == OutputStatus::Locked);
    assert!(wallet.coins[1].status == OutputStatus::Unspent);
    assert!(wallet.token_coins[0].status == OutputStatus::Locked);
    assert!(wallet.token_coins[1].status == OutputStatus::Unspent);
    // One token history record, no primary record.
    assert!(wallet.tx_log.is_empty());
    assert_eq!(wallet.token_tx_log.len(), 1);
    let t = &wallet.token_tx_log[0];
    assert!(t.tx_type == TokenTxLogEntryType::TokenTxSent);
    assert_eq!(t.amount_debited, 700);
    assert_eq!(t.token_amount_debited, 900);
    assert_eq!(t.token_amount_credited, 300);
    assert_eq!(t.token_type, 7);
    // The persisted token change output carries the asset type.
    let token_change = &wallet.token_coins[2];
    assert_eq!(token_change.token_type, 7);
    assert!(!token_change.is_token_issue);
}

#[test]
fn token_finalize_without_token_inputs_is_an_issue() {
    let mut wallet = wallet_with(vec![coin(0, 700)], Vec::new());
    let mut slate = plain_slate(44, 0);
    slate.token_type = Some(9);
    let mut context = context_for(&root());
    context.add_input(&key(0), &None, 700);
    context.add_token_output(&key(80), &None, 5000);
    lock_tx_context(&mut wallet, &slate, 9, &context, None, [0u8; 32]).unwrap();
    let t = &wallet.token_tx_log[0];
    assert!(t.tx_type == TokenTxLogEntryType::TokenIssue);
    assert!(wallet.token_coins[0].is_token_issue);
    assert_eq!(wallet.token_coins[0].value, 5000);
}

#[test]
fn repopulate_restores_amount_fee_and_elements() {
    let wallet = wallet_with(vec![coin(0, 700), coin(1, 400)], Vec::new());
    let mut slate = plain_slate(45, 0);
    slate.fee = 0;
    let mut context = context_for(&root());
    context.amount = 650;
    context.fee = 120;
    context.add_input(&key(0), &None, 700);
    context.add_input(&key(1), &None, 400);
    context.add_output(&key(60), &None, 330);
    let (parts, sec_key) = repopulate_tx(&wallet, &mut slate, &context, true).unwrap();
    assert_eq!(slate.amount, 650);
    assert_eq!(slate.fee, 120);
    assert_eq!(slate.tx_offset, slate.offset);
    assert!(sec_key == [1u8; 32]);
    // The registered output is not in the pool, so it is skipped.
    assert_eq!(parts.len(), 2);
    assert!(matches!(parts[0], TxElement::Input { value: 700, .. }));
    assert!(matches!(parts[1], TxElement::Input { value: 400, .. }));
}

#[test]
fn repopulate_keeps_fee_unless_asked() {
    let wallet = wallet_with(vec![coin(0, 700)], Vec::new());
    let mut slate = plain_slate(45, 0);
    slate.fee = 77;
    let mut context = context_for(&root());
    context.amount = 650;
    context.fee = 120;
    let (_parts, _key) = repopulate_tx(&wallet, &mut slate, &context, false).unwrap();
    assert_eq!(slate.amount, 650);
    assert_eq!(slate.fee, 77);
}

#[test]
fn repopulate_uses_token_secret_for_token_documents() {
    let wallet = wallet_with(Vec::new(), vec![token_coin(2, 7, 900)]);
    let mut slate = plain_slate(46, 0);
    slate.token_type = Some(7);
    let mut context = context_for(&root());
    context.add_token_input(&key(2), &None, 900);
    let (parts, sec_key) = repopulate_tx(&wallet, &mut slate, &context, false).unwrap();
    assert!(sec_key == [2u8; 32]);
    assert_eq!(parts.len(), 1);
    assert!(matches!(
        parts[0],
        TxElement::TokenInput { value: 900, token_type: 7, .. }
    ));
}

#[test]
fn repopulate_without_transaction_fails() {
    let wallet = wallet_with(Vec::new(), Vec::new());
    let mut slate = plain_slate(47, 0);
    slate.has_tx = false;
    let context = context_for(&root());
    let r = repopulate_tx(&wallet, &mut slate, &context, false);
    assert!(r == Err(Error::InvalidRequest));
}
