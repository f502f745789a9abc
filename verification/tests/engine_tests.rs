use scan_mvcf::engine::PostTransaction;
use scan_mvcf::errors::{FailureCause, LedgerError};
use scan_mvcf::money::Money;
use scan_mvcf::records::{Direction, TxKind};
use scan_mvcf::resolver::PostItem;
use scan_mvcf::store::Store;

fn store_with_account(balance: u64) -> (Store, u64) {
    let mut store = Store::new();
    let id = store.create_account(7001, Money::new(balance)).unwrap();
    (store, id)
}

fn credit(doc: u64, cents: u64) -> PostTransaction {
    PostTransaction { doc, kind: TxKind::Credit, amount: Money::new(cents), items: None }
}

fn withdrawal(doc: u64, estimate: u64, items: Vec<PostItem>) -> PostTransaction {
    PostTransaction {
        doc,
        kind: TxKind::Withdrawal,
        amount: Money::new(estimate),
        items: Some(items),
    }
}

fn pair(upc: &str, quantity: u64) -> PostItem {
    PostItem { upc: upc.to_string(), quantity }
}

#[test]
fn credit_example() {
    // balance=1200, Credit(500) -> balance 1700, one Credit ledger entry of 500
    let (mut store, id) = store_with_account(1200);
    let result = store.post_transaction(id, &credit(7001, 500), 11).unwrap();
    assert_eq!(result.balance, Money::new(1700));
    assert_eq!(result.amount, Money::new(500));
    assert_eq!(result.kind, TxKind::Credit);
    assert_eq!(result.account_id, id);
    assert_eq!(store.accounts[0].balance, Money::new(1700));
    assert_eq!(store.ledger.len(), 1);
    assert_eq!(store.ledger[0].kind, TxKind::Credit);
    assert_eq!(store.ledger[0].amount, Money::new(500));
    assert_eq!(store.ledger[0].created_at, 11);
    assert_eq!(store.items.len(), 0);
    assert_eq!(store.movements.len(), 0);
    assert_eq!(store.line_items.len(), 0);
}

#[test]
fn credit_touches_no_inventory() {
    let (mut store, id) = store_with_account(100);
    store.create_item("111".to_string(), "soap".to_string(), Money::new(250), 4).unwrap();
    store.post_transaction(id, &credit(7001, 50), 1).unwrap();
    assert_eq!(store.items[0].quantity, 4);
    assert_eq!(store.movements.len(), 0);
    assert_eq!(store.line_items.len(), 0);
}

#[test]
fn withdrawal_success_balance_and_inventory() {
    let (mut store, id) = store_with_account(1000);
    store.create_item("111".to_string(), "soap".to_string(), Money::new(150), 5).unwrap();
    store.create_item("222".to_string(), "comb".to_string(), Money::new(200), 2).unwrap();
    let req = withdrawal(7001, 500, vec![pair("111", 2), pair("222", 1)]);
    let result = store.post_transaction(id, &req, 99).unwrap();
    // total = 150*2 + 200*1 = 500
    assert_eq!(result.amount, Money::new(500));
    assert_eq!(result.balance, Money::new(500));
    assert_eq!(store.accounts[0].balance, Money::new(500));
    // each item decremented by exactly the requested quantity
    assert_eq!(store.items[0].quantity, 3);
    assert_eq!(store.items[1].quantity, 1);
    // one ledger entry with the resolved total
    assert_eq!(store.ledger.len(), 1);
    assert_eq!(store.ledger[0].kind, TxKind::Withdrawal);
    assert_eq!(store.ledger[0].amount, Money::new(500));
    // one line item and one Remove movement per resolved line
    assert_eq!(store.line_items.len(), 2);
    assert_eq!(store.line_items[0].transaction_id, store.ledger[0].id);
    assert_eq!(store.line_items[0].item_id, store.items[0].id);
    assert_eq!(store.line_items[0].quantity, 2);
    assert_eq!(store.line_items[1].quantity, 1);
    assert_eq!(store.movements.len(), 2);
    assert_eq!(store.movements[0].direction, Direction::Remove);
    assert_eq!(store.movements[0].item_id, store.items[0].id);
    assert_eq!(store.movements[0].quantity, 2);
    assert_eq!(store.movements[1].direction, Direction::Remove);
    assert_eq!(store.movements[1].quantity, 1);
}

#[test]
fn insufficient_funds_resolved_total() {
    // balance=500, unit_price=300, quantity=2 -> total 600 -> rejected, balance stays 500
    let (mut store, id) = store_with_account(500);
    store.create_item("111".to_string(), "soap".to_string(), Money::new(300), 9).unwrap();
    let req = withdrawal(7001, 500, vec![pair("111", 2)]);
    let err = store.post_transaction(id, &req, 1).unwrap_err();
    match err {
        LedgerError::InsufficientFunds { available, required } => {
            assert_eq!(available, Money::new(500));
            assert_eq!(required, Money::new(600));
        },
        other => panic!("expected InsufficientFunds, got {:?}", other),
    }
    assert_eq!(store.accounts[0].balance, Money::new(500));
    assert_eq!(store.items[0].quantity, 9);
    assert_eq!(store.ledger.len(), 0);
    assert_eq!(store.line_items.len(), 0);
    assert_eq!(store.movements.len(), 0);
}

#[test]
fn insufficient_funds_estimate_precheck() {
    // the advisory estimate check fires before resolution: the unknown
    // code is never looked up
    let (mut store, id) = store_with_account(500);
    let req = withdrawal(7001, 600, vec![pair("nonexistent", 1)]);
    let err = store.post_transaction(id, &req, 1).unwrap_err();
    match err {
        LedgerError::InsufficientFunds { available, required } => {
            assert_eq!(available, Money::new(500));
            assert_eq!(required, Money::new(600));
        },
        other => panic!("expected InsufficientFunds, got {:?}", other),
    }
}

#[test]
fn insufficient_stock() {
    // quantity_on_hand=1, requesting 2 -> InsufficientStock, no partial decrement
    let (mut store, id) = store_with_account(10_000);
    store.create_item("111".to_string(), "soap".to_string(), Money::new(100), 1).unwrap();
    let req = withdrawal(7001, 200, vec![pair("111", 2)]);
    let err = store.post_transaction(id, &req, 1).unwrap_err();
    match err {
        LedgerError::InsufficientStock { upc, available, requested } => {
            assert_eq!(upc, "111");
            assert_eq!(available, 1);
            assert_eq!(requested, 2);
        },
        other => panic!("expected InsufficientStock, got {:?}", other),
    }
    assert_eq!(store.items[0].quantity, 1);
    assert_eq!(store.accounts[0].balance, Money::new(10_000));
    assert_eq!(store.movements.len(), 0);
}

#[test]
fn unknown_item_rejects_whole_request() {
    // one unknown code aborts the request; the valid item sees no write
    let (mut store, id) = store_with_account(10_000);
    store.create_item("111".to_string(), "soap".to_string(), Money::new(100), 5).unwrap();
    let req = withdrawal(7001, 400, vec![pair("111", 1), pair("999", 1)]);
    let err = store.post_transaction(id, &req, 1).unwrap_err();
    match err {
        LedgerError::ItemNotFound(upc) => assert_eq!(upc, "999"),
        other => panic!("expected ItemNotFound, got {:?}", other),
    }
    assert_eq!(store.items[0].quantity, 5);
    assert_eq!(store.accounts[0].balance, Money::new(10_000));
    assert_eq!(store.ledger.len(), 0);
    assert_eq!(store.line_items.len(), 0);
    assert_eq!(store.movements.len(), 0);
}

#[test]
fn duplicate_codes_draw_from_the_same_stock() {
    // two pairs of one code claim the same stock: 2 + 2 of 3 on hand fails
    let (mut store, id) = store_with_account(10_000);
    store.create_item("111".to_string(), "soap".to_string(), Money::new(100), 3).unwrap();
    let req = withdrawal(7001, 400, vec![pair("111", 2), pair("111", 2)]);
    let err = store.post_transaction(id, &req, 1).unwrap_err();
    match err {
        LedgerError::InsufficientStock { upc, available, requested } => {
            assert_eq!(upc, "111");
            assert_eq!(available, 1);
            assert_eq!(requested, 2);
        },
        other => panic!("expected InsufficientStock, got {:?}", other),
    }
    assert_eq!(store.items[0].quantity, 3);
}

#[test]
fn account_not_found() {
    let (mut store, id) = store_with_account(100);
    let err = store.post_transaction(id + 1, &credit(7001, 50), 1).unwrap_err();
    assert!(matches!(err, LedgerError::AccountNotFound));
    assert_eq!(store.accounts[0].balance, Money::new(100));
}

#[test]
fn account_deleted() {
    let (mut store, id) = store_with_account(100);
    store.accounts[0].is_deleted = true;
    let err = store.post_transaction(id, &credit(7001, 50), 1).unwrap_err();
    assert!(matches!(err, LedgerError::AccountDeleted));
}

#[test]
fn missing_items() {
    let (mut store, id) = store_with_account(100);
    let none = PostTransaction {
        doc: 7001,
        kind: TxKind::Withdrawal,
        amount: Money::new(10),
        items: None,
    };
    assert!(matches!(
        store.post_transaction(id, &none, 1).unwrap_err(),
        LedgerError::MissingItems
    ));
    let empty = withdrawal(7001, 10, vec![]);
    assert!(matches!(
        store.post_transaction(id, &empty, 1).unwrap_err(),
        LedgerError::MissingItems
    ));
}

#[test]
fn balance_overflow_is_rejected() {
    let (mut store, id) = store_with_account(u64::MAX);
    let err = store.post_transaction(id, &credit(7001, 1), 1).unwrap_err();
    assert!(matches!(
        err,
        LedgerError::PersistenceFailure(FailureCause::BalanceOverflow)
    ));
    assert_eq!(store.accounts[0].balance, Money::new(u64::MAX));
    assert_eq!(store.ledger.len(), 0);
}

#[test]
fn exhausted_id_space_is_rejected() {
    let (mut store, id) = store_with_account(100);
    store.next_id = u64::MAX;
    let err = store.post_transaction(id, &credit(7001, 1), 1).unwrap_err();
    assert!(matches!(
        err,
        LedgerError::PersistenceFailure(FailureCause::IdSpaceExhausted)
    ));
    assert_eq!(store.accounts[0].balance, Money::new(100));
    assert_eq!(store.ledger.len(), 0);
}

#[test]
fn stale_version_conflicts() {
    let (mut store, id) = store_with_account(500);
    let observed = store.version;
    store.post_transaction_versioned(observed, id, &credit(7001, 100), 1).unwrap();
    // a second writer that still holds the old version must not commit
    let err = store
        .post_transaction_versioned(observed, id, &credit(7001, 100), 2)
        .unwrap_err();
    assert!(matches!(err, LedgerError::ConcurrencyConflict));
    assert_eq!(store.accounts[0].balance, Money::new(600));
    assert_eq!(store.ledger.len(), 1);
}

#[test]
fn combined_overdraw_cannot_commit_twice() {
    // two withdrawals of 300 against 500: exactly one succeeds
    let (mut store, id) = store_with_account(500);
    store.create_item("111".to_string(), "soap".to_string(), Money::new(300), 10).unwrap();
    let req = withdrawal(7001, 300, vec![pair("111", 1)]);
    store.post_transaction(id, &req, 1).unwrap();
    let err = store.post_transaction(id, &req, 2).unwrap_err();
    match err {
        LedgerError::InsufficientFunds { available, required } => {
            assert_eq!(available, Money::new(200));
            assert_eq!(required, Money::new(300));
        },
        other => panic!("expected InsufficientFunds, got {:?}", other),
    }
    assert_eq!(store.accounts[0].balance, Money::new(200));
    assert_eq!(store.items[0].quantity, 9);
}

#[test]
fn process_transaction_delegates() {
    let (mut store, id) = store_with_account(1200);
    let req = credit(7001, 500);
    let result = req.process_transaction(&mut store, id, 3).unwrap();
    assert_eq!(result.balance, Money::new(1700));
    assert_eq!(result.doc, 7001);
}

#[test]
fn create_item_rejects_duplicate_code() {
    let mut store = Store::new();
    store.create_item("111".to_string(), "soap".to_string(), Money::new(100), 1).unwrap();
    assert!(store
        .create_item("111".to_string(), "other".to_string(), Money::new(200), 2)
        .is_none());
    assert_eq!(store.items.len(), 1);
}

#[test]
fn version_counts_commits_only() {
    let (mut store, id) = store_with_account(100);
    let v0 = store.version;
    let _ = store.post_transaction(id + 9, &credit(7001, 1), 1);
    assert_eq!(store.version, v0);
    store.post_transaction(id, &credit(7001, 1), 1).unwrap();
    assert_eq!(store.version, v0 + 1);
}
