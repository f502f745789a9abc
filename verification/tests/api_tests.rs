use scan_mvcf::auth::{Claims, LoginForm, PostUser};
use scan_mvcf::errors::LedgerError;
use scan_mvcf::locations::LocationsError;
use scan_mvcf::money::Money;
use scan_mvcf::orders::{ReturnItem, ReturnOrder};
use scan_mvcf::records::{LedgerEntry, LineItem, TxKind};
use scan_mvcf::residents::{ErrorType, ResidentsError, Rfid};
use scan_mvcf::response::{FilterOpts, Response, SortOrder};

fn opts(sort_order: Option<&str>) -> FilterOpts {
    FilterOpts {
        unique: None,
        per_page: None,
        page: None,
        sort_order: sort_order.map(|s| s.to_string()),
        all: None,
        range: None,
        location: None,
        rfid: None,
        doc: None,
        order_id: None,
        current: None,
        active_scan: None,
    }
}

#[test]
fn sort_order_defaults_to_ascending() {
    assert_eq!(opts(Some("asc")).sort_order(), SortOrder::Asc);
    assert_eq!(opts(Some("desc")).sort_order(), SortOrder::Desc);
    assert_eq!(opts(Some("sideways")).sort_order(), SortOrder::Asc);
    assert_eq!(opts(None).sort_order(), SortOrder::Asc);
}

#[test]
fn response_constructors() {
    let ok: Response<u32> = Response::from_success("done");
    assert!(ok.success);
    assert_eq!(ok.message, "done");
    assert!(ok.data.is_none());

    let err: Response<u32> = Response::from_error("broken");
    assert!(!err.success);
    assert_eq!(err.message, "broken");
    assert!(err.data.is_none());

    let rows = Response::from_vec(vec![1u32, 2, 3]);
    assert!(rows.success);
    assert_eq!(rows.message, "Data successfully retrieved");
    assert_eq!(rows.data, Some(vec![1, 2, 3]));

    let one = Response::from_data(41u32);
    assert_eq!(one.data, Some(vec![41]));

    let missing: Response<u32> = Response::resident_not_found();
    assert!(!missing.success);
    assert_eq!(missing.message, "Resident not found");
}

#[test]
fn response_from_paginator_reports_totals() {
    let page = Response::from_paginator(4, 37, vec![10u32, 20]);
    assert!(page.success);
    assert_eq!(page.message, "total_pages=4,total_items=37");
    assert_eq!(page.data, Some(vec![10, 20]));
    let empty: Response<u32> = Response::from_paginator(0, 0, vec![]);
    assert_eq!(empty.message, "total_pages=0,total_items=0");
}

#[test]
fn response_from_join_flattens_pairs() {
    let joined = Response::from_join(vec![(1u32, 2u32), (3, 4)]);
    assert!(joined.success);
    assert_eq!(joined.data, Some(vec![1, 2, 3, 4]));
    let empty: Response<u32> = Response::from_join(vec![]);
    assert_eq!(empty.data, Some(vec![]));
}

#[test]
fn residents_error_messages() {
    assert_eq!(
        ResidentsError::get(ErrorType::Delete).0,
        "Unable to delete Resident from database"
    );
    assert_eq!(
        ResidentsError::get(ErrorType::Store).0,
        "Unable to create Resident in database"
    );
    assert_eq!(
        ResidentsError::get(ErrorType::Update).0,
        "Unable to update Resident in database"
    );
    assert_eq!(ResidentsError::get(ErrorType::NotFound).0, "No Resident found with id");
    assert_eq!(
        ResidentsError::get(ErrorType::Database).0,
        "An error occurred with your query, please check your inputs"
    );
    assert_eq!(
        ResidentsError::get(ErrorType::Validation).0,
        "A validation error occured on the input"
    );
    assert_eq!(
        ResidentsError::get(ErrorType::Custom("db is down".to_string())).0,
        "An error occurred: db is down"
    );
    assert_eq!(ResidentsError::new("plain".to_string()).0, "plain");
}

#[test]
fn ledger_error_messages() {
    assert_eq!(LedgerError::AccountNotFound.message(), "Account not found");
    assert_eq!(
        LedgerError::InsufficientFunds {
            available: Money::new(1),
            required: Money::new(2),
        }
        .message(),
        "Insufficient funds"
    );
    assert_eq!(LedgerError::ConcurrencyConflict.message(), "Concurrent update, please retry");
}

#[test]
fn claims_default_is_invalid() {
    let claims = Claims::default();
    assert!(!claims.is_valid());
    assert_eq!(claims.sub, "");
    assert_eq!(claims.exp, 0);
    let live = Claims { valid: true, sub: "admin@example.com".to_string(), exp: 99 };
    assert!(live.is_valid());
}

#[test]
fn plain_request_shapes_hold_their_fields() {
    let form = LoginForm { email: "a@b.c".to_string(), password: "pw".to_string() };
    assert_eq!(form, form.clone());
    let user = PostUser { email: "a@b.c".to_string(), password: "pw".to_string() };
    assert_eq!(user, user.clone());
    let rfid = Rfid { rfid: "338888222889999".to_string() };
    assert_eq!(rfid.rfid.len(), 15);
    let loc_err = LocationsError("bad input".to_string());
    assert_eq!(loc_err.0, "bad input");
}

#[test]
fn return_orders_from_entries() {
    let entry = |id: u64| LedgerEntry {
        id,
        account_id: 1,
        doc: 7001,
        kind: TxKind::Withdrawal,
        amount: Money::new(100),
        created_at: 0,
    };
    let li = |id: u64, item_id: u64, quantity: u64| LineItem {
        id,
        transaction_id: 0,
        item_id,
        quantity,
    };
    let orders = ReturnOrder::from_vec(vec![
        (entry(10), vec![li(21, 5, 2), li(22, 6, 3)]),
        (entry(11), vec![]),
    ]);
    assert_eq!(orders.len(), 2);
    assert_eq!(orders[0].transaction_id, 10);
    assert_eq!(
        orders[0].items,
        vec![
            ReturnItem { item_id: 21, quantity: 2 },
            ReturnItem { item_id: 22, quantity: 3 },
        ]
    );
    // the rendered quantity is the last line's quantity
    assert_eq!(orders[0].quantity, 3);
    assert_eq!(orders[1].transaction_id, 11);
    assert_eq!(orders[1].items, vec![]);
    assert_eq!(orders[1].quantity, 0);
}
