use time::{format_description, PrimitiveDateTime};
use wallet_ledger::amount::Amount;
use wallet_ledger::balance::{calculate_balance, checked_balance, clamp_balance, net_flow};
use wallet_ledger::transaction::{Transaction, TransactionType};

const MY_ADDRESS: &str = "0xABC";
const OTHER_ADDRESS: &str = "0xDEF";

fn create_tx(
    from: &str,
    to: &str,
    amount: i64,
    transaction_type: TransactionType,
    created_at: Option<&str>,
) -> Transaction {
    let created_at_parsed = created_at.map(|date_str| {
        let format =
            format_description::parse("[year]-[month]-[day] [hour]:[minute]:[second]").unwrap();
        PrimitiveDateTime::parse(date_str, &format).unwrap()
    });

    Transaction {
        id: None,
        address_from: from.to_string(),
        address_to: to.to_string(),
        amount: Amount::new(amount, 0),
        transaction_type,
        created_at: created_at_parsed,
    }
}

fn decimal(mantissa: i64, scale: u32) -> Amount {
    Amount::new(mantissa, scale)
}

#[test]
fn test_empty_transactions() {
    assert_eq!(calculate_balance(MY_ADDRESS, &vec![]), Amount::new(0, 0));
}

#[test]
fn test_only_deposits_to_me() {
    let transactions = vec![
        create_tx(OTHER_ADDRESS, MY_ADDRESS, 100, TransactionType::Deposit, None),
        create_tx(OTHER_ADDRESS, MY_ADDRESS, 200, TransactionType::Deposit, None),
    ];
    assert_eq!(
        calculate_balance(MY_ADDRESS, &transactions),
        Amount::new(300, 0)
    );
}

#[test]
fn test_only_withdrawals_from_me() {
    let transactions = vec![
        create_tx(MY_ADDRESS, OTHER_ADDRESS, 100, TransactionType::Withdrawal, None),
        create_tx(MY_ADDRESS, OTHER_ADDRESS, 50, TransactionType::Withdrawal, None),
    ];
    // The signed total is -150; a balance is never reported below zero.
    assert_eq!(
        net_flow(MY_ADDRESS, &transactions),
        Some(Amount::new(-150, 0))
    );
    assert_eq!(
        calculate_balance(MY_ADDRESS, &transactions),
        Amount::new(0, 0)
    );
}

#[test]
fn test_mixed_transactions_to_and_from_me() {
    let transactions = vec![
        create_tx(OTHER_ADDRESS, MY_ADDRESS, 100, TransactionType::Deposit, None),
        create_tx(MY_ADDRESS, OTHER_ADDRESS, 50, TransactionType::Withdrawal, None),
        create_tx(OTHER_ADDRESS, MY_ADDRESS, 200, TransactionType::Deposit, None),
    ];
    assert_eq!(
        calculate_balance(MY_ADDRESS, &transactions),
        Amount::new(250, 0)
    );
}

#[test]
fn test_balance_zero_equal_in_and_out() {
    let transactions = vec![
        create_tx(OTHER_ADDRESS, MY_ADDRESS, 150, TransactionType::Deposit, None),
        create_tx(MY_ADDRESS, OTHER_ADDRESS, 150, TransactionType::Withdrawal, None),
    ];
    assert_eq!(
        calculate_balance(MY_ADDRESS, &transactions),
        Amount::new(0, 0)
    );
}

#[test]
fn test_transactions_not_involving_me() {
    let transactions = vec![
        create_tx("0x111", "0x222", 100, TransactionType::Deposit, None),
        create_tx("0x333", "0x444", 50, TransactionType::Withdrawal, None),
    ];
    assert_eq!(
        calculate_balance(MY_ADDRESS, &transactions),
        Amount::new(0, 0)
    );
}

#[test]
fn test_zero_amount_transaction() {
    let transactions = vec![
        create_tx(OTHER_ADDRESS, MY_ADDRESS, 0, TransactionType::Deposit, None),
        create_tx(MY_ADDRESS, OTHER_ADDRESS, 0, TransactionType::Withdrawal, None),
    ];
    assert_eq!(
        calculate_balance(MY_ADDRESS, &transactions),
        Amount::new(0, 0)
    );
}

#[test]
fn test_mixed_with_irrelevant_transactions() {
    let transactions = vec![
        create_tx(OTHER_ADDRESS, MY_ADDRESS, 100, TransactionType::Deposit, None),
        create_tx(MY_ADDRESS, OTHER_ADDRESS, 40, TransactionType::Withdrawal, None),
        create_tx("0x999", "0x888", 999, TransactionType::Deposit, None),
        create_tx(OTHER_ADDRESS, MY_ADDRESS, 60, TransactionType::Deposit, None),
    ];
    // A deposit that the address does not receive counts against it, also
    // where the address did not send it: 100 - 40 - 999 + 60.
    assert_eq!(
        net_flow(MY_ADDRESS, &transactions),
        Some(Amount::new(-879, 0))
    );
    assert_eq!(
        calculate_balance(MY_ADDRESS, &transactions),
        Amount::new(0, 0)
    );
    // A history that holds only the records of the address gives 120.
    let own = vec![
        create_tx(OTHER_ADDRESS, MY_ADDRESS, 100, TransactionType::Deposit, None),
        create_tx(MY_ADDRESS, OTHER_ADDRESS, 40, TransactionType::Withdrawal, None),
        create_tx(OTHER_ADDRESS, MY_ADDRESS, 60, TransactionType::Deposit, None),
    ];
    assert_eq!(calculate_balance(MY_ADDRESS, &own), Amount::new(120, 0));
}

#[test]
fn balance_is_never_negative() {
    let histories = vec![
        vec![],
        vec![create_tx(MY_ADDRESS, OTHER_ADDRESS, 7, TransactionType::Withdrawal, None)],
        vec![create_tx(MY_ADDRESS, OTHER_ADDRESS, 7, TransactionType::Deposit, None)],
        vec![
            create_tx(OTHER_ADDRESS, MY_ADDRESS, 5, TransactionType::Deposit, None),
            create_tx(MY_ADDRESS, OTHER_ADDRESS, 9, TransactionType::Withdrawal, None),
        ],
    ];
    for history in &histories {
        let balance = calculate_balance(MY_ADDRESS, history);
        assert!(!balance.is_negative());
        assert!(balance.mantissa() >= 0);
    }
}

#[test]
fn first_deposit_gives_its_amount() {
    let history = vec![create_tx(OTHER_ADDRESS, MY_ADDRESS, 42, TransactionType::Deposit, None)];
    assert_eq!(calculate_balance(MY_ADDRESS, &history), Amount::new(42, 0));
    assert_eq!(net_flow(MY_ADDRESS, &history), Some(Amount::new(42, 0)));
}

#[test]
fn first_withdrawal_is_clamped_to_zero() {
    let history = vec![create_tx(MY_ADDRESS, OTHER_ADDRESS, 42, TransactionType::Withdrawal, None)];
    assert_eq!(net_flow(MY_ADDRESS, &history), Some(Amount::new(-42, 0)));
    assert_eq!(calculate_balance(MY_ADDRESS, &history), Amount::new(0, 0));
}

#[test]
fn deposit_sent_by_the_address_is_an_outflow() {
    let history = vec![
        create_tx(OTHER_ADDRESS, MY_ADDRESS, 100, TransactionType::Deposit, None),
        create_tx(MY_ADDRESS, OTHER_ADDRESS, 30, TransactionType::Deposit, None),
    ];
    assert_eq!(calculate_balance(MY_ADDRESS, &history), Amount::new(70, 0));
}

#[test]
fn withdrawal_sent_by_another_is_an_inflow() {
    let history = vec![create_tx(OTHER_ADDRESS, MY_ADDRESS, 30, TransactionType::Withdrawal, None)];
    assert_eq!(calculate_balance(MY_ADDRESS, &history), Amount::new(30, 0));
}

#[test]
fn unrelated_record_of_zero_changes_nothing() {
    let mut history = vec![create_tx(OTHER_ADDRESS, MY_ADDRESS, 100, TransactionType::Deposit, None)];
    let before = calculate_balance(MY_ADDRESS, &history);
    history.push(create_tx("0x999", "0x888", 0, TransactionType::Deposit, None));
    assert_eq!(calculate_balance(MY_ADDRESS, &history), before);
    history.push(create_tx("0x999", "0x888", 0, TransactionType::Withdrawal, None));
    assert_eq!(calculate_balance(MY_ADDRESS, &history), before);
}

#[test]
fn unrelated_record_with_an_amount_changes_the_balance() {
    let history = vec![
        create_tx(OTHER_ADDRESS, MY_ADDRESS, 100, TransactionType::Deposit, None),
        create_tx("0x999", "0x888", 999, TransactionType::Deposit, None),
    ];
    assert_eq!(calculate_balance(MY_ADDRESS, &history), Amount::new(0, 0));
    let history = vec![create_tx("0x999", "0x888", 5, TransactionType::Withdrawal, None)];
    assert_eq!(calculate_balance(MY_ADDRESS, &history), Amount::new(5, 0));
}

#[test]
fn amounts_of_different_scales_are_added_exactly() {
    let mut first = create_tx(OTHER_ADDRESS, MY_ADDRESS, 0, TransactionType::Deposit, None);
    first.amount = decimal(15, 1);
    let mut second = create_tx(OTHER_ADDRESS, MY_ADDRESS, 0, TransactionType::Deposit, None);
    second.amount = decimal(225, 2);
    let mut third = create_tx(MY_ADDRESS, OTHER_ADDRESS, 0, TransactionType::Withdrawal, None);
    third.amount = decimal(1, 3);
    let balance = calculate_balance(MY_ADDRESS, &vec![first, second, third]);
    assert_eq!(balance, decimal(3749, 3));
    assert_eq!(balance.mantissa(), 3749);
    assert_eq!(balance.scale(), 3);
}

#[test]
fn overflowing_fold_has_no_balance() {
    let largest = Amount::try_from_parts(79_228_162_514_264_337_593_543_950_335, 0).unwrap();
    let mut first = create_tx(OTHER_ADDRESS, MY_ADDRESS, 0, TransactionType::Deposit, None);
    first.amount = largest;
    let mut second = create_tx(OTHER_ADDRESS, MY_ADDRESS, 0, TransactionType::Deposit, None);
    second.amount = largest;
    let third = create_tx(MY_ADDRESS, OTHER_ADDRESS, 1, TransactionType::Withdrawal, None);
    let history = vec![first, second, third];
    assert_eq!(net_flow(MY_ADDRESS, &history), None);
    assert_eq!(checked_balance(MY_ADDRESS, &history), None);
    assert_eq!(checked_balance(MY_ADDRESS, &history[..1]), Some(largest));
}

#[test]
fn checked_balance_agrees_with_calculate_balance() {
    let history = vec![
        create_tx(OTHER_ADDRESS, MY_ADDRESS, 100, TransactionType::Deposit, None),
        create_tx(MY_ADDRESS, OTHER_ADDRESS, 40, TransactionType::Withdrawal, None),
    ];
    assert_eq!(checked_balance(MY_ADDRESS, &history), Some(Amount::new(60, 0)));
    assert_eq!(checked_balance(MY_ADDRESS, &[]), Some(Amount::new(0, 0)));
}

#[test]
fn clamp_keeps_what_is_not_negative() {
    assert_eq!(clamp_balance(Amount::new(-1, 0)), Amount::new(0, 0));
    assert_eq!(clamp_balance(Amount::new(-1, 28)), Amount::new(0, 0));
    assert_eq!(clamp_balance(Amount::new(0, 0)), Amount::new(0, 0));
    assert_eq!(clamp_balance(Amount::new(1, 28)), Amount::new(1, 28));
    assert_eq!(clamp_balance(Amount::new(77, 1)).mantissa(), 77);
}

#[test]
fn stored_record_with_timestamp_folds_like_any_other() {
    let mut tx = create_tx(
        OTHER_ADDRESS,
        MY_ADDRESS,
        10,
        TransactionType::Deposit,
        Some("2024-05-01 10:20:30"),
    );
    tx.id = Some(7);
    assert!(tx.created_at.is_some());
    assert_eq!(calculate_balance(MY_ADDRESS, &[tx]), Amount::new(10, 0));
}

#[test]
fn order_of_the_records_does_not_matter() {
    let records = || {
        vec![
            create_tx(OTHER_ADDRESS, MY_ADDRESS, 100, TransactionType::Deposit, None),
            create_tx(MY_ADDRESS, OTHER_ADDRESS, 40, TransactionType::Withdrawal, None),
            create_tx(MY_ADDRESS, OTHER_ADDRESS, 25, TransactionType::Deposit, None),
        ]
    };
    let orders: [[usize; 3]; 6] = [
        [0, 1, 2],
        [0, 2, 1],
        [1, 0, 2],
        [1, 2, 0],
        [2, 0, 1],
        [2, 1, 0],
    ];
    for order in orders {
        let mut pool: Vec<Option<Transaction>> = records().into_iter().map(Some).collect();
        let history: Vec<Transaction> = order.iter().map(|&i| pool[i].take().unwrap()).collect();
        assert_eq!(net_flow(MY_ADDRESS, &history), Some(Amount::new(35, 0)));
        assert_eq!(calculate_balance(MY_ADDRESS, &history), Amount::new(35, 0));
    }
}

#[test]
fn amounts_of_one_scale_add_up_as_integers() {
    let mut history = Vec::new();
    for cents in [1999i64, 1, 250, 75] {
        let mut tx = create_tx(OTHER_ADDRESS, MY_ADDRESS, 0, TransactionType::Deposit, None);
        tx.amount = decimal(cents, 2);
        history.push(tx);
    }
    let mut out = create_tx(MY_ADDRESS, OTHER_ADDRESS, 0, TransactionType::Withdrawal, None);
    out.amount = decimal(325, 2);
    history.push(out);
    let total = net_flow(MY_ADDRESS, &history).unwrap();
    assert_eq!(total.mantissa(), 2000);
    assert_eq!(total.scale(), 2);
    assert_eq!(calculate_balance(MY_ADDRESS, &history), Amount::new(20, 0));
}
