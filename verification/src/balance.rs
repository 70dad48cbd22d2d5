//! The balance of an address: its history folded into one amount, never
//! reported below zero.

use crate::amount::{
    amount_lt, difference_spec, lemma_lt_zero, lemma_same_value, same_value, sum_spec, view_opt,
    zero_view, Amount, AmountView, MAX_MANTISSA,
};
use crate::transaction::{history_view, Transaction, TransactionType, TransactionView};
use vstd::prelude::*;
use vstd::seq_lib::{to_multiset_contains, to_multiset_len, to_multiset_remove};
use vstd::string::StringExecFns;

verus! {

/// Whether a record adds to the balance of `address`: a deposit that
/// `address` receives, or a withdrawal that `address` did not send. Every
/// other record takes its amount away.
pub open spec fn is_inflow(address: Seq<char>, tx: TransactionView) -> bool {
    match tx.transaction_type {
        TransactionType::Deposit => tx.address_to == address,
        TransactionType::Withdrawal => tx.address_from != address,
    }
}

/// The running total after one more record; `None` where the decimal
/// arithmetic cannot represent it.
pub open spec fn apply_spec(address: Seq<char>, total: AmountView, tx: TransactionView) -> Option<
    AmountView,
> {
    if is_inflow(address, tx) {
        sum_spec(total, tx.amount)
    } else {
        difference_spec(total, tx.amount)
    }
}

/// The signed total of a history as seen from `address`, folded from zero in
/// the order of the records; `None` from the first step on that the decimal
/// arithmetic cannot represent.
pub open spec fn net_flow_spec(address: Seq<char>, history: Seq<TransactionView>) -> Option<
    AmountView,
>
    decreases history.len(),
{
    if history.len() == 0 {
        Some(zero_view())
    } else {
        match net_flow_spec(address, history.drop_last()) {
            Some(total) => apply_spec(address, total, history.last()),
            None => None,
        }
    }
}

/// The mantissa of a record's amount, with the sign under which the record
/// enters the total of `address`.
pub open spec fn signed_mantissa(address: Seq<char>, tx: TransactionView) -> int {
    if is_inflow(address, tx) {
        tx.amount.mantissa
    } else {
        -tx.amount.mantissa
    }
}

/// The sum of the signed mantissas of a history, as plain integers.
pub open spec fn exact_total(address: Seq<char>, history: Seq<TransactionView>) -> int
    decreases history.len(),
{
    if history.len() == 0 {
        0
    } else {
        exact_total(address, history.drop_last()) + signed_mantissa(address, history.last())
    }
}

/// Every amount of the history has `scale` decimal places, and the sum of
/// the signed mantissas stays within 96 bits after each record.
pub open spec fn one_scale_in_range(
    address: Seq<char>,
    history: Seq<TransactionView>,
    scale: nat,
) -> bool {
    &&& forall|i: int| 0 <= i < history.len() ==> (#[trigger] history[i]).amount.scale == scale
    &&& forall|k: int|
        0 <= k <= history.len() ==> -MAX_MANTISSA <= #[trigger] exact_total(
            address,
            history.take(k),
        ) <= MAX_MANTISSA
}

/// A balance is never reported below zero.
pub open spec fn clamp_spec(total: AmountView) -> AmountView {
    if total.mantissa < 0 {
        zero_view()
    } else {
        total
    }
}

/// The balance of `address` after `history`.
pub open spec fn balance_spec(address: Seq<char>, history: Seq<TransactionView>) -> Option<
    AmountView,
> {
    match net_flow_spec(address, history) {
        Some(total) => Some(clamp_spec(total)),
        None => None,
    }
}

/// Once a step of the fold cannot be represented, no longer history can.
pub proof fn lemma_overflow_persists(address: Seq<char>, history: Seq<TransactionView>, k: int)
    requires
        0 <= k <= history.len(),
        net_flow_spec(address, history.take(k)).is_none(),
    ensures
        net_flow_spec(address, history).is_none(),
    decreases history.len() - k,
{
    if k == history.len() {
        assert(history.take(k) =~= history);
    } else {
        assert(history.take(k + 1).drop_last() =~= history.take(k));
        lemma_overflow_persists(address, history, k + 1);
    }
}

/// The running total of `address` after the record `tx`: each kind of
/// record, seen from either side.
fn apply(address: &String, total: Amount, tx: &Transaction) -> (r: Option<Amount>)
    ensures
        view_opt(r) == apply_spec(address@, total@, tx@),
{
    match tx.transaction_type {
        TransactionType::Deposit => {
            if tx.address_to == *address {
                total.checked_add(tx.amount)
            } else {
                total.checked_sub(tx.amount)
            }
        },
        TransactionType::Withdrawal => {
            if tx.address_from == *address {
                total.checked_sub(tx.amount)
            } else {
                total.checked_add(tx.amount)
            }
        },
    }
}

/// The signed total of `transactions` as seen from `address`, before any
/// clamping; `None` where a step of the fold overflows.
pub fn net_flow(address: &str, transactions: &[Transaction]) -> (r: Option<Amount>)
    ensures
        view_opt(r) == net_flow_spec(address@, history_view(transactions@)),
{
    let owner = String::from_str(address);
    let ghost history = history_view(transactions@);
    let mut total = Amount::zero();
    let mut i: usize = 0;
    proof {
        assert(history.take(0) =~= Seq::<TransactionView>::empty());
    }
    while i < transactions.len()
        invariant
            i <= transactions.len(),
            owner@ == address@,
            history == history_view(transactions@),
            net_flow_spec(address@, history.take(i as int)) == Some(total@),
        decreases transactions.len() - i,
    {
        let next = apply(&owner, total, &transactions[i]);
        proof {
            assert(history.take(i + 1).drop_last() =~= history.take(i as int));
            assert(history.take(i + 1).last() == transactions@[i as int]@);
        }
        match next {
            Some(t) => {
                total = t;
            },
            None => {
                proof {
                    lemma_overflow_persists(address@, history, i + 1);
                }
                return None;
            },
        }
        i += 1;
    }
    proof {
        assert(history.take(i as int) =~= history);
    }
    Some(total)
}

/// The balance that a signed total is reported as: zero where the total is
/// below zero, the total itself otherwise.
pub fn clamp_balance(total: Amount) -> (r: Amount)
    ensures
        r@ == clamp_spec(total@),
        !amount_lt(r@, zero_view()),
{
    proof {
        lemma_lt_zero(clamp_spec(total@));
    }
    if total.is_negative() {
        Amount::zero()
    } else {
        total
    }
}

/// The balance of `address` after `transactions`. The fold must stay within
/// what the decimal arithmetic can represent; `checked_balance` tests that.
pub fn calculate_balance(address: &str, transactions: &[Transaction]) -> (r: Amount)
    requires
        net_flow_spec(address@, history_view(transactions@)).is_some(),
    ensures
        Some(r@) == balance_spec(address@, history_view(transactions@)),
        !amount_lt(r@, zero_view()),
{
    match net_flow(address, transactions) {
        Some(total) => clamp_balance(total),
        // Not reached: the fold is representable.
        None => Amount::zero(),
    }
}

/// The balance of `address` after `transactions`, or `None` where a step of
/// the fold overflows.
pub fn checked_balance(address: &str, transactions: &[Transaction]) -> (r: Option<Amount>)
    ensures
        view_opt(r) == balance_spec(address@, history_view(transactions@)),
        r.is_some() ==> !amount_lt(r.unwrap()@, zero_view()),
{
    match net_flow(address, transactions) {
        Some(_) => Some(calculate_balance(address, transactions)),
        None => None,
    }
}

/// Where all amounts have one scale and the running sum stays within 96
/// bits, the signed total is the plain sum of the signed mantissas at that
/// scale: no rounding takes place and the fold does not overflow.
pub proof fn lemma_net_flow_of_one_scale(
    address: Seq<char>,
    history: Seq<TransactionView>,
    scale: nat,
)
    requires
        one_scale_in_range(address, history, scale),
    ensures
        net_flow_spec(address, history).is_some(),
        net_flow_spec(address, history).unwrap().mantissa == exact_total(address, history),
        history.len() > 0 ==> net_flow_spec(address, history).unwrap().scale == scale,
    decreases history.len(),
{
    if history.len() > 0 {
        let shorter = history.drop_last();
        assert forall|k: int| 0 <= k <= shorter.len() implies -MAX_MANTISSA <= #[trigger] exact_total(
            address,
            shorter.take(k),
        ) <= MAX_MANTISSA by {
            assert(shorter.take(k) =~= history.take(k));
        }
        assert forall|i: int| 0 <= i < shorter.len() implies (#[trigger] shorter[i]).amount.scale
            == scale by {
            assert(shorter[i] == history[i]);
        }
        lemma_net_flow_of_one_scale(address, shorter, scale);
        let total = net_flow_spec(address, shorter).unwrap();
        let tx = history.last();
        assert(history.take(history.len() as int) =~= history);
        assert(tx == history[history.len() - 1]);
        assert(tx.amount.scale == scale);
        assert(exact_total(address, history) == total.mantissa + signed_mantissa(address, tx));
        assert(-MAX_MANTISSA <= exact_total(address, history) <= MAX_MANTISSA);
        if shorter.len() == 0 {
            assert(total == zero_view());
        } else {
            assert(total.scale == scale);
        }
        let next = apply_spec(address, total, tx);
        assert(next.is_some() && next.unwrap().mantissa == exact_total(address, history)
            && next.unwrap().scale == scale);
    }
}

/// Taking one record out of a history takes its signed mantissa out of the
/// plain sum.
pub proof fn lemma_exact_total_remove(address: Seq<char>, history: Seq<TransactionView>, i: int)
    requires
        0 <= i < history.len(),
    ensures
        exact_total(address, history) == exact_total(address, history.remove(i)) + signed_mantissa(
            address,
            history[i],
        ),
    decreases history.len(),
{
    if i == history.len() - 1 {
        assert(history.remove(i) =~= history.drop_last());
    } else {
        let shorter = history.drop_last();
        lemma_exact_total_remove(address, shorter, i);
        assert(history.remove(i).drop_last() =~= shorter.remove(i));
        assert(history.remove(i).last() == history.last());
        assert(shorter[i] == history[i]);
    }
}

/// The plain sum of the signed mantissas does not depend on the order of the
/// records.
pub proof fn lemma_exact_total_of_permutation(
    address: Seq<char>,
    first: Seq<TransactionView>,
    second: Seq<TransactionView>,
)
    requires
        first.to_multiset() == second.to_multiset(),
    ensures
        exact_total(address, first) == exact_total(address, second),
    decreases first.len(),
{
    to_multiset_len(first);
    to_multiset_len(second);
    if first.len() > 0 {
        let n = first.len() - 1;
        let x = first[n];
        assert(first.contains(x));
        to_multiset_contains(first, x);
        to_multiset_contains(second, x);
        let j = choose|j: int| 0 <= j < second.len() && second[j] == x;
        to_multiset_remove(first, n);
        to_multiset_remove(second, j);
        assert(first.remove(n) =~= first.drop_last());
        lemma_exact_total_of_permutation(address, first.drop_last(), second.remove(j));
        lemma_exact_total_remove(address, second, j);
    }
}

/// The order of the records does not matter: two histories that hold the
/// same records, all amounts of one scale and the running sum within 96 bits
/// in either order, fold to the same signed total and the same balance.
pub proof fn lemma_order_is_irrelevant(
    address: Seq<char>,
    first: Seq<TransactionView>,
    second: Seq<TransactionView>,
    scale: nat,
)
    requires
        first.to_multiset() == second.to_multiset(),
        one_scale_in_range(address, first, scale),
        one_scale_in_range(address, second, scale),
    ensures
        net_flow_spec(address, first).is_some(),
        net_flow_spec(address, first) == net_flow_spec(address, second),
        balance_spec(address, first) == balance_spec(address, second),
{
    to_multiset_len(first);
    to_multiset_len(second);
    lemma_exact_total_of_permutation(address, first, second);
    lemma_net_flow_of_one_scale(address, first, scale);
    lemma_net_flow_of_one_scale(address, second, scale);
}

/// A balance is never below zero, whatever the history and the address.
pub proof fn lemma_balance_never_negative(address: Seq<char>, history: Seq<TransactionView>)
    ensures
        match balance_spec(address, history) {
            Some(balance) => balance.mantissa >= 0 && !amount_lt(balance, zero_view()),
            None => true,
        },
{
    if let Some(balance) = balance_spec(address, history) {
        lemma_lt_zero(balance);
    }
}

/// Without any history the balance of every address is zero.
pub proof fn lemma_balance_of_empty_history(address: Seq<char>)
    ensures
        balance_spec(address, Seq::empty()) == Some(zero_view()),
{
}

/// A first deposit to `address` brings its signed total to the amount
/// deposited, and its balance too where the amount is not below zero.
pub proof fn lemma_first_deposit(address: Seq<char>, tx: TransactionView)
    requires
        tx.transaction_type == TransactionType::Deposit,
        tx.address_to == address,
    ensures
        net_flow_spec(address, seq![tx]) == Some(tx.amount),
        balance_spec(address, seq![tx]) == Some(clamp_spec(tx.amount)),
        tx.amount.mantissa >= 0 ==> balance_spec(address, seq![tx]) == Some(tx.amount),
{
    let history = seq![tx];
    assert(history.drop_last() =~= Seq::<TransactionView>::empty());
    assert(history.last() == tx);
    assert(net_flow_spec(address, history.drop_last()) == Some(zero_view()));
}

/// A first withdrawal from `address` brings its signed total to the amount
/// withdrawn with its sign reversed; the balance is then reported as zero
/// where the amount is not below zero.
pub proof fn lemma_first_withdrawal(address: Seq<char>, tx: TransactionView)
    requires
        tx.transaction_type == TransactionType::Withdrawal,
        tx.address_from == address,
    ensures
        net_flow_spec(address, seq![tx]) == Some(
            AmountView { mantissa: -tx.amount.mantissa, scale: tx.amount.scale },
        ),
        tx.amount.mantissa > 0 ==> balance_spec(address, seq![tx]) == Some(zero_view()),
        tx.amount.mantissa >= 0 ==> balance_spec(address, seq![tx]).unwrap().mantissa == 0,
{
    let history = seq![tx];
    assert(history.drop_last() =~= Seq::<TransactionView>::empty());
    assert(history.last() == tx);
    assert(net_flow_spec(address, history.drop_last()) == Some(zero_view()));
}

/// A record that names `address` on neither side and moves nothing leaves
/// the balance of `address` the number that it was.
pub proof fn lemma_unrelated_zero_record(
    address: Seq<char>,
    history: Seq<TransactionView>,
    tx: TransactionView,
)
    requires
        tx.address_from != address,
        tx.address_to != address,
        tx.amount.mantissa == 0,
    ensures
        match (balance_spec(address, history), balance_spec(address, history.push(tx))) {
            (Some(before), Some(after)) => same_value(before, after),
            (None, None) => true,
            _ => false,
        },
{
    let longer = history.push(tx);
    assert(longer.drop_last() =~= history);
    assert(longer.last() == tx);
    if let (Some(before), Some(after)) = (
        balance_spec(address, history),
        balance_spec(address, longer),
    ) {
        lemma_same_value(before, after);
    }
}

/// What a record that names `address` on neither side does to its balance,
/// where all amounts have one scale and the running sum stays within 96
/// bits: the record still enters the total, so the balance stays the number
/// that it was only where the record moves nothing, or where the total is
/// not above zero before and after it.
pub proof fn lemma_unrelated_record(
    address: Seq<char>,
    history: Seq<TransactionView>,
    tx: TransactionView,
    scale: nat,
)
    requires
        tx.address_from != address,
        tx.address_to != address,
        one_scale_in_range(address, history.push(tx), scale),
    ensures
        exact_total(address, history.push(tx)) == exact_total(address, history) + (
        match tx.transaction_type {
            TransactionType::Deposit => -tx.amount.mantissa,
            TransactionType::Withdrawal => tx.amount.mantissa,
        }),
        balance_spec(address, history).is_some(),
        balance_spec(address, history.push(tx)).is_some(),
        same_value(
            balance_spec(address, history).unwrap(),
            balance_spec(address, history.push(tx)).unwrap(),
        ) <==> (tx.amount.mantissa == 0 || (exact_total(address, history) <= 0 && exact_total(
            address,
            history.push(tx),
        ) <= 0)),
{
    let longer = history.push(tx);
    assert(longer.drop_last() =~= history);
    assert(longer.last() == tx);
    assert forall|i: int| 0 <= i < history.len() implies (#[trigger] history[i]).amount.scale
        == scale by {
        assert(history[i] == longer[i]);
    }
    assert forall|k: int| 0 <= k <= history.len() implies -MAX_MANTISSA <= #[trigger] exact_total(
        address,
        history.take(k),
    ) <= MAX_MANTISSA by {
        assert(history.take(k) =~= longer.take(k));
    }
    lemma_net_flow_of_one_scale(address, history, scale);
    lemma_net_flow_of_one_scale(address, longer, scale);
    let before = balance_spec(address, history).unwrap();
    let after = balance_spec(address, longer).unwrap();
    lemma_same_value(before, after);
    lemma_same_value(after, before);
}

} // verus!
