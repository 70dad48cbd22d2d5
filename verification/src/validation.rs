//! The rules that a proposed transaction is held to, and the list of those
//! it breaks.

use crate::address::{is_valid_address, well_formed_address};
use crate::amount::{amount_lt, zero_view, Amount, AmountView};
use crate::balance::lemma_balance_of_empty_history;
use crate::balance::{balance_spec, calculate_balance, net_flow, net_flow_spec};
use crate::transaction::{history_view, Transaction, TransactionView};
use vstd::prelude::*;
use vstd::string::StringExecFns;

verus! {

/// A rule that a proposed transaction can break.
#[derive(Debug, Clone, Copy, PartialEq, Eq, Structural)]
pub enum ValidationError {
    InsufficientBalance,
    SelfTransfer,
    InvalidSourceFormat,
    InvalidDestinationFormat,
    NonPositiveAmount,
}

impl ValidationError {
    /// The wording in which the broken rule is reported.
    pub open spec fn text(self) -> Seq<char> {
        match self {
            ValidationError::InsufficientBalance => "Insufficient balance"@,
            ValidationError::SelfTransfer => "Source and destination addresses cannot be the same."@,
            ValidationError::InvalidSourceFormat => "Invalid source address format."@,
            ValidationError::InvalidDestinationFormat => "Invalid destination address format."@,
            ValidationError::NonPositiveAmount => "Transaction amount must be greater than zero."@,
        }
    }

    /// The wording in which the broken rule is reported.
    pub fn message(&self) -> (r: String)
        ensures
            r@ == self.text(),
    {
        match self {
            ValidationError::InsufficientBalance => String::from_str("Insufficient balance"),
            ValidationError::SelfTransfer => String::from_str(
                "Source and destination addresses cannot be the same.",
            ),
            ValidationError::InvalidSourceFormat => String::from_str(
                "Invalid source address format.",
            ),
            ValidationError::InvalidDestinationFormat => String::from_str(
                "Invalid destination address format.",
            ),
            ValidationError::NonPositiveAmount => String::from_str(
                "Transaction amount must be greater than zero.",
            ),
        }
    }
}

/// The one-element list of `error` where `broken` holds, the empty list
/// otherwise.
pub open spec fn error_if(broken: bool, error: ValidationError) -> Seq<ValidationError> {
    if broken {
        seq![error]
    } else {
        Seq::empty()
    }
}

/// The rules that `tx` breaks, in the fixed order of the checks, given the
/// balance of its source address. The balance is only consulted where there
/// is a history: an address without recorded activity is not constrained.
pub open spec fn violations(tx: TransactionView, has_history: bool, balance: AmountView) -> Seq<
    ValidationError,
> {
    error_if(has_history && amount_lt(balance, tx.amount), ValidationError::InsufficientBalance)
        + error_if(tx.address_from == tx.address_to, ValidationError::SelfTransfer)
        + error_if(!well_formed_address(tx.address_from), ValidationError::InvalidSourceFormat)
        + error_if(!well_formed_address(tx.address_to), ValidationError::InvalidDestinationFormat)
        + error_if(tx.amount.mantissa <= 0, ValidationError::NonPositiveAmount)
}

/// The rules that `tx` breaks against `history`; `None` where the balance of
/// its source address cannot be represented.
pub open spec fn validation_spec(tx: TransactionView, history: Seq<TransactionView>) -> Option<
    Seq<ValidationError>,
> {
    match balance_spec(tx.address_from, history) {
        Some(balance) => Some(violations(tx, history.len() > 0, balance)),
        None => None,
    }
}

/// The wording of each error of a list, in order.
pub open spec fn texts(errors: Seq<ValidationError>) -> Seq<Seq<char>> {
    errors.map_values(|e: ValidationError| e.text())
}

/// The characters of each string of a list, in order.
pub open spec fn messages(lines: Seq<String>) -> Seq<Seq<char>> {
    lines.map_values(|s: String| s@)
}

/// The wording of each error of `errors`, in order.
pub fn describe(errors: &Vec<ValidationError>) -> (r: Vec<String>)
    ensures
        messages(r@) == texts(errors@),
{
    let mut lines: Vec<String> = Vec::new();
    let mut i: usize = 0;
    while i < errors.len()
        invariant
            i <= errors.len(),
            lines@.len() == i,
            forall|j: int| 0 <= j < i ==> (#[trigger] lines@[j])@ == errors@[j].text(),
        decreases errors.len() - i,
    {
        lines.push(errors[i].message());
        i += 1;
    }
    proof {
        assert(messages(lines@) =~= texts(errors@));
    }
    lines
}

impl Transaction {
    /// The rules that this candidate breaks, given whether its source address
    /// has a history and the balance that the history folds to.
    pub fn check_against(&self, has_history: bool, balance: &Amount) -> (r: Vec<ValidationError>)
        ensures
            r@ == violations(self@, has_history, balance@),
    {
        let mut errors: Vec<ValidationError> = Vec::new();
        let ghost tx = self@;
        if has_history && balance.lt(&self.amount) {
            errors.push(ValidationError::InsufficientBalance);
        }
        let ghost funds = error_if(
            has_history && amount_lt(balance@, tx.amount),
            ValidationError::InsufficientBalance,
        );
        assert(errors@ =~= funds);
        if self.address_from == self.address_to {
            errors.push(ValidationError::SelfTransfer);
        }
        let ghost parties = funds + error_if(
            tx.address_from == tx.address_to,
            ValidationError::SelfTransfer,
        );
        assert(errors@ =~= parties);
        if !is_valid_address(self.address_from.as_str()) {
            errors.push(ValidationError::InvalidSourceFormat);
        }
        let ghost source = parties + error_if(
            !well_formed_address(tx.address_from),
            ValidationError::InvalidSourceFormat,
        );
        assert(errors@ =~= source);
        if !is_valid_address(self.address_to.as_str()) {
            errors.push(ValidationError::InvalidDestinationFormat);
        }
        let ghost destination = source + error_if(
            !well_formed_address(tx.address_to),
            ValidationError::InvalidDestinationFormat,
        );
        assert(errors@ =~= destination);
        if !self.amount.is_positive() {
            errors.push(ValidationError::NonPositiveAmount);
        }
        assert(errors@ =~= destination + error_if(
            tx.amount.mantissa <= 0,
            ValidationError::NonPositiveAmount,
        ));
        errors
    }

    /// The messages for the rules that this candidate breaks, given whether
    /// its source address has a history and the balance that the history
    /// folds to.
    pub fn validate_against(&self, has_history: bool, balance: &Amount) -> (r: Vec<String>)
        ensures
            messages(r@) == texts(violations(self@, has_history, balance@)),
    {
        let errors = self.check_against(has_history, balance);
        describe(&errors)
    }

    /// The messages for the rules that this candidate breaks against the
    /// history of its source address, in the fixed order of the checks; empty
    /// for an admissible candidate. The fold of the history must stay within
    /// what the decimal arithmetic can represent; `try_validate` tests that.
    pub fn validate(&self, previous_transactions: &[Transaction]) -> (r: Vec<String>)
        requires
            net_flow_spec(self@.address_from, history_view(previous_transactions@)).is_some(),
        ensures
            validation_spec(self@, history_view(previous_transactions@)).is_some(),
            messages(r@) == texts(
                validation_spec(self@, history_view(previous_transactions@)).unwrap(),
            ),
    {
        let balance = calculate_balance(self.address_from.as_str(), previous_transactions);
        self.validate_against(previous_transactions.len() > 0, &balance)
    }

    /// As `validate`, or `None` where the fold of the history overflows.
    pub fn try_validate(&self, previous_transactions: &[Transaction]) -> (r: Option<Vec<String>>)
        ensures
            r.is_some() == validation_spec(self@, history_view(previous_transactions@)).is_some(),
            r.is_some() ==> messages(r.unwrap()@) == texts(
                validation_spec(self@, history_view(previous_transactions@)).unwrap(),
            ),
    {
        match net_flow(self.address_from.as_str(), previous_transactions) {
            Some(_) => Some(self.validate(previous_transactions)),
            None => None,
        }
    }
}

/// A list holds what either of its two parts holds.
pub proof fn lemma_contains_concat(
    a: Seq<ValidationError>,
    b: Seq<ValidationError>,
    e: ValidationError,
)
    ensures
        (a + b).contains(e) <==> a.contains(e) || b.contains(e),
{
    if a.contains(e) {
        let i = choose|i: int| 0 <= i < a.len() && a[i] == e;
        assert((a + b)[i] == e);
    }
    if b.contains(e) {
        let i = choose|i: int| 0 <= i < b.len() && b[i] == e;
        assert((a + b)[a.len() + i] == e);
    }
    if (a + b).contains(e) {
        let i = choose|i: int| 0 <= i < (a + b).len() && (a + b)[i] == e;
        if i < a.len() {
            assert(a[i] == e);
        } else {
            assert(b[i - a.len()] == e);
        }
    }
}

/// Each rule is reported exactly where it is broken: the five checks are
/// independent of one another.
pub proof fn lemma_reported_iff_broken(
    tx: TransactionView,
    has_history: bool,
    balance: AmountView,
    e: ValidationError,
)
    ensures
        violations(tx, has_history, balance).contains(e) <==> match e {
            ValidationError::InsufficientBalance => has_history && amount_lt(balance, tx.amount),
            ValidationError::SelfTransfer => tx.address_from == tx.address_to,
            ValidationError::InvalidSourceFormat => !well_formed_address(tx.address_from),
            ValidationError::InvalidDestinationFormat => !well_formed_address(tx.address_to),
            ValidationError::NonPositiveAmount => tx.amount.mantissa <= 0,
        },
{
    let a = error_if(
        has_history && amount_lt(balance, tx.amount),
        ValidationError::InsufficientBalance,
    );
    let b = error_if(tx.address_from == tx.address_to, ValidationError::SelfTransfer);
    let c = error_if(!well_formed_address(tx.address_from), ValidationError::InvalidSourceFormat);
    let d = error_if(!well_formed_address(tx.address_to), ValidationError::InvalidDestinationFormat);
    let f = error_if(tx.amount.mantissa <= 0, ValidationError::NonPositiveAmount);
    lemma_contains_concat(a, b, e);
    lemma_contains_concat(a + b, c, e);
    lemma_contains_concat(a + b + c, d, e);
    lemma_contains_concat(a + b + c + d, f, e);
    assert(seq![ValidationError::InsufficientBalance][0] == ValidationError::InsufficientBalance);
    assert(seq![ValidationError::SelfTransfer][0] == ValidationError::SelfTransfer);
    assert(seq![ValidationError::InvalidSourceFormat][0] == ValidationError::InvalidSourceFormat);
    assert(seq![ValidationError::InvalidDestinationFormat][0]
        == ValidationError::InvalidDestinationFormat);
    assert(seq![ValidationError::NonPositiveAmount][0] == ValidationError::NonPositiveAmount);
}

/// A candidate between two distinct well-formed addresses, with an amount
/// above zero, breaks no rule where its source address has no history.
pub proof fn lemma_well_formed_candidate_passes(tx: TransactionView)
    requires
        well_formed_address(tx.address_from),
        well_formed_address(tx.address_to),
        tx.address_from != tx.address_to,
        tx.amount.mantissa > 0,
    ensures
        validation_spec(tx, Seq::empty()) == Some(Seq::<ValidationError>::empty()),
{
    lemma_balance_of_empty_history(tx.address_from);
    assert(violations(tx, false, zero_view()) =~= Seq::<ValidationError>::empty());
}

/// A candidate from an address to itself, otherwise in order and not short
/// of funds, breaks the rule against self-transfers and no other.
pub proof fn lemma_self_transfer_alone(tx: TransactionView, has_history: bool, balance: AmountView)
    requires
        tx.address_from == tx.address_to,
        well_formed_address(tx.address_from),
        tx.amount.mantissa > 0,
        !(has_history && amount_lt(balance, tx.amount)),
    ensures
        violations(tx, has_history, balance) == seq![ValidationError::SelfTransfer],
{
    assert(violations(tx, has_history, balance) =~= seq![ValidationError::SelfTransfer]);
}

/// An amount of zero or below is always reported, as the last of the errors;
/// an amount above zero never is.
pub proof fn lemma_non_positive_amount_reported(
    tx: TransactionView,
    has_history: bool,
    balance: AmountView,
)
    ensures
        tx.amount.mantissa <= 0 ==> violations(tx, has_history, balance).len() > 0 && violations(
            tx,
            has_history,
            balance,
        ).last() == ValidationError::NonPositiveAmount,
        violations(tx, has_history, balance).contains(ValidationError::NonPositiveAmount) <==> tx.amount.mantissa
            <= 0,
{
    lemma_reported_iff_broken(tx, has_history, balance, ValidationError::NonPositiveAmount);
}

/// Without a history no candidate is short of funds, whatever its amount.
pub proof fn lemma_no_history_no_shortfall(tx: TransactionView)
    ensures
        validation_spec(tx, Seq::empty()) == Some(violations(tx, false, zero_view())),
        !violations(tx, false, zero_view()).contains(ValidationError::InsufficientBalance),
{
    lemma_balance_of_empty_history(tx.address_from);
    lemma_reported_iff_broken(tx, false, zero_view(), ValidationError::InsufficientBalance);
}

} // verus!
