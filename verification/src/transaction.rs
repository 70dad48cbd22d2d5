//! The transaction record and its mathematical model.

use crate::amount::{Amount, AmountView};
use vstd::prelude::*;

verus! {

/// A calendar date and time of day, as the persistence layer stamps it on a
/// stored record. The ledger rules carry it through and never read it.
#[verifier::external_type_specification]
#[verifier::external_body]
pub struct ExPrimitiveDateTime(time::PrimitiveDateTime);

/// The two kinds of record; the kind fixes the sign with which a record
/// enters a balance.
#[derive(Debug, Clone, Copy, PartialEq, Eq, Structural)]
pub enum TransactionType {
    Deposit,
    Withdrawal,
}

/// A transfer of `amount` from `address_from` to `address_to`.
///
/// A record without `id` is a candidate that has not been stored; one with an
/// `id` is a fact of the history.
#[derive(Debug)]
pub struct Transaction {
    pub id: Option<i32>,
    pub address_from: String,
    pub address_to: String,
    pub amount: Amount,
    pub transaction_type: TransactionType,
    pub created_at: Option<time::PrimitiveDateTime>,
}

/// What the ledger rules read of a transaction.
pub struct TransactionView {
    pub id: Option<i32>,
    pub address_from: Seq<char>,
    pub address_to: Seq<char>,
    pub amount: AmountView,
    pub transaction_type: TransactionType,
}

impl View for Transaction {
    type V = TransactionView;

    open spec fn view(&self) -> TransactionView {
        TransactionView {
            id: self.id,
            address_from: self.address_from@,
            address_to: self.address_to@,
            amount: self.amount@,
            transaction_type: self.transaction_type,
        }
    }
}

/// The model of a stored history: the view of each record, in order.
pub open spec fn history_view(history: Seq<Transaction>) -> Seq<TransactionView> {
    history.map_values(|t: Transaction| t@)
}

/// The fields of a request to create a transaction.
#[derive(Debug)]
pub struct CreateTransactionRequest {
    pub address_from: String,
    pub address_to: String,
    pub amount: Amount,
    pub transaction_type: TransactionType,
}

impl From<CreateTransactionRequest> for Transaction {
    /// The candidate that a request asks for: not yet stored, so without
    /// identity and without timestamp.
    fn from(request: CreateTransactionRequest) -> (r: Transaction) {
        Transaction {
            id: None,
            address_from: request.address_from,
            address_to: request.address_to,
            amount: request.amount,
            transaction_type: request.transaction_type,
            created_at: None,
        }
    }
}

impl vstd::std_specs::convert::FromSpecImpl<CreateTransactionRequest> for Transaction {
    open spec fn obeys_from_spec() -> bool {
        true
    }

    open spec fn from_spec(request: CreateTransactionRequest) -> Transaction {
        Transaction {
            id: None,
            address_from: request.address_from,
            address_to: request.address_to,
            amount: request.amount,
            transaction_type: request.transaction_type,
            created_at: None,
        }
    }
}

} // verus!
