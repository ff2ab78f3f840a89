//! One row of a statement.

use crate::amount::{Amount, AmountView};
use crate::date::DateTime;
use vstd::prelude::*;

verus! {

/// What a [`Transaction`] stands for.
pub struct TransactionView {
    pub date: DateTime,
    pub description: Seq<char>,
    pub points: i32,
    pub amount: AmountView,
}

impl TransactionView {
    /// The row before anything was read into it: dated at the epoch, no
    /// description, no points, amount zero.
    pub open spec fn empty() -> TransactionView {
        TransactionView {
            date: DateTime::spec_epoch(),
            description: Seq::empty(),
            points: 0,
            amount: AmountView::zero(),
        }
    }
}

/// One transaction: when it took place, what for, the reward points it
/// earned, and its amount (negative for a debit, positive for a credit).
#[derive(Debug, PartialEq, Eq)]
pub struct Transaction {
    pub date: DateTime,
    pub description: String,
    pub points: i32,
    pub amount: Amount,
}

impl View for Transaction {
    type V = TransactionView;

    open spec fn view(&self) -> TransactionView {
        TransactionView {
            date: self.date,
            description: self.description@,
            points: self.points,
            amount: self.amount@,
        }
    }
}

impl Transaction {
    /// The amount is well formed.
    pub open spec fn wf(&self) -> bool {
        self.amount.wf()
    }
}

impl Clone for Transaction {
    fn clone(&self) -> (t: Transaction)
        ensures
            t@ == self@,
    {
        Transaction {
            date: self.date,
            description: self.description.clone(),
            points: self.points,
            amount: self.amount.clone(),
        }
    }
}

impl Default for Transaction {
    fn default() -> (t: Transaction)
        ensures
            t@ == TransactionView::empty(),
            t.wf(),
    {
        Transaction {
            date: DateTime::epoch(),
            description: String::new(),
            points: 0,
            amount: Amount::zero(),
        }
    }
}

} // verus!
