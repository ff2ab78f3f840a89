//! Spending categories: which category a description falls under, by the
//! patterns that the category lists.

use crate::text::{chars_of, contains, has_substring};
use vstd::prelude::*;

verus! {

/// What `str::to_uppercase` makes of a text.
pub uninterp spec fn uppercase_of(text: Seq<char>) -> Seq<char>;

/// Calls `str::to_uppercase`. Trusted: the result depends on the text
/// alone.
#[verifier::external_body]
fn uppercase(text: &str) -> (r: String)
    ensures
        r@ == uppercase_of(text@),
{
    text.to_uppercase()
}

/// The words by which the payment of the card's bill is known.
pub const BILL_PAYMENT: &'static str = "CREDIT CARD PAYMENT";

/// The description, in upper case, holds the words of a bill payment.
pub open spec fn spec_is_bill_payment(description: Seq<char>) -> bool {
    has_substring(uppercase_of(description), BILL_PAYMENT@)
}

/// Whether the transaction is a payment of the card's bill.
pub fn is_bill_payment(description: &str) -> (r: bool)
    ensures
        r == spec_is_bill_payment(description@),
{
    let upper = uppercase(description);
    contains(&chars_of(upper.as_str()), BILL_PAYMENT)
}

/// One of the patterns occurs in `text`.
pub open spec fn any_occurs(text: Seq<char>, patterns: Seq<String>) -> bool {
    exists|i: int| 0 <= i < patterns.len() && has_substring(text, (#[trigger] patterns[i])@)
}

/// Whether one of the patterns occurs in `text`.
pub fn any_pattern_occurs(text: &Vec<char>, patterns: &Vec<String>) -> (r: bool)
    ensures
        r == any_occurs(text@, patterns@),
{
    let mut i: usize = 0;
    while i < patterns.len()
        invariant
            i <= patterns.len(),
            forall|j: int| 0 <= j < i ==> !has_substring(text@, (#[trigger] patterns@[j])@),
        decreases patterns.len() - i,
    {
        if contains(text, patterns[i].as_str()) {
            return true;
        }
        i += 1;
    }
    false
}

/// The index of the first list of patterns of which one occurs in `text`;
/// `None` where none does. Text and patterns are compared as they stand.
pub fn matching_category(text: &str, categories: &Vec<Vec<String>>) -> (r: Option<usize>)
    ensures
        match r {
            Some(i) => i < categories@.len() && any_occurs(text@, categories@[i as int]@)
                && forall|j: int| 0 <= j < i ==> !any_occurs(text@, (#[trigger] categories@[j])@),
            None => forall|j: int|
                0 <= j < categories@.len() ==> !any_occurs(text@, (#[trigger] categories@[j])@),
        },
{
    let chars = chars_of(text);
    let mut i: usize = 0;
    while i < categories.len()
        invariant
            i <= categories.len(),
            chars@ == text@,
            forall|j: int| 0 <= j < i ==> !any_occurs(text@, (#[trigger] categories@[j])@),
        decreases categories.len() - i,
    {
        if any_pattern_occurs(&chars, &categories[i]) {
            return Some(i);
        }
        i += 1;
    }
    None
}

/// The patterns of each category in upper case.
pub open spec fn patterns_in_upper_case(
    categories: Seq<(String, Vec<String>)>,
    upper: Seq<Vec<String>>,
) -> bool {
    &&& upper.len() == categories.len()
    &&& forall|i: int|
        0 <= i < upper.len() ==> (#[trigger] upper[i])@.len() == categories[i].1@.len()
    &&& forall|i: int, k: int|
        0 <= i < upper.len() && 0 <= k < upper[i]@.len() ==> (#[trigger] upper[i]@[k])@
            == uppercase_of(categories[i].1@[k]@)
}

/// The category `i` has a pattern that, in upper case, occurs in the
/// description in upper case.
pub open spec fn falls_under(
    description: Seq<char>,
    categories: Seq<(String, Vec<String>)>,
    i: int,
) -> bool {
    exists|k: int|
        0 <= k < categories[i].1@.len() && has_substring(
            uppercase_of(description),
            uppercase_of((#[trigger] categories[i].1@[k])@),
        )
}

/// `name` is the name of the category that the description falls under:
/// the first in the list one of whose patterns occurs in the description,
/// both taken in upper case; `None` where the description falls under none.
pub open spec fn names_category_of(
    name: Option<String>,
    description: Seq<char>,
    categories: Seq<(String, Vec<String>)>,
) -> bool {
    match name {
        Some(name) => exists|i: int|
            0 <= i < categories.len() && name@ == (#[trigger] categories[i]).0@ && falls_under(
                description,
                categories,
                i,
            ) && forall|j: int| 0 <= j < i ==> !falls_under(description, categories, j),
        None => forall|j: int| 0 <= j < categories.len() ==> !falls_under(
            description,
            categories,
            j,
        ),
    }
}

/// The name of the category that the description falls under: the first in
/// the list one of whose patterns occurs in the description, both taken in
/// upper case. `None` where the description falls under none.
pub fn categorize(description: &str, categories: &Vec<(String, Vec<String>)>) -> (r: Option<
    String,
>)
    ensures
        names_category_of(r, description@, categories@),
{
    let upper = uppercase(description);
    let mut patterns: Vec<Vec<String>> = Vec::new();
    let mut i: usize = 0;
    while i < categories.len()
        invariant
            i <= categories.len(),
            patterns_in_upper_case(categories@.take(i as int), patterns@),
        decreases categories.len() - i,
    {
        let mut row: Vec<String> = Vec::new();
        let mut k: usize = 0;
        while k < categories[i].1.len()
            invariant
                i < categories.len(),
                k <= categories[i as int].1.len(),
                row@.len() == k,
                forall|m: int|
                    0 <= m < k ==> (#[trigger] row@[m])@ == uppercase_of(
                        categories@[i as int].1@[m]@,
                    ),
            decreases categories[i as int].1.len() - k,
        {
            row.push(uppercase(categories[i].1[k].as_str()));
            k += 1;
        }
        patterns.push(row);
        i += 1;
    }
    assert(categories@.take(categories.len() as int) == categories@);
    let found = matching_category(upper.as_str(), &patterns);
    proof {
        assert forall|j: int| 0 <= j < categories@.len() implies (any_occurs(
            upper@,
            patterns@[j]@,
        ) <==> falls_under(description@, categories@, j)) by {
            if any_occurs(upper@, patterns@[j]@) {
                let k = choose|k: int|
                    0 <= k < patterns@[j]@.len() && has_substring(
                        upper@,
                        (#[trigger] patterns@[j]@[k])@,
                    );
                assert(has_substring(
                    uppercase_of(description@),
                    uppercase_of(categories@[j].1@[k]@),
                ));
            }
            if falls_under(description@, categories@, j) {
                let k = choose|k: int|
                    0 <= k < categories@[j].1@.len() && has_substring(
                        uppercase_of(description@),
                        uppercase_of((#[trigger] categories@[j].1@[k])@),
                    );
                assert(has_substring(upper@, patterns@[j]@[k]@));
            }
        }
    }
    match found {
        Some(i) => {
            let name = categories[i].0.clone();
            assert(name@ == categories@[i as int].0@);
            Some(name)
        },
        None => None,
    }
}

/// Where the amount of a record is counted.
#[derive(Debug, PartialEq, Eq)]
pub enum Posting {
    /// With the payments of the card's bill.
    BillPayment,
    /// With the money spent and no more: no categories were given.
    Spent,
    /// With the money spent, under the category named.
    SpentUnder(String),
    /// With the money spent, under no category: none fits.
    SpentUncategorized,
    /// Nowhere: a credit that is no payment of the bill.
    NotCounted,
}

/// Where the amount of a record is counted: a payment of the card's bill
/// with the bill payments, whatever its sign; any other debit with the
/// money spent, under the category that its description falls under where
/// categories are given; any other credit nowhere.
pub fn classify(
    description: &str,
    is_debit: bool,
    categories: &Option<Vec<(String, Vec<String>)>>,
) -> (posting: Posting)
    ensures
        posting is BillPayment <==> spec_is_bill_payment(description@),
        posting is NotCounted <==> !spec_is_bill_payment(description@) && !is_debit,
        posting is Spent <==> !spec_is_bill_payment(description@) && is_debit && categories
            is None,
        posting is SpentUnder || posting is SpentUncategorized <==> !spec_is_bill_payment(
            description@,
        ) && is_debit && categories is Some,
        posting matches Posting::SpentUnder(name) ==> names_category_of(
            Some(name),
            description@,
            categories->0@,
        ),
        posting is SpentUncategorized ==> names_category_of(
            None,
            description@,
            categories->0@,
        ),
{
    if is_bill_payment(description) {
        Posting::BillPayment
    } else if is_debit {
        match categories {
            Some(listed) => match categorize(description, listed) {
                Some(name) => Posting::SpentUnder(name),
                None => Posting::SpentUncategorized,
            },
            None => Posting::Spent,
        }
    } else {
        Posting::NotCounted
    }
}

} // verus!
