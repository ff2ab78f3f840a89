//! The fixed texts by which the fragments of a statement page are told
//! apart: section labels, terminators, page furniture and stray symbols.

use crate::text::{contains, has_prefix, has_substring, is_text, starts_with};
use vstd::prelude::*;

verus! {

/// Heads the block of domestic transactions.
pub const DOMESTIC_SECTION: &'static str = "Domestic Transactions";

/// Heads the block of international transactions.
pub const INTERNATIONAL_SECTION: &'static str = "International Transactions";

/// The column label that ends the header of a block, as the cardholder's
/// name does.
pub const POINTS_COLUMN: &'static str = "PI";

/// Goes before an amount that is a credit.
pub const CREDIT_MARKER: &'static str = "+";

/// Follows an amount that is a credit.
pub const CREDIT_SUFFIX: &'static str = "Cr";

/// `text` opens a block of transactions.
pub open spec fn spec_is_section_start(text: Seq<char>) -> bool {
    text == DOMESTIC_SECTION@ || text == INTERNATIONAL_SECTION@
}

/// `text` closes a block of transactions: a heading of what follows the
/// rows, or the footnote on transaction times.
pub open spec fn spec_is_section_terminator(text: Seq<char>) -> bool {
    ||| text == "Eligible for EMI"@
    ||| text == "Eligible for"@
    ||| text == "TRANSACTIONS"@
    ||| text == "Past Dues"@
    ||| text == "GST Summary"@
    ||| text == "Rewards Program Points Summary"@
    ||| text == "Offers on your card"@
    ||| text == "TOTAL AMOUNT"@
    ||| text == "CONVERT TO EMI"@
    ||| has_prefix(text, "*Transaction time"@)
}

/// `text` is a heading that is repeated on continuation pages.
pub open spec fn spec_is_page_header(text: Seq<char>) -> bool {
    ||| text == "Infinia Credit Card Statement"@
    ||| has_prefix(text, "HSN Code:"@)
    ||| has_prefix(text, "HDFC Bank Credit Cards GSTIN:"@)
    ||| has_substring(text, "GSTIN: 33AAACH"@)
}

/// `text` is a page count such as "Page 1 of 7".
pub open spec fn spec_is_page_number(text: Seq<char>) -> bool {
    has_prefix(text, "Page "@) && has_substring(text, " of "@)
}

/// `text` is an amount in a foreign currency, which belongs to the
/// description of its row.
pub open spec fn spec_is_foreign_currency(text: Seq<char>) -> bool {
    ||| has_prefix(text, "USD "@)
    ||| has_prefix(text, "JPY "@)
    ||| has_prefix(text, "MYR "@)
    ||| has_prefix(text, "EUR "@)
    ||| has_prefix(text, "GBP "@)
    ||| has_prefix(text, "SGD "@)
    ||| has_prefix(text, "AUD "@)
    ||| has_prefix(text, "THB "@)
}

/// `text` is a symbol that stands alone: a credit marker, a currency sign or
/// a bullet.
pub open spec fn spec_is_skippable_symbol(text: Seq<char>) -> bool {
    ||| text == CREDIT_MARKER@
    ||| text == "C"@
    ||| text == "\u{20b9}"@
    ||| text == "l"@
    ||| text == "\u{25cf}"@
    ||| text == "\u{2022}"@
    ||| text == CREDIT_SUFFIX@
}

/// `text` ends the header of a block: the cardholder's name or the label of
/// the points column.
pub open spec fn spec_is_header_boundary(text: Seq<char>, cardholder_name: Seq<char>) -> bool {
    text == cardholder_name || text == POINTS_COLUMN@
}

/// Whether `text` opens a block of transactions.
pub fn is_section_start(text: &Vec<char>) -> (r: bool)
    ensures
        r == spec_is_section_start(text@),
{
    is_text(text, DOMESTIC_SECTION) || is_text(text, INTERNATIONAL_SECTION)
}

/// Whether `text` closes a block of transactions.
pub fn is_section_terminator(text: &Vec<char>) -> (r: bool)
    ensures
        r == spec_is_section_terminator(text@),
{
    is_text(text, "Eligible for EMI") || is_text(text, "Eligible for") || is_text(
        text,
        "TRANSACTIONS",
    ) || is_text(text, "Past Dues") || is_text(text, "GST Summary") || is_text(
        text,
        "Rewards Program Points Summary",
    ) || is_text(text, "Offers on your card") || is_text(text, "TOTAL AMOUNT") || is_text(
        text,
        "CONVERT TO EMI",
    ) || starts_with(text, "*Transaction time")
}

/// Whether `text` is a heading repeated on continuation pages.
pub fn is_page_header(text: &Vec<char>) -> (r: bool)
    ensures
        r == spec_is_page_header(text@),
{
    is_text(text, "Infinia Credit Card Statement") || starts_with(text, "HSN Code:")
        || starts_with(text, "HDFC Bank Credit Cards GSTIN:") || contains(text, "GSTIN: 33AAACH")
}

/// Whether `text` is a page count.
pub fn is_page_number(text: &Vec<char>) -> (r: bool)
    ensures
        r == spec_is_page_number(text@),
{
    starts_with(text, "Page ") && contains(text, " of ")
}

/// Whether `text` is an amount in a foreign currency.
pub fn is_foreign_currency(text: &Vec<char>) -> (r: bool)
    ensures
        r == spec_is_foreign_currency(text@),
{
    starts_with(text, "USD ") || starts_with(text, "JPY ") || starts_with(text, "MYR ")
        || starts_with(text, "EUR ") || starts_with(text, "GBP ") || starts_with(text, "SGD ")
        || starts_with(text, "AUD ") || starts_with(text, "THB ")
}

/// Whether `text` is a symbol that stands alone.
pub fn is_skippable_symbol(text: &Vec<char>) -> (r: bool)
    ensures
        r == spec_is_skippable_symbol(text@),
{
    is_text(text, CREDIT_MARKER) || is_text(text, "C") || is_text(text, "\u{20b9}") || is_text(
        text,
        "l",
    ) || is_text(text, "\u{25cf}") || is_text(text, "\u{2022}") || is_text(text, CREDIT_SUFFIX)
}

/// Whether `text` ends the header of a block.
pub fn is_header_boundary(text: &Vec<char>, cardholder_name: &str) -> (r: bool)
    ensures
        r == spec_is_header_boundary(text@, cardholder_name@),
{
    is_text(text, cardholder_name) || is_text(text, POINTS_COLUMN)
}

} // verus!
