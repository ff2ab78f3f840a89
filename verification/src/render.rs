//! Rows written back as the cells of a page: the text of points and of
//! amounts, and the proof that the row machine reads each back as it was.

use crate::amount::{
    amount_cell, cleaned, decimal_digits, digit_char, digit_value, figures, fraction_len,
    is_decimal, is_digit, marked_credit, numeral_of, spec_digit_char, spec_parse_amount,
    spec_parse_decimal, unsigned_part, AmountView, RUPEE,
};
use crate::points::{all_digits, decimal_value, normalized_points, spec_parse_points};
use crate::text::{
    has_prefix, is_whitespace, replace_all, string_of, strip_leading, trim, without_char,
};
use crate::date::{spec_transaction_date, DateTime};
use crate::guarantees::{
    is_amount_cell, is_cell, is_date_cell, is_description_cell, is_points_cell,
    laid_end_to_end, laid_out_page_reads_back, lays_out, reads_as_amount, with_description,
};
use crate::labels::{
    spec_is_foreign_currency, spec_is_page_header, spec_is_page_number, spec_is_section_start,
    spec_is_section_terminator, spec_is_skippable_symbol, CREDIT_MARKER, CREDIT_SUFFIX,
    DOMESTIC_SECTION, INTERNATIONAL_SECTION,
};
use crate::rows::{page_rows, texts_view};
use crate::text::{has_substring, occurs_at};
use crate::transaction::{Transaction, TransactionView};
use vstd::prelude::*;

verus! {

/// `c` is a character of a numeral: a digit, a sign or the point.
pub open spec fn is_numeral_char(c: char) -> bool {
    is_digit(c) || c == '+' || c == '-' || c == '.'
}

/// `text` is made of the characters of numerals alone.
pub open spec fn is_numeral_text(text: Seq<char>) -> bool {
    forall|i: int| 0 <= i < text.len() ==> is_numeral_char(#[trigger] text[i])
}

/// The character of a digit is a digit and has the digit's value.
pub proof fn lemma_digit_char(d: u8)
    requires
        d <= 9,
    ensures
        is_digit(spec_digit_char(d)),
        digit_value(spec_digit_char(d)) == d,
{
}

/// The digits that write `n` in base ten, without leading zeros.
pub open spec fn nat_digits(n: nat) -> Seq<char>
    decreases n,
{
    if n < 10 {
        seq![spec_digit_char(n as u8)]
    } else {
        nat_digits(n / 10).push(spec_digit_char((n % 10) as u8))
    }
}

/// The digits of a number are digits and write the number.
pub proof fn lemma_nat_digits(n: nat)
    ensures
        nat_digits(n).len() >= 1,
        all_digits(nat_digits(n)),
        decimal_value(nat_digits(n)) == n,
    decreases n,
{
    if n < 10 {
        let s = nat_digits(n);
        lemma_digit_char(n as u8);
        assert(s.drop_last() == Seq::<char>::empty());
        assert(s.last() == spec_digit_char(n as u8));
        assert(decimal_value(s.drop_last()) == 0);
    } else {
        lemma_nat_digits(n / 10);
        let head = nat_digits(n / 10);
        let c = spec_digit_char((n % 10) as u8);
        lemma_digit_char((n % 10) as u8);
        let s = head.push(c);
        assert(s.drop_last() == head);
        assert(s.last() == c);
        assert forall|i: int| 0 <= i < s.len() implies is_digit(#[trigger] s[i]) by {
            if i < head.len() {
                assert(s[i] == head[i]);
            }
        }
    }
}

/// The text of the points `points`: a minus sign for a negative number,
/// then its digits.
pub open spec fn spec_points_text(points: i32) -> Seq<char> {
    if points < 0 {
        seq!['-'] + nat_digits((-(points as int)) as nat)
    } else {
        nat_digits(points as nat)
    }
}

/// A text without a space holds no sign followed by a space, so closing
/// up changes nothing.
pub proof fn lemma_replace_without_space(s: Seq<char>, from: Seq<char>, to: Seq<char>)
    requires
        from.len() == 2,
        from[1] == ' ',
        !s.contains(' '),
    ensures
        replace_all(s, from, to) == s,
    decreases s.len(),
{
    if s.len() >= 2 {
        if has_prefix(s, from) {
            assert(s.take(2)[1] == s[1]);
            assert(s[1] == ' ');
            assert(s.contains(' '));
        }
        let rest = s.skip(1);
        if rest.contains(' ') {
            let j = choose|j: int| 0 <= j < rest.len() && rest[j] == ' ';
            assert(s[j + 1] == ' ');
        }
        lemma_replace_without_space(rest, from, to);
        assert(seq![s[0]].add(rest) == s);
    }
}

/// A text that neither begins nor ends with white space is trimmed.
pub proof fn lemma_trim_clean(s: Seq<char>)
    requires
        s.len() > 0 ==> !is_whitespace(s[0]) && !is_whitespace(s.last()),
    ensures
        trim(s) == s,
{
}

/// A text without the character `c` loses nothing when `c` is removed.
pub proof fn lemma_without_absent_char(s: Seq<char>, c: char)
    requires
        !s.contains(c),
    ensures
        without_char(s, c) == s,
    decreases s.len(),
{
    if s.len() > 0 {
        assert(s[0] != c);
        let rest = s.skip(1);
        if rest.contains(c) {
            let j = choose|j: int| 0 <= j < rest.len() && rest[j] == c;
            assert(s[j + 1] == c);
        }
        lemma_without_absent_char(rest, c);
        assert(seq![s[0]].add(rest) == s);
    }
}

/// The text of points is a numeral text without a point, and reads back
/// as the points.
pub proof fn lemma_points_text_reads_back(points: i32)
    ensures
        spec_parse_points(spec_points_text(points)) == Some(points),
        is_numeral_text(spec_points_text(points)),
        spec_points_text(points).len() >= 1,
        !spec_points_text(points).contains('.'),
        spec_points_text(points)[0] != '+',
{
    let text = spec_points_text(points);
    let n: nat = if points < 0 {
        (-(points as int)) as nat
    } else {
        points as nat
    };
    let digits = nat_digits(n);
    lemma_nat_digits(n);
    assert(is_digit(digits[0]));
    assert(is_digit(digits.last()));
    if points < 0 {
        assert(text[0] == '-');
        assert(text.skip(1) == digits);
        assert(text.last() == digits.last());
        assert forall|i: int| 0 <= i < text.len() implies is_numeral_char(#[trigger] text[i])
            && text[i] != '.' && text[i] != ' ' by {
            if i > 0 {
                assert(text[i] == digits[i - 1]);
                assert(is_digit(digits[i - 1]));
            }
        }
    } else {
        assert forall|i: int| 0 <= i < text.len() implies is_numeral_char(#[trigger] text[i])
            && text[i] != '.' && text[i] != ' ' by {
            assert(is_digit(digits[i]));
        }
    }
    assert(!text.contains(' '));
    assert(!text.contains('.'));
    reveal_strlit("+ ");
    reveal_strlit("- ");
    assert("+ "@.len() == 2 && "- "@.len() == 2);
    lemma_replace_without_space(text, "+ "@, "+"@);
    lemma_replace_without_space(text, "- "@, "-"@);
    lemma_trim_clean(text);
    assert(normalized_points(text) == text);
    assert(unsigned_part(text) == digits);
}

/// The text of the points.
pub fn points_text(points: i32) -> (text: String)
    ensures
        text@ == spec_points_text(points),
{
    let mut out: Vec<char> = Vec::new();
    let magnitude: u64 = if points < 0 {
        out.push('-');
        (-(points as i64)) as u64
    } else {
        points as u64
    };
    let ghost head = out@;
    push_digits(magnitude, &mut out);
    proof {
        if points < 0 {
            assert(head == seq!['-']);
        } else {
            assert(head + nat_digits(magnitude as nat) == nat_digits(magnitude as nat));
        }
    }
    string_of(&out)
}

/// Appends the digits of `n`.
fn push_digits(n: u64, out: &mut Vec<char>)
    ensures
        final(out)@ == old(out)@ + nat_digits(n as nat),
    decreases n,
{
    if n >= 10 {
        push_digits(n / 10, out);
    }
    let ghost before = out@;
    out.push(digit_char((n % 10) as u8));
    proof {
        if n >= 10 {
            assert(out@ == old(out)@ + nat_digits((n / 10) as nat).push(
                spec_digit_char((n % 10) as u8),
            ));
        } else {
            assert(out@ == old(out)@ + seq![spec_digit_char(n as u8)]);
        }
    }
}

/// What the figures of some digits are made of: digits and at most one
/// point, which is there where digits follow the place `whole`; they hold
/// the digits in order, and as many of them after the point as stand past
/// that place.
pub proof fn lemma_figures(ds: Seq<u8>, whole: int)
    requires
        0 <= whole,
        forall|i: int| 0 <= i < ds.len() ==> ds[i] <= 9,
    ensures
        ({
            let f = figures(ds, whole);
            &&& forall|i: int| 0 <= i < f.len() ==> is_digit(#[trigger] f[i]) || f[i] == '.'
            &&& forall|i: int, j: int|
                0 <= i < j < f.len() ==> !(#[trigger] f[i] == '.' && #[trigger] f[j] == '.')
            &&& f.contains('.') <==> ds.len() > whole
            &&& decimal_digits(f) == ds
            &&& fraction_len(f) == if ds.len() > whole {
                ds.len() - whole
            } else {
                0
            }
            &&& f.len() >= ds.len()
            &&& ds.len() >= 1 ==> is_digit(f.last())
        }),
    decreases ds.len(),
{
    let f = figures(ds, whole);
    if ds.len() > 0 {
        let init = ds.drop_last();
        let x = figures(init, whole);
        lemma_figures(init, whole);
        let c = spec_digit_char(ds.last());
        lemma_digit_char(ds.last());
        if ds.len() - 1 == whole {
            let xp = x.push('.');
            assert(f == xp.push(c));
            assert(f.drop_last() == xp);
            assert(xp.drop_last() == x);
            assert(xp.last() == '.');
            assert(f.last() == c);
            assert(!x.contains('.'));
            assert(xp.contains('.')) by {
                assert(xp[x.len() as int] == '.');
            }
            assert(f.contains('.')) by {
                assert(f[x.len() as int] == '.');
            }
            assert(decimal_digits(xp) == init);
            assert(decimal_digits(f) == init.push(ds.last()));
            assert(init.push(ds.last()) == ds);
            assert(fraction_len(xp) == 0);
            assert forall|i: int| 0 <= i < f.len() implies is_digit(#[trigger] f[i]) || f[i]
                == '.' by {
                if i < x.len() {
                    assert(f[i] == x[i]);
                }
            }
            assert forall|i: int, j: int| 0 <= i < j < f.len() implies !(#[trigger] f[i] == '.'
                && #[trigger] f[j] == '.') by {
                if j == x.len() {
                    assert(f[i] == x[i]);
                    if x[i] == '.' {
                        assert(x.contains('.'));
                    }
                } else if j < x.len() {
                    assert(f[i] == x[i] && f[j] == x[j]);
                }
            }
        } else {
            assert(f == x.push(c));
            assert(f.drop_last() == x);
            assert(f.last() == c);
            assert(decimal_digits(f) == init.push(ds.last()));
            assert(init.push(ds.last()) == ds);
            assert(f.contains('.') == x.contains('.')) by {
                if f.contains('.') {
                    let j = choose|j: int| 0 <= j < f.len() && f[j] == '.';
                    assert(j < x.len());
                    assert(x[j] == '.');
                }
                if x.contains('.') {
                    let j = choose|j: int| 0 <= j < x.len() && x[j] == '.';
                    assert(f[j] == '.');
                }
            }
            assert forall|i: int| 0 <= i < f.len() implies is_digit(#[trigger] f[i]) || f[i]
                == '.' by {
                if i < x.len() {
                    assert(f[i] == x[i]);
                }
            }
            assert forall|i: int, j: int| 0 <= i < j < f.len() implies !(#[trigger] f[i] == '.'
                && #[trigger] f[j] == '.') by {
                if j < x.len() {
                    assert(f[i] == x[i] && f[j] == x[j]);
                }
            }
        }
    }
}

/// The amount can be printed in a cell that the row machine takes for an
/// amount: it is a proper decimal with at least one digit after the point.
pub open spec fn is_printable(a: AmountView) -> bool {
    a.wf() && a.scale >= 1
}

/// The cell of a printable amount is a numeral text with a point, and
/// reads back as the amount when no credit marker is pending.
pub proof fn lemma_amount_cell_reads_back(a: AmountView)
    requires
        is_printable(a),
    ensures
        spec_parse_amount(amount_cell(a), false) == Some(a),
        amount_cell(a).contains('.'),
        is_numeral_text(amount_cell(a)),
        amount_cell(a).len() >= 2,
{
    let whole = a.digits.len() - a.scale;
    let f = figures(a.digits, whole);
    let cell = amount_cell(a);
    lemma_figures(a.digits, whole);
    assert(f.len() >= 2) by {
        let j = choose|j: int| 0 <= j < f.len() && f[j] == '.';
        assert(is_digit(f.last()));
    }
    assert(is_digit(f[0]) || f[0] == '.');
    if a.negative {
        assert(cell == f);
    } else {
        assert(cell[0] == '+');
        assert(cell.skip(1) == f);
        assert(cell.last() == f.last());
    }
    assert forall|i: int| 0 <= i < cell.len() implies is_numeral_char(#[trigger] cell[i]) by {
        if !a.negative && i > 0 {
            assert(cell[i] == f[i - 1]);
        }
    }
    assert(cell.contains('.')) by {
        let j = choose|j: int| 0 <= j < f.len() && f[j] == '.';
        if a.negative {
            assert(cell[j] == '.');
        } else {
            assert(cell[j + 1] == '.');
        }
    }
    assert(!cell.contains(RUPEE)) by {
        if cell.contains(RUPEE) {
            let j = choose|j: int| 0 <= j < cell.len() && cell[j] == RUPEE;
            assert(is_numeral_char(cell[j]));
        }
    }
    assert(!cell.contains(',')) by {
        if cell.contains(',') {
            let j = choose|j: int| 0 <= j < cell.len() && cell[j] == ',';
            assert(is_numeral_char(cell[j]));
        }
    }
    lemma_without_absent_char(cell, RUPEE);
    lemma_without_absent_char(cell, ',');
    assert(is_numeral_char(cell[0]) && is_numeral_char(cell.last()));
    lemma_trim_clean(cell);
    assert(cleaned(cell) == cell);
    lemma_trim_clean(f);
    if !a.negative {
        assert(strip_leading(cell, '+') == strip_leading(cell.skip(1), '+'));
        assert(strip_leading(f, '+') == f);
    }
    assert(numeral_of(cell) == f);
    assert(unsigned_part(f) == f);
    assert(is_decimal(f)) by {
        assert(is_digit(f[f.len() - 1]));
    }
    assert(decimal_digits(f) == a.digits);
    assert(fraction_len(f) == a.scale);
    assert(spec_parse_decimal(f) == Some((a.digits, a.scale)));
    assert(marked_credit(cell) == !a.negative);
}

/// A numeral text is none of the fixed texts of a page: it neither opens
/// nor closes a section, and is no lone symbol, no page furniture and no
/// amount in a foreign currency, unless it is the credit marker itself.
pub proof fn lemma_numeral_text_is_no_label(text: Seq<char>)
    requires
        is_numeral_text(text),
        text.len() >= 1,
        text != CREDIT_MARKER@,
    ensures
        !spec_is_section_start(text),
        !spec_is_section_terminator(text),
        !spec_is_skippable_symbol(text),
        !spec_is_page_number(text),
        !spec_is_page_header(text),
        !spec_is_foreign_currency(text),
{
    assert(is_numeral_char(text[0]));
    reveal_strlit("Domestic Transactions");
    reveal_strlit("International Transactions");
    assert(DOMESTIC_SECTION@[0] == 'D' && INTERNATIONAL_SECTION@[0] == 'I');
    reveal_strlit("Eligible for EMI");
    reveal_strlit("Eligible for");
    reveal_strlit("TRANSACTIONS");
    reveal_strlit("Past Dues");
    reveal_strlit("GST Summary");
    reveal_strlit("Rewards Program Points Summary");
    reveal_strlit("Offers on your card");
    reveal_strlit("TOTAL AMOUNT");
    reveal_strlit("CONVERT TO EMI");
    reveal_strlit("*Transaction time");
    assert("Eligible for EMI"@[0] == 'E' && "Eligible for"@[0] == 'E' && "TRANSACTIONS"@[0]
        == 'T' && "Past Dues"@[0] == 'P' && "GST Summary"@[0] == 'G');
    assert("Rewards Program Points Summary"@[0] == 'R' && "Offers on your card"@[0] == 'O'
        && "TOTAL AMOUNT"@[0] == 'T' && "CONVERT TO EMI"@[0] == 'C');
    assert("*Transaction time"@[0] == '*' && "*Transaction time"@.len() == 17);
    if has_prefix(text, "*Transaction time"@) {
        assert(text.take(17)[0] == text[0]);
    }
    reveal_strlit("+");
    reveal_strlit("C");
    reveal_strlit("\u{20b9}");
    reveal_strlit("l");
    reveal_strlit("\u{25cf}");
    reveal_strlit("\u{2022}");
    reveal_strlit("Cr");
    assert("C"@[0] == 'C' && "l"@[0] == 'l' && CREDIT_SUFFIX@[0] == 'C');
    assert("\u{20b9}"@[0] == '\u{20b9}' && "\u{25cf}"@[0] == '\u{25cf}' && "\u{2022}"@[0]
        == '\u{2022}');
    reveal_strlit("Page ");
    assert("Page "@[0] == 'P' && "Page "@.len() == 5);
    if has_prefix(text, "Page "@) {
        assert(text.take(5)[0] == text[0]);
    }
    reveal_strlit("Infinia Credit Card Statement");
    reveal_strlit("HSN Code:");
    reveal_strlit("HDFC Bank Credit Cards GSTIN:");
    reveal_strlit("GSTIN: 33AAACH");
    assert("Infinia Credit Card Statement"@[0] == 'I');
    assert("HSN Code:"@[0] == 'H' && "HSN Code:"@.len() == 9);
    assert("HDFC Bank Credit Cards GSTIN:"@[0] == 'H' && "HDFC Bank Credit Cards GSTIN:"@.len()
        == 29);
    assert("GSTIN: 33AAACH"@[0] == 'G' && "GSTIN: 33AAACH"@.len() == 14);
    if has_prefix(text, "HSN Code:"@) {
        assert(text.take(9)[0] == text[0]);
    }
    if has_prefix(text, "HDFC Bank Credit Cards GSTIN:"@) {
        assert(text.take(29)[0] == text[0]);
    }
    if has_substring(text, "GSTIN: 33AAACH"@) {
        let i = choose|i: int| occurs_at(text, "GSTIN: 33AAACH"@, i);
        assert(text.subrange(i, i + 14)[0] == text[i]);
        assert(is_numeral_char(text[i]));
    }
    reveal_strlit("USD ");
    reveal_strlit("JPY ");
    reveal_strlit("MYR ");
    reveal_strlit("EUR ");
    reveal_strlit("GBP ");
    reveal_strlit("SGD ");
    reveal_strlit("AUD ");
    reveal_strlit("THB ");
    assert("USD "@[0] == 'U' && "JPY "@[0] == 'J' && "MYR "@[0] == 'M' && "EUR "@[0] == 'E');
    assert("GBP "@[0] == 'G' && "SGD "@[0] == 'S' && "AUD "@[0] == 'A' && "THB "@[0] == 'T');
    assert("USD "@.len() == 4 && "JPY "@.len() == 4 && "MYR "@.len() == 4 && "EUR "@.len() == 4);
    assert("GBP "@.len() == 4 && "SGD "@.len() == 4 && "AUD "@.len() == 4 && "THB "@.len() == 4);
    if text.len() >= 4 {
        assert(text.take(4)[0] == text[0]);
    }
}

/// `n` in two digits at least.
pub open spec fn two_digits(n: nat) -> Seq<char> {
    if n < 10 {
        seq!['0'] + nat_digits(n)
    } else {
        nat_digits(n)
    }
}

/// The year in four digits at least, after a minus sign where it is
/// below zero.
pub open spec fn year_digits(year: i32) -> Seq<char> {
    if year < 0 {
        seq!['-'] + nat_digits((-(year as int)) as nat)
    } else if year < 10 {
        seq!['0', '0', '0'] + nat_digits(year as nat)
    } else if year < 100 {
        seq!['0', '0'] + nat_digits(year as nat)
    } else if year < 1000 {
        seq!['0'] + nat_digits(year as nat)
    } else {
        nat_digits(year as nat)
    }
}

/// The date as a domestic row prints it: day, month and year between
/// strokes, a bar and a space, then hours and minutes between a colon.
pub open spec fn spec_date_text(date: DateTime) -> Seq<char> {
    two_digits(date.day as nat) + seq!['/'] + two_digits(date.month as nat) + seq!['/']
        + year_digits(date.year) + seq!['|', ' '] + two_digits(date.hour as nat) + seq![':']
        + two_digits(date.minute as nat)
}

/// Appends `n` in two digits at least.
fn push_two_digits(n: u32, out: &mut Vec<char>)
    ensures
        final(out)@ == old(out)@ + two_digits(n as nat),
{
    if n < 10 {
        out.push('0');
    }
    let ghost head = out@;
    push_digits(n as u64, out);
    proof {
        if n < 10 {
            assert(out@ == old(out)@ + (seq!['0'] + nat_digits(n as nat)));
        }
    }
}

/// Appends the year in four digits at least.
fn push_year(year: i32, out: &mut Vec<char>)
    ensures
        final(out)@ == old(out)@ + year_digits(year),
{
    let ghost before = out@;
    let wide: i64 = year as i64;
    if wide < 0 {
        out.push('-');
        push_digits((-wide) as u64, out);
        assert(out@ == before + (seq!['-'] + nat_digits((-(year as int)) as nat)));
    } else if wide < 10 {
        out.push('0');
        out.push('0');
        out.push('0');
        push_digits(wide as u64, out);
        assert(out@ == before + (seq!['0', '0', '0'] + nat_digits(year as nat)));
    } else if wide < 100 {
        out.push('0');
        out.push('0');
        push_digits(wide as u64, out);
        assert(out@ == before + (seq!['0', '0'] + nat_digits(year as nat)));
    } else if wide < 1000 {
        out.push('0');
        push_digits(wide as u64, out);
        assert(out@ == before + (seq!['0'] + nat_digits(year as nat)));
    } else {
        push_digits(wide as u64, out);
    }
}

/// The date as a domestic row prints it.
pub fn date_text(date: &DateTime) -> (text: String)
    ensures
        text@ == spec_date_text(*date),
{
    let mut out: Vec<char> = Vec::new();
    push_two_digits(date.day, &mut out);
    let ghost day = out@;
    assert(day == two_digits(date.day as nat));
    out.push('/');
    let ghost s1 = out@;
    assert(s1 == day + seq!['/']);
    push_two_digits(date.month, &mut out);
    let ghost s2 = out@;
    out.push('/');
    let ghost s3 = out@;
    assert(s3 == s2 + seq!['/']);
    push_year(date.year, &mut out);
    let ghost s4 = out@;
    out.push('|');
    out.push(' ');
    let ghost s5 = out@;
    assert(s5 == s4 + seq!['|', ' ']);
    push_two_digits(date.hour, &mut out);
    let ghost s6 = out@;
    out.push(':');
    let ghost s7 = out@;
    assert(s7 == s6 + seq![':']);
    push_two_digits(date.minute, &mut out);
    string_of(&out)
}

/// The cells that print the row: its date, its description if it has
/// one, its points and its amount.
pub open spec fn rendered(row: TransactionView) -> Seq<Seq<char>> {
    if row.description.len() > 0 {
        seq![
            spec_date_text(row.date),
            row.description,
            spec_points_text(row.points),
            amount_cell(row.amount),
        ]
    } else {
        seq![spec_date_text(row.date), spec_points_text(row.points), amount_cell(row.amount)]
    }
}

/// The cells that print the row.
pub fn row_cells(row: &Transaction) -> (cells: Vec<String>)
    ensures
        texts_view(cells@) == rendered(row@),
{
    let mut cells: Vec<String> = Vec::new();
    cells.push(date_text(&row.date));
    if !row.description.as_str().is_empty() {
        cells.push(row.description.clone());
    }
    cells.push(points_text(row.points));
    cells.push(row.amount.to_cell());
    assert(texts_view(cells@) =~= rendered(row@));
    cells
}

/// The row can be printed and read again. Its amount has digits after
/// the point, and its description, if it has one, is text that the row
/// machine takes for description. For the rest this asks what only
/// chrono decides: that the printed date reads as the date of the row,
/// and that neither the printed points nor the printed amount read as a
/// date.
pub open spec fn is_renderable(row: TransactionView) -> bool {
    &&& is_printable(row.amount)
    &&& row.description.len() > 0 ==> is_description_cell(row.description)
    &&& is_date_cell(spec_date_text(row.date), row.date)
    &&& spec_transaction_date(spec_points_text(row.points)) is None
    &&& spec_transaction_date(amount_cell(row.amount)) is None
}

/// The cells of a renderable row lay the row out.
pub proof fn rendered_row_lays_out(row: TransactionView)
    requires
        is_renderable(row),
    ensures
        lays_out(rendered(row), row),
{
    let points = spec_points_text(row.points);
    let amount = amount_cell(row.amount);
    lemma_points_text_reads_back(row.points);
    lemma_amount_cell_reads_back(row.amount);
    reveal_strlit("+");
    assert(CREDIT_MARKER@.len() == 1);
    assert(points != CREDIT_MARKER@) by {
        assert(points[0] != '+');
        assert(CREDIT_MARKER@[0] == '+');
    }
    lemma_numeral_text_is_no_label(points);
    lemma_numeral_text_is_no_label(amount);
    assert(is_cell(points));
    assert(is_cell(amount));
    assert(!reads_as_amount(points));
    assert(is_points_cell(points, row.points));
    assert(is_amount_cell(amount, row.amount));
}

/// The cells of all the rows, one row after the other.
pub open spec fn rendered_rows(rows: Seq<TransactionView>) -> Seq<Seq<char>> {
    laid_end_to_end(Seq::new(rows.len(), |i: int| rendered(rows[i])))
}

/// Rows that are printed are read back as they were: a page made of a
/// section label, the cardholder's name and the cells of some renderable
/// rows gives exactly those of the rows that have a description, in
/// order, each with its date, description, points and amount.
pub proof fn rendered_page_reads_back(rows: Seq<TransactionView>, cardholder_name: Seq<char>)
    requires
        !spec_is_section_start(cardholder_name),
        forall|i: int| 0 <= i < rows.len() ==> is_renderable(#[trigger] rows[i]),
    ensures
        page_rows(
            seq![DOMESTIC_SECTION@, cardholder_name] + rendered_rows(rows),
            cardholder_name,
        ) == with_description(rows),
{
    let layouts = Seq::new(rows.len(), |i: int| rendered(rows[i]));
    assert forall|i: int| 0 <= i < rows.len() implies lays_out(#[trigger] layouts[i], rows[i]) by {
        rendered_row_lays_out(rows[i]);
    }
    laid_out_page_reads_back(layouts, rows, cardholder_name);
}

} // verus!
