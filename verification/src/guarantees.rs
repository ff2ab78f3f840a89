//! What holds of the row machine on every page.

use crate::amount::{marked_credit, spec_parse_amount};
use crate::date::{spec_transaction_date, DateTime};
use crate::amount::AmountView;
use crate::labels::{
    spec_is_foreign_currency, spec_is_page_header, spec_is_page_number, spec_is_section_start,
    spec_is_section_terminator, spec_is_skippable_symbol, CREDIT_MARKER, CREDIT_SUFFIX,
    DOMESTIC_SECTION, INTERNATIONAL_SECTION,
};
use crate::points::spec_parse_points;
use crate::page::Page;
use crate::pipeline::{fragment_texts, page_fragments};
use crate::rows::{emitted, page_rows, rows_view, run, texts_view, Phase, RowState};
use crate::text::{has_prefix, join_with_space};
use crate::transaction::{Transaction, TransactionView};
use vstd::prelude::*;

verus! {

/// How long the labels of sections and terminators are, and how the
/// section labels and the footnote begin.
pub proof fn label_shapes()
    ensures
        DOMESTIC_SECTION@.len() == 21,
        DOMESTIC_SECTION@[0] == 'D',
        INTERNATIONAL_SECTION@.len() == 26,
        INTERNATIONAL_SECTION@[0] == 'I',
        "Eligible for EMI"@.len() == 16,
        "Eligible for"@.len() == 12,
        "TRANSACTIONS"@.len() == 12,
        "Past Dues"@.len() == 9,
        "GST Summary"@.len() == 11,
        "Rewards Program Points Summary"@.len() == 30,
        "Offers on your card"@.len() == 19,
        "TOTAL AMOUNT"@.len() == 12,
        "CONVERT TO EMI"@.len() == 14,
        "*Transaction time"@.len() == 17,
        "*Transaction time"@[0] == '*',
        CREDIT_SUFFIX@ == seq!['C', 'r'],
        CREDIT_MARKER@ == seq!['+'],
{
    reveal_strlit("Domestic Transactions");
    reveal_strlit("International Transactions");
    reveal_strlit("Eligible for EMI");
    reveal_strlit("Eligible for");
    reveal_strlit("TRANSACTIONS");
    reveal_strlit("Past Dues");
    reveal_strlit("GST Summary");
    reveal_strlit("Rewards Program Points Summary");
    reveal_strlit("Offers on your card");
    reveal_strlit("TOTAL AMOUNT");
    reveal_strlit("CONVERT TO EMI");
    reveal_strlit("*Transaction time");
    reveal_strlit("Cr");
    reveal_strlit("+");
    assert(CREDIT_SUFFIX@ =~= seq!['C', 'r']);
    assert(CREDIT_MARKER@ =~= seq!['+']);
}

/// No text both opens and closes a section.
pub proof fn terminators_open_no_section(text: Seq<char>)
    requires
        spec_is_section_terminator(text),
    ensures
        !spec_is_section_start(text),
{
    label_shapes();
    if has_prefix(text, "*Transaction time"@) {
        assert(text[0] == text.take("*Transaction time"@.len() as int)[0]);
    }
}

/// The credit suffix is a lone symbol, and neither opens nor closes a
/// section; it is not the credit marker.
pub proof fn credit_suffix_is_a_symbol()
    ensures
        spec_is_skippable_symbol(CREDIT_SUFFIX@),
        !spec_is_section_start(CREDIT_SUFFIX@),
        !spec_is_section_terminator(CREDIT_SUFFIX@),
        CREDIT_SUFFIX@ != CREDIT_MARKER@,
{
    label_shapes();
}

/// A fragment that reads as a date, met past the header of a section,
/// starts exactly one row: the state that follows holds a fresh row
/// anchored at that date and nothing else of a row. It closes at most one
/// row, the one that was open, and only if that row had a description.
pub proof fn date_starts_one_row(
    state: RowState,
    text: Seq<char>,
    cardholder_name: Seq<char>,
    date: DateTime,
)
    requires
        state.in_transactions,
        state.past_header,
        !spec_is_section_start(text),
        !spec_is_section_terminator(text),
    ensures
        ({
            let (next, row) = state.step(text, cardholder_name, Some(date));
            &&& next.phase() == Phase::InRow
            &&& next.transaction == (TransactionView { date, ..TransactionView::empty() })
            &&& next.desc_parts.len() == 0
            &&& !next.has_amount
            &&& !next.is_credit
            &&& !next.skip_next_non_date
            &&& row is Some ==> state.phase() == Phase::InRow
                && state.transaction.description.len() > 0
            &&& row matches Some(t) ==> t.date == state.transaction.date && t.points
                == state.transaction.points && t.amount == state.transaction.amount
        }),
{
}

/// Joined parts are no shorter than any one of them.
pub proof fn joined_parts_cover_each(parts: Seq<Seq<char>>, i: int)
    requires
        0 <= i < parts.len(),
    ensures
        join_with_space(parts).len() >= parts[i].len(),
    decreases parts.len(),
{
    if parts.len() > 1 {
        if i < parts.len() - 1 {
            joined_parts_cover_each(parts.drop_last(), i);
        }
    }
}

/// A row is never given out with an empty description.
pub proof fn closed_rows_have_descriptions(state: RowState)
    requires
        state.wf(),
    ensures
        state.flushed() matches Some(t) ==> t.description.len() > 0,
{
    if state.flushed() is Some && state.desc_parts.len() > 0 {
        let k = state.desc_parts.index_of(state.transaction.description);
        joined_parts_cover_each(state.desc_parts, k);
    }
}

/// A row anchored by a date and met at once by a section terminator is
/// dropped: the terminator gives out no row, and the section is left.
pub proof fn bare_anchor_is_discarded(
    state: RowState,
    anchor: Seq<char>,
    date: DateTime,
    terminator: Seq<char>,
    terminator_date: Option<DateTime>,
    cardholder_name: Seq<char>,
)
    requires
        state.in_transactions,
        state.past_header,
        !spec_is_section_start(anchor),
        !spec_is_section_terminator(anchor),
        spec_is_section_terminator(terminator),
    ensures
        ({
            let anchored = state.step(anchor, cardholder_name, Some(date)).0;
            let (end, row) = anchored.step(terminator, cardholder_name, terminator_date);
            &&& row is None
            &&& end.phase() == Phase::AwaitingSection
            &&& end.transaction == TransactionView::empty()
        }),
{
    terminators_open_no_section(terminator);
}

/// A row whose only description text is an amount in a foreign currency
/// is given out with that text as its description: the fragment, met in an
/// open row that has no description yet, becomes the description, whether
/// or not the row has its amount.
pub proof fn foreign_currency_describes_row(
    state: RowState,
    text: Seq<char>,
    cardholder_name: Seq<char>,
)
    requires
        state.phase() == Phase::InRow,
        !state.skip_next_non_date,
        state.transaction.description.len() == 0,
        state.desc_parts.len() == 0,
        spec_is_foreign_currency(text),
        !spec_is_section_start(text),
        !spec_is_section_terminator(text),
        !spec_is_skippable_symbol(text),
        !spec_is_page_number(text),
        !spec_is_page_header(text),
    ensures
        ({
            let (next, row) = state.step(text, cardholder_name, None);
            &&& row is None
            &&& next.flushed() == Some(TransactionView { description: text, ..state.transaction })
            &&& text.len() >= 4
        }),
{
    reveal_strlit("USD ");
    reveal_strlit("JPY ");
    reveal_strlit("MYR ");
    reveal_strlit("EUR ");
    reveal_strlit("GBP ");
    reveal_strlit("SGD ");
    reveal_strlit("AUD ");
    reveal_strlit("THB ");
    assert("USD "@.len() == 4 && "JPY "@.len() == 4 && "MYR "@.len() == 4 && "EUR "@.len() == 4);
    assert("GBP "@.len() == 4 && "SGD "@.len() == 4 && "AUD "@.len() == 4 && "THB "@.len() == 4);
    let next = state.step(text, cardholder_name, None).0;
    assert(next.desc_parts == seq![text]);
    assert(join_with_space(next.desc_parts) == text);
}

/// `text` speaks for a credit: the credit marker, the credit suffix, or a
/// cell that begins with a plus sign.
pub open spec fn is_credit_evidence(text: Seq<char>) -> bool {
    text == CREDIT_MARKER@ || text == CREDIT_SUFFIX@ || marked_credit(text)
}

/// No credit marker is pending and the open row holds no credit.
pub open spec fn holds_no_credit(state: RowState) -> bool {
    !state.is_credit && state.transaction.amount.is_non_positive()
}

/// A fragment that is no credit evidence leaves a state without credit
/// without credit, and the row that it closes is no credit.
pub proof fn step_without_credit_evidence(
    state: RowState,
    text: Seq<char>,
    cardholder_name: Seq<char>,
    date: Option<DateTime>,
)
    requires
        holds_no_credit(state),
        !is_credit_evidence(text),
    ensures
        holds_no_credit(state.step(text, cardholder_name, date).0),
        state.step(text, cardholder_name, date).1 matches Some(t) ==> t.amount.is_non_positive(),
{
    assert(TransactionView::empty().amount.is_non_positive());
}

/// Fragments without credit evidence, from a state without credit, close
/// only rows that are no credit, and leave a state without credit.
pub proof fn run_without_credit_evidence(
    state: RowState,
    texts: Seq<Seq<char>>,
    cardholder_name: Seq<char>,
)
    requires
        holds_no_credit(state),
        forall|i: int| 0 <= i < texts.len() ==> !is_credit_evidence(#[trigger] texts[i]),
    ensures
        holds_no_credit(run(state, texts, cardholder_name).0),
        forall|k: int|
            0 <= k < run(state, texts, cardholder_name).1.len() ==> (#[trigger] run(
                state,
                texts,
                cardholder_name,
            ).1[k]).amount.is_non_positive(),
    decreases texts.len(),
{
    if texts.len() > 0 {
        run_without_credit_evidence(state, texts.drop_last(), cardholder_name);
        let before = run(state, texts.drop_last(), cardholder_name);
        step_without_credit_evidence(
            before.0,
            texts.last(),
            cardholder_name,
            spec_transaction_date(texts.last()),
        );
    }
}

/// On a page without credit evidence every row is a debit or zero: its
/// amount is not above zero.
pub proof fn rows_without_credit_evidence_are_debits(
    texts: Seq<Seq<char>>,
    cardholder_name: Seq<char>,
)
    requires
        forall|i: int| 0 <= i < texts.len() ==> !is_credit_evidence(#[trigger] texts[i]),
    ensures
        forall|k: int|
            0 <= k < page_rows(texts, cardholder_name).len() ==> (#[trigger] page_rows(
                texts,
                cardholder_name,
            )[k]).amount.is_non_positive(),
{
    assert(TransactionView::empty().amount.is_non_positive());
    run_without_credit_evidence(RowState::initial(), texts, cardholder_name);
}

/// `text` leaves the open row open: it neither opens nor closes a section
/// and is no date.
pub open spec fn keeps_row(text: Seq<char>) -> bool {
    &&& !spec_is_section_start(text)
    &&& !spec_is_section_terminator(text)
    &&& spec_transaction_date(text) is None
}

/// `text` is taken as the amount of an open row: it reads as an amount
/// and no rule of higher priority takes it.
pub open spec fn is_amount_fragment(text: Seq<char>) -> bool {
    &&& !spec_is_skippable_symbol(text)
    &&& !spec_is_page_number(text)
    &&& !spec_is_page_header(text)
    &&& !spec_is_foreign_currency(text)
    &&& reads_as_amount(text)
}

/// The amount of a row without credit evidence after the fragments
/// `cells`, where it was `start` before them: the printed magnitude of the
/// last amount fragment, as a debit; `start` where there is none.
pub open spec fn last_amount(start: AmountView, cells: Seq<Seq<char>>) -> AmountView
    decreases cells.len(),
{
    if cells.len() == 0 {
        start
    } else if is_amount_fragment(cells.last()) {
        spec_parse_amount(cells.last(), false)->0
    } else {
        last_amount(start, cells.drop_last())
    }
}

/// In an open row without a pending credit marker, fragments that leave
/// the row open and are no credit evidence close no row, keep the date,
/// and leave as the amount that of the last amount fragment: a debit of
/// the printed magnitude.
pub proof fn run_keeps_last_amount(
    state: RowState,
    cells: Seq<Seq<char>>,
    cardholder_name: Seq<char>,
)
    requires
        state.phase() == Phase::InRow,
        !state.skip_next_non_date,
        !state.is_credit,
        forall|i: int|
            0 <= i < cells.len() ==> keeps_row(#[trigger] cells[i]) && !is_credit_evidence(
                cells[i],
            ),
    ensures
        ({
            let end = run(state, cells, cardholder_name);
            &&& end.1.len() == 0
            &&& end.0.phase() == Phase::InRow
            &&& !end.0.skip_next_non_date
            &&& !end.0.is_credit
            &&& end.0.transaction.date == state.transaction.date
            &&& end.0.transaction.amount == last_amount(state.transaction.amount, cells)
            &&& state.transaction.amount.is_non_positive()
                ==> end.0.transaction.amount.is_non_positive()
        }),
    decreases cells.len(),
{
    if cells.len() > 0 {
        run_keeps_last_amount(state, cells.drop_last(), cardholder_name);
        assert(keeps_row(cells.last()) && !is_credit_evidence(cells.last()));
        let before = run(state, cells.drop_last(), cardholder_name);
        let after = before.0.step(
            cells.last(),
            cardholder_name,
            spec_transaction_date(cells.last()),
        );
        assert(after.1 is None);
        assert(before.1 + emitted(after.1) == before.1);
    }
}

/// A row without credit evidence is given out as a debit of the amount
/// that was printed last: after its date, and as long as the fragments
/// leave the row open and none of them is a credit marker, a credit
/// suffix or a cell that begins with a plus sign, the row closes with the
/// date of its anchor and the printed magnitude of its last amount
/// fragment, marked negative; with zero where it has no amount fragment.
pub proof fn row_without_credit_evidence_is_debit_of_last_amount(
    state: RowState,
    anchor: Seq<char>,
    date: DateTime,
    cells: Seq<Seq<char>>,
    cardholder_name: Seq<char>,
)
    requires
        state.in_transactions,
        state.past_header,
        !spec_is_section_start(anchor),
        !spec_is_section_terminator(anchor),
        forall|i: int|
            0 <= i < cells.len() ==> keeps_row(#[trigger] cells[i]) && !is_credit_evidence(
                cells[i],
            ),
    ensures
        ({
            let opened = state.step(anchor, cardholder_name, Some(date)).0;
            let end = run(opened, cells, cardholder_name);
            &&& end.1.len() == 0
            &&& end.0.flushed() matches Some(row) ==> {
                &&& row.date == date
                &&& row.amount == last_amount(AmountView::zero(), cells)
                &&& row.amount.is_non_positive()
                &&& (exists|i: int| 0 <= i < cells.len() && is_amount_fragment(#[trigger] cells[i]))
                    ==> row.amount.negative
            }
        }),
{
    let opened = state.step(anchor, cardholder_name, Some(date)).0;
    assert(AmountView::zero().is_non_positive());
    run_keeps_last_amount(opened, cells, cardholder_name);
    last_amount_is_a_debit(AmountView::zero(), cells);
}

/// The amount of the last amount fragment, where the fragments hold one
/// and none is credit evidence, is marked negative.
pub proof fn last_amount_is_a_debit(start: AmountView, cells: Seq<Seq<char>>)
    requires
        forall|i: int| 0 <= i < cells.len() ==> !is_credit_evidence(#[trigger] cells[i]),
    ensures
        (exists|i: int| 0 <= i < cells.len() && is_amount_fragment(#[trigger] cells[i]))
            ==> last_amount(start, cells).negative,
    decreases cells.len(),
{
    if cells.len() > 0 {
        assert(!is_credit_evidence(cells.last()));
        if !is_amount_fragment(cells.last()) {
            last_amount_is_a_debit(start, cells.drop_last());
            if exists|i: int| 0 <= i < cells.len() && is_amount_fragment(#[trigger] cells[i]) {
                let i = choose|i: int| 0 <= i < cells.len() && is_amount_fragment(#[trigger] cells[i]);
                assert(i < cells.len() - 1);
                assert(is_amount_fragment(cells.drop_last()[i]));
            }
        }
    }
}

/// `text` is read as the amount of an open row, unless a rule of higher
/// priority takes it first.
pub open spec fn reads_as_amount(text: Seq<char>) -> bool {
    text.contains('.') && spec_parse_amount(text, false) is Some
}

/// `text` neither ends the open row nor gives it an amount.
pub open spec fn keeps_row_and_amount(text: Seq<char>) -> bool {
    &&& !spec_is_section_start(text)
    &&& !spec_is_section_terminator(text)
    &&& spec_transaction_date(text) is None
    &&& !reads_as_amount(text)
}

/// A row is open, past the header, and its amount is not below zero.
pub open spec fn holds_credit(state: RowState) -> bool {
    &&& state.phase() == Phase::InRow
    &&& !state.skip_next_non_date
    &&& state.transaction.amount.is_non_negative()
}

/// Fragments that neither end the row nor give it an amount leave the row
/// open with an amount not below zero, and close no row.
pub proof fn run_keeps_credit(state: RowState, texts: Seq<Seq<char>>, cardholder_name: Seq<char>)
    requires
        holds_credit(state),
        forall|i: int| 0 <= i < texts.len() ==> keeps_row_and_amount(#[trigger] texts[i]),
    ensures
        holds_credit(run(state, texts, cardholder_name).0),
        run(state, texts, cardholder_name).1.len() == 0,
    decreases texts.len(),
{
    if texts.len() > 0 {
        run_keeps_credit(state, texts.drop_last(), cardholder_name);
        assert(keeps_row_and_amount(texts.last()));
    }
}

/// A row whose amount is followed by the credit suffix is given out as a
/// credit or as zero, whatever stood before the suffix: once "Cr" is taken
/// into the open row, and as long as what follows neither ends the row nor
/// gives it another amount, the row closes with an amount not below zero.
pub proof fn trailing_credit_suffix_makes_credit(
    state: RowState,
    rest: Seq<Seq<char>>,
    cardholder_name: Seq<char>,
)
    requires
        state.phase() == Phase::InRow,
        !state.skip_next_non_date,
        forall|i: int| 0 <= i < rest.len() ==> keeps_row_and_amount(#[trigger] rest[i]),
    ensures
        ({
            let marked = state.step(CREDIT_SUFFIX@, cardholder_name, None).0;
            let end = run(marked, rest, cardholder_name);
            &&& end.1.len() == 0
            &&& end.0.flushed() matches Some(t) ==> t.amount.is_non_negative()
        }),
{
    credit_suffix_is_a_symbol();
    let marked = state.step(CREDIT_SUFFIX@, cardholder_name, None).0;
    assert(marked.transaction.amount == state.transaction.amount.abs());
    run_keeps_credit(marked, rest, cardholder_name);
}

/// `text` reaches the cells of an open row: it neither opens nor closes a
/// section, is no date, no lone symbol, no page furniture and no amount in
/// a foreign currency.
pub open spec fn is_cell(text: Seq<char>) -> bool {
    &&& !spec_is_section_start(text)
    &&& !spec_is_section_terminator(text)
    &&& spec_transaction_date(text) is None
    &&& !spec_is_skippable_symbol(text)
    &&& !spec_is_page_number(text)
    &&& !spec_is_page_header(text)
    &&& !spec_is_foreign_currency(text)
}

/// `text` anchors a row at `date`.
pub open spec fn is_date_cell(text: Seq<char>, date: DateTime) -> bool {
    &&& !spec_is_section_start(text)
    &&& !spec_is_section_terminator(text)
    &&& spec_transaction_date(text) == Some(date)
}

/// `text` is taken as description: a cell that is not empty and reads
/// neither as an amount nor as points.
pub open spec fn is_description_cell(text: Seq<char>) -> bool {
    &&& is_cell(text)
    &&& text.len() > 0
    &&& !reads_as_amount(text)
    &&& spec_parse_points(text) is None
}

/// `text` is taken as the points `points`.
pub open spec fn is_points_cell(text: Seq<char>, points: i32) -> bool {
    &&& is_cell(text)
    &&& !reads_as_amount(text)
    &&& spec_parse_points(text) == Some(points)
}

/// `text` is taken as the amount `amount`, no credit marker pending.
pub open spec fn is_amount_cell(text: Seq<char>, amount: AmountView) -> bool {
    &&& is_cell(text)
    &&& text.contains('.')
    &&& spec_parse_amount(text, false) == Some(amount)
}

/// The fragments `texts` lay out the row `row` as a page does: its date,
/// its description if it has one, its points and its amount, each in a
/// form that reads back as the value.
pub open spec fn lays_out(texts: Seq<Seq<char>>, row: TransactionView) -> bool {
    if row.description.len() > 0 {
        &&& texts.len() == 4
        &&& is_date_cell(texts[0], row.date)
        &&& is_description_cell(texts[1])
        &&& texts[1] == row.description
        &&& is_points_cell(texts[2], row.points)
        &&& is_amount_cell(texts[3], row.amount)
    } else {
        &&& texts.len() == 3
        &&& is_date_cell(texts[0], row.date)
        &&& is_points_cell(texts[1], row.points)
        &&& is_amount_cell(texts[2], row.amount)
    }
}

/// The fragments of all the layouts, one layout after the other.
pub open spec fn laid_end_to_end(layouts: Seq<Seq<Seq<char>>>) -> Seq<Seq<char>>
    decreases layouts.len(),
{
    if layouts.len() == 0 {
        Seq::empty()
    } else {
        laid_end_to_end(layouts.drop_last()) + layouts.last()
    }
}

/// The rows that have a description, in order.
pub open spec fn with_description(rows: Seq<TransactionView>) -> Seq<TransactionView>
    decreases rows.len(),
{
    if rows.len() == 0 {
        Seq::empty()
    } else if rows.last().description.len() > 0 {
        with_description(rows.drop_last()).push(rows.last())
    } else {
        with_description(rows.drop_last())
    }
}

/// Running over one fragment is one step.
pub proof fn run_of_one(state: RowState, text: Seq<char>, cardholder_name: Seq<char>)
    ensures
        run(state, seq![text], cardholder_name) == (
            state.step(text, cardholder_name, spec_transaction_date(text)).0,
            emitted(state.step(text, cardholder_name, spec_transaction_date(text)).1),
        ),
{
    let one = seq![text];
    assert(one.drop_last() == Seq::<Seq<char>>::empty());
    assert(one.last() == text);
    assert(run(state, one.drop_last(), cardholder_name) == (
        state,
        Seq::<TransactionView>::empty(),
    ));
    let step = state.step(text, cardholder_name, spec_transaction_date(text));
    assert(Seq::<TransactionView>::empty() + emitted(step.1) == emitted(step.1));
}

/// Running over two lists of fragments in a row is running over the first
/// and then, from where that ends, over the second.
pub proof fn run_in_two_parts(
    state: RowState,
    first: Seq<Seq<char>>,
    second: Seq<Seq<char>>,
    cardholder_name: Seq<char>,
)
    ensures
        run(state, first + second, cardholder_name) == ({
            let middle = run(state, first, cardholder_name);
            let end = run(middle.0, second, cardholder_name);
            (end.0, middle.1 + end.1)
        }),
    decreases second.len(),
{
    let middle = run(state, first, cardholder_name);
    if second.len() == 0 {
        assert(first + second == first);
        assert(middle.1 + Seq::<TransactionView>::empty() == middle.1);
    } else {
        let all = first + second;
        assert(all.drop_last() == first + second.drop_last());
        assert(all.last() == second.last());
        run_in_two_parts(state, first, second.drop_last(), cardholder_name);
        let shorter = run(middle.0, second.drop_last(), cardholder_name);
        let step = shorter.0.step(
            second.last(),
            cardholder_name,
            spec_transaction_date(second.last()),
        );
        assert((middle.1 + shorter.1) + emitted(step.1) == middle.1 + (shorter.1 + emitted(
            step.1,
        )));
    }
}

/// Past the header of a section, the layout of one row closes the row
/// that was open and leaves the laid-out row open, ready to be given out
/// as it was laid out, or not at all if it has no description.
pub proof fn one_layout_reads_back(
    state: RowState,
    texts: Seq<Seq<char>>,
    row: TransactionView,
    cardholder_name: Seq<char>,
)
    requires
        state.in_transactions,
        state.past_header,
        lays_out(texts, row),
    ensures
        ({
            let end = run(state, texts, cardholder_name);
            &&& end.1 == emitted(state.flushed())
            &&& end.0.in_transactions
            &&& end.0.past_header
            &&& end.0.flushed() == if row.description.len() > 0 {
                Some(row)
            } else {
                None
            }
        }),
{
    let s1 = state.step(texts[0], cardholder_name, spec_transaction_date(texts[0]));
    assert(s1.1 == state.flushed());
    assert(s1.0.transaction == (TransactionView { date: row.date, ..TransactionView::empty() }));
    run_of_one(state, texts[0], cardholder_name);
    if row.description.len() > 0 {
        let s2 = s1.0.step(texts[1], cardholder_name, spec_transaction_date(texts[1]));
        let s3 = s2.0.step(texts[2], cardholder_name, spec_transaction_date(texts[2]));
        let s4 = s3.0.step(texts[3], cardholder_name, spec_transaction_date(texts[3]));
        assert(s2.0.desc_parts == seq![texts[1]]);
        assert(s2.0.transaction.description == texts[1]);
        assert(s3.0.transaction.points == row.points);
        assert(s4.0.transaction.amount == row.amount);
        assert(s4.0.desc_parts == seq![texts[1]]);
        assert(join_with_space(s4.0.desc_parts) == texts[1]);
        assert(s4.0.transaction == row);
        assert(s4.0.flushed() == Some(row));
        run_of_one(s1.0, texts[1], cardholder_name);
        run_of_one(s2.0, texts[2], cardholder_name);
        run_of_one(s3.0, texts[3], cardholder_name);
        let a = seq![texts[0]];
        let b = seq![texts[1]];
        let c = seq![texts[2]];
        let d = seq![texts[3]];
        run_in_two_parts(state, a, b, cardholder_name);
        run_in_two_parts(state, a + b, c, cardholder_name);
        run_in_two_parts(state, a + b + c, d, cardholder_name);
        assert(texts == a + b + c + d);
        assert(emitted(state.flushed()) + Seq::<TransactionView>::empty() == emitted(
            state.flushed(),
        ));
    } else {
        let s2 = s1.0.step(texts[1], cardholder_name, spec_transaction_date(texts[1]));
        let s3 = s2.0.step(texts[2], cardholder_name, spec_transaction_date(texts[2]));
        assert(s3.0.transaction.description.len() == 0);
        run_of_one(s1.0, texts[1], cardholder_name);
        run_of_one(s2.0, texts[2], cardholder_name);
        let a = seq![texts[0]];
        let b = seq![texts[1]];
        let c = seq![texts[2]];
        run_in_two_parts(state, a, b, cardholder_name);
        run_in_two_parts(state, a + b, c, cardholder_name);
        assert(texts == a + b + c);
        assert(emitted(state.flushed()) + Seq::<TransactionView>::empty() == emitted(
            state.flushed(),
        ));
    }
}

/// Rows that are laid out as fragments are read back as they were: past
/// the header of a section and with no row open, the fragments of the
/// layouts, one layout after the other, give out exactly the rows that
/// have a description, in order, the last of them when the page ends.
pub proof fn laid_out_rows_read_back(
    state: RowState,
    layouts: Seq<Seq<Seq<char>>>,
    rows: Seq<TransactionView>,
    cardholder_name: Seq<char>,
)
    requires
        state.in_transactions,
        state.past_header,
        !state.in_row,
        layouts.len() == rows.len(),
        forall|i: int| 0 <= i < rows.len() ==> lays_out(#[trigger] layouts[i], rows[i]),
    ensures
        ({
            let end = run(state, laid_end_to_end(layouts), cardholder_name);
            &&& end.1 + emitted(end.0.flushed()) == with_description(rows)
            &&& end.0.in_transactions
            &&& end.0.past_header
        }),
    decreases rows.len(),
{
    if rows.len() == 0 {
        assert(Seq::<TransactionView>::empty() + emitted(state.flushed()) == Seq::<
            TransactionView,
        >::empty());
    } else {
        let earlier = layouts.drop_last();
        assert forall|i: int| 0 <= i < rows.drop_last().len() implies lays_out(
            #[trigger] earlier[i],
            rows.drop_last()[i],
        ) by {
            assert(earlier[i] == layouts[i]);
        }
        laid_out_rows_read_back(state, earlier, rows.drop_last(), cardholder_name);
        let middle = run(state, laid_end_to_end(earlier), cardholder_name);
        assert(lays_out(layouts[layouts.len() - 1], rows[rows.len() - 1]));
        one_layout_reads_back(middle.0, layouts.last(), rows.last(), cardholder_name);
        run_in_two_parts(state, laid_end_to_end(earlier), layouts.last(), cardholder_name);
        let last = run(middle.0, layouts.last(), cardholder_name);
        assert(middle.1 + last.1 == with_description(rows.drop_last()));
        if rows.last().description.len() == 0 {
            assert(with_description(rows.drop_last()) + Seq::<TransactionView>::empty()
                == with_description(rows.drop_last()));
        }
    }
}

/// A page that is made of a section label, the cardholder's name and the
/// layouts of some rows reads back as exactly those of the rows that have
/// a description.
pub proof fn laid_out_page_reads_back(
    layouts: Seq<Seq<Seq<char>>>,
    rows: Seq<TransactionView>,
    cardholder_name: Seq<char>,
)
    requires
        !spec_is_section_start(cardholder_name),
        layouts.len() == rows.len(),
        forall|i: int| 0 <= i < rows.len() ==> lays_out(#[trigger] layouts[i], rows[i]),
    ensures
        page_rows(
            seq![DOMESTIC_SECTION@, cardholder_name] + laid_end_to_end(layouts),
            cardholder_name,
        ) == with_description(rows),
{
    let label = seq![DOMESTIC_SECTION@];
    let name = seq![cardholder_name];
    let head = seq![DOMESTIC_SECTION@, cardholder_name];
    assert(head == label + name);
    run_of_one(RowState::initial(), DOMESTIC_SECTION@, cardholder_name);
    let entered = run(RowState::initial(), label, cardholder_name);
    run_of_one(entered.0, cardholder_name, cardholder_name);
    run_in_two_parts(RowState::initial(), label, name, cardholder_name);
    let ready = run(RowState::initial(), head, cardholder_name);
    assert(ready.1 == Seq::<TransactionView>::empty());
    assert(ready.0.in_transactions && ready.0.past_header && !ready.0.in_row);
    laid_out_rows_read_back(ready.0, layouts, rows, cardholder_name);
    run_in_two_parts(RowState::initial(), head, laid_end_to_end(layouts), cardholder_name);
    let end = run(ready.0, laid_end_to_end(layouts), cardholder_name);
    assert(Seq::<TransactionView>::empty() + end.1 == end.1);
}

/// Reading the same page twice gives the same rows: whatever two runs of
/// [`crate::rows::parse`] return for the same fragments and the same
/// cardholder's name stands for the same transactions, field by field.
pub proof fn same_page_same_rows(
    texts: Seq<String>,
    cardholder_name: Seq<char>,
    first: Seq<Transaction>,
    second: Seq<Transaction>,
)
    requires
        rows_view(first) == page_rows(texts_view(texts), cardholder_name),
        rows_view(second) == page_rows(texts_view(texts), cardholder_name),
    ensures
        first.len() == second.len(),
        forall|i: int| 0 <= i < first.len() ==> (#[trigger] first[i])@ == second[i]@,
{
    assert(rows_view(first).len() == first.len());
    assert(rows_view(second).len() == second.len());
    assert forall|i: int| 0 <= i < first.len() implies (#[trigger] first[i])@ == second[i]@ by {
        assert(rows_view(first)[i] == first[i]@);
        assert(rows_view(second)[i] == second[i]@);
    }
}

/// Reading the same page of a document twice gives the same transactions:
/// whatever two runs of [`crate::pipeline::page_transactions`] return for
/// the same page and the same cardholder's name stands for the same
/// transactions, field by field.
pub proof fn same_page_same_transactions(
    page: Page,
    cardholder_name: Seq<char>,
    first: Seq<Transaction>,
    second: Seq<Transaction>,
)
    requires
        rows_view(first) == page_rows(fragment_texts(page_fragments(page)), cardholder_name),
        rows_view(second) == page_rows(fragment_texts(page_fragments(page)), cardholder_name),
    ensures
        first.len() == second.len(),
        forall|i: int| 0 <= i < first.len() ==> (#[trigger] first[i])@ == second[i]@,
{
    assert(rows_view(first).len() == first.len());
    assert(rows_view(second).len() == second.len());
    assert forall|i: int| 0 <= i < first.len() implies (#[trigger] first[i])@ == second[i]@ by {
        assert(rows_view(first)[i] == first[i]@);
        assert(rows_view(second)[i] == second[i]@);
    }
}

} // verus!
