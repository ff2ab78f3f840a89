//! The row machine: it takes the text fragments of a page in drawing order
//! and groups them into transactions.

use crate::amount::{parse_amount, spec_parse_amount};
use crate::date::{parse_transaction_date, spec_transaction_date, DateTime};
use crate::labels::{
    is_foreign_currency, is_header_boundary, is_page_header, is_page_number, is_section_start,
    is_section_terminator, is_skippable_symbol, spec_is_foreign_currency,
    spec_is_header_boundary, spec_is_page_header, spec_is_page_number, spec_is_section_start,
    spec_is_section_terminator, spec_is_skippable_symbol, CREDIT_MARKER, CREDIT_SUFFIX,
};
use crate::points::{parse_points, spec_parse_points};
use crate::text::{chars_of, contains_char, is_text, join_with_space, string_of};
use crate::transaction::{Transaction, TransactionView};
use vstd::prelude::*;

verus! {

/// What a [`ParserState`] stands for.
pub struct RowState {
    /// A section label was seen and no terminator since.
    pub in_transactions: bool,
    /// The header of the section lies behind.
    pub past_header: bool,
    /// The next fragment is dropped unless it is a date.
    pub skip_next_non_date: bool,
    /// A date has anchored a row that is not yet closed.
    pub in_row: bool,
    /// The row has its amount.
    pub has_amount: bool,
    /// A credit marker waits for the next amount.
    pub is_credit: bool,
    /// The row in progress.
    pub transaction: TransactionView,
    /// The fragments that make up the description of the row.
    pub desc_parts: Seq<Seq<char>>,
}

/// The four phases of the machine.
#[derive(Debug, Clone, Copy, PartialEq, Eq, Structural)]
pub enum Phase {
    /// Outside any section.
    AwaitingSection,
    /// Inside a section, before its first row can start.
    InHeader,
    /// Inside a section, a row is open.
    InRow,
    /// Inside a section, past the header, no row open.
    BetweenRows,
}

impl RowState {
    /// The state at the top of a page.
    pub open spec fn initial() -> RowState {
        RowState {
            in_transactions: false,
            past_header: false,
            skip_next_non_date: false,
            in_row: false,
            has_amount: false,
            is_credit: false,
            transaction: TransactionView::empty(),
            desc_parts: Seq::empty(),
        }
    }

    /// The phase that the flags amount to.
    pub open spec fn phase(self) -> Phase {
        if !self.in_transactions {
            Phase::AwaitingSection
        } else if !self.past_header {
            Phase::InHeader
        } else if self.in_row {
            Phase::InRow
        } else {
            Phase::BetweenRows
        }
    }

    /// What closing the open row gives out: the row, with the joined parts
    /// as its description, if it has a description; nothing otherwise.
    pub open spec fn flushed(self) -> Option<TransactionView> {
        if self.in_row && self.transaction.description.len() > 0 {
            Some(
                TransactionView {
                    description: if self.desc_parts.len() > 0 {
                        join_with_space(self.desc_parts)
                    } else {
                        self.transaction.description
                    },
                    ..self.transaction
                },
            )
        } else {
            None
        }
    }

    /// The state with a fresh row anchored at `date`.
    pub open spec fn row_started(self, date: DateTime) -> RowState {
        RowState {
            in_row: true,
            has_amount: false,
            is_credit: false,
            transaction: TransactionView { date, ..TransactionView::empty() },
            desc_parts: Seq::empty(),
            ..self
        }
    }

    /// The state after a section terminator.
    pub open spec fn section_exited(self) -> RowState {
        RowState {
            in_transactions: false,
            in_row: false,
            has_amount: false,
            transaction: TransactionView::empty(),
            desc_parts: Seq::empty(),
            ..self
        }
    }

    /// The state after `text` was added to the description of the open row:
    /// it is one more part, and the description itself where the row had
    /// none.
    pub open spec fn described(self, text: Seq<char>) -> RowState {
        RowState {
            desc_parts: self.desc_parts.push(text),
            transaction: TransactionView {
                description: if self.transaction.description.len() == 0 {
                    text
                } else {
                    self.transaction.description
                },
                ..self.transaction
            },
            ..self
        }
    }

    /// The state after the fragment `text` was taken into the open row.
    /// In order: a lone symbol is absorbed, where a plus sign arms the
    /// credit flag and "Cr" makes the amount a credit; page furniture is
    /// dropped; a foreign-currency amount joins the description; a cell with
    /// a point that reads as a number is the amount; a cell that reads as a
    /// whole number is the points; after the amount all else is dropped;
    /// what is left is description. An amount in a foreign currency is
    /// description even after the amount.
    pub open spec fn fragment_taken(self, text: Seq<char>) -> RowState {
        if spec_is_skippable_symbol(text) {
            if text == CREDIT_MARKER@ {
                RowState { is_credit: true, ..self }
            } else if text == CREDIT_SUFFIX@ {
                RowState {
                    transaction: TransactionView {
                        amount: self.transaction.amount.abs(),
                        ..self.transaction
                    },
                    ..self
                }
            } else {
                self
            }
        } else if spec_is_page_number(text) || spec_is_page_header(text) {
            self
        } else if spec_is_foreign_currency(text) {
            self.described(text)
        } else if text.contains('.') && spec_parse_amount(text, self.is_credit) is Some {
            RowState {
                has_amount: true,
                is_credit: false,
                transaction: TransactionView {
                    amount: spec_parse_amount(text, self.is_credit)->0,
                    ..self.transaction
                },
                ..self
            }
        } else if spec_parse_points(text) is Some {
            RowState {
                transaction: TransactionView {
                    points: spec_parse_points(text)->0,
                    ..self.transaction
                },
                ..self
            }
        } else if self.has_amount {
            self
        } else {
            self.described(text)
        }
    }

    /// Whether the machine, in this state, asks if `text` is a date.
    pub open spec fn consults_date(self, text: Seq<char>) -> bool {
        !spec_is_section_start(text) && self.in_transactions && self.past_header
    }

    /// One transition: the state after the fragment `text`, and the row that
    /// the fragment closed, if any. `date` is the date that `text` reads as.
    ///
    /// In order of priority: a section label enters the header of a section;
    /// outside a section nothing counts; in the header all is passed over
    /// until the cardholder's name or the points column label, after which
    /// one fragment is dropped unless it is a date; a terminator closes the
    /// open row and leaves the section; a date closes the open row and
    /// starts a new one; without an open row nothing counts; anything else
    /// goes into the open row.
    pub open spec fn step(
        self,
        text: Seq<char>,
        cardholder_name: Seq<char>,
        date: Option<DateTime>,
    ) -> (RowState, Option<TransactionView>) {
        if spec_is_section_start(text) {
            (RowState { in_transactions: true, past_header: false, ..self }, None)
        } else if !self.in_transactions {
            (self, None)
        } else if !self.past_header {
            if spec_is_header_boundary(text, cardholder_name) {
                (RowState { past_header: true, skip_next_non_date: true, ..self }, None)
            } else {
                (self, None)
            }
        } else if self.skip_next_non_date && date is None {
            (RowState { skip_next_non_date: false, ..self }, None)
        } else {
            let armed = RowState { skip_next_non_date: false, ..self };
            if spec_is_section_terminator(text) {
                (armed.section_exited(), armed.flushed())
            } else if date is Some {
                (armed.row_started(date->0), armed.flushed())
            } else if !armed.in_row {
                (armed, None)
            } else {
                (armed.fragment_taken(text), None)
            }
        }
    }

    /// The amount of the open row is a proper decimal, and its description,
    /// once it has one, is one of the parts.
    pub open spec fn wf(self) -> bool {
        &&& self.transaction.amount.wf()
        &&& self.transaction.description.len() > 0 ==> self.desc_parts.contains(
            self.transaction.description,
        )
    }
}

/// An optional row as a sequence of none or one.
pub open spec fn emitted(row: Option<TransactionView>) -> Seq<TransactionView> {
    match row {
        Some(t) => seq![t],
        None => Seq::empty(),
    }
}

/// The state after the fragments `texts`, one after the other, and the rows
/// that they closed, in order.
pub open spec fn run(state: RowState, texts: Seq<Seq<char>>, cardholder_name: Seq<char>) -> (
    RowState,
    Seq<TransactionView>,
)
    decreases texts.len(),
{
    if texts.len() == 0 {
        (state, Seq::empty())
    } else {
        let before = run(state, texts.drop_last(), cardholder_name);
        let after = before.0.step(
            texts.last(),
            cardholder_name,
            spec_transaction_date(texts.last()),
        );
        (after.0, before.1 + emitted(after.1))
    }
}

/// The rows of a page: those that its fragments close, and the row left
/// open at its end.
pub open spec fn page_rows(texts: Seq<Seq<char>>, cardholder_name: Seq<char>) -> Seq<
    TransactionView,
> {
    let end = run(RowState::initial(), texts, cardholder_name);
    end.1 + emitted(end.0.flushed())
}

/// What an optional transaction stands for.
pub open spec fn row_view(row: Option<Transaction>) -> Option<TransactionView> {
    match row {
        Some(t) => Some(t@),
        None => None,
    }
}

/// What a list of texts stands for.
pub open spec fn texts_view(texts: Seq<String>) -> Seq<Seq<char>> {
    texts.map_values(|s: String| s@)
}

/// What a list of transactions stands for.
pub open spec fn rows_view(rows: Seq<Transaction>) -> Seq<TransactionView> {
    rows.map_values(|t: Transaction| t@)
}

/// The state of the row machine while it goes through one page.
pub struct ParserState {
    in_transactions: bool,
    past_header: bool,
    skip_next_non_date: bool,
    in_row: bool,
    has_amount: bool,
    is_credit: bool,
    transaction: Transaction,
    desc_parts: Vec<Vec<char>>,
}

impl View for ParserState {
    type V = RowState;

    closed spec fn view(&self) -> RowState {
        RowState {
            in_transactions: self.in_transactions,
            past_header: self.past_header,
            skip_next_non_date: self.skip_next_non_date,
            in_row: self.in_row,
            has_amount: self.has_amount,
            is_credit: self.is_credit,
            transaction: self.transaction@,
            desc_parts: self.desc_parts@.map_values(|p: Vec<char>| p@),
        }
    }
}

/// The parts joined with one space between neighbours.
fn joined(parts: &Vec<Vec<char>>) -> (r: Vec<char>)
    ensures
        r@ == join_with_space(parts@.map_values(|p: Vec<char>| p@)),
{
    let ghost views = parts@.map_values(|p: Vec<char>| p@);
    let mut r: Vec<char> = Vec::new();
    let mut i: usize = 0;
    assert(views.take(0) == Seq::<Seq<char>>::empty());
    while i < parts.len()
        invariant
            i <= parts.len(),
            views == parts@.map_values(|p: Vec<char>| p@),
            r@ == join_with_space(views.take(i as int)),
        decreases parts.len() - i,
    {
        let ghost before = r@;
        assert(views.take(i + 1).drop_last() == views.take(i as int));
        assert(views.take(i + 1).last() == parts@[i as int]@);
        if i > 0 {
            r.push(' ');
        }
        let part = &parts[i];
        let ghost head = r@;
        let mut k: usize = 0;
        while k < part.len()
            invariant
                k <= part.len(),
                r@ == head + part@.take(k as int),
            decreases part.len() - k,
        {
            r.push(part[k]);
            k += 1;
        }
        assert(part@.take(part.len() as int) == part@);
        proof {
            if i == 0 {
                assert(before == Seq::<char>::empty());
                assert(r@ == part@);
            } else {
                assert(r@ == before.push(' ').add(part@));
            }
        }
        i += 1;
    }
    assert(views.take(parts.len() as int) == views);
    r
}

impl ParserState {
    /// The state is one that the machine can be in: see [`RowState::wf`].
    pub open spec fn wf(&self) -> bool {
        self@.wf()
    }

    /// The state at the top of a page.
    pub fn new() -> (state: ParserState)
        ensures
            state@ == RowState::initial(),
            state.wf(),
    {
        let state = ParserState {
            in_transactions: false,
            past_header: false,
            skip_next_non_date: false,
            in_row: false,
            has_amount: false,
            is_credit: false,
            transaction: Transaction::default(),
            desc_parts: Vec::new(),
        };
        assert(state@.desc_parts == Seq::<Seq<char>>::empty());
        state
    }

    /// The phase of the machine.
    pub fn phase(&self) -> (p: Phase)
        ensures
            p == self@.phase(),
    {
        if !self.in_transactions {
            Phase::AwaitingSection
        } else if !self.past_header {
            Phase::InHeader
        } else if self.in_row {
            Phase::InRow
        } else {
            Phase::BetweenRows
        }
    }

    /// The open row as it would be given out now, if it has a description.
    /// The state stays as it is.
    pub fn flush_transaction(&self) -> (row: Option<Transaction>)
        ensures
            row_view(row) == self@.flushed(),
            row matches Some(t) ==> t.wf(),
    {
        if self.in_row && !self.transaction.description.as_str().is_empty() {
            let description = if self.desc_parts.len() > 0 {
                let all = joined(&self.desc_parts);
                string_of(&all)
            } else {
                self.transaction.description.clone()
            };
            Some(
                Transaction {
                    date: self.transaction.date,
                    description,
                    points: self.transaction.points,
                    amount: self.transaction.amount.clone(),
                },
            )
        } else {
            None
        }
    }

    /// Starts a fresh row at `date`.
    pub fn start_new_transaction(&mut self, date: DateTime)
        ensures
            final(self)@ == old(self)@.row_started(date),
            final(self).wf(),
    {
        let mut transaction = Transaction::default();
        transaction.date = date;
        self.transaction = transaction;
        self.in_row = true;
        self.has_amount = false;
        self.is_credit = false;
        self.desc_parts = Vec::new();
        assert(self@.desc_parts == Seq::<Seq<char>>::empty());
    }

    /// Leaves the section: no row is open any more.
    pub fn exit_section(&mut self)
        ensures
            final(self)@ == old(self)@.section_exited(),
            final(self).wf(),
    {
        self.in_transactions = false;
        self.transaction = Transaction::default();
        self.in_row = false;
        self.has_amount = false;
        self.desc_parts = Vec::new();
        assert(self@.desc_parts == Seq::<Seq<char>>::empty());
    }

    /// Takes one fragment into the open row.
    fn take_fragment(&mut self, text: &str, chars: Vec<char>)
        requires
            chars@ == text@,
        ensures
            final(self)@ == old(self)@.fragment_taken(text@),
            old(self).wf() ==> final(self).wf(),
    {
        if is_skippable_symbol(&chars) {
            if is_text(&chars, CREDIT_MARKER) {
                self.is_credit = true;
            } else if is_text(&chars, CREDIT_SUFFIX) {
                let amount = self.transaction.amount.clone();
                self.transaction.amount = amount.abs();
            }
            return ;
        }
        if is_page_number(&chars) || is_page_header(&chars) {
            return ;
        }
        if is_foreign_currency(&chars) {
            self.describe(chars);
            return ;
        }
        if contains_char(&chars, '.') {
            match parse_amount(text, self.is_credit) {
                Some(amount) => {
                    self.transaction.amount = amount;
                    self.has_amount = true;
                    self.is_credit = false;
                    return ;
                },
                None => {},
            }
        }
        match parse_points(text) {
            Some(points) => {
                self.transaction.points = points;
                return ;
            },
            None => {},
        }
        if self.has_amount {
            return ;
        }
        self.describe(chars);
    }

    /// Adds `chars` to the description of the open row.
    fn describe(&mut self, chars: Vec<char>)
        ensures
            final(self)@ == old(self)@.described(chars@),
            old(self).wf() ==> final(self).wf(),
    {
        let ghost before = self@;
        if self.transaction.description.as_str().is_empty() {
            self.transaction.description = string_of(&chars);
        }
        let ghost parts = self.desc_parts@;
        self.desc_parts.push(chars);
        proof {
            assert(self.desc_parts@.map_values(|p: Vec<char>| p@) == parts.map_values(
                |p: Vec<char>| p@,
            ).push(chars@));
            if before.transaction.description.len() == 0 {
                assert(self@.desc_parts[before.desc_parts.len() as int] == chars@);
            } else if before.wf() {
                let k = before.desc_parts.index_of(before.transaction.description);
                assert(self@.desc_parts[k] == before.transaction.description);
            }
        }
    }

    /// One transition with the date that `text` reads as handed in.
    fn advance(
        &mut self,
        text: &str,
        chars: Vec<char>,
        cardholder_name: &str,
        date: Option<DateTime>,
    ) -> (row: Option<Transaction>)
        requires
            chars@ == text@,
        ensures
            final(self)@ == old(self)@.step(text@, cardholder_name@, date).0,
            row_view(row) == old(self)@.step(text@, cardholder_name@, date).1,
            old(self).wf() ==> final(self).wf(),
            row matches Some(t) ==> t.wf(),
    {
        if is_section_start(&chars) {
            self.in_transactions = true;
            self.past_header = false;
            return None;
        }
        if !self.in_transactions {
            return None;
        }
        if !self.past_header {
            if is_header_boundary(&chars, cardholder_name) {
                self.past_header = true;
                self.skip_next_non_date = true;
            }
            return None;
        }
        if self.skip_next_non_date {
            self.skip_next_non_date = false;
            if date.is_none() {
                return None;
            }
        }
        if is_section_terminator(&chars) {
            let row = self.flush_transaction();
            self.exit_section();
            return row;
        }
        match date {
            Some(d) => {
                let row = self.flush_transaction();
                self.start_new_transaction(d);
                return row;
            },
            None => {},
        }
        if !self.in_row {
            return None;
        }
        self.take_fragment(text, chars);
        None
    }

    /// Whether the machine, in this state, asks if `text` is a date.
    fn will_consult_date(&self, chars: &Vec<char>) -> (r: bool)
        ensures
            r == self@.consults_date(chars@),
    {
        !is_section_start(chars) && self.in_transactions && self.past_header
    }

    /// One transition, for a fragment whose reading as a date is known:
    /// `date` is what the fragment reads as, `None` if it is no date.
    /// Returns the row that the fragment closed, if any.
    pub fn step_with_date(
        &mut self,
        text: &str,
        cardholder_name: &str,
        date: Option<DateTime>,
    ) -> (row: Option<Transaction>)
        ensures
            final(self)@ == old(self)@.step(text@, cardholder_name@, date).0,
            row_view(row) == old(self)@.step(text@, cardholder_name@, date).1,
            old(self).wf() ==> final(self).wf(),
            row matches Some(t) ==> t.wf(),
    {
        let chars = chars_of(text);
        self.advance(text, chars, cardholder_name, date)
    }

    /// One transition: takes the fragment `text` and returns the row that it
    /// closed, if any.
    pub fn step(&mut self, text: &str, cardholder_name: &str) -> (row: Option<Transaction>)
        ensures
            final(self)@ == old(self)@.step(
                text@,
                cardholder_name@,
                spec_transaction_date(text@),
            ).0,
            row_view(row) == old(self)@.step(
                text@,
                cardholder_name@,
                spec_transaction_date(text@),
            ).1,
            old(self).wf() ==> final(self).wf(),
            row matches Some(t) ==> t.wf(),
    {
        let chars = chars_of(text);
        let date = if self.will_consult_date(&chars) {
            parse_transaction_date(text)
        } else {
            None
        };
        self.advance(text, chars, cardholder_name, date)
    }
}

/// Groups the text fragments of one page, in drawing order, into
/// transactions. A row that is open at the end of the page is closed there.
pub fn parse(texts: &Vec<String>, cardholder_name: &str) -> (rows: Vec<Transaction>)
    ensures
        rows_view(rows@) == page_rows(texts_view(texts@), cardholder_name@),
        forall|i: int| 0 <= i < rows@.len() ==> (#[trigger] rows@[i]).wf(),
{
    let ghost all = texts_view(texts@);
    let mut state = ParserState::new();
    let mut rows: Vec<Transaction> = Vec::new();
    let mut i: usize = 0;
    assert(all.take(0) == Seq::<Seq<char>>::empty());
    assert(rows_view(rows@) == Seq::<TransactionView>::empty());
    while i < texts.len()
        invariant
            i <= texts.len(),
            all == texts_view(texts@),
            state.wf(),
            (state@, rows_view(rows@)) == run(
                RowState::initial(),
                all.take(i as int),
                cardholder_name@,
            ),
            forall|k: int| 0 <= k < rows@.len() ==> (#[trigger] rows@[k]).wf(),
        decreases texts.len() - i,
    {
        assert(all.take(i + 1).drop_last() == all.take(i as int));
        assert(all.take(i + 1).last() == texts@[i as int]@);
        let ghost before = rows_view(rows@);
        let row = state.step(texts[i].as_str(), cardholder_name);
        match row {
            Some(t) => {
                let ghost tv = t@;
                rows.push(t);
                assert(rows_view(rows@) == before + seq![tv]);
            },
            None => {
                assert(before + Seq::<TransactionView>::empty() == before);
            },
        }
        i += 1;
    }
    assert(all.take(texts.len() as int) == all);
    let ghost before = rows_view(rows@);
    match state.flush_transaction() {
        Some(t) => {
            let ghost tv = t@;
            rows.push(t);
            assert(rows_view(rows@) == before + seq![tv]);
        },
        None => {
            assert(before + Seq::<TransactionView>::empty() == before);
        },
    }
    rows
}

} // verus!
