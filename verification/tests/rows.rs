use statement_parser::amount::Amount;
use statement_parser::date::DateTime;
use statement_parser::render::{date_text, points_text, row_cells};
use statement_parser::rows::{parse, ParserState, Phase};
use statement_parser::transaction::Transaction;

fn texts(items: &[&str]) -> Vec<String> {
    items.iter().map(|s| s.to_string()).collect()
}

fn at(year: i32, month: u32, day: u32, hour: u32, minute: u32, second: u32) -> DateTime {
    DateTime { year, month, day, hour, minute, second, nanosecond: 0 }
}

fn amount(negative: bool, digits: &[u8], scale: usize) -> Amount {
    Amount::from_parts(negative, digits.to_vec(), scale).unwrap()
}

const HEADER: [&str; 3] = ["Domestic Transactions", "Jane Doe", "PI"];

fn page(rest: &[&str]) -> Vec<Transaction> {
    let mut all: Vec<&str> = HEADER.to_vec();
    all.extend_from_slice(rest);
    parse(&texts(&all), "Jane Doe")
}

#[test]
fn domestic_row_is_read() {
    let rows = parse(
        &texts(&[
            "Domestic Transactions",
            "Jane Doe",
            "PI",
            "Jane Doe",
            "19/10/2025| 00:57",
            "AMAZON RETAIL",
            "123",
            "1,234.50",
            "Page 1 of 2",
        ]),
        "Jane Doe",
    );
    assert_eq!(rows.len(), 1);
    assert_eq!(rows[0].date, at(2025, 10, 19, 0, 57, 0));
    assert_eq!(rows[0].description, "AMAZON RETAIL");
    assert_eq!(rows[0].points, 123);
    assert_eq!(rows[0].amount, amount(true, &[1, 2, 3, 4, 5, 0], 2));
    assert_eq!(rows[0].amount.to_text(), "-1234.50");
    assert_eq!(rows[0].amount.to_text().parse::<f32>().unwrap(), -1234.50f32);
}

#[test]
fn credit_marker_before_amount_makes_credit() {
    let rows = parse(
        &texts(&[
            "Domestic Transactions",
            "Jane Doe",
            "PI",
            "Jane Doe",
            "19/10/2025| 00:57",
            "AMAZON RETAIL",
            "123",
            "+",
            "1,234.50",
            "Page 1 of 2",
        ]),
        "Jane Doe",
    );
    assert_eq!(rows.len(), 1);
    assert_eq!(rows[0].date, at(2025, 10, 19, 0, 57, 0));
    assert_eq!(rows[0].description, "AMAZON RETAIL");
    assert_eq!(rows[0].points, 123);
    assert_eq!(rows[0].amount, amount(false, &[1, 2, 3, 4, 5, 0], 2));
    assert_eq!(rows[0].amount.to_text(), "1234.50");
    assert_eq!(rows[0].amount.to_text().parse::<f32>().unwrap(), 1234.50f32);
}

#[test]
fn foreign_currency_joins_description() {
    let rows = page(&["19/10/2025| 00:57", "HOTEL TOKYO", "USD 45.00", "12", "3,800.00"]);
    assert_eq!(rows.len(), 1);
    assert_eq!(rows[0].description, "HOTEL TOKYO USD 45.00");
    assert_eq!(rows[0].points, 12);
    assert_eq!(rows[0].amount.to_text(), "-3800.00");
}

#[test]
fn foreign_currency_before_description_comes_first() {
    let rows = page(&["19/10/2025| 00:57", "USD 45.00", "HOTEL TOKYO", "3,800.00"]);
    assert_eq!(rows.len(), 1);
    assert_eq!(rows[0].description, "USD 45.00 HOTEL TOKYO");
    assert_eq!(rows[0].amount.to_text(), "-3800.00");
}

#[test]
fn foreign_currency_alone_is_the_description() {
    let rows = page(&["19/10/2025| 00:57", "USD 45.00"]);
    assert_eq!(rows.len(), 1);
    assert_eq!(rows[0].description, "USD 45.00");
    assert_eq!(rows[0].amount.to_text(), "0");
    let rows = parse(
        &texts(&["Domestic Transactions", "Jane Doe", "19/10/2025| 00:57", "USD 45.00", "3,800.00"]),
        "Jane Doe",
    );
    assert_eq!(rows.len(), 1);
    assert_eq!(rows[0].date, at(2025, 10, 19, 0, 57, 0));
    assert_eq!(rows[0].description, "USD 45.00");
    assert_eq!(rows[0].points, 0);
    assert_eq!(rows[0].amount.to_text(), "-3800.00");
    let mut state = ParserState::new();
    for t in HEADER {
        state.step(t, "Jane Doe");
    }
    state.step("19/10/2025| 00:57", "Jane Doe");
    state.step("USD 45.00", "Jane Doe");
    assert_eq!(state.flush_transaction().unwrap().description, "USD 45.00");
}

#[test]
fn foreign_currency_after_the_amount_still_joins() {
    let rows = page(&["19/10/2025| 00:57", "3,800.00", "JPY 7000.00", "dropped"]);
    assert_eq!(rows.len(), 1);
    assert_eq!(rows[0].description, "JPY 7000.00");
    assert_eq!(rows[0].amount.to_text(), "-3800.00");
}

#[test]
fn each_date_starts_one_row_and_closes_one() {
    let mut state = ParserState::new();
    for t in HEADER {
        assert!(state.step(t, "Jane Doe").is_none());
    }
    assert_eq!(state.phase(), Phase::BetweenRows);
    assert!(state.step("19/10/2025| 00:57", "Jane Doe").is_none());
    assert_eq!(state.phase(), Phase::InRow);
    assert!(state.step("FIRST", "Jane Doe").is_none());
    let closed = state.step("20/10/2025| 08:00", "Jane Doe");
    assert_eq!(state.phase(), Phase::InRow);
    let closed = closed.unwrap();
    assert_eq!(closed.description, "FIRST");
    assert_eq!(closed.date, at(2025, 10, 19, 0, 57, 0));
    assert!(state.step("21/10/2025| 09:00", "Jane Doe").is_none());
    assert_eq!(state.phase(), Phase::InRow);
    assert!(state.flush_transaction().is_none());
}

#[test]
fn same_page_twice_gives_same_rows() {
    let input = texts(&[
        "Domestic Transactions",
        "Jane Doe",
        "19/10/2025| 00:57",
        "AMAZON RETAIL",
        "123",
        "1,234.50",
        "20/10/2025| 10:00",
        "REFUND",
        "+ 99.00",
    ]);
    let first = parse(&input, "Jane Doe");
    let second = parse(&input, "Jane Doe");
    assert_eq!(first.len(), 2);
    assert_eq!(first, second);
}

#[test]
fn rendered_rows_read_back() {
    let expected = vec![
        Transaction {
            date: at(2025, 10, 19, 0, 57, 0),
            description: "AMAZON RETAIL".to_string(),
            points: 123,
            amount: amount(true, &[1, 2, 3, 4, 5, 0], 2),
        },
        Transaction {
            date: at(2025, 10, 20, 13, 5, 0),
            description: "CAFE".to_string(),
            points: -4,
            amount: amount(false, &[9, 9, 0, 0], 2),
        },
        Transaction {
            date: at(2025, 10, 21, 23, 59, 0),
            description: "BOOKS".to_string(),
            points: 0,
            amount: amount(true, &[0, 0, 5], 2),
        },
    ];
    let mut input: Vec<String> = texts(&["Domestic Transactions", "Jane Doe"]);
    for t in &expected {
        input.push(format!(
            "{:02}/{:02}/{:04}| {:02}:{:02}",
            t.date.day, t.date.month, t.date.year, t.date.hour, t.date.minute
        ));
        input.push(t.description.clone());
        input.push(format!("{}", t.points));
        let figures = t.amount.to_text();
        if t.amount.is_negative() {
            input.push(figures[1..].to_string());
        } else {
            input.push(format!("+{}", figures));
        }
    }
    assert_eq!(parse(&input, "Jane Doe"), expected);
}

#[test]
fn row_without_description_is_left_out_of_rendered_page() {
    let rows = page(&[
        "19/10/2025| 00:57",
        "7",
        "10.00",
        "20/10/2025| 00:57",
        "KEPT",
        "8",
        "20.00",
    ]);
    assert_eq!(rows.len(), 1);
    assert_eq!(rows[0].description, "KEPT");
    assert_eq!(rows[0].points, 8);
    assert_eq!(rows[0].amount.to_text(), "-20.00");
}

#[test]
fn trailing_credit_suffix_gives_non_negative_amount() {
    let rows = page(&["19/10/2025| 00:57", "REFUND", "55", "250.75", "Cr"]);
    assert_eq!(rows.len(), 1);
    assert!(!rows[0].amount.is_negative());
    assert_eq!(rows[0].amount.to_text(), "250.75");
}

#[test]
fn credit_suffix_before_amount_does_not_reach_it() {
    let rows = page(&["19/10/2025| 00:57", "SHOP", "Cr", "250.75"]);
    assert_eq!(rows.len(), 1);
    assert_eq!(rows[0].amount.to_text(), "-250.75");
}

#[test]
fn rows_without_credit_evidence_are_not_positive() {
    let rows = page(&[
        "19/10/2025| 00:57",
        "ONE",
        "1.00",
        "20/10/2025| 00:57",
        "TWO",
        "-2.50",
        "21/10/2025| 00:57",
        "NONE",
    ]);
    assert_eq!(rows.len(), 3);
    assert_eq!(rows[0].amount.to_text(), "-1.00");
    assert_eq!(rows[1].amount.to_text(), "-2.50");
    assert_eq!(rows[2].amount.to_text(), "0");
    for row in &rows {
        assert!(row.amount.is_negative() || row.amount.is_zero());
    }
}

#[test]
fn bare_anchor_before_terminator_is_discarded() {
    let rows = page(&["19/10/2025| 00:57", "GST Summary", "LATER TEXT", "1.00"]);
    assert_eq!(rows.len(), 0);
    let mut state = ParserState::new();
    for t in HEADER {
        state.step(t, "Jane Doe");
    }
    state.step("19/10/2025| 00:57", "Jane Doe");
    assert!(state.step("TOTAL AMOUNT", "Jane Doe").is_none());
    assert_eq!(state.phase(), Phase::AwaitingSection);
}

#[test]
fn terminator_closes_open_row() {
    let mut state = ParserState::new();
    for t in HEADER {
        state.step(t, "Jane Doe");
    }
    state.step("19/10/2025| 00:57", "Jane Doe");
    state.step("SHOP", "Jane Doe");
    state.step("12.00", "Jane Doe");
    let closed = state.step("*Transaction time is in IST", "Jane Doe").unwrap();
    assert_eq!(closed.description, "SHOP");
    assert_eq!(closed.amount.to_text(), "-12.00");
    assert_eq!(state.phase(), Phase::AwaitingSection);
    assert!(state.flush_transaction().is_none());
}

#[test]
fn every_terminator_label_ends_the_section() {
    for label in [
        "Eligible for EMI",
        "Eligible for",
        "TRANSACTIONS",
        "Past Dues",
        "GST Summary",
        "Rewards Program Points Summary",
        "Offers on your card",
        "TOTAL AMOUNT",
        "CONVERT TO EMI",
        "*Transaction time",
    ] {
        let rows = page(&["19/10/2025| 00:57", "SHOP", "1.00", label, "20/10/2025| 00:57", "LOST"]);
        assert_eq!(rows.len(), 1, "{}", label);
        assert_eq!(rows[0].description, "SHOP");
    }
}

#[test]
fn nothing_counts_outside_a_section() {
    let rows = parse(&texts(&["19/10/2025| 00:57", "SHOP", "1.00"]), "Jane Doe");
    assert_eq!(rows.len(), 0);
}

#[test]
fn header_is_passed_over_until_the_boundary() {
    let rows = parse(
        &texts(&[
            "International Transactions",
            "19/10/2025| 00:57",
            "IN HEADER",
            "1.00",
            "PI",
            "26/09/2025 | 13:33",
            "AIRLINE",
            "2.00",
        ]),
        "Jane Doe",
    );
    assert_eq!(rows.len(), 1);
    assert_eq!(rows[0].date, at(2025, 9, 26, 13, 33, 0));
    assert_eq!(rows[0].description, "AIRLINE");
}

#[test]
fn one_fragment_after_the_boundary_is_dropped_unless_a_date() {
    let dropped = parse(
        &texts(&["Domestic Transactions", "Jane Doe", "GST Summary", "19/10/2025", "A", "1.0"]),
        "Jane Doe",
    );
    assert_eq!(dropped.len(), 1);
    assert_eq!(dropped[0].date, at(2025, 10, 19, 0, 0, 0));
    let kept = parse(
        &texts(&["Domestic Transactions", "Jane Doe", "19/10/2025", "A", "1.0"]),
        "Jane Doe",
    );
    assert_eq!(kept.len(), 1);
    assert_eq!(kept[0].description, "A");
}

#[test]
fn second_section_on_a_page_is_read_too() {
    let rows = parse(
        &texts(&[
            "Domestic Transactions",
            "Jane Doe",
            "19/10/2025| 00:57",
            "HOME",
            "1.00",
            "TOTAL AMOUNT",
            "noise",
            "International Transactions",
            "PI",
            "26/09/2025 | 13:33",
            "ABROAD",
            "2.00",
        ]),
        "Jane Doe",
    );
    assert_eq!(rows.len(), 2);
    assert_eq!(rows[0].description, "HOME");
    assert_eq!(rows[1].description, "ABROAD");
}

#[test]
fn symbols_and_page_furniture_are_dropped() {
    let rows = page(&[
        "19/10/2025| 00:57",
        "C",
        "\u{20b9}",
        "l",
        "\u{25cf}",
        "\u{2022}",
        "SHOP",
        "Page 3 of 7",
        "Infinia Credit Card Statement",
        "HSN Code: 9971",
        "HDFC Bank Credit Cards GSTIN: 1",
        "x GSTIN: 33AAACH y",
        "5.00",
    ]);
    assert_eq!(rows.len(), 1);
    assert_eq!(rows[0].description, "SHOP");
    assert_eq!(rows[0].amount.to_text(), "-5.00");
}

#[test]
fn text_after_the_amount_is_dropped() {
    let rows = page(&["19/10/2025| 00:57", "SHOP", "5.00", "Jane Doe", "more"]);
    assert_eq!(rows.len(), 1);
    assert_eq!(rows[0].description, "SHOP");
}

#[test]
fn description_parts_are_joined_with_spaces() {
    let rows = page(&["19/10/2025| 00:57", "SHOP", "AT THE", "CORNER", "5.00"]);
    assert_eq!(rows[0].description, "SHOP AT THE CORNER");
}

#[test]
fn points_default_to_zero_and_may_be_negative() {
    let rows = page(&[
        "19/10/2025| 00:57",
        "NO POINTS",
        "5.00",
        "20/10/2025| 00:57",
        "REVERSAL",
        "- 40",
        "5.00",
    ]);
    assert_eq!(rows[0].points, 0);
    assert_eq!(rows[1].points, -40);
}

#[test]
fn pending_credit_is_used_once() {
    let rows = page(&["19/10/2025| 00:57", "SHOP", "+", "5.00", "6.00"]);
    assert_eq!(rows[0].amount.to_text(), "-6.00");
}

#[test]
fn step_with_date_takes_the_date_as_given() {
    let mut state = ParserState::new();
    for t in HEADER {
        state.step(t, "Jane Doe");
    }
    let when = at(2001, 2, 3, 4, 5, 6);
    assert!(state.step_with_date("not a date", "Jane Doe", Some(when)).is_none());
    assert_eq!(state.phase(), Phase::InRow);
    state.step_with_date("19/10/2025| 00:57", "Jane Doe", None);
    let row = state.flush_transaction().unwrap();
    assert_eq!(row.date, when);
    assert_eq!(row.description, "19/10/2025| 00:57");
}

#[test]
fn start_and_exit_reset_the_row() {
    let mut state = ParserState::new();
    state.start_new_transaction(at(2020, 1, 2, 3, 4, 5));
    assert!(state.flush_transaction().is_none());
    state.exit_section();
    assert_eq!(state.phase(), Phase::AwaitingSection);
    assert_eq!(Transaction::default().date, at(1970, 1, 1, 0, 0, 0));
    assert_eq!(Transaction::default().description, "");
    assert_eq!(Transaction::default().points, 0);
    assert_eq!(Transaction::default().amount.to_text(), "0");
}

#[test]
fn printed_rows_are_read_back() {
    let expected = vec![
        Transaction {
            date: at(2025, 10, 19, 0, 57, 0),
            description: "AMAZON RETAIL".to_string(),
            points: 123,
            amount: amount(true, &[1, 2, 3, 4, 5, 0], 2),
        },
        Transaction {
            date: at(2025, 1, 2, 3, 4, 0),
            description: "CAFE 24".to_string(),
            points: -2147483648,
            amount: amount(false, &[9, 9, 0, 0], 2),
        },
        Transaction {
            date: at(987, 12, 31, 23, 59, 0),
            description: "BOOKS".to_string(),
            points: 0,
            amount: amount(true, &[5], 1),
        },
        Transaction {
            date: at(2024, 2, 29, 12, 0, 0),
            description: String::new(),
            points: 7,
            amount: amount(true, &[0, 0, 7, 0, 0, 1], 3),
        },
        Transaction {
            date: at(2024, 3, 1, 12, 0, 0),
            description: "LAST".to_string(),
            points: 2147483647,
            amount: amount(false, &[0, 0], 2),
        },
    ];
    assert_eq!(date_text(&expected[0].date), "19/10/2025| 00:57");
    assert_eq!(date_text(&expected[2].date), "31/12/0987| 23:59");
    assert_eq!(points_text(-2147483648), "-2147483648");
    assert_eq!(points_text(0), "0");
    assert_eq!(points_text(-5), "-5");
    assert_eq!(points_text(1200), "1200");
    assert_eq!(expected[0].amount.to_cell(), "1234.50");
    assert_eq!(expected[1].amount.to_cell(), "+99.00");
    assert_eq!(expected[2].amount.to_cell(), ".5");
    assert_eq!(row_cells(&expected[0]), texts(&["19/10/2025| 00:57", "AMAZON RETAIL", "123", "1234.50"]));
    assert_eq!(row_cells(&expected[3]), texts(&["29/02/2024| 12:00", "7", "007.001"]));
    let mut input = texts(&["Domestic Transactions", "Jane Doe"]);
    for row in &expected {
        input.extend(row_cells(row));
    }
    let mut kept = expected.clone();
    kept.remove(3);
    assert_eq!(parse(&input, "Jane Doe"), kept);
    for p in [0, 1, -1, 9, 10, -10, 99, 100, 12345, -98765, i32::MAX, i32::MIN] {
        assert_eq!(points_text(p), p.to_string());
        assert_eq!(statement_parser::points::parse_points(&points_text(p)), Some(p));
    }
}

#[test]
fn debit_row_has_the_amount_printed_last() {
    let rows = page(&["19/10/2025| 00:57", "SHOP", "1.00", "note", "2,345.60", "7"]);
    assert_eq!(rows.len(), 1);
    assert_eq!(rows[0].amount, amount(true, &[2, 3, 4, 5, 6, 0], 2));
    assert_eq!(rows[0].points, 7);
    let rows = page(&["19/10/2025| 00:57", "SHOP", "12"]);
    assert_eq!(rows[0].amount.to_text(), "0");
    assert!(!rows[0].amount.is_negative());
}
