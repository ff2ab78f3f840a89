use statement_parser::categories::{
    categorize, classify, is_bill_payment, matching_category, Posting,
};
use statement_parser::ordering::{
    date_format_pattern, date_format_to_regex, extract_date_from_filename, sort_files_by_date,
    stable_order,
};

fn strings(items: &[&str]) -> Vec<String> {
    items.iter().map(|s| s.to_string()).collect()
}

#[test]
fn bill_payment_is_known_in_any_case() {
    assert!(is_bill_payment("CREDIT CARD PAYMENT"));
    assert!(is_bill_payment("Thanks: credit card payment received"));
    assert!(is_bill_payment("Credit Card Payment"));
    assert!(!is_bill_payment("CREDIT CARD  PAYMENT"));
    assert!(!is_bill_payment("CARD PAYMENT"));
    assert!(!is_bill_payment(""));
}

#[test]
fn first_listed_category_with_a_pattern_wins() {
    let categories = vec![
        ("Food".to_string(), strings(&["swiggy", "ZOMATO"])),
        ("Travel".to_string(), strings(&["uber", "IRCTC"])),
        ("Either".to_string(), strings(&["SWIGGY"])),
    ];
    assert_eq!(categorize("Swiggy order 12", &categories), Some("Food".to_string()));
    assert_eq!(categorize("UBER TRIP", &categories), Some("Travel".to_string()));
    assert_eq!(categorize("irctc zomato", &categories), Some("Food".to_string()));
    assert_eq!(categorize("stra\u{df}e", &vec![("S".to_string(), strings(&["STRASSE"]))]), Some("S".to_string()));
    assert_eq!(categorize("BOOKS", &categories), None);
    assert_eq!(categorize("BOOKS", &vec![]), None);
    assert_eq!(categorize("x", &vec![("Any".to_string(), strings(&[""]))]), Some("Any".to_string()));
    assert_eq!(categorize("x", &vec![("None".to_string(), vec![])]), None);
}

#[test]
fn matching_category_compares_as_given() {
    let lists = vec![strings(&["abc", "zz"]), strings(&["B"]), strings(&["b"])];
    assert_eq!(matching_category("xxabcxx", &lists), Some(0));
    assert_eq!(matching_category("aBc", &lists), Some(1));
    assert_eq!(matching_category("b", &lists), Some(2));
    assert_eq!(matching_category("q", &lists), None);
}

#[test]
fn date_format_becomes_a_pattern() {
    assert_eq!(date_format_pattern("%Y-%m-%d"), r"\d{4}-\d{2}-\d{2}");
    assert_eq!(date_format_pattern("stmt_%d%m%Y_%H%M%S"), r"stmt_\d{2}\d{2}\d{4}_\d{2}\d{2}\d{2}");
    assert_eq!(date_format_pattern("%z %Z"), r"[\+\-]\d{4} [A-Z]{3}");
    assert_eq!(date_format_pattern("plain"), "plain");
    assert_eq!(date_format_pattern(""), "");
    assert_eq!(date_format_pattern("%%Y %y %"), r"%\d{4} %y %");
    for format in ["%Y-%m-%d", "%%Y%", "%Y%Y", "a%Zb%zc", "%d/%m/%Y %H:%M:%S"] {
        let expected = format
            .replace("%Y", r"\d{4}")
            .replace("%m", r"\d{2}")
            .replace("%d", r"\d{2}")
            .replace("%H", r"\d{2}")
            .replace("%M", r"\d{2}")
            .replace("%S", r"\d{2}")
            .replace("%z", r"[\+\-]\d{4}")
            .replace("%Z", r"[A-Z]{3}");
        assert_eq!(date_format_pattern(format), expected);
    }
}

#[test]
fn date_is_taken_from_the_file_name() {
    let regex = date_format_to_regex("%Y-%m-%d").unwrap();
    assert_eq!(extract_date_from_filename("stmt-2025-10-19.pdf", "%Y-%m-%d", &regex), (2025, 10, 19));
    assert_eq!(
        extract_date_from_filename("a 2024-02-29 b 2025-01-01", "%Y-%m-%d", &regex),
        (2024, 2, 29)
    );
    assert_eq!(extract_date_from_filename("stmt-2025-13-19.pdf", "%Y-%m-%d", &regex), (1970, 1, 1));
    assert_eq!(extract_date_from_filename("no date.pdf", "%Y-%m-%d", &regex), (1970, 1, 1));
    assert!(date_format_to_regex("(%Y").is_none());
    assert_eq!(regex.as_str(), r"\d{4}-\d{2}-\d{2}");
}

#[test]
fn order_is_by_day_and_stable() {
    let days = vec![(2025, 3, 1), (2024, 12, 31), (2025, 3, 1), (2025, 1, 15), (2024, 12, 31), (1970, 1, 1)];
    assert_eq!(stable_order(&days), vec![5, 1, 4, 3, 0, 2]);
    assert_eq!(stable_order(&vec![]), Vec::<usize>::new());
    assert_eq!(stable_order(&vec![(1, 2, 3)]), vec![0]);
    assert_eq!(stable_order(&vec![(2000, 1, 2), (2000, 1, 1), (1999, 12, 31), (-5, 1, 1)]), vec![3, 2, 1, 0]);
}

#[test]
fn files_are_sorted_by_the_date_in_their_names() {
    let unsorted = strings(&[
        "b_2025-03-01.pdf",
        "undated.pdf",
        "a_2024-12-31.pdf",
        "c_2025-03-01.pdf",
        "also undated.pdf",
        "d_2025-01-15.pdf",
    ]);
    let mut files = unsorted.clone();
    let order = sort_files_by_date(&mut files, "%Y-%m-%d").unwrap();
    assert_eq!(
        files,
        strings(&[
            "undated.pdf",
            "also undated.pdf",
            "a_2024-12-31.pdf",
            "d_2025-01-15.pdf",
            "b_2025-03-01.pdf",
            "c_2025-03-01.pdf",
        ])
    );
    assert_eq!(order, vec![1, 4, 2, 5, 0, 3]);
    let mut expected = unsorted.clone();
    let regex = date_format_to_regex("%Y-%m-%d").unwrap();
    expected.sort_by(|a, b| {
        extract_date_from_filename(a, "%Y-%m-%d", &regex).cmp(&extract_date_from_filename(b, "%Y-%m-%d", &regex))
    });
    assert_eq!(files, expected);
}

#[test]
fn bad_format_leaves_the_files_as_they_are() {
    let mut files = strings(&["b.pdf", "a.pdf"]);
    assert!(sort_files_by_date(&mut files, "[%Y").is_none());
    assert_eq!(files, strings(&["b.pdf", "a.pdf"]));
}

#[test]
fn records_are_counted_by_kind() {
    let categories = Some(vec![("Food".to_string(), strings(&["swiggy"]))]);
    assert_eq!(classify("credit card payment", true, &categories), Posting::BillPayment);
    assert_eq!(classify("CREDIT CARD PAYMENT", false, &None), Posting::BillPayment);
    assert_eq!(classify("Swiggy", true, &categories), Posting::SpentUnder("Food".to_string()));
    assert_eq!(classify("Books", true, &categories), Posting::SpentUncategorized);
    assert_eq!(classify("Swiggy", true, &None), Posting::Spent);
    assert_eq!(classify("Swiggy refund", false, &categories), Posting::NotCounted);
    assert_eq!(classify("Swiggy refund", false, &None), Posting::NotCounted);
}
