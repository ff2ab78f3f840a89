//! The order in which statement files are read: by the date that the name
//! of each file holds.

use crate::date::{date_in_format, read_date};
use crate::text::{chars_of, replace_all, replaced, string_of};
use regex::Regex;
use vstd::prelude::*;

verus! {

#[verifier::external_type_specification]
#[verifier::external_body]
pub struct ExRegex(regex::Regex);

/// The regular expression that `regex::Regex::new` compiles from
/// `pattern`; `None` where it rejects the pattern.
pub uninterp spec fn compiled(pattern: Seq<char>) -> Option<Regex>;

/// The text of the leftmost match of `regex` in `text`, as
/// `regex::Regex::find` gives it; `None` where there is no match.
pub uninterp spec fn first_match(regex: Regex, text: Seq<char>) -> Option<Seq<char>>;

/// Calls `regex::Regex::new`. Trusted: the outcome depends on the pattern
/// alone.
#[verifier::external_body]
fn compile(pattern: &str) -> (r: Option<Regex>)
    ensures
        r == compiled(pattern@),
{
    Regex::new(pattern).ok()
}

/// Calls `regex::Regex::find` and copies the text of the match. Trusted:
/// the outcome depends on the expression and the text alone.
#[verifier::external_body]
fn find(regex: &Regex, text: &str) -> (r: Option<String>)
    ensures
        r is Some <==> first_match(*regex, text@) is Some,
        r matches Some(m) ==> Some(m@) == first_match(*regex, text@),
{
    regex.find(text).map(|m| m.as_str().to_string())
}

/// A calendar day: year, month, day.
pub type Day = (i32, u32, u32);

/// The pattern that matches what the date format writes: each of the
/// fields `%Y %m %d %H %M %S %z %Z`, in this order, gives way to a pattern
/// for its digits, sign or letters, and all else stays.
pub open spec fn spec_date_format_pattern(date_format: Seq<char>) -> Seq<char> {
    let year = replace_all(date_format, "%Y"@, "\\d{4}"@);
    let month = replace_all(year, "%m"@, "\\d{2}"@);
    let day = replace_all(month, "%d"@, "\\d{2}"@);
    let hour = replace_all(day, "%H"@, "\\d{2}"@);
    let minute = replace_all(hour, "%M"@, "\\d{2}"@);
    let second = replace_all(minute, "%S"@, "\\d{2}"@);
    let offset = replace_all(second, "%z"@, "[\\+\\-]\\d{4}"@);
    replace_all(offset, "%Z"@, "[A-Z]{3}"@)
}

/// The pattern that matches what the date format writes.
pub fn date_format_pattern(date_format: &str) -> (pattern: String)
    ensures
        pattern@ == spec_date_format_pattern(date_format@),
{
    let raw = chars_of(date_format);
    let year = replaced(&raw, "%Y", "\\d{4}");
    let month = replaced(&year, "%m", "\\d{2}");
    let day = replaced(&month, "%d", "\\d{2}");
    let hour = replaced(&day, "%H", "\\d{2}");
    let minute = replaced(&hour, "%M", "\\d{2}");
    let second = replaced(&minute, "%S", "\\d{2}");
    let offset = replaced(&second, "%z", "[\\+\\-]\\d{4}");
    let zone = replaced(&offset, "%Z", "[A-Z]{3}");
    string_of(&zone)
}

/// The regular expression that finds a date of the given format in a
/// text; `None` where the pattern of the format is no regular expression.
pub fn date_format_to_regex(date_format: &str) -> (regex: Option<Regex>)
    ensures
        regex == compiled(spec_date_format_pattern(date_format@)),
{
    let pattern = date_format_pattern(date_format);
    compile(pattern.as_str())
}

/// The day of a file without a date in its name: the first of January 1970.
pub open spec fn spec_no_day() -> Day {
    (1970i32, 1u32, 1u32)
}

/// The day that the name of a file holds: the first match of `regex` in
/// the name, read in the given format; the day of a file without a date
/// where there is no match or it does not read as a date.
pub open spec fn spec_file_day(regex: Regex, format: Seq<char>, filename: Seq<char>) -> Day {
    match first_match(regex, filename) {
        Some(found) => match date_in_format(found, format) {
            Some(day) => day,
            None => spec_no_day(),
        },
        None => spec_no_day(),
    }
}

/// The day that the name of a file holds.
pub fn extract_date_from_filename(filename: &str, format: &str, regex: &Regex) -> (day: Day)
    ensures
        day == spec_file_day(*regex, format@, filename@),
{
    match find(regex, filename) {
        Some(found) => match read_date(found.as_str(), format) {
            Some(day) => day,
            None => (1970, 1, 1),
        },
        None => (1970, 1, 1),
    }
}

/// The day `a` is before the day `b`.
pub open spec fn day_before(a: Day, b: Day) -> bool {
    a.0 < b.0 || (a.0 == b.0 && (a.1 < b.1 || (a.1 == b.1 && a.2 < b.2)))
}

/// Whether the day `a` is before the day `b`.
pub fn is_day_before(a: Day, b: Day) -> (r: bool)
    ensures
        r == day_before(a, b),
{
    a.0 < b.0 || (a.0 == b.0 && (a.1 < b.1 || (a.1 == b.1 && a.2 < b.2)))
}

/// The item at `a` comes before the item at `b` in the sorted order: its
/// day is earlier, or the days are equal and it stood earlier in the list.
pub open spec fn comes_before(days: Seq<Day>, a: int, b: int) -> bool {
    day_before(days[a], days[b]) || (days[a] == days[b] && a < b)
}

/// `order` lists the positions `0..days.len()` sorted by day, positions of
/// equal days in rising order.
pub open spec fn is_stable_order(order: Seq<usize>, days: Seq<Day>) -> bool {
    &&& order.len() == days.len()
    &&& forall|i: int| 0 <= i < order.len() ==> (#[trigger] order[i]) < days.len()
    &&& forall|i: int, j: int|
        0 <= i < j < order.len() ==> comes_before(
            days,
            #[trigger] order[i] as int,
            #[trigger] order[j] as int,
        )
}

/// The positions of `days` sorted by day, positions of equal days in
/// rising order.
pub fn stable_order(days: &Vec<Day>) -> (order: Vec<usize>)
    ensures
        is_stable_order(order@, days@),
{
    let mut order: Vec<usize> = Vec::new();
    let mut k: usize = 0;
    while k < days.len()
        invariant
            k <= days.len(),
            order@.len() == k,
            forall|i: int| 0 <= i < order@.len() ==> (#[trigger] order@[i]) < k,
            forall|i: int, j: int|
                0 <= i < j < order@.len() ==> comes_before(
                    days@,
                    #[trigger] order@[i] as int,
                    #[trigger] order@[j] as int,
                ),
        decreases days.len() - k,
    {
        let mut p: usize = order.len();
        while p > 0 && is_day_before(days[k], days[order[p - 1]])
            invariant
                p <= order@.len(),
                k < days.len(),
                order@.len() == k,
                forall|i: int| 0 <= i < order@.len() ==> (#[trigger] order@[i]) < k,
                forall|j: int|
                    p <= j < order@.len() ==> day_before(
                        days@[k as int],
                        days@[(#[trigger] order@[j]) as int],
                    ),
            decreases p,
        {
            p -= 1;
        }
        let ghost before = order@;
        order.insert(p, k);
        proof {
            assert forall|i: int, j: int| 0 <= i < j < order@.len() implies comes_before(
                days@,
                #[trigger] order@[i] as int,
                #[trigger] order@[j] as int,
            ) by {
                if j < p {
                    assert(order@[i] == before[i] && order@[j] == before[j]);
                } else if j == p {
                    assert(order@[i] == before[i]);
                    if i < p - 1 {
                        assert(comes_before(days@, before[i] as int, before[p - 1] as int));
                    }
                } else if i < p {
                    assert(order@[i] == before[i] && order@[j] == before[j - 1]);
                } else if i == p {
                    assert(order@[j] == before[j - 1]);
                } else {
                    assert(order@[i] == before[i - 1] && order@[j] == before[j - 1]);
                }
            }
            assert forall|i: int| 0 <= i < order@.len() implies (#[trigger] order@[i]) < k + 1 by {
                if i < p {
                    assert(order@[i] == before[i]);
                } else if i > p {
                    assert(order@[i] == before[i - 1]);
                }
            }
        }
        k += 1;
    }
    order
}

/// What a list of texts stands for.
pub open spec fn names_view(names: Seq<String>) -> Seq<Seq<char>> {
    names.map_values(|s: String| s@)
}

/// Puts the files in the order of the days that their names hold, files of
/// one day in the order in which they stood. Returns, for each place of
/// the new list, the place that its file had in the old one; `None`, with
/// the list as it was, where the date format gives no regular expression.
pub fn sort_files_by_date(files: &mut Vec<String>, date_format: &str) -> (r: Option<Vec<usize>>)
    ensures
        match compiled(spec_date_format_pattern(date_format@)) {
            Some(regex) => {
                &&& r matches Some(order)
                &&& is_stable_order(
                    order@,
                    names_view(old(files)@).map_values(
                        |name: Seq<char>| spec_file_day(regex, date_format@, name),
                    ),
                )
                &&& final(files)@.len() == old(files)@.len()
                &&& forall|i: int|
                    0 <= i < order@.len() ==> (#[trigger] final(files)@[i])@ == old(
                        files,
                    )@[order@[i] as int]@
            },
            None => r is None && *final(files) == *old(files),
        },
{
    let regex = match date_format_to_regex(date_format) {
        Some(regex) => regex,
        None => {
            return None;
        },
    };
    let ghost wanted = names_view(files@).map_values(
        |name: Seq<char>| spec_file_day(regex, date_format@, name),
    );
    let mut days: Vec<Day> = Vec::new();
    let mut i: usize = 0;
    while i < files.len()
        invariant
            i <= files.len(),
            *files == *old(files),
            wanted == names_view(files@).map_values(
                |name: Seq<char>| spec_file_day(regex, date_format@, name),
            ),
            days@ == wanted.take(i as int),
        decreases files.len() - i,
    {
        let day = extract_date_from_filename(files[i].as_str(), date_format, &regex);
        days.push(day);
        assert(days@ == wanted.take(i + 1));
        i += 1;
    }
    assert(wanted.take(files.len() as int) == wanted);
    let order = stable_order(&days);
    let mut sorted: Vec<String> = Vec::new();
    let mut k: usize = 0;
    while k < order.len()
        invariant
            k <= order.len(),
            *files == *old(files),
            order@.len() == files@.len(),
            forall|j: int| 0 <= j < order@.len() ==> (#[trigger] order@[j]) < files@.len(),
            sorted@.len() == k,
            forall|j: int| 0 <= j < k ==> (#[trigger] sorted@[j])@ == files@[order@[j] as int]@,
        decreases order.len() - k,
    {
        sorted.push(files[order[k]].clone());
        k += 1;
    }
    *files = sorted;
    Some(order)
}

} // verus!
