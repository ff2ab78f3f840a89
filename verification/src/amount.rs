//! Settlement amounts: exact signed decimals, read from the text of a
//! statement cell.

use crate::text::{chars_of, remove_char, string_of, strip_leading, strip_leading_char, trim, trimmed, without_char};
use vstd::prelude::*;

verus! {

/// The rupee sign, which may stand in an amount cell.
pub const RUPEE: char = '\u{20b9}';

/// What an [`Amount`] stands for: the number `digits / 10^scale`, with a sign.
pub struct AmountView {
    pub negative: bool,
    pub digits: Seq<u8>,
    pub scale: nat,
}

impl AmountView {
    /// Every digit is zero.
    pub open spec fn is_zero(self) -> bool {
        forall|i: int| 0 <= i < self.digits.len() ==> self.digits[i] == 0
    }

    /// The number is zero or above.
    pub open spec fn is_non_negative(self) -> bool {
        !self.negative || self.is_zero()
    }

    /// The number is zero or below.
    pub open spec fn is_non_positive(self) -> bool {
        self.negative || self.is_zero()
    }

    /// The same magnitude, marked as a credit.
    pub open spec fn abs(self) -> AmountView {
        AmountView { negative: false, digits: self.digits, scale: self.scale }
    }

    /// The amount of a row for which none was read: plain zero.
    pub open spec fn zero() -> AmountView {
        AmountView { negative: false, digits: seq![0u8], scale: 0 }
    }

    /// The digits are digits, there is at least one, and the scale counts
    /// some of them.
    pub open spec fn wf(self) -> bool {
        &&& self.digits.len() > 0
        &&& self.scale <= self.digits.len()
        &&& forall|i: int| 0 <= i < self.digits.len() ==> self.digits[i] <= 9
    }
}

/// A signed decimal amount. Negative is a debit, positive a credit.
#[derive(Debug, PartialEq, Eq)]
pub struct Amount {
    negative: bool,
    digits: Vec<u8>,
    scale: usize,
}

impl View for Amount {
    type V = AmountView;

    closed spec fn view(&self) -> AmountView {
        AmountView { negative: self.negative, digits: self.digits@, scale: self.scale as nat }
    }
}

/// `c` is one of the ten ASCII digits.
pub open spec fn is_digit(c: char) -> bool {
    '0' <= c <= '9'
}

/// The value of the digit `c`.
pub open spec fn digit_value(c: char) -> u8
    recommends
        is_digit(c),
{
    (c as u32 - 48) as u8
}

/// `s` is an unsigned decimal numeral: digits with at most one point among
/// them, and at least one digit.
pub open spec fn is_decimal(s: Seq<char>) -> bool {
    &&& forall|i: int| 0 <= i < s.len() ==> is_digit(#[trigger] s[i]) || s[i] == '.'
    &&& forall|i: int, j: int|
        0 <= i < j < s.len() ==> !(#[trigger] s[i] == '.' && #[trigger] s[j] == '.')
    &&& exists|i: int| 0 <= i < s.len() && is_digit(#[trigger] s[i])
}

/// The values of the digits of `s`, in order, the point left out.
pub open spec fn decimal_digits(s: Seq<char>) -> Seq<u8>
    decreases s.len(),
{
    if s.len() == 0 {
        Seq::empty()
    } else if is_digit(s.last()) {
        decimal_digits(s.drop_last()).push(digit_value(s.last()))
    } else {
        decimal_digits(s.drop_last())
    }
}

/// How many characters of `s` stand after its first point; zero without one.
pub open spec fn fraction_len(s: Seq<char>) -> nat
    decreases s.len(),
{
    if s.len() == 0 {
        0
    } else if s.drop_last().contains('.') {
        fraction_len(s.drop_last()) + 1
    } else {
        0
    }
}

/// `s` without one sign character at its start, if it has one.
pub open spec fn unsigned_part(s: Seq<char>) -> Seq<char> {
    if s.len() > 0 && (s[0] == '+' || s[0] == '-') {
        s.skip(1)
    } else {
        s
    }
}

/// The digits and the scale of the numeral `s`, which may carry one sign
/// character; `None` where `s` is no decimal numeral.
pub open spec fn spec_parse_decimal(s: Seq<char>) -> Option<(Seq<u8>, nat)> {
    let body = unsigned_part(s);
    if is_decimal(body) {
        Some((decimal_digits(body), fraction_len(body)))
    } else {
        None
    }
}

/// The text of an amount cell without currency sign, thousands separators and
/// surrounding space.
pub open spec fn cleaned(s: Seq<char>) -> Seq<char> {
    trim(without_char(without_char(s, RUPEE), ','))
}

/// The cell itself says "credit": its cleaned text begins with a plus sign.
pub open spec fn marked_credit(s: Seq<char>) -> bool {
    cleaned(s).len() > 0 && cleaned(s)[0] == '+'
}

/// The numeral of an amount cell: the cleaned text, without the plus signs
/// of a credit mark and the space after them.
pub open spec fn numeral_of(s: Seq<char>) -> Seq<char> {
    if marked_credit(s) {
        trim(strip_leading(cleaned(s), '+'))
    } else {
        cleaned(s)
    }
}

/// The amount that the cell `s` holds, where `is_credit` says that a credit
/// marker went before it. The magnitude is the printed one; the sign is
/// positive for a credit and negative otherwise, whatever sign the numeral
/// itself may carry.
pub open spec fn spec_parse_amount(s: Seq<char>, is_credit: bool) -> Option<AmountView> {
    match spec_parse_decimal(numeral_of(s)) {
        Some((digits, scale)) => Some(
            AmountView { negative: !(is_credit || marked_credit(s)), digits, scale },
        ),
        None => None,
    }
}

impl Clone for Amount {
    fn clone(&self) -> (a: Amount)
        ensures
            a@ == self@,
            a.wf(),
    {
        let mut digits: Vec<u8> = Vec::new();
        let mut i: usize = 0;
        while i < self.digits.len()
            invariant
                i <= self.digits.len(),
                digits@ == self.digits@.take(i as int),
            decreases self.digits.len() - i,
        {
            digits.push(self.digits[i]);
            i += 1;
        }
        assert(self.digits@.take(self.digits.len() as int) == self.digits@);
        proof {
            use_type_invariant(self);
        }
        Amount { negative: self.negative, digits, scale: self.scale }
    }
}

impl Amount {
    /// Every amount is a proper decimal.
    #[verifier::type_invariant]
    spec fn proper(self) -> bool {
        self@.wf()
    }

    /// The amount is a proper decimal: see [`AmountView::wf`]. This holds
    /// of every amount that the library hands out.
    pub open spec fn wf(&self) -> bool {
        self@.wf()
    }

    /// Plain zero.
    pub fn zero() -> (a: Amount)
        ensures
            a.wf(),
            a@ == AmountView::zero(),
    {
        let mut digits: Vec<u8> = Vec::new();
        digits.push(0);
        assert(digits@ == seq![0u8]);
        Amount { negative: false, digits, scale: 0 }
    }

    /// The amount `digits / 10^scale` with the given sign; `None` where a
    /// digit is above nine, there is none, or the scale is above their number.
    pub fn from_parts(negative: bool, digits: Vec<u8>, scale: usize) -> (r: Option<Amount>)
        ensures
            r is Some <==> (digits@.len() > 0 && scale <= digits@.len() && forall|i: int|
                0 <= i < digits@.len() ==> digits@[i] <= 9),
            r matches Some(a) ==> a.wf() && a@ == (AmountView {
                negative,
                digits: digits@,
                scale: scale as nat,
            }),
    {
        if digits.len() == 0 || scale > digits.len() {
            return None;
        }
        let mut i: usize = 0;
        while i < digits.len()
            invariant
                i <= digits.len(),
                forall|j: int| 0 <= j < i ==> digits@[j] <= 9,
            decreases digits.len() - i,
        {
            if digits[i] > 9 {
                return None;
            }
            i += 1;
        }
        Some(Amount { negative, digits, scale })
    }

    /// Whether the amount is a debit: marked negative.
    pub fn is_negative(&self) -> (r: bool)
        ensures
            r == self@.negative,
    {
        self.negative
    }

    /// How many of the digits are fractional.
    pub fn scale(&self) -> (r: usize)
        ensures
            r == self@.scale,
    {
        self.scale
    }

    /// The digits, most significant first.
    pub fn digits(&self) -> (r: &Vec<u8>)
        ensures
            r@ == self@.digits,
    {
        &self.digits
    }

    /// Whether the magnitude is zero.
    pub fn is_zero(&self) -> (r: bool)
        ensures
            r == self@.is_zero(),
    {
        let mut i: usize = 0;
        while i < self.digits.len()
            invariant
                i <= self.digits.len(),
                forall|j: int| 0 <= j < i ==> self.digits@[j] == 0,
            decreases self.digits.len() - i,
        {
            if self.digits[i] != 0 {
                assert(self@.digits[i as int] != 0);
                return false;
            }
            i += 1;
        }
        true
    }

    /// The same magnitude as a credit.
    pub fn abs(self) -> (a: Amount)
        ensures
            a@ == self@.abs(),
            a.wf(),
    {
        proof {
            use_type_invariant(&self);
        }
        Amount { negative: false, digits: self.digits, scale: self.scale }
    }

    /// The amount as a page prints it in a cell: the figures without a
    /// sign, after a plus sign for a credit.
    pub fn to_cell(&self) -> (s: String)
        ensures
            s@ == amount_cell(self@),
    {
        proof {
            use_type_invariant(self);
        }
        let mut out: Vec<char> = Vec::new();
        if !self.negative {
            out.push('+');
        }
        let whole: usize = self.digits.len() - self.scale;
        let ghost head = out@;
        let mut i: usize = 0;
        while i < self.digits.len()
            invariant
                i <= self.digits.len(),
                self.wf(),
                whole == self.digits.len() - self.scale,
                out@ == head + figures(self.digits@.take(i as int), whole as int),
            decreases self.digits.len() - i,
        {
            assert(self.digits@.take(i + 1).drop_last() == self.digits@.take(i as int));
            if i == whole {
                out.push('.');
            }
            let d: u8 = self.digits[i];
            out.push(digit_char(d));
            i += 1;
        }
        assert(self.digits@.take(self.digits.len() as int) == self.digits@);
        string_of(&out)
    }

    /// The amount in figures: a minus sign for a debit, the integer digits
    /// (`0` where there is none), and after a point the fractional ones.
    pub fn to_text(&self) -> (s: String)
        ensures
            s@ == amount_text(self@),
    {
        proof {
            use_type_invariant(self);
        }
        let mut out: Vec<char> = Vec::new();
        if self.negative {
            out.push('-');
        }
        let whole: usize = self.digits.len() - self.scale;
        if whole == 0 {
            out.push('0');
        }
        let ghost head = out@;
        let mut i: usize = 0;
        while i < self.digits.len()
            invariant
                i <= self.digits.len(),
                self.wf(),
                whole == self.digits.len() - self.scale,
                out@ == head + figures(self.digits@.take(i as int), whole as int),
            decreases self.digits.len() - i,
        {
            assert(self.digits@.take(i + 1).drop_last() == self.digits@.take(i as int));
            if i == whole {
                out.push('.');
            }
            let d: u8 = self.digits[i];
            out.push(digit_char(d));
            i += 1;
        }
        assert(self.digits@.take(self.digits.len() as int) == self.digits@);
        string_of(&out)
    }
}

/// The character of the digit `d`.
pub open spec fn spec_digit_char(d: u8) -> char
    recommends
        d <= 9,
{
    (d + 48) as char
}

/// The characters of the digits `ds`, with a point before the digit at
/// index `whole` where that is not the first.
pub open spec fn figures(ds: Seq<u8>, whole: int) -> Seq<char>
    decreases ds.len(),
{
    if ds.len() == 0 {
        Seq::empty()
    } else if ds.len() - 1 == whole {
        figures(ds.drop_last(), whole).push('.').push(spec_digit_char(ds.last()))
    } else {
        figures(ds.drop_last(), whole).push(spec_digit_char(ds.last()))
    }
}

/// The amount as a page prints it in a cell: the figures without a sign
/// and without a zero before a leading point, after a plus sign for a
/// credit.
pub open spec fn amount_cell(a: AmountView) -> Seq<char> {
    let sign = if a.negative {
        Seq::<char>::empty()
    } else {
        seq!['+']
    };
    sign + figures(a.digits, a.digits.len() - a.scale)
}

/// The amount in figures, as [`Amount::to_text`] writes it.
pub open spec fn amount_text(a: AmountView) -> Seq<char> {
    let whole = a.digits.len() - a.scale;
    let sign = if a.negative {
        seq!['-']
    } else {
        Seq::<char>::empty()
    };
    let lead = if whole == 0 {
        seq!['0']
    } else {
        Seq::<char>::empty()
    };
    sign + lead + figures(a.digits, whole)
}

/// The character of the digit `d`.
pub fn digit_char(d: u8) -> (c: char)
    requires
        d <= 9,
    ensures
        c == spec_digit_char(d),
        is_digit(c),
        digit_value(c) == d,
{
    (d + 48) as char
}

/// Whether `c` is an ASCII digit.
pub fn char_is_digit(c: char) -> (r: bool)
    ensures
        r == is_digit(c),
{
    let n: u32 = c as u32;
    48 <= n && n <= 57
}

/// Reads the decimal numeral `s`, which may carry one sign character.
pub fn parse_decimal(s: &Vec<char>) -> (r: Option<(Vec<u8>, usize)>)
    ensures
        match r {
            Some((digits, scale)) => spec_parse_decimal(s@) == Some((digits@, scale as nat))
                && digits@.len() > 0 && scale <= digits@.len() && forall|i: int|
                0 <= i < digits@.len() ==> digits@[i] <= 9,
            None => spec_parse_decimal(s@) is None,
        },
{
    let start: usize = if s.len() > 0 && (s[0] == '+' || s[0] == '-') {
        1
    } else {
        0
    };
    let ghost body = unsigned_part(s@);
    assert(body == s@.skip(start as int));
    let mut digits: Vec<u8> = Vec::new();
    let mut scale: usize = 0;
    let mut seen_point = false;
    let mut i: usize = start;
    assert(body.take(0) == Seq::<char>::empty());
    while i < s.len()
        invariant
            start <= i <= s.len(),
            body == unsigned_part(s@),
            body == s@.skip(start as int),
            forall|k: int| 0 <= k < i - start ==> is_digit(#[trigger] body[k]) || body[k] == '.',
            forall|j: int, k: int|
                0 <= j < k < i - start ==> !(#[trigger] body[j] == '.' && #[trigger] body[k]
                    == '.'),
            seen_point == body.take(i - start).contains('.'),
            digits@ == decimal_digits(body.take(i - start)),
            scale as nat == fraction_len(body.take(i - start)),
            scale <= digits@.len() <= i - start,
            forall|k: int| 0 <= k < digits@.len() ==> digits@[k] <= 9,
            digits@.len() > 0 <==> exists|k: int|
                0 <= k < i - start && is_digit(#[trigger] body[k]),
        decreases s.len() - i,
    {
        let c: char = s[i];
        let ghost before = body.take(i - start);
        let ghost after = body.take(i + 1 - start);
        assert(after.drop_last() == before);
        assert(after.last() == c);
        assert(body[i - start] == c);
        if c == '.' {
            if seen_point {
                proof {
                    let j = choose|j: int| 0 <= j < before.len() && before[j] == '.';
                    assert(before[j] == body[j]);
                    assert(0 <= j < i - start < body.len());
                    assert(body[j] == '.' && body[i - start] == '.');
                }
                return None;
            }
            seen_point = true;
            assert(after.contains('.')) by {
                assert(after[i - start] == '.');
            }
            assert forall|j: int| 0 <= j < i - start implies #[trigger] body[j] != '.' by {
                assert(before[j] == body[j]);
            }
        } else if char_is_digit(c) {
            digits.push((c as u32 - 48) as u8);
            if seen_point {
                scale += 1;
            }
            assert(after.contains('.') == before.contains('.')) by {
                if after.contains('.') {
                    let j = choose|j: int| 0 <= j < after.len() && after[j] == '.';
                    assert(before[j] == '.');
                }
                if before.contains('.') {
                    let j = choose|j: int| 0 <= j < before.len() && before[j] == '.';
                    assert(after[j] == '.');
                }
            }
        } else {
            assert(!(is_digit(body[i - start]) || body[i - start] == '.'));
            return None;
        }
        i += 1;
    }
    assert(body.take(s.len() - start) == body);
    if digits.len() == 0 {
        assert(!is_decimal(body));
        return None;
    }
    assert(is_decimal(body));
    Some((digits, scale))
}

/// Reads the amount of a cell. `is_credit` says that a credit marker went
/// before the cell. A cell that begins with a plus sign is a credit too.
pub fn parse_amount(s: &str, is_credit: bool) -> (r: Option<Amount>)
    ensures
        match r {
            Some(a) => a.wf() && spec_parse_amount(s@, is_credit) == Some(a@),
            None => spec_parse_amount(s@, is_credit) is None,
        },
{
    let raw = chars_of(s);
    let no_sign = remove_char(&raw, RUPEE);
    let no_commas = remove_char(&no_sign, ',');
    let clean = trimmed(&no_commas);
    let plus = clean.len() > 0 && clean[0] == '+';
    let numeral = if plus {
        let stripped = strip_leading_char(&clean, '+');
        trimmed(&stripped)
    } else {
        clean
    };
    match parse_decimal(&numeral) {
        Some((digits, scale)) => Some(Amount { negative: !(is_credit || plus), digits, scale }),
        None => None,
    }
}

} // verus!
