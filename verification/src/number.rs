//! Numbers as a text spells them, and the reader that finds them.
//!
//! A decimal number is kept digit by digit, as it was written, so that
//! every literal has its number, however long it is. What the digits come
//! to is a natural number and an integer in the model; `significand` and
//! `exponent` give them as machine integers where they fit.

use vstd::prelude::*;
use crate::literal::{
    decimal_of, digit_values, digits_end, infinity_word, inf_word, is_decimal_literal, is_digit,
    is_letter, is_number_literal, lemma_decimal_of_literal, lemma_digits_end, minus_at, nan_word,
    number_of, shape_of, spells,
};

verus! {

/// A decimal number: the digits before and behind the point, read as one
/// number, times ten to the power that is written, less one for each digit
/// behind the point; negated where `negative` is set. Each digit is a number
/// from 0 to 9, the most significant first. The sign is kept apart, so a
/// negative zero stays one.
#[derive(Debug, Clone, PartialEq, Eq, Hash)]
pub struct Decimal {
    pub negative: bool,
    /// The digits before the point.
    pub integer: Vec<u8>,
    /// The digits behind the point.
    pub fraction: Vec<u8>,
    /// Whether the exponent that is written is negative.
    pub exponent_negative: bool,
    /// The digits of the exponent that is written; none where none is.
    pub exponent_digits: Vec<u8>,
}

/// A `Decimal` with its digits as sequences.
pub struct DecimalView {
    pub negative: bool,
    pub integer: Seq<u8>,
    pub fraction: Seq<u8>,
    pub exponent_negative: bool,
    pub exponent_digits: Seq<u8>,
}

impl View for Decimal {
    type V = DecimalView;

    open spec fn view(&self) -> DecimalView {
        DecimalView {
            negative: self.negative,
            integer: self.integer@,
            fraction: self.fraction@,
            exponent_negative: self.exponent_negative,
            exponent_digits: self.exponent_digits@,
        }
    }
}

/// What a number literal spells.
#[derive(Debug, Clone, PartialEq, Eq, Hash)]
pub enum Number {
    /// A decimal number.
    Finite(Decimal),
    /// Infinity, with its sign.
    Infinite { negative: bool },
    /// The literal of what is not a number, with its sign.
    NotANumber { negative: bool },
}

/// A `Number` with the digits of its decimal as sequences.
pub enum NumberView {
    Finite(DecimalView),
    Infinite { negative: bool },
    NotANumber { negative: bool },
}

impl View for Number {
    type V = NumberView;

    open spec fn view(&self) -> NumberView {
        match self {
            Number::Finite(decimal) => NumberView::Finite(decimal@),
            Number::Infinite { negative } => NumberView::Infinite { negative: *negative },
            Number::NotANumber { negative } => NumberView::NotANumber { negative: *negative },
        }
    }
}

/// The number that results from writing `digits` behind the numeral of
/// `start`.
pub open spec fn append_digits(start: nat, digits: Seq<u8>) -> nat
    decreases digits.len(),
{
    if digits.len() == 0 {
        start
    } else {
        10 * append_digits(start, digits.drop_last()) + digits.last() as nat
    }
}

/// The number that a run of digits spells.
pub open spec fn digits_value(digits: Seq<u8>) -> nat {
    append_digits(0, digits)
}

/// Whether every member of a run is a digit, a number from 0 to 9.
pub open spec fn decimal_digits(digits: Seq<u8>) -> bool {
    forall|i: int| 0 <= i < digits.len() ==> #[trigger] digits[i] <= 9
}

impl DecimalView {
    /// Whether the digits are digits, there is one at least before or
    /// behind the point, and no sign of an exponent without an exponent.
    pub open spec fn well_formed(self) -> bool {
        &&& decimal_digits(self.integer)
        &&& decimal_digits(self.fraction)
        &&& decimal_digits(self.exponent_digits)
        &&& self.integer.len() + self.fraction.len() > 0
        &&& self.exponent_digits.len() == 0 ==> !self.exponent_negative
    }

    /// The digits before and behind the point, read as one number.
    pub open spec fn significand(self) -> nat {
        digits_value(self.integer + self.fraction)
    }

    /// The exponent that is written; 0 where none is.
    pub open spec fn written_exponent(self) -> int {
        if self.exponent_negative {
            -digits_value(self.exponent_digits)
        } else {
            digits_value(self.exponent_digits) as int
        }
    }

    /// The power of ten that the significand is taken times: the exponent
    /// that is written, less one for each digit behind the point.
    pub open spec fn exponent(self) -> int {
        self.written_exponent() - self.fraction.len()
    }

    /// Whether the significand fits a `u64` and the exponent an `i64`.
    pub open spec fn fits(self) -> bool {
        &&& self.significand() <= u64::MAX
        &&& i64::MIN <= self.exponent() <= i64::MAX
    }
}

/// The view of a decimal that may be missing.
pub open spec fn decimal_view(decimal: Option<Decimal>) -> Option<DecimalView> {
    match decimal {
        Some(d) => Some(d@),
        None => None,
    }
}

/// The view of a number that may be missing.
pub open spec fn number_view(number: Option<Number>) -> Option<NumberView> {
    match number {
        Some(n) => Some(n@),
        None => None,
    }
}

/// Writing `second` behind `first` behind a numeral is writing both runs
/// behind it at once.
pub proof fn lemma_append_digits_concat(start: nat, first: Seq<u8>, second: Seq<u8>)
    ensures
        append_digits(append_digits(start, first), second) == append_digits(start, first + second),
    decreases second.len(),
{
    if second.len() == 0 {
        assert(first + second =~= first);
    } else {
        lemma_append_digits_concat(start, first, second.drop_last());
        assert((first + second).drop_last() =~= first + second.drop_last());
    }
}

/// A numeral does not get smaller when digits are written behind it.
pub proof fn lemma_append_digits_grows(start: nat, digits: Seq<u8>, taken: int)
    requires
        0 <= taken <= digits.len(),
    ensures
        append_digits(start, digits.take(taken)) <= append_digits(start, digits),
    decreases digits.len(),
{
    if taken == digits.len() {
        assert(digits.take(taken) =~= digits);
    } else {
        lemma_append_digits_grows(start, digits.drop_last(), taken);
        assert(digits.drop_last().take(taken) =~= digits.take(taken));
    }
}

/// The power `10^exp`.
pub open spec fn pow10(exp: nat) -> nat
    decreases exp,
{
    if exp == 0 {
        1
    } else {
        10 * pow10((exp - 1) as nat)
    }
}

/// The powers of ten grow with the exponent.
pub proof fn lemma_pow10_grows(small: nat, large: nat)
    requires
        small <= large,
    ensures
        pow10(small) <= pow10(large),
    decreases large,
{
    if small < large {
        lemma_pow10_grows(small, (large - 1) as nat);
    }
}

/// A run of `n` digits spells a number below `10^n`.
pub proof fn lemma_digits_value_bound(digits: Seq<u8>)
    requires
        decimal_digits(digits),
    ensures
        digits_value(digits) < pow10(digits.len()),
    decreases digits.len(),
{
    if digits.len() > 0 {
        lemma_digits_value_bound(digits.drop_last());
        assert(digits[digits.len() - 1] <= 9);
    }
}

/// A decimal of at most nineteen digits in all, those of its exponent
/// counted in, fits.
pub proof fn lemma_short_decimal_fits(decimal: DecimalView)
    requires
        decimal.well_formed(),
        decimal.integer.len() + decimal.fraction.len() + decimal.exponent_digits.len() <= 19,
    ensures
        decimal.fits(),
{
    let digits = decimal.integer + decimal.fraction;
    assert(decimal_digits(digits)) by {
        assert forall|i: int| 0 <= i < digits.len() implies #[trigger] digits[i] <= 9 by {
            if i < decimal.integer.len() {
                assert(digits[i] == decimal.integer[i]);
            } else {
                assert(digits[i] == decimal.fraction[i - decimal.integer.len()]);
            }
        }
    }
    lemma_digits_value_bound(digits);
    lemma_pow10_grows(digits.len(), 19);
    assert(pow10(19) == 10_000_000_000_000_000_000) by {
        reveal_with_fuel(pow10, 20);
    }
    lemma_digits_value_bound(decimal.exponent_digits);
    lemma_pow10_grows(decimal.exponent_digits.len(), 18);
    assert(pow10(18) == 1_000_000_000_000_000_000) by {
        reveal_with_fuel(pow10, 19);
    }
}

/// Writes `digits` behind the numeral of `start`; `None` where the result
/// is too large.
fn fold_digits(digits: &[u8], start: u128) -> (value: Option<u128>)
    ensures
        match value {
            Some(v) => v == append_digits(start as nat, digits@),
            None => append_digits(start as nat, digits@) > u128::MAX,
        },
{
    let mut value: u128 = start;
    let mut at: usize = 0;
    while at < digits.len()
        invariant
            at <= digits@.len(),
            value == append_digits(start as nat, digits@.take(at as int)),
        decreases digits@.len() - at,
    {
        let digit: u128 = digits[at] as u128;
        proof {
            let longer = digits@.take(at + 1);
            assert(longer.drop_last() =~= digits@.take(at as int));
            assert(longer.last() == digits@[at as int]);
            assert(append_digits(start as nat, longer) == 10 * value + digit);
            lemma_append_digits_grows(start as nat, digits@, at + 1);
        }
        let scaled: u128 = match value.checked_mul(10) {
            Some(scaled) => scaled,
            None => {
                return None;
            },
        };
        value = match scaled.checked_add(digit) {
            Some(sum) => sum,
            None => {
                return None;
            },
        };
        at += 1;
    }
    assert(digits@.take(digits@.len() as int) =~= digits@);
    Some(value)
}

impl Decimal {
    /// The significand as a machine integer; `None` where it is too large
    /// for one.
    pub fn significand(&self) -> (significand: Option<u64>)
        ensures
            match significand {
                Some(v) => v == self@.significand(),
                None => self@.significand() > u64::MAX,
            },
    {
        proof {
            lemma_append_digits_concat(0, self.integer@, self.fraction@);
            lemma_append_digits_grows(
                0,
                self.integer@ + self.fraction@,
                self.integer@.len() as int,
            );
            assert((self.integer@ + self.fraction@).take(self.integer@.len() as int)
                =~= self.integer@);
        }
        let whole: u128 = match fold_digits(self.integer.as_slice(), 0) {
            Some(whole) => whole,
            None => {
                return None;
            },
        };
        let significand: u128 = match fold_digits(self.fraction.as_slice(), whole) {
            Some(significand) => significand,
            None => {
                return None;
            },
        };
        if significand > u64::MAX as u128 {
            return None;
        }
        Some(significand as u64)
    }

    /// The power of ten as a machine integer; `None` where it is too large
    /// or too small for one.
    pub fn exponent(&self) -> (exponent: Option<i64>)
        ensures
            match exponent {
                Some(v) => v == self@.exponent(),
                None => !(i64::MIN <= self@.exponent() <= i64::MAX),
            },
    {
        let fraction_len: i128 = self.fraction.len() as i128;
        let size: u128 = match fold_digits(self.exponent_digits.as_slice(), 0) {
            Some(size) => size,
            None => {
                return None;
            },
        };
        if size > 0x1_0000_0000_0000_0000_0000 {
            return None;
        }
        let written: i128 = if self.exponent_negative {
            -(size as i128)
        } else {
            size as i128
        };
        let exponent: i128 = written - fraction_len;
        if exponent < i64::MIN as i128 || exponent > i64::MAX as i128 {
            return None;
        }
        Some(exponent as i64)
    }
}

/// Whether a character is a decimal digit.
pub fn is_decimal_digit(c: char) -> (digit: bool)
    ensures
        digit == is_digit(c),
{
    c >= '0' && c <= '9'
}

/// Finds the end of the run of digits that starts at `from`.
fn scan_digits(text: &[char], from: usize) -> (end: usize)
    requires
        from <= text@.len(),
    ensures
        end == digits_end(text@, from as int),
        from <= end <= text@.len(),
{
    let mut end: usize = from;
    while end < text.len() && is_decimal_digit(text[end])
        invariant
            from <= end <= text@.len(),
            digits_end(text@, from as int) == digits_end(text@, end as int),
        decreases text@.len() - end,
    {
        end += 1;
    }
    end
}

/// The numbers of the digits of `text` from `from` to `to`.
fn collect_digits(text: &[char], from: usize, to: usize) -> (digits: Vec<u8>)
    requires
        from <= to <= text@.len(),
        forall|i: int| from <= i < to ==> is_digit(#[trigger] text@[i]),
    ensures
        digits@ == digit_values(text@.subrange(from as int, to as int)),
{
    let mut digits: Vec<u8> = Vec::new();
    let mut at: usize = from;
    while at < to
        invariant
            from <= at <= to <= text@.len(),
            forall|i: int| from <= i < to ==> is_digit(#[trigger] text@[i]),
            digits@ == digit_values(text@.subrange(from as int, at as int)),
        decreases to - at,
    {
        let c: char = text[at];
        assert(is_digit(text@[at as int]));
        digits.push((c as u32 - '0' as u32) as u8);
        assert(digits@ =~= digit_values(text@.subrange(from as int, at + 1)));
        at += 1;
    }
    digits
}

/// The positions that a scan of a literal found.
struct Scan {
    negative: bool,
    integer_start: usize,
    integer_end: usize,
    fraction_start: usize,
    fraction_end: usize,
    has_exponent: bool,
    exponent_negative: bool,
    exponent_start: usize,
    exponent_end: usize,
}

impl Scan {
    /// Whether the scan found the shape of `text`, a literal.
    spec fn matches(self, text: Seq<char>) -> bool {
        let shape = shape_of(text);
        &&& is_decimal_literal(text)
        &&& self.negative == minus_at(text, 0)
        &&& self.integer_start == shape.integer_start
        &&& self.integer_end == shape.integer_end
        &&& self.fraction_start == shape.fraction_start
        &&& self.fraction_end == shape.fraction_end
        &&& self.has_exponent == shape.has_exponent
        &&& self.has_exponent ==> {
            &&& self.exponent_negative == minus_at(text, shape.fraction_end + 1)
            &&& self.exponent_start == shape.exponent_start
            &&& self.exponent_end == shape.exponent_end
        }
        &&& self.integer_start <= self.integer_end <= self.fraction_start <= self.fraction_end
            <= text.len()
        &&& self.has_exponent ==> self.fraction_end < self.exponent_start < self.exponent_end
            <= text.len()
        &&& forall|i: int| self.integer_start <= i < self.integer_end ==> is_digit(#[trigger] text[i])
        &&& forall|i: int|
            self.fraction_start <= i < self.fraction_end ==> is_digit(#[trigger] text[i])
        &&& self.has_exponent ==> forall|i: int|
            self.exponent_start <= i < self.exponent_end ==> is_digit(#[trigger] text[i])
    }
}

/// Finds the parts of a literal; `None` for a text that is none.
fn scan_literal(text: &[char]) -> (scan: Option<Scan>)
    ensures
        scan is Some <==> is_decimal_literal(text@),
        scan matches Some(found) ==> found.matches(text@),
{
    let len: usize = text.len();
    let negative: bool = len > 0 && text[0] == '-';
    let integer_start: usize = if len > 0 && (text[0] == '+' || text[0] == '-') {
        1
    } else {
        0
    };
    let integer_end: usize = scan_digits(text, integer_start);
    let fraction_start: usize = if integer_end < len && text[integer_end] == '.' {
        integer_end + 1
    } else {
        integer_end
    };
    let fraction_end: usize = scan_digits(text, fraction_start);
    proof {
        lemma_digits_end(text@, integer_start as int);
        lemma_digits_end(text@, fraction_start as int);
    }
    if (integer_end - integer_start) + (fraction_end - fraction_start) == 0 {
        return None;
    }
    let has_exponent: bool = fraction_end < len && (text[fraction_end] == 'e' || text[fraction_end]
        == 'E');
    let mut exponent_negative: bool = false;
    let mut exponent_start: usize = fraction_end;
    let mut exponent_end: usize = fraction_end;
    if has_exponent {
        exponent_start = fraction_end + 1;
        if exponent_start < len && (text[exponent_start] == '+' || text[exponent_start] == '-') {
            exponent_negative = text[exponent_start] == '-';
            exponent_start = exponent_start + 1;
        }
        exponent_end = scan_digits(text, exponent_start);
        proof {
            lemma_digits_end(text@, exponent_start as int);
        }
        if exponent_end == exponent_start {
            return None;
        }
    }
    if exponent_end != len {
        return None;
    }
    Some(
        Scan {
            negative,
            integer_start,
            integer_end,
            fraction_start,
            fraction_end,
            has_exponent,
            exponent_negative,
            exponent_start,
            exponent_end,
        },
    )
}

/// Reads a text as a decimal literal: `Some` for every literal, with its
/// digits as they are written, and `None` for every other text.
pub fn parse_decimal(text: &[char]) -> (decimal: Option<Decimal>)
    ensures
        decimal_view(decimal) == decimal_of(text@),
        decimal is Some <==> is_decimal_literal(text@),
        decimal matches Some(found) ==> found@.well_formed(),
{
    proof {
        if is_decimal_literal(text@) {
            lemma_decimal_of_literal(text@);
        }
    }
    let scan: Scan = match scan_literal(text) {
        Some(scan) => scan,
        None => {
            return None;
        },
    };
    let integer: Vec<u8> = collect_digits(text, scan.integer_start, scan.integer_end);
    let fraction: Vec<u8> = collect_digits(text, scan.fraction_start, scan.fraction_end);
    let exponent_digits: Vec<u8> = if scan.has_exponent {
        collect_digits(text, scan.exponent_start, scan.exponent_end)
    } else {
        Vec::new()
    };
    Some(
        Decimal {
            negative: scan.negative,
            integer,
            fraction,
            exponent_negative: scan.has_exponent && scan.exponent_negative,
            exponent_digits,
        },
    )
}

/// Whether `c` is the lower-case letter `letter` or its upper-case form.
fn letter_matches(c: char, letter: char) -> (same: bool)
    requires
        'a' <= letter <= 'z',
    ensures
        same == is_letter(c, letter),
{
    c == letter || c as u32 + 32 == letter as u32
}

/// Whether `text` from `from` on spells the lower-case word `letters`, in
/// upper or lower case.
fn spells_word(text: &[char], from: usize, letters: &[char]) -> (same: bool)
    requires
        from <= text@.len(),
        forall|i: int| 0 <= i < letters@.len() ==> 'a' <= #[trigger] letters@[i] <= 'z',
    ensures
        same == spells(text@.skip(from as int), letters@),
{
    if text.len() - from != letters.len() {
        return false;
    }
    let mut i: usize = 0;
    while i < letters.len()
        invariant
            i <= letters@.len(),
            from <= text@.len() <= usize::MAX,
            text@.len() - from == letters@.len(),
            forall|j: int| 0 <= j < letters@.len() ==> 'a' <= #[trigger] letters@[j] <= 'z',
            forall|j: int|
                0 <= j < i ==> is_letter(#[trigger] text@.skip(from as int)[j], letters@[j]),
        decreases letters@.len() - i,
    {
        assert(text@.skip(from as int)[i as int] == text@[from + i]);
        if !letter_matches(text[from + i], letters[i]) {
            return false;
        }
        i += 1;
    }
    true
}

/// Reads a text as a number literal: `Some` for a special word and for a
/// decimal literal, `None` for every other text.
pub fn parse_number(text: &[char]) -> (number: Option<Number>)
    ensures
        number_view(number) == number_of(text@),
        number is Some <==> is_number_literal(text@),
        number matches Some(Number::Finite(decimal)) ==> decimal@.well_formed(),
{
    let len: usize = text.len();
    let negative: bool = len > 0 && text[0] == '-';
    let start: usize = if len > 0 && (text[0] == '+' || text[0] == '-') {
        1
    } else {
        0
    };
    let nan: [char; 3] = ['n', 'a', 'n'];
    let inf: [char; 3] = ['i', 'n', 'f'];
    let infinity: [char; 8] = ['i', 'n', 'f', 'i', 'n', 'i', 't', 'y'];
    assert(nan@ =~= nan_word());
    assert(inf@ =~= inf_word());
    assert(infinity@ =~= infinity_word());
    if spells_word(text, start, nan.as_slice()) {
        Some(Number::NotANumber { negative })
    } else if spells_word(text, start, inf.as_slice()) || spells_word(
        text,
        start,
        infinity.as_slice(),
    ) {
        Some(Number::Infinite { negative })
    } else {
        match parse_decimal(text) {
            Some(decimal) => Some(Number::Finite(decimal)),
            None => None,
        }
    }
}

} // verus!
