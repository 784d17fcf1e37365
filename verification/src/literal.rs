//! The grammar of number literals, and what a literal spells.
//!
//! ```text
//! number   ::= sign? ( decimal | special )
//! decimal  ::= digits exponent?
//! digits   ::= digit+ | digit+ '.' digit* | digit* '.' digit+
//! exponent ::= ('e' | 'E') sign? digit+
//! special  ::= 'inf' | 'infinity' | 'nan'      in upper or lower case
//! sign     ::= '+' | '-'
//! digit    ::= '0' ... '9'
//! ```
//!
//! This is the grammar by which Rust reads a float from a text. A decimal
//! literal can be read from left to right without looking back, so what it
//! spells is stated by the positions at which its parts end (`shape_of`);
//! `lemma_literal_has_parts` and `lemma_parts_make_literal` show that the
//! texts with such a shape are the decimal literals of the grammar.

use vstd::prelude::*;
use crate::number::{lemma_short_decimal_fits, DecimalView, NumberView};

verus! {

pub open spec fn is_digit(c: char) -> bool {
    '0' <= c <= '9'
}

pub open spec fn is_sign(c: char) -> bool {
    c == '+' || c == '-'
}

pub open spec fn is_exponent_mark(c: char) -> bool {
    c == 'e' || c == 'E'
}

/// The number that a digit stands for.
pub open spec fn digit_value(c: char) -> nat {
    (c as int - '0' as int) as nat
}

/// The numbers that the digits of a run stand for.
pub open spec fn digit_values(run: Seq<char>) -> Seq<u8> {
    Seq::new(run.len(), |i: int| digit_value(run[i]) as u8)
}

/// The position at which the run of digits that starts at `from` ends.
pub open spec fn digits_end(text: Seq<char>, from: int) -> int
    decreases text.len() - from,
{
    if 0 <= from < text.len() && is_digit(text[from]) {
        digits_end(text, from + 1)
    } else {
        from
    }
}

/// Length of the sign that may stand at `at`: 1 or 0.
pub open spec fn sign_len(text: Seq<char>, at: int) -> int {
    if 0 <= at < text.len() && is_sign(text[at]) {
        1
    } else {
        0
    }
}

/// Whether a minus sign stands at `at`.
pub open spec fn minus_at(text: Seq<char>, at: int) -> bool {
    0 <= at < text.len() && text[at] == '-'
}

/// Where the parts of a literal lie in a text, read from its start.
pub struct LiteralShape {
    /// Start of the digits before the point, behind the sign.
    pub integer_start: int,
    /// End of the digits before the point.
    pub integer_end: int,
    /// Start of the digits behind the point.
    pub fraction_start: int,
    /// End of the digits behind the point.
    pub fraction_end: int,
    /// Whether an exponent mark follows the number.
    pub has_exponent: bool,
    /// Start of the digits of the exponent, behind the mark and its sign.
    pub exponent_start: int,
    /// End of the digits of the exponent.
    pub exponent_end: int,
}

impl LiteralShape {
    /// Number of digits before and behind the point.
    pub open spec fn digit_count(self) -> int {
        (self.integer_end - self.integer_start) + (self.fraction_end - self.fraction_start)
    }

    /// Number of digits behind the point.
    pub open spec fn fraction_len(self) -> int {
        self.fraction_end - self.fraction_start
    }

    /// Where the literal ends.
    pub open spec fn end(self) -> int {
        if self.has_exponent {
            self.exponent_end
        } else {
            self.fraction_end
        }
    }
}

/// The shape of the longest text from the start of `text` that can begin a
/// literal.
pub open spec fn shape_of(text: Seq<char>) -> LiteralShape {
    let integer_start = sign_len(text, 0);
    let integer_end = digits_end(text, integer_start);
    let has_point = integer_end < text.len() && text[integer_end] == '.';
    let fraction_start = if has_point {
        integer_end + 1
    } else {
        integer_end
    };
    let fraction_end = digits_end(text, fraction_start);
    let has_exponent = fraction_end < text.len() && is_exponent_mark(text[fraction_end]);
    let exponent_start = fraction_end + 1 + sign_len(text, fraction_end + 1);
    let exponent_end = digits_end(text, exponent_start);
    LiteralShape {
        integer_start,
        integer_end,
        fraction_start,
        fraction_end,
        has_exponent,
        exponent_start,
        exponent_end,
    }
}

/// Whether a text is a decimal literal: the number has a digit, an
/// exponent that is begun has a digit too, and nothing follows.
pub open spec fn is_decimal_literal(text: Seq<char>) -> bool {
    let shape = shape_of(text);
    &&& shape.digit_count() > 0
    &&& shape.has_exponent ==> shape.exponent_end > shape.exponent_start
    &&& shape.end() == text.len()
}

/// The decimal that a text spells: that of a decimal literal, digit by
/// digit as it is written, and none for any other text.
pub open spec fn decimal_of(text: Seq<char>) -> Option<DecimalView> {
    let shape = shape_of(text);
    if is_decimal_literal(text) {
        Some(
            DecimalView {
                negative: minus_at(text, 0),
                integer: digit_values(text.subrange(shape.integer_start, shape.integer_end)),
                fraction: digit_values(text.subrange(shape.fraction_start, shape.fraction_end)),
                exponent_negative: shape.has_exponent && minus_at(text, shape.fraction_end + 1),
                exponent_digits: if shape.has_exponent {
                    digit_values(text.subrange(shape.exponent_start, shape.exponent_end))
                } else {
                    Seq::empty()
                },
            },
        )
    } else {
        None
    }
}

/// Whether `c` is the lower-case letter `letter` or its upper-case form.
pub open spec fn is_letter(c: char, letter: char) -> bool {
    c == letter || c as int + 32 == letter as int
}

/// Whether `word` spells the lower-case word `letters` in upper or lower
/// case.
pub open spec fn spells(word: Seq<char>, letters: Seq<char>) -> bool {
    &&& word.len() == letters.len()
    &&& forall|i: int| 0 <= i < word.len() ==> is_letter(#[trigger] word[i], letters[i])
}

/// The letters of the literal of what is not a number.
pub open spec fn nan_word() -> Seq<char> {
    seq!['n', 'a', 'n']
}

/// The letters of the short literal of infinity.
pub open spec fn inf_word() -> Seq<char> {
    seq!['i', 'n', 'f']
}

/// The letters of the long literal of infinity.
pub open spec fn infinity_word() -> Seq<char> {
    seq!['i', 'n', 'f', 'i', 'n', 'i', 't', 'y']
}

/// What stands behind the sign of a text.
pub open spec fn unsigned_part(text: Seq<char>) -> Seq<char> {
    text.skip(sign_len(text, 0))
}

/// Whether a text is a number literal: a decimal literal or, behind a sign
/// if there is one, one of the special words.
pub open spec fn is_number_literal(text: Seq<char>) -> bool {
    ||| is_decimal_literal(text)
    ||| spells(unsigned_part(text), nan_word())
    ||| spells(unsigned_part(text), inf_word())
    ||| spells(unsigned_part(text), infinity_word())
}

/// The number that a text spells: that of a special word or of a decimal
/// literal; none for any other text.
pub open spec fn number_of(text: Seq<char>) -> Option<NumberView> {
    if spells(unsigned_part(text), nan_word()) {
        Some(NumberView::NotANumber { negative: minus_at(text, 0) })
    } else if spells(unsigned_part(text), inf_word()) || spells(
        unsigned_part(text),
        infinity_word(),
    ) {
        Some(NumberView::Infinite { negative: minus_at(text, 0) })
    } else {
        match decimal_of(text) {
            Some(decimal) => Some(NumberView::Finite(decimal)),
            None => None,
        }
    }
}

/// A text spells a number exactly when it is a number literal.
pub proof fn lemma_number_of_literal(text: Seq<char>)
    ensures
        number_of(text) is Some <==> is_number_literal(text),
        decimal_of(text) is Some <==> is_decimal_literal(text),
{
}

/// The run of digits from `from` ends within the text, holds digits only
/// and stops at the first character that is none.
pub proof fn lemma_digits_end(text: Seq<char>, from: int)
    requires
        0 <= from <= text.len(),
    ensures
        from <= digits_end(text, from) <= text.len(),
        forall|i: int| from <= i < digits_end(text, from) ==> is_digit(#[trigger] text[i]),
        digits_end(text, from) < text.len() ==> !is_digit(text[digits_end(text, from)]),
    decreases text.len() - from,
{
    if from < text.len() && is_digit(text[from]) {
        lemma_digits_end(text, from + 1);
    }
}

/// Whether every character of a run is a digit.
pub open spec fn all_digits(run: Seq<char>) -> bool {
    forall|i: int| 0 <= i < run.len() ==> is_digit(#[trigger] run[i])
}

/// The text of a sign that may be missing.
pub open spec fn sign_text(sign: Option<char>) -> Seq<char> {
    match sign {
        Some(c) => seq![c],
        None => Seq::empty(),
    }
}

/// The exponent of a decimal literal, in its parts.
pub struct ExponentParts {
    pub mark: char,
    pub sign: Option<char>,
    pub digits: Seq<char>,
}

/// A decimal literal in the parts that the grammar names.
pub struct LiteralParts {
    pub sign: Option<char>,
    pub integer: Seq<char>,
    pub point: bool,
    pub fraction: Seq<char>,
    pub exponent: Option<ExponentParts>,
}

impl ExponentParts {
    /// Whether the parts are those of an exponent: a mark, a sign if there
    /// is one, and at least one digit.
    pub open spec fn well_formed(self) -> bool {
        &&& is_exponent_mark(self.mark)
        &&& self.sign matches Some(c) ==> is_sign(c)
        &&& all_digits(self.digits)
        &&& self.digits.len() > 0
    }

    pub open spec fn text(self) -> Seq<char> {
        seq![self.mark] + sign_text(self.sign) + self.digits
    }
}

impl LiteralParts {
    /// Whether the parts are those of a decimal literal: digits before or
    /// behind the point, at least one in all, none behind a point that is
    /// not there, and a well-formed exponent if there is one.
    pub open spec fn well_formed(self) -> bool {
        &&& self.sign matches Some(c) ==> is_sign(c)
        &&& all_digits(self.integer)
        &&& all_digits(self.fraction)
        &&& self.integer.len() + self.fraction.len() > 0
        &&& !self.point ==> self.fraction.len() == 0
        &&& self.exponent matches Some(exponent) ==> exponent.well_formed()
    }

    /// The literal that the parts make up.
    pub open spec fn text(self) -> Seq<char> {
        sign_text(self.sign) + self.integer + (if self.point {
            seq!['.']
        } else {
            Seq::empty()
        }) + self.fraction + (match self.exponent {
            Some(exponent) => exponent.text(),
            None => Seq::empty(),
        })
    }
}

impl LiteralParts {
    /// The decimal that the parts spell.
    pub open spec fn decimal(self) -> DecimalView {
        DecimalView {
            negative: self.sign == Some('-'),
            integer: digit_values(self.integer),
            fraction: digit_values(self.fraction),
            exponent_negative: self.exponent matches Some(exponent) && exponent.sign == Some(
                '-',
            ),
            exponent_digits: match self.exponent {
                Some(exponent) => digit_values(exponent.digits),
                None => Seq::empty(),
            },
        }
    }
}

/// The parts of a text by its shape.
pub open spec fn parts_of(text: Seq<char>) -> LiteralParts {
    let shape = shape_of(text);
    LiteralParts {
        sign: if shape.integer_start == 1 {
            Some(text[0])
        } else {
            None
        },
        integer: text.subrange(shape.integer_start, shape.integer_end),
        point: shape.fraction_start > shape.integer_end,
        fraction: text.subrange(shape.fraction_start, shape.fraction_end),
        exponent: if shape.has_exponent {
            Some(
                ExponentParts {
                    mark: text[shape.fraction_end],
                    sign: if sign_len(text, shape.fraction_end + 1) == 1 {
                        Some(text[shape.fraction_end + 1])
                    } else {
                        None
                    },
                    digits: text.subrange(shape.exponent_start, shape.exponent_end),
                },
            )
        } else {
            None
        },
    }
}

/// A run of digits that is followed by no digit ends where it ends.
pub proof fn lemma_run_end(text: Seq<char>, from: int, to: int)
    requires
        0 <= from <= to <= text.len(),
        forall|i: int| from <= i < to ==> is_digit(#[trigger] text[i]),
        to < text.len() ==> !is_digit(text[to]),
    ensures
        digits_end(text, from) == to,
    decreases to - from,
{
    if from < to {
        lemma_run_end(text, from + 1, to);
    }
}

/// Every decimal literal is made up of well-formed parts: it is a literal
/// of the grammar.
pub proof fn lemma_literal_has_parts(text: Seq<char>)
    requires
        is_decimal_literal(text),
    ensures
        parts_of(text).well_formed(),
        parts_of(text).text() == text,
        decimal_of(text) == Some(parts_of(text).decimal()),
{
    let shape = shape_of(text);
    let parts = parts_of(text);
    lemma_digits_end(text, shape.integer_start);
    lemma_digits_end(text, shape.fraction_start);
    assert(all_digits(parts.integer)) by {
        assert forall|i: int| 0 <= i < parts.integer.len() implies is_digit(
            #[trigger] parts.integer[i],
        ) by {
            assert(parts.integer[i] == text[shape.integer_start + i]);
        }
    }
    assert(all_digits(parts.fraction)) by {
        assert forall|i: int| 0 <= i < parts.fraction.len() implies is_digit(
            #[trigger] parts.fraction[i],
        ) by {
            assert(parts.fraction[i] == text[shape.fraction_start + i]);
        }
    }
    if shape.has_exponent {
        lemma_digits_end(text, shape.exponent_start);
        let exponent = parts.exponent->Some_0;
        assert(all_digits(exponent.digits)) by {
            assert forall|i: int| 0 <= i < exponent.digits.len() implies is_digit(
                #[trigger] exponent.digits[i],
            ) by {
                assert(exponent.digits[i] == text[shape.exponent_start + i]);
            }
        }
    }
    assert(parts.text() =~= text);
}

/// Every text that is made up of well-formed parts is a decimal literal,
/// and it spells the decimal of these parts: the digits before the point,
/// those behind it and those of the exponent, each with its sign.
pub proof fn lemma_parts_make_literal(parts: LiteralParts)
    requires
        parts.well_formed(),
    ensures
        is_decimal_literal(parts.text()),
        decimal_of(parts.text()) == Some(parts.decimal()),
{
    let text = parts.text();
    let a = sign_text(parts.sign).len() as int;
    let b = a + parts.integer.len();
    let c = if parts.point {
        b + 1
    } else {
        b
    };
    let d = c + parts.fraction.len();
    assert forall|i: int| a <= i < b implies is_digit(#[trigger] text[i]) by {
        assert(text[i] == parts.integer[i - a]);
    }
    assert forall|i: int| c <= i < d implies is_digit(#[trigger] text[i]) by {
        assert(text[i] == parts.fraction[i - c]);
    }
    if parts.point {
        assert(text[b] == '.');
    }
    match parts.exponent {
        Some(exponent) => {
            let g = d + 1 + sign_text(exponent.sign).len();
            let h = g + exponent.digits.len();
            assert(text.len() == h);
            assert(text[d] == exponent.mark);
            if exponent.sign is Some {
                assert(text[d + 1] == exponent.sign->Some_0);
            } else {
                assert(text[d + 1] == exponent.digits[0]);
                assert(is_digit(exponent.digits[0]));
            }
            assert forall|i: int| g <= i < h implies is_digit(#[trigger] text[i]) by {
                assert(text[i] == exponent.digits[i - g]);
            }
            lemma_run_end(text, g, h);
            assert(text.subrange(g, h) =~= exponent.digits);
        },
        None => {
            assert(text.len() == d);
        },
    }
    if parts.sign is Some {
        assert(text[0] == parts.sign->Some_0);
    } else if parts.integer.len() > 0 {
        assert(text[0] == parts.integer[0]);
        assert(is_digit(parts.integer[0]));
    } else {
        assert(text[0] == '.');
    }
    assert(sign_len(text, 0) == a);
    lemma_run_end(text, a, b);
    lemma_run_end(text, c, d);
    assert(text.subrange(a, b) =~= parts.integer);
    assert(text.subrange(c, d) =~= parts.fraction);
}

/// The decimal of a literal is well formed, and it has no more digits than
/// the literal has characters.
pub proof fn lemma_decimal_of_literal(text: Seq<char>)
    requires
        is_decimal_literal(text),
    ensures
        decimal_of(text)->Some_0.well_formed(),
        decimal_of(text)->Some_0.integer.len() + decimal_of(text)->Some_0.fraction.len()
            + decimal_of(text)->Some_0.exponent_digits.len() <= text.len(),
{
    let shape = shape_of(text);
    let decimal = decimal_of(text)->Some_0;
    lemma_digits_end(text, shape.integer_start);
    lemma_digits_end(text, shape.fraction_start);
    assert forall|i: int| 0 <= i < decimal.integer.len() implies #[trigger] decimal.integer[i]
        <= 9 by {
        assert(is_digit(text[shape.integer_start + i]));
    }
    assert forall|i: int| 0 <= i < decimal.fraction.len() implies #[trigger] decimal.fraction[i]
        <= 9 by {
        assert(is_digit(text[shape.fraction_start + i]));
    }
    if shape.has_exponent {
        lemma_digits_end(text, shape.exponent_start);
        assert forall|i: int| 0 <= i < decimal.exponent_digits.len() implies
            #[trigger] decimal.exponent_digits[i] <= 9 by {
            assert(is_digit(text[shape.exponent_start + i]));
        }
    }
}

/// The decimal of a literal of at most nineteen characters fits machine
/// integers.
pub proof fn lemma_short_literal_fits(text: Seq<char>)
    requires
        is_decimal_literal(text),
        text.len() <= 19,
    ensures
        decimal_of(text)->Some_0.fits(),
{
    lemma_decimal_of_literal(text);
    lemma_short_decimal_fits(decimal_of(text)->Some_0);
}

} // verus!
