//! Reading a text of time spans up to where its sum leaves the range of durations.
//!
//! A duration holds at most 2^64 - 1 whole seconds. A text whose spans add up to more
//! is refused as a rule; the exception is a sum that has come to 2^64 - 1 whole
//! seconds when parts of a second fill up exactly one more, which cannot be carried
//! over. The reading here finds out whether a text comes to that point.

use vstd::prelude::*;
use vstd::string::*;

#[allow(unused_imports)]
use crate::text::{decimal_value, is_digit, is_number};
use crate::time::NANOS_PER_SEC;

verus! {

/// Where the reading of a text stands.
#[derive(Clone, Copy, Debug, PartialEq, Eq, Structural)]
pub enum Phase {
    /// A span is about to begin.
    Start,
    /// In the number of a span.
    Number,
    /// In the decimal places of a number.
    Fraction,
    /// In the unit of a span.
    Unit,
    /// The text is no list of spans, or their sum is out of range.
    Stopped,
    /// A second has to be carried over to 2^64 - 1 seconds.
    Carried,
}

/// What has been read of a text.
#[verifier::ext_equal]
pub struct Reading {
    /// Where the reading stands.
    pub phase: Phase,
    /// The sum of the spans so far, in nanoseconds.
    pub total: nat,
    /// The whole part of the current number.
    pub whole: nat,
    /// The decimal places of the current number, read as a number.
    pub numerator: nat,
    /// Ten to the number of decimal places.
    pub denominator: nat,
    /// The unit so far.
    pub unit: Seq<char>,
}

/// Whether a character can stand in a unit.
pub open spec fn is_unit_letter(c: char) -> bool {
    ||| 'a' <= c && c <= 'z'
    ||| 'A' <= c && c <= 'Z'
    ||| c == '\u{b5}'
}

/// Whether a character is white space.
pub open spec fn is_space(c: char) -> bool {
    ||| '\u{9}' <= c && c <= '\u{d}'
    ||| c == '\u{20}'
    ||| c == '\u{85}'
    ||| c == '\u{a0}'
    ||| c == '\u{1680}'
    ||| '\u{2000}' <= c && c <= '\u{200a}'
    ||| c == '\u{2028}'
    ||| c == '\u{2029}'
    ||| c == '\u{202f}'
    ||| c == '\u{205f}'
    ||| c == '\u{3000}'
}

/// The value of a decimal digit.
pub open spec fn digit_number(c: char) -> nat {
    (c as int - 48) as nat
}

/// The length of a unit in nanoseconds, where `word` is one.
pub open spec fn unit_nanos(word: Seq<char>) -> Option<nat> {
    if word == "nanos"@ || word == "nsec"@ || word == "ns"@ {
        Some(1)
    } else if word == "usec"@ || word == "us"@ || word == "\u{b5}s"@ {
        Some(1_000)
    } else if word == "millis"@ || word == "msec"@ || word == "ms"@ {
        Some(1_000_000)
    } else if word == "seconds"@ || word == "second"@ || word == "secs"@ || word == "sec"@ || word
        == "s"@ {
        Some(1_000_000_000)
    } else if word == "minutes"@ || word == "minute"@ || word == "min"@ || word == "mins"@ || word
        == "m"@ {
        Some(60_000_000_000)
    } else if word == "hours"@ || word == "hour"@ || word == "hr"@ || word == "hrs"@ || word
        == "h"@ {
        Some(3_600_000_000_000)
    } else if word == "days"@ || word == "day"@ || word == "d"@ {
        Some(86_400_000_000_000)
    } else if word == "weeks"@ || word == "week"@ || word == "wk"@ || word == "wks"@ || word
        == "w"@ {
        Some(604_800_000_000_000)
    } else if word == "months"@ || word == "month"@ || word == "M"@ {
        Some(2_630_016_000_000_000)
    } else if word == "years"@ || word == "year"@ || word == "yr"@ || word == "yrs"@ || word
        == "y"@ {
        Some(31_557_600_000_000_000)
    } else {
        None
    }
}

impl Reading {
    /// Before the first character.
    pub open spec fn initial() -> Reading {
        Reading {
            phase: Phase::Start,
            total: 0,
            whole: 0,
            numerator: 0,
            denominator: 1,
            unit: Seq::empty(),
        }
    }

    /// The reading has come to an end before that of the text.
    pub open spec fn stopped(self) -> Reading {
        Reading { phase: Phase::Stopped, ..self }
    }

    /// The sum with `amount` nanoseconds more. Parts of a second are summed up as 64
    /// bits of nanoseconds, and whole ones as 64 bits of seconds.
    pub open spec fn plus(self, amount: nat, parts: bool) -> Reading {
        let nanos = self.total % (NANOS_PER_SEC as nat) + amount;
        if parts && nanos > u64::MAX {
            self.stopped()
        } else if parts && nanos == NANOS_PER_SEC && self.total / (NANOS_PER_SEC as nat)
            == u64::MAX {
            Reading { phase: Phase::Carried, ..self }
        } else if (self.total + amount) / (NANOS_PER_SEC as nat) > u64::MAX {
            self.stopped()
        } else {
            Reading { total: self.total + amount, ..self }
        }
    }

    /// The sum with the decimal places of the current number, in a unit of `unit`
    /// nanoseconds. They have to come out as whole nanoseconds up to minutes, and as
    /// whole seconds from hours on; a nanosecond has no decimal places.
    pub open spec fn plus_fraction(self, unit: nat) -> Reading {
        let parts = unit <= 60_000_000_000;
        let scale = if parts {
            1
        } else {
            NANOS_PER_SEC as nat
        };
        let product = self.numerator * (unit / scale);
        if self.denominator == 1 {
            self
        } else if unit == 1 || product > u64::MAX || product % self.denominator != 0 {
            self.stopped()
        } else {
            self.plus(product / self.denominator * scale, parts)
        }
    }

    /// The sum with the current span, which has come to its end.
    pub open spec fn span_added(self) -> Reading {
        match unit_nanos(self.unit) {
            Some(unit) => {
                let r = self.plus(self.whole * unit, unit < NANOS_PER_SEC);
                if r.phase == self.phase {
                    r.plus_fraction(unit)
                } else {
                    r
                }
            },
            None => self.stopped(),
        }
    }

    /// A number begins with the digit `d`.
    pub open spec fn number_begun(self, d: nat) -> Reading {
        Reading {
            phase: Phase::Number,
            whole: d,
            numerator: 0,
            denominator: 1,
            unit: Seq::empty(),
            ..self
        }
    }

    /// The reading after a digit.
    pub open spec fn after_digit(self, d: nat) -> Reading {
        match self.phase {
            Phase::Start => self.number_begun(d),
            Phase::Number => if self.whole * 10 + d > u64::MAX {
                self.stopped()
            } else {
                Reading { whole: self.whole * 10 + d, ..self }
            },
            Phase::Fraction => if self.denominator * 10 > u64::MAX {
                self.stopped()
            } else {
                Reading {
                    numerator: self.numerator * 10 + d,
                    denominator: self.denominator * 10,
                    ..self
                }
            },
            Phase::Unit => {
                let r = self.span_added();
                if r.phase is Unit {
                    r.number_begun(d)
                } else {
                    r
                }
            },
            _ => self,
        }
    }

    /// The reading after a letter of a unit.
    pub open spec fn after_letter(self, c: char) -> Reading {
        let r = Reading { phase: Phase::Unit, unit: self.unit.push(c), ..self };
        match self.phase {
            Phase::Start => self.stopped(),
            Phase::Number => r,
            Phase::Fraction => if self.denominator == 1 {
                self.stopped()
            } else {
                r
            },
            Phase::Unit => r,
            _ => self,
        }
    }

    /// The reading after a decimal point.
    pub open spec fn after_point(self) -> Reading {
        match self.phase {
            Phase::Number => Reading { phase: Phase::Fraction, ..self },
            Phase::Carried => self,
            _ => self.stopped(),
        }
    }

    /// The reading after white space, which ends a unit and stands for nothing
    /// elsewhere.
    pub open spec fn after_space(self) -> Reading {
        if self.phase is Unit {
            let r = self.span_added();
            if r.phase is Unit {
                Reading { phase: Phase::Start, ..r }
            } else {
                r
            }
        } else {
            self
        }
    }

    /// The reading after the character `c`.
    pub open spec fn after(self, c: char) -> Reading {
        if is_digit(c) {
            self.after_digit(digit_number(c))
        } else if is_unit_letter(c) {
            self.after_letter(c)
        } else if c == '.' {
            self.after_point()
        } else if is_space(c) {
            self.after_space()
        } else if self.phase is Carried {
            self
        } else {
            self.stopped()
        }
    }
}

/// The reading of a text.
pub open spec fn reading(text: Seq<char>) -> Reading
    decreases text.len(),
{
    if text.len() == 0 {
        Reading::initial()
    } else {
        reading(text.drop_last()).after(text.last())
    }
}

/// Whether the sum of the spans in `text` never has to carry a second over to
/// 2^64 - 1 seconds. The end of the text ends the last span as white space does.
pub open spec fn spans_fit(text: Seq<char>) -> bool {
    !(reading(text).after_space().phase is Carried)
}

/// A reading as it is carried out.
struct Reader {
    phase: Phase,
    total: u128,
    whole: u64,
    numerator: u64,
    denominator: u64,
    unit: Vec<char>,
}

impl View for Reader {
    type V = Reading;

    closed spec fn view(&self) -> Reading {
        Reading {
            phase: self.phase,
            total: self.total as nat,
            whole: self.whole as nat,
            numerator: self.numerator as nat,
            denominator: self.denominator as nat,
            unit: self.unit@,
        }
    }
}

/// Whether `word` is spelled like `text`.
fn spells(word: &Vec<char>, text: &str) -> (r: bool)
    ensures
        r == (word@ == text@),
{
    let n: usize = text.unicode_len();
    if word.len() != n {
        return false;
    }
    for i in 0..n
        invariant
            n == text@.len(),
            word.len() == n,
            forall|j: int| 0 <= j < i ==> word@[j] == text@[j],
    {
        if word[i] != text.get_char(i) {
            assert(word@[i as int] != text@[i as int]);
            return false;
        }
    }
    assert(word@ =~= text@);
    true
}

/// The length of a unit in nanoseconds, where `word` is one.
fn find_unit(word: &Vec<char>) -> (r: Option<u64>)
    ensures
        match r {
            Some(n) => unit_nanos(word@) == Some(n as nat) && 1 <= n <= 31_557_600_000_000_000,
            None => unit_nanos(word@) is None,
        },
{
    if spells(word, "nanos") || spells(word, "nsec") || spells(word, "ns") {
        Some(1)
    } else if spells(word, "usec") || spells(word, "us") || spells(word, "\u{b5}s") {
        Some(1_000)
    } else if spells(word, "millis") || spells(word, "msec") || spells(word, "ms") {
        Some(1_000_000)
    } else if spells(word, "seconds") || spells(word, "second") || spells(word, "secs") || spells(
        word,
        "sec",
    ) || spells(word, "s") {
        Some(1_000_000_000)
    } else if spells(word, "minutes") || spells(word, "minute") || spells(word, "min") || spells(
        word,
        "mins",
    ) || spells(word, "m") {
        Some(60_000_000_000)
    } else if spells(word, "hours") || spells(word, "hour") || spells(word, "hr") || spells(
        word,
        "hrs",
    ) || spells(word, "h") {
        Some(3_600_000_000_000)
    } else if spells(word, "days") || spells(word, "day") || spells(word, "d") {
        Some(86_400_000_000_000)
    } else if spells(word, "weeks") || spells(word, "week") || spells(word, "wk") || spells(
        word,
        "wks",
    ) || spells(word, "w") {
        Some(604_800_000_000_000)
    } else if spells(word, "months") || spells(word, "month") || spells(word, "M") {
        Some(2_630_016_000_000_000)
    } else if spells(word, "years") || spells(word, "year") || spells(word, "yr") || spells(
        word,
        "yrs",
    ) || spells(word, "y") {
        Some(31_557_600_000_000_000)
    } else {
        None
    }
}

/// The product of two 64-bit numbers.
fn product(a: u64, b: u64) -> (r: u128)
    ensures
        r == a * b,
        r <= 340282366920938463426481119284349108225,
{
    proof {
        assert(a * b <= 18446744073709551615 * 18446744073709551615) by (nonlinear_arith)
            requires
                0 <= a <= 18446744073709551615,
                0 <= b <= 18446744073709551615,
        ;
    }
    a as u128 * b as u128
}

impl Reader {
    /// The sum is in the range of durations, and the decimal places in that of parts.
    spec fn in_range(&self) -> bool {
        &&& self.total / NANOS_PER_SEC <= u64::MAX
        &&& self.numerator < self.denominator
    }

    /// Before the first character.
    fn new() -> (r: Reader)
        ensures
            r.in_range(),
            r@ == Reading::initial(),
    {
        let r = Reader {
            phase: Phase::Start,
            total: 0,
            whole: 0,
            numerator: 0,
            denominator: 1,
            unit: Vec::new(),
        };
        assert(r@ =~= Reading::initial());
        r
    }

    /// Adds `amount` nanoseconds to the sum.
    fn add_amount(&mut self, amount: u128, parts: bool)
        requires
            old(self).in_range(),
            amount <= 600_000_000_000_000_000_000_000_000_000_000_000,
        ensures
            final(self).in_range(),
            final(self)@ == old(self)@.plus(amount as nat, parts),
    {
        let nanos: u128 = self.total % NANOS_PER_SEC + amount;
        if parts && nanos > u64::MAX as u128 {
            self.phase = Phase::Stopped;
        } else if parts && nanos == NANOS_PER_SEC && self.total / NANOS_PER_SEC == u64::MAX as u128 {
            self.phase = Phase::Carried;
        } else if (self.total + amount) / NANOS_PER_SEC > u64::MAX as u128 {
            self.phase = Phase::Stopped;
        } else {
            self.total = self.total + amount;
        }
    }

    /// Adds the decimal places of the current number to the sum.
    fn add_fraction(&mut self, unit: u64)
        requires
            old(self).in_range(),
            1 <= unit <= 31_557_600_000_000_000,
        ensures
            final(self).in_range(),
            final(self)@ == old(self)@.plus_fraction(unit as nat),
    {
        if self.denominator == 1 {
            return;
        }
        let parts = unit <= 60_000_000_000;
        let scale: u64 = if parts {
            1
        } else {
            1_000_000_000
        };
        let scaled: u128 = product(self.numerator, unit / scale);
        if unit == 1 || scaled > u64::MAX as u128 || scaled % self.denominator as u128 != 0 {
            self.phase = Phase::Stopped;
        } else {
            let quotient: u128 = scaled / self.denominator as u128;
            proof {
                assert(quotient <= scaled) by (nonlinear_arith)
                    requires
                        quotient == scaled / (self.denominator as u128),
                        self.denominator > 0,
                ;
                assert(quotient * scale <= 18446744073709551615 * 1_000_000_000)
                    by (nonlinear_arith)
                    requires
                        quotient <= 18446744073709551615,
                        scale <= 1_000_000_000,
                ;
            }
            self.add_amount(quotient * scale as u128, parts);
        }
    }

    /// Adds the current span, which has come to its end, to the sum.
    fn add_span(&mut self)
        requires
            old(self).in_range(),
            old(self)@.phase is Unit,
        ensures
            final(self).in_range(),
            final(self)@ == old(self)@.span_added(),
    {
        match find_unit(&self.unit) {
            Some(unit) => {
                proof {
                    assert(self.whole * unit <= 18446744073709551615 * 31_557_600_000_000_000)
                        by (nonlinear_arith)
                        requires
                            0 <= self.whole <= 18446744073709551615,
                            0 <= unit <= 31_557_600_000_000_000,
                    ;
                }
                let amount: u128 = product(self.whole, unit);
                self.add_amount(amount, unit < 1_000_000_000);
                if self.phase == Phase::Unit {
                    self.add_fraction(unit);
                }
            },
            None => {
                self.phase = Phase::Stopped;
            },
        }
    }

    /// Begins a number with the digit `d`.
    fn begin_number(&mut self, d: u64)
        requires
            old(self).in_range(),
        ensures
            final(self).in_range(),
            final(self)@ == old(self)@.number_begun(d as nat),
    {
        self.phase = Phase::Number;
        self.whole = d;
        self.numerator = 0;
        self.denominator = 1;
        self.unit = Vec::new();
        assert(self@ =~= old(self)@.number_begun(d as nat));
    }

    /// Reads a digit.
    fn read_digit(&mut self, d: u64)
        requires
            old(self).in_range(),
            d < 10,
        ensures
            final(self).in_range(),
            final(self)@ == old(self)@.after_digit(d as nat),
    {
        match self.phase {
            Phase::Start => {
                self.begin_number(d);
            },
            Phase::Number => {
                let whole: u128 = self.whole as u128 * 10 + d as u128;
                if whole > u64::MAX as u128 {
                    self.phase = Phase::Stopped;
                } else {
                    self.whole = whole as u64;
                }
            },
            Phase::Fraction => {
                if self.denominator as u128 * 10 > u64::MAX as u128 {
                    self.phase = Phase::Stopped;
                } else {
                    self.numerator = self.numerator * 10 + d;
                    self.denominator = self.denominator * 10;
                }
            },
            Phase::Unit => {
                self.add_span();
                if self.phase == Phase::Unit {
                    self.begin_number(d);
                }
            },
            _ => {},
        }
    }

    /// Reads a letter of a unit.
    fn read_letter(&mut self, c: char)
        requires
            old(self).in_range(),
        ensures
            final(self).in_range(),
            final(self)@ == old(self)@.after_letter(c),
    {
        match self.phase {
            Phase::Start => {
                self.phase = Phase::Stopped;
            },
            Phase::Number => {
                self.phase = Phase::Unit;
                self.unit.push(c);
            },
            Phase::Fraction => {
                if self.denominator == 1 {
                    self.phase = Phase::Stopped;
                } else {
                    self.phase = Phase::Unit;
                    self.unit.push(c);
                }
            },
            Phase::Unit => {
                self.unit.push(c);
            },
            _ => {},
        }
        assert(self@ =~= old(self)@.after_letter(c));
    }

    /// Reads a decimal point.
    fn read_point(&mut self)
        requires
            old(self).in_range(),
        ensures
            final(self).in_range(),
            final(self)@ == old(self)@.after_point(),
    {
        match self.phase {
            Phase::Number => {
                self.phase = Phase::Fraction;
            },
            Phase::Carried => {},
            _ => {
                self.phase = Phase::Stopped;
            },
        }
    }

    /// Reads white space, or the end of the text.
    fn read_space(&mut self)
        requires
            old(self).in_range(),
        ensures
            final(self).in_range(),
            final(self)@ == old(self)@.after_space(),
    {
        if self.phase == Phase::Unit {
            self.add_span();
            if self.phase == Phase::Unit {
                self.phase = Phase::Start;
            }
        }
    }

    /// Reads a character.
    fn read(&mut self, c: char)
        requires
            old(self).in_range(),
        ensures
            final(self).in_range(),
            final(self)@ == old(self)@.after(c),
    {
        if '0' <= c && c <= '9' {
            self.read_digit(c as u64 - 48);
        } else if ('a' <= c && c <= 'z') || ('A' <= c && c <= 'Z') || c == '\u{b5}' {
            self.read_letter(c);
        } else if c == '.' {
            self.read_point();
        } else if ('\u{9}' <= c && c <= '\u{d}') || c == '\u{20}' || c == '\u{85}' || c == '\u{a0}'
            || c == '\u{1680}' || ('\u{2000}' <= c && c <= '\u{200a}') || c == '\u{2028}' || c
            == '\u{2029}' || c == '\u{202f}' || c == '\u{205f}' || c == '\u{3000}' {
            self.read_space();
        } else if self.phase != Phase::Carried {
            self.phase = Phase::Stopped;
        }
    }
}

/// Whether the sum of the spans in `text` never has to carry a second over to
/// 2^64 - 1 seconds.
pub fn check_spans_fit(text: &str) -> (r: bool)
    ensures
        r == spans_fit(text@),
{
    let mut reader = Reader::new();
    assert(text@.take(0) =~= Seq::<char>::empty());
    for c in it: text.chars()
        invariant
            it.seq() == text@,
            reader.in_range(),
            reader@ == reading(text@.take(it.index())),
    {
        let ghost i = it.index();
        proof {
            assert(text@.take(i + 1).drop_last() =~= text@.take(i));
            assert(text@.take(i + 1).last() == c);
        }
        reader.read(c);
    }
    assert(text@.take(text@.len() as int) =~= text@);
    reader.read_space();
    reader.phase != Phase::Carried
}

/// Whether a text is a plain number of seconds: decimal digits and an `s`.
pub open spec fn writes_seconds(text: Seq<char>) -> bool {
    text.len() > 0 && text.last() == 's' && is_number(text.drop_last())
}

/// Digits are read as their number, up to 64 bits.
proof fn digits_are_read(digits: Seq<char>)
    requires
        is_number(digits),
    ensures
        reading(digits) == (if decimal_value(digits) <= u64::MAX {
            Reading::initial().number_begun(decimal_value(digits))
        } else {
            reading(digits)
        }),
        decimal_value(digits) > u64::MAX ==> reading(digits).phase is Stopped,
    decreases digits.len(),
{
    let init = digits.drop_last();
    assert(is_digit(digits[digits.len() - 1]));
    if init.len() == 0 {
        assert(decimal_value(init) == 0);
        assert(reading(init) == Reading::initial());
    } else {
        assert forall|i: int| 0 <= i < init.len() implies is_digit(#[trigger] init[i]) by {
            assert(init[i] == digits[i]);
        }
        digits_are_read(init);
    }
}

/// A plain number of seconds never has a second to carry over.
pub proof fn plain_seconds_fit(text: Seq<char>)
    requires
        writes_seconds(text),
    ensures
        spans_fit(text),
{
    let digits = text.drop_last();
    digits_are_read(digits);
    if decimal_value(digits) <= u64::MAX {
        let r = reading(text);
        reveal_strlit("nanos");
        reveal_strlit("nsec");
        reveal_strlit("ns");
        reveal_strlit("usec");
        reveal_strlit("us");
        reveal_strlit("\u{b5}s");
        reveal_strlit("millis");
        reveal_strlit("msec");
        reveal_strlit("ms");
        reveal_strlit("s");
        assert(r.unit =~= "s"@);
        assert(unit_nanos(r.unit) == Some(1_000_000_000nat));
    }
}

/// What has been summed up when the reading ends at a carry is 2^64 - 1 seconds and a
/// part of one: a text whose spans never come to 2^64 - 1 seconds fits.
pub proof fn carry_takes_the_largest_sum(text: Seq<char>)
    requires
        !spans_fit(text),
    ensures
        reading(text).after_space().total / (NANOS_PER_SEC as nat) == u64::MAX,
    decreases text.len(),
{
    if !(reading(text).phase is Carried) {
        span_carries_at_the_top(reading(text));
    } else {
        let init = text.drop_last();
        if reading(init).phase is Carried {
            carry_takes_the_largest_sum(init);
        } else {
            span_carries_at_the_top(reading(init));
        }
    }
}

/// Adding a span ends at a carry only where the sum has come to 2^64 - 1 seconds.
proof fn span_carries_at_the_top(r: Reading)
    requires
        r.phase is Unit,
        r.span_added().phase is Carried,
    ensures
        r.span_added().total / (NANOS_PER_SEC as nat) == u64::MAX,
{
}

} // verus!
