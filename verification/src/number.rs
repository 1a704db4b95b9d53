//! Numbers of the language: IEEE-754 double precision, held by bit pattern.
//!
//! What can be read off the bits is done here: the sign, the order and
//! equality of two numbers, whether a number is zero or no number at all.
//! Arithmetic that rounds, and the conversion between numbers and decimal
//! text, is the host's: see `Numerics`.

use vstd::prelude::*;

verus! {

/// The sign bit of a double.
pub const SIGN: u64 = 0x8000_0000_0000_0000;

/// All bits of a double but the sign.
pub const MAGNITUDE: u64 = 0x7fff_ffff_ffff_ffff;

/// The magnitude of infinity: all exponent bits set, no fraction bit.
pub const INFINITY: u64 = 0x7ff0_0000_0000_0000;

/// A double-precision number, by its bits.
#[derive(Clone, Copy, Debug)]
pub struct Number {
    pub bits: u64,
}

/// How one value stands to another in order.
#[derive(Clone, Copy, Debug, PartialEq, Eq, Structural)]
pub enum Comparison {
    Less,
    Equal,
    Greater,
}

impl Number {
    /// The bits without the sign.
    pub open spec fn magnitude(self) -> u64 {
        self.bits & MAGNITUDE
    }

    /// Whether the sign bit is set.
    pub open spec fn negative(self) -> bool {
        self.bits & SIGN != 0
    }

    /// Whether the bits stand for no number: all exponent bits set and some
    /// fraction bit.
    pub open spec fn is_nan(self) -> bool {
        self.magnitude() > INFINITY
    }

    /// Whether the number is zero, of either sign.
    pub open spec fn is_zero(self) -> bool {
        self.magnitude() == 0
    }

    /// An integer that orders the numbers as their values are ordered: the
    /// magnitude, taken negative where the sign bit is set. Both zeros have
    /// the key 0.
    pub open spec fn key(self) -> int {
        if self.negative() {
            -(self.magnitude() as int)
        } else {
            self.magnitude() as int
        }
    }

    /// Equality of two numbers: neither is NaN and their values are the same.
    pub open spec fn same(self, other: Number) -> bool {
        !self.is_nan() && !other.is_nan() && self.key() == other.key()
    }

    /// The order of two numbers; none where one of them is NaN.
    pub open spec fn order(self, other: Number) -> Option<Comparison> {
        if self.is_nan() || other.is_nan() {
            None
        } else if self.key() < other.key() {
            Some(Comparison::Less)
        } else if self.key() == other.key() {
            Some(Comparison::Equal)
        } else {
            Some(Comparison::Greater)
        }
    }

    /// The number with the opposite sign.
    pub open spec fn negated(self) -> Number {
        Number { bits: self.bits ^ SIGN }
    }

    /// The number with these bits.
    pub fn from_bits(bits: u64) -> (r: Number)
        ensures
            r.bits == bits,
    {
        Number { bits }
    }

    /// Tests whether the bits stand for no number.
    pub fn nan(self) -> (r: bool)
        ensures
            r == self.is_nan(),
    {
        (self.bits & MAGNITUDE) > INFINITY
    }

    /// Tests whether the number is zero, of either sign.
    pub fn zero(self) -> (r: bool)
        ensures
            r == self.is_zero(),
    {
        (self.bits & MAGNITUDE) == 0
    }

    /// Tests two numbers for equality.
    pub fn equals(self, other: Number) -> (r: bool)
        ensures
            r == self.same(other),
    {
        if self.nan() || other.nan() {
            return false;
        }
        let a = self.bits & MAGNITUDE;
        let b = other.bits & MAGNITUDE;
        a == b && (a == 0 || (self.bits & SIGN != 0) == (other.bits & SIGN != 0))
    }

    /// Compares two numbers.
    pub fn compare(self, other: Number) -> (r: Option<Comparison>)
        ensures
            r == self.order(other),
    {
        if self.nan() || other.nan() {
            return None;
        }
        let a = self.bits & MAGNITUDE;
        let b = other.bits & MAGNITUDE;
        let a_negative = self.bits & SIGN != 0;
        let b_negative = other.bits & SIGN != 0;
        if a_negative && b_negative {
            Some(compare_magnitudes(b, a))
        } else if a_negative {
            if a == 0 && b == 0 {
                Some(Comparison::Equal)
            } else {
                Some(Comparison::Less)
            }
        } else if b_negative {
            if a == 0 && b == 0 {
                Some(Comparison::Equal)
            } else {
                Some(Comparison::Greater)
            }
        } else {
            Some(compare_magnitudes(a, b))
        }
    }

    /// The number with the opposite sign.
    pub fn negate(self) -> (r: Number)
        ensures
            r == self.negated(),
    {
        Number { bits: self.bits ^ SIGN }
    }
}

fn compare_magnitudes(a: u64, b: u64) -> (r: Comparison)
    ensures
        r == if a < b {
            Comparison::Less
        } else if a == b {
            Comparison::Equal
        } else {
            Comparison::Greater
        },
{
    if a < b {
        Comparison::Less
    } else if a == b {
        Comparison::Equal
    } else {
        Comparison::Greater
    }
}

/// The part of the number system that the host provides: arithmetic that
/// rounds, and the conversion between numbers and decimal text. The
/// interpreter is verified for every host; it claims nothing of what a host
/// answers.
pub trait Numerics {
    /// The number that a number literal of the language denotes. `text` is
    /// the literal as the source holds it: digits, and maybe a point and
    /// more digits after them.
    fn number(&self, text: &str) -> Number;

    /// The sum of two numbers.
    fn add(&self, a: Number, b: Number) -> Number;

    /// The difference of two numbers.
    fn subtract(&self, a: Number, b: Number) -> Number;

    /// The product of two numbers.
    fn multiply(&self, a: Number, b: Number) -> Number;

    /// The quotient of two numbers.
    fn divide(&self, a: Number, b: Number) -> Number;

    /// The text that shows a number.
    fn show(&self, a: Number) -> String;
}

/// What the host is asked.
#[derive(Debug)]
pub enum Question {
    /// What number does this number literal denote?
    Number(String),
    /// What is the sum of the two numbers?
    Add(Number, Number),
    /// What is the first number less the second?
    Subtract(Number, Number),
    /// What is the product of the two numbers?
    Multiply(Number, Number),
    /// What is the first number divided by the second?
    Divide(Number, Number),
    /// How is this number shown?
    Show(Number),
}

/// A question to the host as a mathematical value.
pub enum QuestionView {
    Number(Seq<char>),
    Add(Number, Number),
    Subtract(Number, Number),
    Multiply(Number, Number),
    Divide(Number, Number),
    Show(Number),
}

impl View for Question {
    type V = QuestionView;

    open spec fn view(&self) -> QuestionView {
        match self {
            Question::Number(text) => QuestionView::Number(text@),
            Question::Add(a, b) => QuestionView::Add(*a, *b),
            Question::Subtract(a, b) => QuestionView::Subtract(*a, *b),
            Question::Multiply(a, b) => QuestionView::Multiply(*a, *b),
            Question::Divide(a, b) => QuestionView::Divide(*a, *b),
            Question::Show(n) => QuestionView::Show(*n),
        }
    }
}

/// What the host answers: a number, or the text that shows one.
#[derive(Debug)]
pub enum Reply {
    Number(Number),
    Text(String),
}

/// An answer of the host as a mathematical value.
pub enum Answer {
    Number(Number),
    Text(Seq<char>),
}

impl View for Reply {
    type V = Answer;

    open spec fn view(&self) -> Answer {
        match self {
            Reply::Number(n) => Answer::Number(*n),
            Reply::Text(text) => Answer::Text(text@),
        }
    }
}

/// Asks the host. This is the one place at which the host is called: for
/// each kind of question, the function of the host that answers it.
pub fn ask<H: Numerics>(question: &Question, host: &H) -> (r: Reply)
    ensures
        r is Text <==> question@ is Show,
{
    match question {
        Question::Number(text) => Reply::Number(host.number(text.as_str())),
        Question::Add(a, b) => Reply::Number(host.add(*a, *b)),
        Question::Subtract(a, b) => Reply::Number(host.subtract(*a, *b)),
        Question::Multiply(a, b) => Reply::Number(host.multiply(*a, *b)),
        Question::Divide(a, b) => Reply::Number(host.divide(*a, *b)),
        Question::Show(n) => Reply::Text(host.show(*n)),
    }
}

} // verus!
