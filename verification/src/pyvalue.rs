//! What the library sees of a Python value: its kind, as CPython's type
//! checks tell it, and the plain data that the conversions read.
//! Floating-point numbers travel as their IEEE-754 bits and are never
//! computed on here.
use vstd::prelude::*;

verus! {

/// A calendar date as Python gives it.
#[derive(Debug, Clone, Copy, PartialEq, Eq, Structural)]
pub struct DateParts {
    pub year: u16,
    pub month: u8,
    pub day: u8,
}

/// A time of day as Python gives it.
#[derive(Debug, Clone, Copy, PartialEq, Eq, Structural)]
pub struct TimeParts {
    pub hour: u8,
    pub minute: u8,
    pub second: u8,
}

/// A date and a time of day as Python gives them.
#[derive(Debug, Clone, Copy, PartialEq, Eq, Structural)]
pub struct DateTimeParts {
    pub date: DateParts,
    pub time: TimeParts,
}

/// One element of a sequence that is written as joined text.
#[derive(Debug, Clone)]
pub enum SeqItem {
    /// `None`: nothing is written for it.
    Missing,
    /// An `int`; `None` when it does not fit in an `i64`.
    Int(Option<i64>),
    /// A `bool`.
    Bool(bool),
    /// Any other element, already rendered as text.
    Text(String),
}

/// A Python value. `exact` tells whether the value's type is exactly the
/// builtin type rather than a subclass; `text` is `str(value)`, given where
/// a conversion may fall back on it.
#[derive(Debug, Clone)]
pub enum PyValue {
    /// `None`.
    NoneValue,
    Bool(bool),
    Float { bits: u64, exact: bool, text: String },
    /// An `int` that is not a `bool`. `value` is `None` when it does not fit
    /// in an `i64`; `float_bits` is `float(value)` unless that overflows.
    Int { value: Option<i64>, exact: bool, float_bits: Option<u64>, text: String },
    Str { text: String, exact: bool },
    DateTime { parts: DateTimeParts, exact: bool },
    /// A `datetime.date` that is not a `datetime.datetime`.
    Date { parts: DateParts, exact: bool },
    Time { parts: TimeParts, exact: bool },
    /// A `decimal.Decimal`, with the bits of `float(value)`.
    Decimal { bits: u64 },
    /// Any other object that supports the sequence protocol.
    Sequence { items: Vec<SeqItem>, class_name: String },
    /// Anything else. `index` is `operator.index(value)` and `float_bits`
    /// is `float(value)` where those succeed.
    Other { text: String, class_name: String, index: Option<i64>, float_bits: Option<u64> },
}

/// A key or a value of a format's property dictionary.
#[derive(Debug, Clone)]
pub enum PropValue {
    Str(String),
    Bool(bool),
    /// `None`.
    NoneValue,
    /// Anything else, by its class name.
    Other(String),
}

/// The mathematical view of a `PropValue`.
pub enum PropVal {
    Str(Seq<char>),
    Bool(bool),
    NoneValue,
    Other(Seq<char>),
}

impl View for PropValue {
    type V = PropVal;

    open spec fn view(&self) -> PropVal {
        match self {
            PropValue::Str(s) => PropVal::Str(s@),
            PropValue::Bool(b) => PropVal::Bool(*b),
            PropValue::NoneValue => PropVal::NoneValue,
            PropValue::Other(c) => PropVal::Other(c@),
        }
    }
}

/// The mathematical view of a `SeqItem`.
pub enum SeqItemV {
    Missing,
    Int(Option<i64>),
    Bool(bool),
    Text(Seq<char>),
}

/// The mathematical view of a `PyValue`.
pub enum PyVal {
    /// `None`.
    NoneValue,
    Bool(bool),
    Float { bits: u64, exact: bool, text: Seq<char> },
    Int { value: Option<i64>, exact: bool, float_bits: Option<u64>, text: Seq<char> },
    Str { text: Seq<char>, exact: bool },
    DateTime { parts: DateTimeParts, exact: bool },
    Date { parts: DateParts, exact: bool },
    Time { parts: TimeParts, exact: bool },
    Decimal { bits: u64 },
    Sequence { items: Seq<SeqItemV>, class_name: Seq<char> },
    Other { text: Seq<char>, class_name: Seq<char>, index: Option<i64>, float_bits: Option<u64> },
}

impl View for SeqItem {
    type V = SeqItemV;

    open spec fn view(&self) -> SeqItemV {
        match self {
            SeqItem::Missing => SeqItemV::Missing,
            SeqItem::Int(v) => SeqItemV::Int(*v),
            SeqItem::Bool(b) => SeqItemV::Bool(*b),
            SeqItem::Text(t) => SeqItemV::Text(t@),
        }
    }
}

/// The views of a list of sequence items.
pub open spec fn items_view(items: Seq<SeqItem>) -> Seq<SeqItemV> {
    items.map_values(|i: SeqItem| i@)
}

impl View for PyValue {
    type V = PyVal;

    open spec fn view(&self) -> PyVal {
        match self {
            PyValue::NoneValue => PyVal::NoneValue,
            PyValue::Bool(b) => PyVal::Bool(*b),
            PyValue::Float { bits, exact, text } => PyVal::Float { bits: *bits, exact: *exact, text: text@ },
            PyValue::Int { value, exact, float_bits, text } => PyVal::Int {
                value: *value,
                exact: *exact,
                float_bits: *float_bits,
                text: text@,
            },
            PyValue::Str { text, exact } => PyVal::Str { text: text@, exact: *exact },
            PyValue::DateTime { parts, exact } => PyVal::DateTime { parts: *parts, exact: *exact },
            PyValue::Date { parts, exact } => PyVal::Date { parts: *parts, exact: *exact },
            PyValue::Time { parts, exact } => PyVal::Time { parts: *parts, exact: *exact },
            PyValue::Decimal { bits } => PyVal::Decimal { bits: *bits },
            PyValue::Sequence { items, class_name } => PyVal::Sequence {
                items: items_view(items@),
                class_name: class_name@,
            },
            PyValue::Other { text, class_name, index, float_bits } => PyVal::Other {
                text: text@,
                class_name: class_name@,
                index: *index,
                float_bits: *float_bits,
            },
        }
    }
}

} // verus!
