//! The shape in which the host's answers reach the library: numbers,
//! text, lists and key-value tables, nested as the host nests them.

use vstd::prelude::*;

verus! {

/// A value as the host reports it.
///
/// Only what the panel reads is told apart. Everything else the wire
/// format can carry (nil, negative numbers, floats, binary data, text
/// that is not UTF-8) is `Other`.
#[derive(Debug, PartialEq)]
pub enum RawValue {
    /// True or false.
    Boolean(bool),
    /// A non-negative integer.
    Number(u64),
    /// Text.
    Text(String),
    /// An ordered sequence of values.
    List(Vec<RawValue>),
    /// Key-value pairs, in the order in which the host sent them.
    Table(Vec<(RawValue, RawValue)>),
    /// Anything else.
    Other,
}

/// What a value says when it is read as a flag: a number says yes
/// unless it is zero, a boolean says what it is, and nothing else is a
/// flag.
pub open spec fn truth(value: RawValue) -> Option<bool> {
    match value {
        RawValue::Boolean(flag) => Some(flag),
        RawValue::Number(number) => Some(number != 0),
        _ => None,
    }
}

impl RawValue {
    /// The value read as a flag, if it is one.
    pub fn as_flag(&self) -> (flag: Option<bool>)
        ensures
            flag == truth(*self),
    {
        match self {
            RawValue::Boolean(flag) => Some(*flag),
            RawValue::Number(number) => Some(*number != 0),
            _ => None,
        }
    }

    /// The number, if this is one.
    pub fn as_number(&self) -> (number: Option<u64>)
        ensures
            number == match *self {
                RawValue::Number(n) => Some(n),
                _ => None,
            },
    {
        match self {
            RawValue::Number(n) => Some(*n),
            _ => None,
        }
    }

    /// The text, if this is text.
    pub fn as_text(&self) -> (text: Option<&String>)
        ensures
            text == match *self {
                RawValue::Text(t) => Some(&t),
                _ => None,
            },
    {
        match self {
            RawValue::Text(t) => Some(t),
            _ => None,
        }
    }

    /// The items, if this is a list.
    pub fn as_list(&self) -> (items: Option<&Vec<RawValue>>)
        ensures
            items == match *self {
                RawValue::List(v) => Some(&v),
                _ => None,
            },
    {
        match self {
            RawValue::List(v) => Some(v),
            _ => None,
        }
    }

    /// The pairs, if this is a table.
    pub fn as_table(&self) -> (pairs: Option<&Vec<(RawValue, RawValue)>>)
        ensures
            pairs == match *self {
                RawValue::Table(v) => Some(&v),
                _ => None,
            },
    {
        match self {
            RawValue::Table(v) => Some(v),
            _ => None,
        }
    }
}

} // verus!
