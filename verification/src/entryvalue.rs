//! One value of a record.

use vstd::prelude::*;

verus! {

/// One value of a record: a text, an unsigned integer, a boolean, or a
/// 64-bit floating-point number held as its IEEE 754 bit pattern.
#[non_exhaustive]
#[derive(Debug, PartialEq)]
pub enum EntryValue {
    String(String),
    Unsigned64(u64),
    Boolean(bool),
    /// The bit pattern of the number.
    Float64(u64),
}

/// What an [`EntryValue`] holds, as a mathematical value.
pub enum ValueView {
    String(Seq<char>),
    Unsigned64(u64),
    Boolean(bool),
    Float64(u64),
}

impl View for EntryValue {
    type V = ValueView;

    open spec fn view(&self) -> ValueView {
        match self {
            EntryValue::String(s) => ValueView::String(s@),
            EntryValue::Unsigned64(n) => ValueView::Unsigned64(*n),
            EntryValue::Boolean(b) => ValueView::Boolean(*b),
            EntryValue::Float64(bits) => ValueView::Float64(*bits),
        }
    }
}

impl Clone for EntryValue {
    fn clone(&self) -> (r: Self)
        ensures
            r@ == self@,
    {
        match self {
            EntryValue::String(s) => EntryValue::String(s.clone()),
            EntryValue::Unsigned64(n) => EntryValue::Unsigned64(*n),
            EntryValue::Boolean(b) => EntryValue::Boolean(*b),
            EntryValue::Float64(bits) => EntryValue::Float64(*bits),
        }
    }
}

impl EntryValue {
    /// The text, if this value is one.
    pub fn get_string(&self) -> (r: Option<&String>)
        ensures
            match self@ {
                ValueView::String(s) => r matches Some(t) && t@ == s,
                _ => r is None,
            },
    {
        match self {
            EntryValue::String(s) => Some(s),
            _ => None,
        }
    }

    /// The unsigned integer, if this value is one.
    pub fn get_u64(&self) -> (r: Option<u64>)
        ensures
            r == match self@ {
                ValueView::Unsigned64(n) => Some(n),
                _ => None,
            },
    {
        match self {
            EntryValue::Unsigned64(n) => Some(*n),
            _ => None,
        }
    }

    /// The boolean, if this value is one.
    pub fn get_bool(&self) -> (r: Option<bool>)
        ensures
            r == match self@ {
                ValueView::Boolean(b) => Some(b),
                _ => None,
            },
    {
        match self {
            EntryValue::Boolean(b) => Some(*b),
            _ => None,
        }
    }

    /// The bit pattern of the floating-point number, if this value is one.
    pub fn get_f64(&self) -> (r: Option<u64>)
        ensures
            r == match self@ {
                ValueView::Float64(bits) => Some(bits),
                _ => None,
            },
    {
        match self {
            EntryValue::Float64(bits) => Some(*bits),
            _ => None,
        }
    }
}

} // verus!
