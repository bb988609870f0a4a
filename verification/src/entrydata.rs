//! The description of one column of a table.

use vstd::prelude::*;

use crate::entryvalue::{EntryValue, ValueView};
use crate::errors::Error;

verus! {

/// The types that a value can have.
#[non_exhaustive]
#[derive(Clone, Copy, Debug, PartialEq, Eq, Structural)]
pub enum EntryType {
    /// A text.
    String,
    /// An unsigned 64-bit integer.
    Unsigned64,
    /// A 64-bit floating-point number.
    Float64,
    /// A boolean.
    Boolean,
}

/// The type of a value.
pub open spec fn type_of(value: ValueView) -> EntryType {
    match value {
        ValueView::String(_) => EntryType::String,
        ValueView::Unsigned64(_) => EntryType::Unsigned64,
        ValueView::Float64(_) => EntryType::Float64,
        ValueView::Boolean(_) => EntryType::Boolean,
    }
}

/// The value that a column of the given type takes when no default was set:
/// the empty text, zero, or false.
pub open spec fn zero_of(entrytype: EntryType) -> ValueView {
    match entrytype {
        EntryType::String => ValueView::String(Seq::empty()),
        EntryType::Unsigned64 => ValueView::Unsigned64(0),
        EntryType::Float64 => ValueView::Float64(0),
        EntryType::Boolean => ValueView::Boolean(false),
    }
}

/// What an [`EntryData`] holds, as a mathematical value.
pub struct EntryDataView {
    pub entrytype: EntryType,
    pub default: Option<ValueView>,
}

impl EntryDataView {
    /// A default, where there is one, has the column's type.
    pub open spec fn wf(self) -> bool {
        self.default matches Some(d) ==> type_of(d) == self.entrytype
    }

    /// Whether a value may stand in this column.
    pub open spec fn accepts(self, value: ValueView) -> bool {
        type_of(value) == self.entrytype
    }

    /// The value of this column in a fresh record.
    pub open spec fn initial(self) -> ValueView {
        match self.default {
            Some(d) => d,
            None => zero_of(self.entrytype),
        }
    }
}

/// The description of one column: its type and, optionally, a default value
/// of that type.
#[derive(Debug, PartialEq)]
pub struct EntryData {
    entrytype: EntryType,
    default: Option<EntryValue>,
}

impl View for EntryData {
    type V = EntryDataView;

    closed spec fn view(&self) -> EntryDataView {
        EntryDataView {
            entrytype: self.entrytype,
            default: match self.default {
                Some(d) => Some(d@),
                None => None,
            },
        }
    }
}

impl Clone for EntryData {
    fn clone(&self) -> (r: Self)
        ensures
            r@ == self@,
    {
        proof {
            use_type_invariant(self);
        }
        EntryData {
            entrytype: self.entrytype,
            default: match &self.default {
                Some(d) => Some(d.clone()),
                None => None,
            },
        }
    }
}

impl EntryValue {
    /// The type of this value.
    pub fn entrytype(&self) -> (t: EntryType)
        ensures
            t == type_of(self@),
    {
        match self {
            EntryValue::String(_) => EntryType::String,
            EntryValue::Unsigned64(_) => EntryType::Unsigned64,
            EntryValue::Float64(_) => EntryType::Float64,
            EntryValue::Boolean(_) => EntryType::Boolean,
        }
    }
}

impl EntryData {
    /// Holds of every column description: a default, where there is one,
    /// has the column's type.
    #[verifier::type_invariant]
    pub open spec fn inv(self) -> bool {
        self@.wf()
    }

    /// A column of the given type without a default.
    pub fn new(entrytype: EntryType) -> (r: EntryData)
        ensures
            r@ == (EntryDataView { entrytype, default: None }),
    {
        EntryData { entrytype, default: None }
    }

    /// Sets the default of the column. A default of another type than the
    /// column's is refused.
    pub fn default(self, default: EntryValue) -> (r: Result<EntryData, Error>)
        ensures
            match r {
                Ok(d) => self@.accepts(default@) && d@ == (EntryDataView {
                    entrytype: self@.entrytype,
                    default: Some(default@),
                }),
                Err(e) => !self@.accepts(default@) && e == (Error::WrongType {
                    expected: self@.entrytype,
                    found: type_of(default@),
                }),
            },
    {
        match self.check(&default) {
            Ok(()) => Ok(EntryData { entrytype: self.entrytype, default: Some(default) }),
            Err(e) => Err(e),
        }
    }

    /// The type of the column.
    pub fn get_type(&self) -> (t: EntryType)
        ensures
            t == self@.entrytype,
    {
        self.entrytype
    }

    /// The value of this column in a fresh record: the default that was
    /// set, or else the empty text, zero, or false, by the column's type.
    pub fn get_default(&self) -> (v: EntryValue)
        ensures
            v@ == self@.initial(),
            self@.accepts(v@),
    {
        proof {
            use_type_invariant(self);
        }
        match &self.default {
            Some(default) => default.clone(),
            None => match self.entrytype {
                EntryType::String => EntryValue::String(String::new()),
                EntryType::Unsigned64 => EntryValue::Unsigned64(0),
                EntryType::Float64 => EntryValue::Float64(0),
                EntryType::Boolean => EntryValue::Boolean(false),
            },
        }
    }

    /// Tells whether a value may stand in this column: it may if it has the
    /// column's type.
    pub fn check(&self, value: &EntryValue) -> (r: Result<(), Error>)
        ensures
            r is Ok <==> self@.accepts(value@),
            r matches Err(e) ==> e == (Error::WrongType {
                expected: self@.entrytype,
                found: type_of(value@),
            }),
    {
        let found = value.entrytype();
        match (self.entrytype, value) {
            (EntryType::String, EntryValue::String(_)) => Ok(()),
            (EntryType::Unsigned64, EntryValue::Unsigned64(_)) => Ok(()),
            (EntryType::Boolean, EntryValue::Boolean(_)) => Ok(()),
            (EntryType::Float64, EntryValue::Float64(_)) => Ok(()),
            _ => Err(Error::WrongType { expected: self.entrytype, found }),
        }
    }
}

} // verus!
