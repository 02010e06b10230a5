//! Values as the store hands them back.

use crate::text::string_from_utf8;
use vstd::prelude::*;
use vstd::string::*;
use vstd::utf8::*;

verus! {

/// A value of the store's reply protocol.
#[derive(Debug, PartialEq, Eq)]
pub enum WireValue {
    /// The absent value.
    Nil,
    /// An integer.
    Int(i64),
    /// A byte string.
    Data(Vec<u8>),
    /// A list of values.
    Bulk(Vec<WireValue>),
    /// A status line.
    Status(String),
    /// The status `OK`.
    Okay,
}

/// A `WireValue` as a plain value.
pub enum Wire {
    Nil,
    Int(int),
    Data(Seq<u8>),
    Bulk(Seq<Wire>),
    Status(Seq<char>),
    Okay,
}

impl View for WireValue {
    type V = Wire;

    open spec fn view(&self) -> Wire
        decreases self,
    {
        match self {
            WireValue::Nil => Wire::Nil,
            WireValue::Int(i) => Wire::Int(*i as int),
            WireValue::Data(bytes) => Wire::Data(bytes@),
            WireValue::Bulk(items) => Wire::Bulk(
                Seq::new(
                    items@.len(),
                    |i: int|
                        if 0 <= i < items@.len() {
                            items@[i].view()
                        } else {
                            Wire::Nil
                        },
                ),
            ),
            WireValue::Status(text) => Wire::Status(text@),
            WireValue::Okay => Wire::Okay,
        }
    }
}

/// The views of a list of values.
pub open spec fn wire_views(items: Seq<WireValue>) -> Seq<Wire> {
    Seq::new(items.len(), |i: int| items[i]@)
}

/// The view of a list value is the list of the views of its items.
pub proof fn lemma_bulk_view(items: Vec<WireValue>)
    ensures
        WireValue::Bulk(items)@ == Wire::Bulk(wire_views(items@)),
{
    assert(WireValue::Bulk(items)@->Bulk_0 =~= wire_views(items@));
}

/// The text that a value stands for where a key is expected: a byte string
/// that is valid UTF-8, a status line, or the status `OK`.
pub open spec fn key_of(value: Wire) -> Option<Seq<char>> {
    match value {
        Wire::Data(bytes) => if valid_utf8(bytes) {
            Some(decode_utf8(bytes))
        } else {
            None
        },
        Wire::Status(text) => Some(text),
        Wire::Okay => Some("OK"@),
        _ => None,
    }
}

impl WireValue {
    /// A copy of the value.
    pub fn duplicate(&self) -> (copy: WireValue)
        ensures
            copy@ == self@,
        decreases self,
    {
        match self {
            WireValue::Nil => WireValue::Nil,
            WireValue::Int(i) => WireValue::Int(*i),
            WireValue::Data(bytes) => {
                let copy = bytes.clone();
                assert(copy@ =~= bytes@);
                WireValue::Data(copy)
            },
            WireValue::Bulk(items) => {
                let mut copies: Vec<WireValue> = Vec::new();
                let mut i: usize = 0;
                while i < items.len()
                    invariant
                        i <= items.len(),
                        *self == WireValue::Bulk(*items),
                        copies@.len() == i,
                        forall|k: int| 0 <= k < i ==> (#[trigger] copies@[k])@ == items@[k]@,
                    decreases items.len() - i,
                {
                    proof {
                        assert(self is Bulk);
                        assert(self->Bulk_0 == *items);
                        assert(decreases_to!(self => self->Bulk_0));
                        assert(decreases_to!(*items => items[i as int]));
                    }
                    let copy = items[i].duplicate();
                    copies.push(copy);
                    i = i + 1;
                }
                proof {
                    lemma_bulk_view(copies);
                    lemma_bulk_view(*items);
                    assert(wire_views(copies@) =~= wire_views(items@));
                }
                WireValue::Bulk(copies)
            },
            WireValue::Status(text) => WireValue::Status(text.clone()),
            WireValue::Okay => WireValue::Okay,
        }
    }

    /// The text that the value stands for where a key is expected.
    pub fn to_key(&self) -> (key: Option<String>)
        ensures
            crate::name::option_view(key) == key_of(self@),
    {
        match self {
            WireValue::Data(bytes) => string_from_utf8(bytes),
            WireValue::Status(text) => Some(text.clone()),
            WireValue::Okay => Some(String::from_str("OK")),
            _ => None,
        }
    }
}

} // verus!
