//! Accumulators for the annotations of one container, field or variant.

use crate::diag::{Ctx, DiagnosticView, ErrorKind, Location};
use crate::meta::AttrPath;
use crate::symbol::Symbol;
use vstd::prelude::*;
use vstd::string::*;

verus! {

/// The message for an attribute that is set a second time.
pub open spec fn duplicate_message(name: Seq<char>) -> Seq<char> {
    "duplicate redis attribute `"@ + name + "`"@
}

/// The error for an attribute `name` that is set a second time at `location`.
pub open spec fn duplicate_error(name: Seq<char>, location: Location) -> DiagnosticView {
    DiagnosticView {
        kind: ErrorKind::DuplicateAttribute,
        message: duplicate_message(name),
        location,
    }
}

fn report_duplicate(ctx: &mut Ctx, name: Symbol, location: Location)
    ensures
        final(ctx)@ == old(ctx)@.push(duplicate_error(name.text(), location)),
{
    let mut message = String::from_str("duplicate redis attribute `");
    message.append(name.as_str());
    message.append("`");
    ctx.error_spanned_by(location, ErrorKind::DuplicateAttribute, message);
}

/// An attribute that holds at most one value. The first value stays; a second
/// `set` is an error at the place of the second.
pub struct Attr<T> {
    /// The keyword that this accumulator stands for.
    pub name: Symbol,
    /// Where the value was written, if `set` placed it.
    pub location: Option<Location>,
    pub value: Option<T>,
}

impl<T> Attr<T> {
    /// An accumulator without a value.
    pub fn new(name: Symbol) -> (attr: Self)
        ensures
            attr.name == name,
            attr.location is None,
            attr.value is None,
    {
        Attr { name, location: None, value: None }
    }

    /// Places `value`, found at `location`. Where a value is there already it
    /// stays, and the second occurrence is reported as `DuplicateAttribute`.
    pub fn set(&mut self, ctx: &mut Ctx, location: Location, value: T)
        ensures
            final(self).name == old(self).name,
            old(self).value is Some ==> *final(self) == *old(self) && final(ctx)@ == old(ctx)@.push(duplicate_error(old(self).name.text(), location)),
            old(self).value is None ==> final(self).value == Some(value) && final(self).location
                == Some(location) && final(ctx)@ == old(ctx)@,
    {
        if self.value.is_some() {
            report_duplicate(ctx, self.name, location);
        } else {
            self.location = Some(location);
            self.value = Some(value);
        }
    }

    /// As `set`, where there is a value to place.
    pub fn set_opt(&mut self, ctx: &mut Ctx, location: Location, value: Option<T>)
        ensures
            final(self).name == old(self).name,
            value is None ==> *final(self) == *old(self) && final(ctx)@ == old(ctx)@,
            value is Some && old(self).value is Some ==> *final(self) == *old(self) && final(ctx)@ == old(ctx)@.push(duplicate_error(old(self).name.text(), location)),
            value is Some && old(self).value is None ==> final(self).value == value && final(self).location == Some(location) && final(ctx)@ == old(ctx)@,
    {
        if let Some(value) = value {
            self.set(ctx, location, value);
        }
    }

    /// Places `value` unless a value is there already; never an error.
    pub fn set_if_none(&mut self, value: T)
        ensures
            final(self).name == old(self).name,
            final(self).location == old(self).location,
            final(self).value == if old(self).value is Some {
                old(self).value
            } else {
                Some(value)
            },
    {
        if self.value.is_none() {
            self.value = Some(value);
        }
    }

    /// Ends the accumulation and hands out the value.
    pub fn get(self) -> (value: Option<T>)
        ensures
            value == self.value,
    {
        self.value
    }

    /// Tells whether `path` is this accumulator's keyword.
    pub fn eq(&self, path: &AttrPath) -> (same: bool)
        ensures
            same == path.is(self.name.text()),
    {
        path.eq(&self.name)
    }

    /// Ends the accumulation and hands out the value with the place where it
    /// was written.
    pub fn get_with_tokens(self) -> (found: Option<(Option<Location>, T)>)
        ensures
            found == match self.value {
                Some(v) => Some((self.location, v)),
                None => None,
            },
    {
        match self.value {
            Some(v) => Some((self.location, v)),
            None => None,
        }
    }
}

/// A flag that is set by the mere presence of a keyword.
pub struct BoolAttr(pub Attr<()>);

impl BoolAttr {
    /// A flag that is not set.
    pub fn new(name: Symbol) -> (attr: Self)
        ensures
            attr.0.name == name,
            !attr.is_set(),
    {
        BoolAttr(Attr::new(name))
    }

    /// Whether the flag is set.
    pub open spec fn is_set(&self) -> bool {
        self.0.value is Some
    }

    /// Sets the flag. Setting it again changes nothing and is no error.
    pub fn set_true(&mut self, location: Location)
        ensures
            final(self).is_set(),
            final(self).0.name == old(self).0.name,
            old(self).is_set() ==> *final(self) == *old(self),
    {
        if self.0.value.is_none() {
            self.0.location = Some(location);
            self.0.value = Some(());
        }
    }

    /// Whether the flag is set.
    pub fn get(&self) -> (set: bool)
        ensures
            set == self.is_set(),
    {
        self.0.value.is_some()
    }

    /// Tells whether `path` is this flag's keyword.
    pub fn eq(&self, path: &AttrPath) -> (same: bool)
        ensures
            same == path.is(self.0.name.text()),
    {
        self.0.eq(path)
    }
}

/// An attribute that collects every value it is given, in order. It remembers
/// where the second value stood, for callers that accept one value only.
pub struct VecAttr<T> {
    name: Symbol,
    first_dup_location: Option<Location>,
    values: Vec<T>,
}

impl<T> VecAttr<T> {
    #[verifier::type_invariant]
    spec fn well_formed(self) -> bool {
        self.values@.len() > 1 ==> self.first_dup_location is Some
    }

    /// The keyword that this accumulator stands for.
    pub closed spec fn name(&self) -> Symbol {
        self.name
    }

    /// The values collected so far, in the order of their insertion.
    pub closed spec fn values(&self) -> Seq<T> {
        self.values@
    }

    /// Where the second value stood, once there is one.
    pub closed spec fn first_dup_location(&self) -> Option<Location> {
        self.first_dup_location
    }

    /// An accumulator without values.
    pub fn new(name: Symbol) -> (attr: Self)
        ensures
            attr.name() == name,
            attr.values() == Seq::<T>::empty(),
            attr.first_dup_location() is None,
    {
        VecAttr { name, first_dup_location: None, values: Vec::new() }
    }

    /// Adds `value`, found at `location`; never an error.
    pub fn insert(&mut self, location: Location, value: T)
        ensures
            final(self).name() == old(self).name(),
            final(self).values() == old(self).values().push(value),
            final(self).first_dup_location() == if old(self).values().len() == 1 {
                Some(location)
            } else {
                old(self).first_dup_location()
            },
    {
        proof {
            use_type_invariant(&*self);
        }
        let mut values: Vec<T> = Vec::new();
        core::mem::swap(&mut values, &mut self.values);
        if values.len() == 1 {
            self.first_dup_location = Some(location);
        }
        values.push(value);
        self.values = values;
    }

    /// Ends the accumulation for a caller that accepts one value at most: the
    /// value if there is one, and `DuplicateAttribute` at the place of the
    /// second value if there are several.
    pub fn at_most_one(self, ctx: &mut Ctx) -> (found: Result<Option<T>, ()>)
        ensures
            self.values().len() == 0 ==> found == Ok::<Option<T>, ()>(None) && final(ctx)@ == old(ctx)@,
            self.values().len() == 1 ==> found == Ok::<Option<T>, ()>(Some(self.values()[0]))
                && final(ctx)@ == old(ctx)@,
            self.values().len() > 1 ==> found is Err && self.first_dup_location() is Some
                && final(ctx)@ == old(ctx)@.push(
                duplicate_error(self.name().text(), self.first_dup_location()->0),
            ),
    {
        proof {
            use_type_invariant(&self);
        }
        let mut values = self.values;
        if values.len() > 1 {
            match self.first_dup_location {
                Some(location) => report_duplicate(ctx, self.name, location),
                None => {},
            }
            Err(())
        } else {
            Ok(values.pop())
        }
    }

    /// Ends the accumulation and hands out every value, in order.
    pub fn get(self) -> (values: Vec<T>)
        ensures
            values@ == self.values(),
    {
        self.values
    }
}

} // verus!
