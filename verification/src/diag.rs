//! Diagnostics collected over one parse pass.

use vstd::prelude::*;

verus! {

/// A place in the annotated source, as the caller numbers its tokens.
#[derive(Clone, Copy, Debug, PartialEq, Eq, Structural)]
pub struct Location {
    pub index: usize,
}

/// What went wrong.
#[derive(Clone, Copy, Debug, PartialEq, Eq, Structural)]
pub enum ErrorKind {
    /// An annotation keyword outside the fixed set.
    UnknownAttribute,
    /// A single-valued attribute set more than once.
    DuplicateAttribute,
    /// A presence-only attribute given a value, or a valued one given none.
    UnexpectedAttributeValue,
    /// A value that is not a string literal where one is required.
    InvalidLiteralType,
    /// `default` on something other than a struct with named fields.
    UnsupportedDefaultPlacement,
    /// No field is annotated or named to serve as primary key.
    MissingPrimaryKey,
    /// Several fields of one struct or variant are annotated as primary key.
    MultiplePrimaryKeys,
    /// A `model_type` outside the supported set.
    UnrecognizedModelType,
    /// An enum variant carries data where only unit variants are supported.
    EnumFieldsUnsupported,
    /// An annotation that is not of the form `#[redis(...)]`, or a group with
    /// entries other than `serialize = ...` and `deserialize = ...`.
    MalformedAttribute,
    /// A `rename_all` value that names no casing rule.
    UnknownRenameRule,
    /// A `default = "..."` value that is no path.
    InvalidPath,
    /// A struct without named fields where a record is required, or a union.
    UnsupportedShape,
}

/// One collected error.
#[derive(Clone, Debug)]
pub struct Diagnostic {
    pub kind: ErrorKind,
    pub message: String,
    pub location: Location,
}

/// A diagnostic as a plain value.
pub struct DiagnosticView {
    pub kind: ErrorKind,
    pub message: Seq<char>,
    pub location: Location,
}

impl View for Diagnostic {
    type V = DiagnosticView;

    open spec fn view(&self) -> DiagnosticView {
        DiagnosticView { kind: self.kind, message: self.message@, location: self.location }
    }
}

/// The diagnostics of `v`, as plain values.
pub open spec fn diagnostic_views(v: Seq<Diagnostic>) -> Seq<DiagnosticView> {
    Seq::new(v.len(), |i: int| v[i]@)
}

/// The errors of one parse pass, in the order in which they were found.
pub struct Ctx {
    errors: Vec<Diagnostic>,
}

impl View for Ctx {
    type V = Seq<DiagnosticView>;

    closed spec fn view(&self) -> Seq<DiagnosticView> {
        diagnostic_views(self.errors@)
    }
}

impl Ctx {
    /// A context without errors.
    pub fn new() -> (ctx: Ctx)
        ensures
            ctx@ == Seq::<DiagnosticView>::empty(),
    {
        let ctx = Ctx { errors: Vec::new() };
        assert(ctx@ =~= Seq::<DiagnosticView>::empty());
        ctx
    }

    /// Records one error at `location`; parsing goes on.
    pub fn error_spanned_by(&mut self, location: Location, kind: ErrorKind, message: String)
        ensures
            final(self)@ == old(self)@.push(
                DiagnosticView { kind, message: message@, location },
            ),
    {
        let ghost before = self@;
        let ghost added = DiagnosticView { kind, message: message@, location };
        self.errors.push(Diagnostic { kind, message, location });
        assert(self@ =~= before.push(added));
    }

    /// The number of errors so far.
    pub fn len(&self) -> (n: usize)
        ensures
            n == self@.len(),
    {
        self.errors.len()
    }

    /// The `i`-th error, if there are that many.
    pub fn get(&self, i: usize) -> (found: Option<&Diagnostic>)
        ensures
            match found {
                Some(d) => i < self@.len() && d@ == self@[i as int],
                None => i >= self@.len(),
            },
    {
        if i < self.errors.len() {
            Some(&self.errors[i])
        } else {
            None
        }
    }

    /// Ends the pass: `Ok` when nothing was recorded, else every error in order.
    pub fn check(self) -> (r: Result<(), Vec<Diagnostic>>)
        ensures
            r is Ok <==> self@.len() == 0,
            r is Err ==> diagnostic_views(r->Err_0@) == self@,
    {
        if self.errors.len() == 0 {
            Ok(())
        } else {
            Err(self.errors)
        }
    }
}

} // verus!
