//! The storage models that a container can be mapped to.

use crate::diag::{Ctx, DiagnosticView, ErrorKind, Location};
use crate::text::str_eq;
use vstd::prelude::*;
use vstd::string::*;

verus! {

/// A storage model.
#[derive(Clone, Copy, Debug, PartialEq, Eq, Structural)]
pub enum Derive {
    /// Records are kept as hashes.
    HashModel,
    /// Records are kept as JSON documents.
    JsonModel,
}

/// The model that a `model_type` value names: the hash model is the only one
/// that can be named.
pub open spec fn model_named(value: Seq<char>) -> Option<Derive> {
    if value == "HashModel"@ {
        Some(Derive::HashModel)
    } else {
        None
    }
}

/// The error for a `model_type` value that names no model.
pub open spec fn unrecognized_model(location: Location) -> DiagnosticView {
    DiagnosticView {
        kind: ErrorKind::UnrecognizedModelType,
        message: "Unrecognized model type"@,
        location,
    }
}

impl Derive {
    /// Reads a model from the `model_type` value found at `location`; any
    /// value but `HashModel` is reported as `UnrecognizedModelType`.
    pub fn from_lit_str(ctx: &mut Ctx, value: &str, location: Location) -> (r: Result<Derive, ()>)
        ensures
            match r {
                Ok(model) => model_named(value@) == Some(model) && final(ctx)@ == old(ctx)@,
                Err(_) => model_named(value@) is None && final(ctx)@ == old(ctx)@.push(
                    unrecognized_model(location),
                ),
            },
    {
        if str_eq(value, "HashModel") {
            Ok(Derive::HashModel)
        } else {
            ctx.error_spanned_by(
                location,
                ErrorKind::UnrecognizedModelType,
                String::from_str("Unrecognized model type"),
            );
            Err(())
        }
    }
}

} // verus!
