//! The fixed vocabulary of annotation keywords.

use crate::text::str_eq;
use vstd::prelude::*;
use vstd::string::*;

verus! {

/// The attribute that carries every annotation of this crate: `#[redis(...)]`.
pub const SYMBOL_REDIS: &'static str = "redis";

pub const DESERIALIZE: &'static str = "deserialize";

pub const SERIALIZE: &'static str = "serialize";

pub const DEFAULT: &'static str = "default";

pub const PRIMARY_KEY: &'static str = "primary_key";

pub const PREFIX_KEY: &'static str = "prefix_key";

/// The second spelling of `prefix_key`, used by stream models.
pub const KEY: &'static str = "key";

pub const MODEL_TYPE: &'static str = "model_type";

pub const INDEX: &'static str = "index";

pub const SORTABLE: &'static str = "sortable";

pub const FULL_TEXT_SEARCH: &'static str = "full_text_search";

pub const RENAME: &'static str = "rename";

pub const RENAME_ALL: &'static str = "rename_all";

pub const ALIAS: &'static str = "alias";

pub const FLATTEN: &'static str = "flatten";

pub const SKIP: &'static str = "skip";

pub const SKIP_SERIALIZING: &'static str = "skip_serializing";

pub const SKIP_DESERIALIZING: &'static str = "skip_deserializing";

/// A recognised annotation keyword, compared with parsed identifiers by its text.
#[derive(Copy, Clone, Debug)]
pub struct Symbol(pub &'static str);

impl Symbol {
    /// The keyword's text.
    pub open spec fn text(self) -> Seq<char> {
        self.0@
    }

    /// The keyword's text as a string slice.
    pub fn as_str(&self) -> (s: &'static str)
        ensures
            s@ == self.text(),
    {
        self.0
    }

    /// Tells whether a parsed identifier is this keyword.
    pub fn matches(&self, ident: &str) -> (same: bool)
        ensures
            same == (ident@ == self.text()),
    {
        str_eq(ident, self.0)
    }

    /// The keyword as an owned string, as it is shown in messages.
    pub fn to_string(&self) -> (s: String)
        ensures
            s@ == self.text(),
    {
        String::from_str(self.0)
    }
}

} // verus!
