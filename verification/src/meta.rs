//! The annotations of a declaration, as plain values.
//!
//! An annotation entry is a bare keyword, a `keyword = literal` pair, or a
//! group `keyword(entry, ...)`.

use crate::diag::{Ctx, DiagnosticView, ErrorKind, Location};
use crate::symbol::Symbol;
use crate::text::{join, join_strings, str_eq, views};
use vstd::prelude::*;
use vstd::string::*;

verus! {

/// Whether `syn` reads a text as a path expression, such as `String::default`.
pub uninterp spec fn is_expr_path(text: Seq<char>) -> bool;

/// What `{:?}` writes for a string: the text in double quotes, with escapes.
pub uninterp spec fn debug_text(text: Seq<char>) -> Seq<char>;

/// Asks `syn::parse_str` whether `text` is a path expression
/// (`syn::ExprPath`); the answer depends on the text alone.
#[verifier::external_body]
pub(crate) fn parses_as_expr_path(text: &str) -> (ok: bool)
    ensures
        ok == is_expr_path(text@),
{
    syn::parse_str::<syn::ExprPath>(text).is_ok()
}

/// Formats `text` with `{:?}`, as `str`'s `Debug` writes it.
#[verifier::external_body]
fn debug_quoted(text: &str) -> (quoted: String)
    ensures
        quoted@ == debug_text(text@),
{
    format!("{:?}", text)
}

/// A path such as `rename` or `a::b`, with the place where it stands.
#[derive(Clone, Debug)]
pub struct AttrPath {
    /// Whether the path starts with `::`.
    pub leading_colon: bool,
    pub segments: Vec<String>,
    pub location: Location,
}

/// Converts a path to the text of its segments.
pub trait PathExt {
    /// The segments, joined by `::`.
    spec fn joined(&self) -> Seq<char>;

    fn to_string(&self) -> (s: String)
        ensures
            s@ == self.joined(),
    ;
}

impl PathExt for AttrPath {
    open spec fn joined(&self) -> Seq<char> {
        join(self.names(), "::"@)
    }

    fn to_string(&self) -> (s: String) {
        join_strings(&self.segments, "::")
    }
}

impl AttrPath {
    /// The segments as plain values.
    pub open spec fn names(&self) -> Seq<Seq<char>> {
        views(self.segments@)
    }

    /// The path is the single identifier `name`.
    pub open spec fn is(&self, name: Seq<char>) -> bool {
        !self.leading_colon && self.segments@.len() == 1 && self.segments@[0]@ == name
    }

    /// The path as it stands in the source, without spaces.
    pub open spec fn source_text(&self) -> Seq<char> {
        if self.leading_colon {
            "::"@ + self.joined()
        } else {
            self.joined()
        }
    }

    /// Tells whether the path is the single identifier `name`.
    pub fn is_ident(&self, name: &str) -> (same: bool)
        ensures
            same == self.is(name@),
    {
        !self.leading_colon && self.segments.len() == 1 && str_eq(
            self.segments[0].as_str(),
            name,
        )
    }

    /// Tells whether the path is the keyword `symbol`.
    pub fn eq(&self, symbol: &Symbol) -> (same: bool)
        ensures
            same == self.is(symbol.text()),
    {
        self.is_ident(symbol.as_str())
    }

    /// Writes the path as it stands in the source, without spaces.
    pub fn to_source_text(&self) -> (s: String)
        ensures
            s@ == self.source_text(),
    {
        let joined = self.to_string();
        if self.leading_colon {
            let mut s = String::from_str("::");
            s.append(joined.as_str());
            s
        } else {
            joined
        }
    }
}

/// What a literal holds, as far as annotations read it.
#[derive(Clone, Debug)]
pub enum LitKind {
    /// A string literal, with its value.
    Str(String),
    /// `true` or `false`.
    Bool(bool),
    /// Any other literal.
    Other,
}

/// A literal, with the place where it stands.
#[derive(Clone, Debug)]
pub struct Lit {
    pub kind: LitKind,
    pub location: Location,
}

/// The message for a value that is no string literal.
pub open spec fn expected_string_message(attr: Seq<char>, item: Seq<char>) -> Seq<char> {
    "expected redis "@ + attr + " attribute to be a string: `"@ + item + " = \"...\"`"@
}

/// The message for a `default` value that is no path.
pub open spec fn failed_to_parse_message(text: Seq<char>) -> Seq<char> {
    "failed to parse: "@ + debug_text(text)
}

/// Reads values out of literals.
pub trait LitExt {
    /// The value of a string literal.
    spec fn string_value(&self) -> Option<Seq<char>>;

    /// Where the literal stands.
    spec fn place(&self) -> Location;

    /// The value, if the literal is a string.
    fn to_string(&self) -> (value: Option<String>)
        ensures
            match value {
                Some(s) => self.string_value() == Some(s@),
                None => self.string_value() is None,
            },
    ;

    /// The value of the string literal of attribute `attr`, written
    /// `item = "..."`; any other literal is reported as `InvalidLiteralType`.
    fn to_lit_str_0(&self, ctx: &mut Ctx, attr: Symbol, item: Symbol) -> (value: Result<
        String,
        (),
    >)
        ensures
            match value {
                Ok(s) => self.string_value() == Some(s@) && final(ctx)@ == old(ctx)@,
                Err(_) => self.string_value() is None && final(ctx)@ == old(ctx)@.push(
                    DiagnosticView {
                        kind: ErrorKind::InvalidLiteralType,
                        message: expected_string_message(attr.text(), item.text()),
                        location: self.place(),
                    },
                ),
            },
    ;

    /// As `to_lit_str_0`, for an attribute that is written under its own name.
    fn to_lit_str(&self, ctx: &mut Ctx, name: Symbol) -> (value: Result<String, ()>)
        ensures
            match value {
                Ok(s) => self.string_value() == Some(s@) && final(ctx)@ == old(ctx)@,
                Err(_) => self.string_value() is None && final(ctx)@ == old(ctx)@.push(
                    DiagnosticView {
                        kind: ErrorKind::InvalidLiteralType,
                        message: expected_string_message(name.text(), name.text()),
                        location: self.place(),
                    },
                ),
            },
    ;

    /// The value of a string literal that holds a path expression. A literal
    /// that is no string is reported as `InvalidLiteralType`, a string that is
    /// no path as `InvalidPath`.
    fn to_expr_path(&self, ctx: &mut Ctx, name: Symbol) -> (path: Result<String, ()>)
        ensures
            final(ctx)@ == old(ctx)@ + expr_path_errors(
                self.string_value(),
                self.place(),
                name.text(),
            ),
            match path {
                Ok(p) => self.string_value() == Some(p@) && is_expr_path(p@),
                Err(_) => self.string_value() is None || !is_expr_path(self.string_value()->0),
            },
    ;
}

/// What reading a path out of a literal reports.
pub open spec fn expr_path_errors(
    value: Option<Seq<char>>,
    location: Location,
    name: Seq<char>,
) -> Seq<DiagnosticView> {
    match value {
        None => seq![
            DiagnosticView {
                kind: ErrorKind::InvalidLiteralType,
                message: expected_string_message(name, name),
                location,
            },
        ],
        Some(text) => if is_expr_path(text) {
            Seq::empty()
        } else {
            seq![
                DiagnosticView {
                    kind: ErrorKind::InvalidPath,
                    message: failed_to_parse_message(text),
                    location,
                },
            ]
        },
    }
}

/// Reads a string literal as source text.
pub trait LitStrExt {
    /// The text of the literal, if it is a string.
    spec fn text(&self) -> Option<Seq<char>>;

    /// The text of a string literal that reads as a path expression.
    fn parse(&self) -> (path: Result<String, ()>)
        ensures
            match path {
                Ok(p) => self.text() == Some(p@) && is_expr_path(p@),
                Err(_) => self.text() is None || !is_expr_path(self.text()->0),
            },
    ;
}

impl LitStrExt for Lit {
    open spec fn text(&self) -> Option<Seq<char>> {
        self.string_value()
    }

    fn parse(&self) -> (path: Result<String, ()>) {
        match &self.kind {
            LitKind::Str(text) => {
                if parses_as_expr_path(text.as_str()) {
                    Ok(text.clone())
                } else {
                    Err(())
                }
            },
            _ => Err(()),
        }
    }
}

impl LitExt for Lit {
    open spec fn string_value(&self) -> Option<Seq<char>> {
        match self.kind {
            LitKind::Str(s) => Some(s@),
            _ => None,
        }
    }

    open spec fn place(&self) -> Location {
        self.location
    }

    fn to_string(&self) -> (value: Option<String>) {
        match &self.kind {
            LitKind::Str(s) => Some(s.clone()),
            _ => None,
        }
    }

    fn to_lit_str_0(&self, ctx: &mut Ctx, attr: Symbol, item: Symbol) -> (value: Result<
        String,
        (),
    >) {
        match &self.kind {
            LitKind::Str(s) => Ok(s.clone()),
            _ => {
                let mut message = String::from_str("expected redis ");
                message.append(attr.as_str());
                message.append(" attribute to be a string: `");
                message.append(item.as_str());
                message.append(" = \"...\"`");
                ctx.error_spanned_by(self.location, ErrorKind::InvalidLiteralType, message);
                Err(())
            },
        }
    }

    fn to_lit_str(&self, ctx: &mut Ctx, name: Symbol) -> (value: Result<String, ()>) {
        self.to_lit_str_0(ctx, name, name)
    }

    fn to_expr_path(&self, ctx: &mut Ctx, name: Symbol) -> (path: Result<String, ()>) {
        match self.to_lit_str(ctx, name) {
            Err(_) => Err(()),
            Ok(text) => {
                if parses_as_expr_path(text.as_str()) {
                    assert(ctx@ =~= old(ctx)@ + Seq::<DiagnosticView>::empty());
                    Ok(text)
                } else {
                    let mut message = String::from_str("failed to parse: ");
                    let quoted = debug_quoted(text.as_str());
                    message.append(quoted.as_str());
                    ctx.error_spanned_by(self.location, ErrorKind::InvalidPath, message);
                    Err(())
                }
            },
        }
    }
}

/// One annotation entry.
#[derive(Debug)]
pub enum Meta {
    /// A bare keyword, such as `index`.
    Path(AttrPath),
    /// A pair, such as `rename = "name"`.
    NameValue(AttrPath, Lit),
    /// A group, such as `rename(serialize = "a", deserialize = "b")`.
    List(MetaList),
}

/// A group of entries under one keyword.
#[derive(Debug)]
pub struct MetaList {
    pub path: AttrPath,
    pub nested: Vec<NestedMeta>,
}

/// An entry of a group: an annotation entry or a lone literal.
#[derive(Debug)]
pub enum NestedMeta {
    Meta(Meta),
    Lit(Lit),
}

/// Converts an entry to the text of its keyword.
pub trait MetaExt {
    /// The entry's keyword, its segments joined by `::`.
    spec fn keyword(&self) -> Seq<char>;

    fn to_string(&self) -> (s: String)
        ensures
            s@ == self.keyword(),
    ;
}

impl Meta {
    /// The entry's keyword.
    pub open spec fn spec_path(&self) -> AttrPath {
        match *self {
            Meta::Path(p) => p,
            Meta::NameValue(p, _) => p,
            Meta::List(l) => l.path,
        }
    }

    /// The entry's keyword.
    pub fn path(&self) -> (p: &AttrPath)
        ensures
            *p == self.spec_path(),
    {
        match self {
            Meta::Path(p) => p,
            Meta::NameValue(p, _) => p,
            Meta::List(l) => &l.path,
        }
    }
}

impl MetaExt for Meta {
    open spec fn keyword(&self) -> Seq<char> {
        self.spec_path().joined()
    }

    fn to_string(&self) -> (s: String) {
        self.path().to_string()
    }
}

impl NestedMeta {
    /// Where the entry stands: at its keyword, or at the lone literal.
    pub open spec fn spec_location(&self) -> Location {
        match *self {
            NestedMeta::Meta(m) => m.spec_path().location,
            NestedMeta::Lit(l) => l.location,
        }
    }

    /// Where the entry stands.
    pub fn location(&self) -> (l: Location)
        ensures
            l == self.spec_location(),
    {
        match self {
            NestedMeta::Meta(m) => m.path().location,
            NestedMeta::Lit(l) => l.location,
        }
    }
}

/// What stands behind an attribute's path.
#[derive(Debug)]
pub enum AttrBody {
    /// The attribute reads as an annotation entry.
    Parsed(Meta),
    /// It does not; the message says why, the location where.
    Unparsed(String, Location),
}

/// One attribute of a declaration: `#[path ...]`.
#[derive(Debug)]
pub struct Attribute {
    pub path: AttrPath,
    pub body: AttrBody,
}

} // verus!
