//! Casing rules for wire names.

use crate::text::str_eq;
use vstd::prelude::*;
use vstd::string::*;

verus! {

/// What `heck`'s `to_snake_case` makes of a string.
pub uninterp spec fn snake_case_of(value: Seq<char>) -> Seq<char>;

/// What `heck`'s `to_kebab_case` makes of a string.
pub uninterp spec fn kebab_case_of(value: Seq<char>) -> Seq<char>;

/// What `heck`'s `to_lower_camel_case` makes of a string.
pub uninterp spec fn lower_camel_case_of(value: Seq<char>) -> Seq<char>;

/// What `heck`'s `to_pascal_case` makes of a string.
pub uninterp spec fn pascal_case_of(value: Seq<char>) -> Seq<char>;

/// What `str::to_lowercase` makes of a string.
pub uninterp spec fn lowercase_of(value: Seq<char>) -> Seq<char>;

/// What `str::to_uppercase` makes of a string.
pub uninterp spec fn uppercase_of(value: Seq<char>) -> Seq<char>;

/// Calls `heck::ToSnakeCase::to_snake_case`; the result depends on the
/// characters of `value` alone.
#[verifier::external_body]
fn to_snake_case(value: &str) -> (converted: String)
    ensures
        converted@ == snake_case_of(value@),
{
    heck::ToSnakeCase::to_snake_case(value)
}

/// Calls `heck::ToKebabCase::to_kebab_case`; the result depends on the
/// characters of `value` alone.
#[verifier::external_body]
fn to_kebab_case(value: &str) -> (converted: String)
    ensures
        converted@ == kebab_case_of(value@),
{
    heck::ToKebabCase::to_kebab_case(value)
}

/// Calls `heck::ToLowerCamelCase::to_lower_camel_case`; the result depends on
/// the characters of `value` alone.
#[verifier::external_body]
fn to_lower_camel_case(value: &str) -> (converted: String)
    ensures
        converted@ == lower_camel_case_of(value@),
{
    heck::ToLowerCamelCase::to_lower_camel_case(value)
}

/// Calls `heck::ToPascalCase::to_pascal_case`; the result depends on the
/// characters of `value` alone.
#[verifier::external_body]
fn to_pascal_case(value: &str) -> (converted: String)
    ensures
        converted@ == pascal_case_of(value@),
{
    heck::ToPascalCase::to_pascal_case(value)
}

/// Calls `str::to_lowercase`, which maps each character by the Unicode
/// `Lowercase` property, whatever the locale.
#[verifier::external_body]
fn to_lowercase(value: &str) -> (converted: String)
    ensures
        converted@ == lowercase_of(value@),
{
    value.to_lowercase()
}

/// Calls `str::to_uppercase`, which maps each character by the Unicode
/// `Uppercase` property, whatever the locale.
#[verifier::external_body]
fn to_uppercase(value: &str) -> (converted: String)
    ensures
        converted@ == uppercase_of(value@),
{
    value.to_uppercase()
}

/// A casing rule.
#[derive(Clone, Copy, Debug, PartialEq, Eq, Structural)]
pub enum RenameRule {
    /// Names stay as they are.
    Unchanged,
    /// `lowercase`
    LowerCase,
    /// `UPPERCASE`
    UpperCase,
    /// `PascalCase`
    PascalCase,
    /// `camelCase`
    CamelCase,
    /// `snake_case`
    SnakeCase,
    /// `kebab-case`
    KebabCase,
}

/// The rule that a `rename_all` value names, if it names one.
pub open spec fn rule_named(name: Seq<char>) -> Option<RenameRule> {
    if name == "lowercase"@ {
        Some(RenameRule::LowerCase)
    } else if name == "UPPERCASE"@ {
        Some(RenameRule::UpperCase)
    } else if name == "PascalCase"@ {
        Some(RenameRule::PascalCase)
    } else if name == "camelCase"@ {
        Some(RenameRule::CamelCase)
    } else if name == "snake_case"@ {
        Some(RenameRule::SnakeCase)
    } else if name == "kebab-case"@ {
        Some(RenameRule::KebabCase)
    } else {
        None
    }
}

/// `value` in the case that `rule` asks for.
pub open spec fn cased(rule: RenameRule, value: Seq<char>) -> Seq<char> {
    match rule {
        RenameRule::Unchanged => value,
        RenameRule::LowerCase => lowercase_of(value),
        RenameRule::UpperCase => uppercase_of(value),
        RenameRule::PascalCase => pascal_case_of(value),
        RenameRule::CamelCase => lower_camel_case_of(value),
        RenameRule::SnakeCase => snake_case_of(value),
        RenameRule::KebabCase => kebab_case_of(value),
    }
}

/// What `transform_casing` returns: `value` itself without a rule, else
/// `value` in the case of the rule that `casing` names.
pub open spec fn transformed(value: Seq<char>, casing: Option<Seq<char>>) -> Seq<char> {
    match casing {
        None => value,
        Some(name) => match rule_named(name) {
            Some(rule) => cased(rule, value),
            None => value,
        },
    }
}

/// The message for a `rename_all` value that names no rule.
pub open spec fn unknown_rule_message(name: Seq<char>) -> Seq<char> {
    "unknown rename rule `rename_all = \""@ + name
        + "\"`, expected one of \"lowercase\", \"UPPERCASE\", \"PascalCase\", \"camelCase\", \"snake_case\", \"kebab-case\""@
}

impl RenameRule {
    /// Reads a rule from a `rename_all` value; an unknown name gives the
    /// message to report.
    pub fn from_str(name: &str) -> (r: Result<RenameRule, String>)
        ensures
            match r {
                Ok(rule) => rule_named(name@) == Some(rule),
                Err(message) => rule_named(name@) is None && message@ == unknown_rule_message(
                    name@,
                ),
            },
    {
        if str_eq(name, "lowercase") {
            Ok(RenameRule::LowerCase)
        } else if str_eq(name, "UPPERCASE") {
            Ok(RenameRule::UpperCase)
        } else if str_eq(name, "PascalCase") {
            Ok(RenameRule::PascalCase)
        } else if str_eq(name, "camelCase") {
            Ok(RenameRule::CamelCase)
        } else if str_eq(name, "snake_case") {
            Ok(RenameRule::SnakeCase)
        } else if str_eq(name, "kebab-case") {
            Ok(RenameRule::KebabCase)
        } else {
            let mut message = String::from_str("unknown rename rule `rename_all = \"");
            message.append(name);
            message.append(
                "\"`, expected one of \"lowercase\", \"UPPERCASE\", \"PascalCase\", \"camelCase\", \"snake_case\", \"kebab-case\"",
            );
            Err(message)
        }
    }

    /// Puts `value` into this rule's case.
    pub fn apply(&self, value: &str) -> (converted: String)
        ensures
            converted@ == cased(*self, value@),
    {
        match self {
            RenameRule::Unchanged => String::from_str(value),
            RenameRule::LowerCase => to_lowercase(value),
            RenameRule::UpperCase => to_uppercase(value),
            RenameRule::PascalCase => to_pascal_case(value),
            RenameRule::CamelCase => to_lower_camel_case(value),
            RenameRule::SnakeCase => to_snake_case(value),
            RenameRule::KebabCase => to_kebab_case(value),
        }
    }

    /// The wire name of a field under this rule.
    pub fn apply_to_field(&self, field: &str) -> (converted: String)
        ensures
            converted@ == cased(*self, field@),
    {
        self.apply(field)
    }

    /// The wire name of a variant under this rule.
    pub fn apply_to_variant(&self, variant: &str) -> (converted: String)
        ensures
            converted@ == cased(*self, variant@),
    {
        self.apply(variant)
    }
}

/// The casing rules of a container or of a variant: one for encoding, one for
/// decoding. Children without an explicit rename take them over.
#[derive(Clone, Copy, Debug, PartialEq, Eq, Structural)]
pub struct RenameAllRules {
    pub serialize: RenameRule,
    pub deserialize: RenameRule,
}

/// Transforms `value` into the case that `casing` names; without a rule the
/// value stays as it is. A name outside the fixed set of rules is a
/// programming error of the caller.
pub fn transform_casing(value: &str, casing: Option<&str>) -> (converted: String)
    requires
        casing is Some ==> rule_named(casing->0@) is Some,
    ensures
        converted@ == transformed(
            value@,
            match casing {
                Some(name) => Some(name@),
                None => None,
            },
        ),
{
    match casing {
        None => String::from_str(value),
        Some(name) => {
            match RenameRule::from_str(name) {
                Ok(rule) => rule.apply(value),
                Err(_) => String::from_str(value),
            }
        },
    }
}

/// Tells whether `casing` names a rule that `transform_casing` accepts.
pub fn is_known_casing(casing: &str) -> (known: bool)
    ensures
        known == rule_named(casing@) is Some,
{
    RenameRule::from_str(casing).is_ok()
}

/// A value that a rule leaves unchanged is in that rule's case already:
/// applying the rule to it any number of times changes nothing.
pub proof fn lemma_casing_stable(value: Seq<char>, rule: RenameRule)
    requires
        cased(rule, value) == value,
    ensures
        cased(rule, cased(rule, value)) == cased(rule, value),
{
}

/// Without a rule, and under the rule `Unchanged`, every value is stable.
pub proof fn lemma_casing_identity(value: Seq<char>)
    ensures
        cased(RenameRule::Unchanged, value) == value,
        transformed(value, None) == value,
        transformed(transformed(value, None), None) == transformed(value, None),
{
}

} // verus!
