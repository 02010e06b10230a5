//! What the parsers of containers, fields and variants share.

use crate::attr::{duplicate_error, Attr, VecAttr};
use crate::diag::{Ctx, DiagnosticView, ErrorKind, Location};
use crate::meta::{AttrBody, Attribute, Lit, LitExt, Meta, MetaList, NestedMeta};
use crate::metalist::{first_of, multiple_renames_of, not_a_string, MetaListExt};
use crate::name::option_view;
use crate::casing::{rule_named, unknown_rule_message, RenameAllRules, RenameRule};
use crate::metalist::renames_of;
use crate::symbol::{Symbol, ALIAS, DEFAULT, PRIMARY_KEY, RENAME, RENAME_ALL, SYMBOL_REDIS};
use crate::text::views;
use vstd::prelude::*;
use vstd::string::*;

verus! {

/// The default to use for a field that is missing when decoding.
#[derive(Clone, Debug)]
pub enum Default {
    /// The field must always be there: it has no default.
    Missing,
    /// The default is what `std::default::Default::default()` gives.
    Standard,
    /// The default is what the function at this path gives.
    Path(String),
}

/// A `Default` as a plain value.
pub enum DefaultView {
    Missing,
    Standard,
    Path(Seq<char>),
}

impl View for Default {
    type V = DefaultView;

    open spec fn view(&self) -> DefaultView {
        match self {
            Default::Missing => DefaultView::Missing,
            Default::Standard => DefaultView::Standard,
            Default::Path(p) => DefaultView::Path(p@),
        }
    }
}

impl Default {
    /// Whether the field has no default.
    pub fn is_none(&self) -> (none: bool)
        ensures
            none == (self@ is Missing),
    {
        match self {
            Default::Missing => true,
            Default::Standard | Default::Path(_) => false,
        }
    }
}

/// The view of an optional default.
pub open spec fn default_option_view(d: Option<Default>) -> Option<DefaultView> {
    match d {
        Some(d) => Some(d@),
        None => None,
    }
}

/// The message for an attribute that does not read as `#[redis(...)]`.
pub open spec fn expected_group_message() -> Seq<char> {
    "expected #[redis(...)]"@
}

/// The message for a lone literal among the entries.
pub open spec fn unexpected_literal_message() -> Seq<char> {
    "unexpected literal in redis container attribute"@
}

/// The message for a presence-only keyword that is given a value.
pub open spec fn unexpected_value_message(keyword: Seq<char>) -> Seq<char> {
    if keyword == PRIMARY_KEY@ {
        "unexpected value for "@ + keyword + ", use just #[redis("@ + keyword + ")]"@
    } else {
        "unexpected value for "@ + keyword + ", use #[redis("@ + keyword + ")]"@
    }
}

/// The message for a keyword that needs a value and stands without one, or
/// with a group in its place.
pub open spec fn expected_value_message(keyword: Seq<char>) -> Seq<char> {
    "expected a value for "@ + keyword + ", use #[redis("@ + keyword + " = \"...\")]"@
}

/// The error for a presence-only keyword that is given a value.
pub open spec fn unexpected_value(keyword: Seq<char>, location: Location) -> DiagnosticView {
    DiagnosticView {
        kind: ErrorKind::UnexpectedAttributeValue,
        message: unexpected_value_message(keyword),
        location,
    }
}

/// The error for a keyword that needs a value and has none.
pub open spec fn expected_value(keyword: Seq<char>, location: Location) -> DiagnosticView {
    DiagnosticView {
        kind: ErrorKind::UnexpectedAttributeValue,
        message: expected_value_message(keyword),
        location,
    }
}

/// The error for a lone literal among the entries.
pub open spec fn unexpected_literal(location: Location) -> DiagnosticView {
    DiagnosticView {
        kind: ErrorKind::MalformedAttribute,
        message: unexpected_literal_message(),
        location,
    }
}

/// The error for a keyword outside the fixed set; `level` is `field` or
/// `container`, and `keyword` the keyword as it stands in the source.
pub open spec fn unknown_attribute(
    level: Seq<char>,
    keyword: Seq<char>,
    location: Location,
) -> DiagnosticView {
    DiagnosticView {
        kind: ErrorKind::UnknownAttribute,
        message: "unknown redis "@ + level + " attribute `"@ + keyword + "`"@,
        location,
    }
}

/// Reports a presence-only keyword that is given a value.
pub(crate) fn report_unexpected_value(ctx: &mut Ctx, keyword: &str, location: Location)
    ensures
        final(ctx)@ == old(ctx)@.push(unexpected_value(keyword@, location)),
{
    let mut message = String::from_str("unexpected value for ");
    message.append(keyword);
    if crate::text::str_eq(keyword, PRIMARY_KEY) {
        message.append(", use just #[redis(");
    } else {
        message.append(", use #[redis(");
    }
    message.append(keyword);
    message.append(")]");
    ctx.error_spanned_by(location, ErrorKind::UnexpectedAttributeValue, message);
}

/// Reports a keyword that needs a value and has none.
pub(crate) fn report_expected_value(ctx: &mut Ctx, keyword: &str, location: Location)
    ensures
        final(ctx)@ == old(ctx)@.push(expected_value(keyword@, location)),
{
    let mut message = String::from_str("expected a value for ");
    message.append(keyword);
    message.append(", use #[redis(");
    message.append(keyword);
    message.append(" = \"...\")]");
    ctx.error_spanned_by(location, ErrorKind::UnexpectedAttributeValue, message);
}

/// Reports a lone literal among the entries.
pub(crate) fn report_unexpected_literal(ctx: &mut Ctx, location: Location)
    ensures
        final(ctx)@ == old(ctx)@.push(unexpected_literal(location)),
{
    ctx.error_spanned_by(
        location,
        ErrorKind::MalformedAttribute,
        String::from_str("unexpected literal in redis container attribute"),
    );
}

/// Reports a keyword outside the fixed set, with its text as it stands in the
/// source.
pub(crate) fn report_unknown_attribute(ctx: &mut Ctx, level: &str, path: &crate::meta::AttrPath)
    ensures
        final(ctx)@ == old(ctx)@.push(
            unknown_attribute(level@, path.source_text(), path.location),
        ),
{
    let mut message = String::from_str("unknown redis ");
    message.append(level);
    message.append(" attribute `");
    let keyword = path.to_source_text();
    message.append(keyword.as_str());
    message.append("`");
    ctx.error_spanned_by(path.location, ErrorKind::UnknownAttribute, message);
}

/// The entries that one attribute contributes: those of `#[redis(...)]`;
/// nothing for another attribute, and nothing for one that does not read as a
/// group.
pub open spec fn attribute_entries(attr: Attribute) -> Seq<NestedMeta> {
    if !attr.path.is(SYMBOL_REDIS@) {
        Seq::empty()
    } else {
        match attr.body {
            AttrBody::Parsed(Meta::List(list)) => list.nested@,
            _ => Seq::empty(),
        }
    }
}

/// What one attribute by itself gives rise to: an error if it is a `redis`
/// attribute that does not read as a group.
pub open spec fn attribute_errors(attr: Attribute) -> Seq<DiagnosticView> {
    if !attr.path.is(SYMBOL_REDIS@) {
        Seq::empty()
    } else {
        match attr.body {
            AttrBody::Parsed(Meta::List(_)) => Seq::empty(),
            AttrBody::Parsed(other) => seq![
                DiagnosticView {
                    kind: ErrorKind::MalformedAttribute,
                    message: expected_group_message(),
                    location: other.spec_path().location,
                },
            ],
            AttrBody::Unparsed(message, location) => seq![
                DiagnosticView {
                    kind: ErrorKind::MalformedAttribute,
                    message: message@,
                    location,
                },
            ],
        }
    }
}

/// The entries of one attribute; reports it if it is a `redis` attribute that
/// does not read as a group.
pub(crate) fn entries_of<'a>(ctx: &mut Ctx, attr: &'a Attribute) -> (entries: Option<
    &'a Vec<NestedMeta>,
>)
    ensures
        final(ctx)@ == old(ctx)@ + attribute_errors(*attr),
        match entries {
            Some(e) => e@ == attribute_entries(*attr),
            None => attribute_entries(*attr) == Seq::<NestedMeta>::empty(),
        },
{
    if !attr.path.is_ident(SYMBOL_REDIS) {
        assert(ctx@ =~= old(ctx)@ + attribute_errors(*attr));
        return None;
    }
    match &attr.body {
        AttrBody::Parsed(Meta::List(list)) => {
            assert(ctx@ =~= old(ctx)@ + attribute_errors(*attr));
            Some(&list.nested)
        },
        AttrBody::Parsed(other) => {
            ctx.error_spanned_by(
                other.path().location,
                ErrorKind::MalformedAttribute,
                String::from_str("expected #[redis(...)]"),
            );
            assert(ctx@ =~= old(ctx)@ + attribute_errors(*attr));
            None
        },
        AttrBody::Unparsed(message, location) => {
            ctx.error_spanned_by(*location, ErrorKind::MalformedAttribute, message.clone());
            assert(ctx@ =~= old(ctx)@ + attribute_errors(*attr));
            None
        },
    }
}

/// Folds `step` over `entries` from the first on, collecting what each step
/// reports.
pub open spec fn fold_entries<S>(
    step: spec_fn(S, NestedMeta) -> (S, Seq<DiagnosticView>),
    start: S,
    entries: Seq<NestedMeta>,
) -> (S, Seq<DiagnosticView>)
    decreases entries.len(),
{
    if entries.len() == 0 {
        (start, Seq::empty())
    } else {
        let before = fold_entries(step, start, entries.drop_last());
        let last = step(before.0, entries.last());
        (last.0, before.1 + last.1)
    }
}

/// Folds `step` over the entries of all `redis` attributes among `attrs`, in
/// source order; an attribute that does not read as a group is reported at
/// its place.
pub open spec fn fold_attributes<S>(
    step: spec_fn(S, NestedMeta) -> (S, Seq<DiagnosticView>),
    start: S,
    attrs: Seq<Attribute>,
) -> (S, Seq<DiagnosticView>)
    decreases attrs.len(),
{
    if attrs.len() == 0 {
        (start, Seq::empty())
    } else {
        let before = fold_attributes(step, start, attrs.drop_last());
        let last = fold_entries(step, before.0, attribute_entries(attrs.last()));
        (last.0, before.1 + attribute_errors(attrs.last()) + last.1)
    }
}

/// Every entry of every `redis` attribute among `attrs`, in source order.
pub open spec fn all_entries(attrs: Seq<Attribute>) -> Seq<NestedMeta>
    decreases attrs.len(),
{
    if attrs.len() == 0 {
        Seq::empty()
    } else {
        all_entries(attrs.drop_last()) + attribute_entries(attrs.last())
    }
}

/// Folding over two runs of entries is folding over the first, then over the
/// second from where the first ended.
pub proof fn lemma_fold_entries_concat<S>(
    step: spec_fn(S, NestedMeta) -> (S, Seq<DiagnosticView>),
    start: S,
    first: Seq<NestedMeta>,
    second: Seq<NestedMeta>,
)
    ensures
        fold_entries(step, start, first + second).0 == fold_entries(
            step,
            fold_entries(step, start, first).0,
            second,
        ).0,
        fold_entries(step, start, first + second).1 == fold_entries(step, start, first).1
            + fold_entries(step, fold_entries(step, start, first).0, second).1,
    decreases second.len(),
{
    let mid = fold_entries(step, start, first);
    if second.len() == 0 {
        assert(first + second =~= first);
        assert(mid.1 + Seq::<DiagnosticView>::empty() =~= mid.1);
    } else {
        lemma_fold_entries_concat(step, start, first, second.drop_last());
        assert((first + second).drop_last() =~= first + second.drop_last());
        assert((first + second).last() == second.last());
        let a = fold_entries(step, mid.0, second.drop_last());
        let b = step(a.0, second.last());
        assert((mid.1 + a.1) + b.1 =~= mid.1 + (a.1 + b.1));
    }
}

/// The state after all attributes is the state after all their entries.
pub proof fn lemma_fold_attributes_state<S>(
    step: spec_fn(S, NestedMeta) -> (S, Seq<DiagnosticView>),
    start: S,
    attrs: Seq<Attribute>,
)
    ensures
        fold_attributes(step, start, attrs).0 == fold_entries(step, start, all_entries(attrs)).0,
    decreases attrs.len(),
{
    if attrs.len() > 0 {
        lemma_fold_attributes_state(step, start, attrs.drop_last());
        lemma_fold_entries_concat(
            step,
            start,
            all_entries(attrs.drop_last()),
            attribute_entries(attrs.last()),
        );
    }
}

/// What the annotations have said of an item's name so far.
pub struct NameState {
    /// The name for encoding, from the first rename that gave one.
    pub ser: Option<Seq<char>>,
    /// The name for decoding, from the first rename that gave one.
    pub de: Option<Seq<char>>,
    /// Every name given for decoding, by a rename or an alias, in order.
    pub aliases: Seq<Seq<char>>,
}

/// `current` if it holds a value, else `offered`.
pub open spec fn or_else<T>(current: Option<T>, offered: Option<T>) -> Option<T> {
    if current is Some {
        current
    } else {
        offered
    }
}

impl NameState {
    /// Nothing said yet.
    pub open spec fn initial() -> NameState {
        NameState { ser: None, de: None, aliases: Seq::empty() }
    }

    /// After `rename = "value"`: the value names both sides unless one is
    /// named already, and is accepted when decoding.
    pub open spec fn renamed(self, value: Seq<char>) -> NameState {
        NameState {
            ser: or_else(self.ser, Some(value)),
            de: or_else(self.de, Some(value)),
            aliases: self.aliases.push(value),
        }
    }

    /// After `rename(serialize = ..., deserialize = ...)` with these values:
    /// each side is named unless it is named already, and every `deserialize`
    /// value is accepted when decoding.
    pub open spec fn renamed_by_sides(self, ser: Option<Seq<char>>, de: Seq<Seq<char>>) -> NameState {
        NameState {
            ser: or_else(self.ser, ser),
            de: or_else(self.de, first_of(de)),
            aliases: self.aliases + de,
        }
    }

    /// After `alias = "value"`.
    pub open spec fn aliased(self, value: Seq<char>) -> NameState {
        NameState { aliases: self.aliases.push(value), ..self }
    }

    /// What an entry under the keyword `rename` or `alias` does to the name,
    /// and what it reports. A second name for encoding is a
    /// `DuplicateAttribute` error; the first stays.
    pub open spec fn step(self, meta: Meta) -> (NameState, Seq<DiagnosticView>)
        recommends
            meta.spec_path().is(RENAME@) || meta.spec_path().is(ALIAS@),
    {
        let path = meta.spec_path();
        if path.is(RENAME@) {
            match meta {
                Meta::NameValue(_, lit) => match lit.string_value() {
                    Some(value) => (
                        self.renamed(value),
                        if self.ser is Some {
                            seq![duplicate_error(RENAME@, path.location)]
                        } else {
                            Seq::empty()
                        },
                    ),
                    None => (self, seq![not_a_string(RENAME@, RENAME@, lit)]),
                },
                Meta::List(list) => {
                    let read = multiple_renames_of(list.nested@);
                    match read.0 {
                        Some((ser, de)) => (
                            self.renamed_by_sides(ser, de),
                            if self.ser is Some && ser is Some {
                                read.1.push(duplicate_error(RENAME@, path.location))
                            } else {
                                read.1
                            },
                        ),
                        None => (self, read.1),
                    }
                },
                Meta::Path(_) => (self, seq![expected_value(RENAME@, path.location)]),
            }
        } else {
            match meta {
                Meta::NameValue(_, lit) => match lit.string_value() {
                    Some(value) => (self.aliased(value), Seq::empty()),
                    None => (self, seq![not_a_string(ALIAS@, ALIAS@, lit)]),
                },
                _ => (self, seq![expected_value(ALIAS@, path.location)]),
            }
        }
    }
}

/// The accumulators for an item's name.
pub(crate) struct NameBuilder {
    pub(crate) ser_name: Attr<String>,
    pub(crate) de_name: Attr<String>,
    pub(crate) de_aliases: VecAttr<String>,
}

impl View for NameBuilder {
    type V = NameState;

    closed spec fn view(&self) -> NameState {
        NameState {
            ser: option_view(self.ser_name.value),
            de: option_view(self.de_name.value),
            aliases: views(self.de_aliases.values()),
        }
    }
}

impl NameBuilder {
    /// The accumulators stand for the keyword `rename`.
    pub(crate) closed spec fn well_formed(&self) -> bool {
        self.ser_name.name.text() == RENAME@
    }

    /// Accumulators that hold nothing.
    pub(crate) fn new() -> (b: NameBuilder)
        ensures
            b@ == NameState::initial(),
            b.well_formed(),
    {
        let b = NameBuilder {
            ser_name: Attr::new(Symbol(RENAME)),
            de_name: Attr::new(Symbol(RENAME)),
            de_aliases: VecAttr::new(Symbol(RENAME)),
        };
        assert(b@.aliases =~= Seq::<Seq<char>>::empty());
        b
    }

    /// Ends the accumulation: the name of the item that is called
    /// `source_name` in the source.
    pub(crate) fn finish(self, source_name: String) -> (name: crate::name::Name)
        ensures
            name@ == crate::name::resolved(
                source_name@,
                self@.ser,
                self@.de,
                Some(self@.aliases),
            ),
    {
        let NameBuilder { ser_name, de_name, de_aliases } = self;
        crate::name::Name::from_attrs(source_name, ser_name, de_name, Some(de_aliases))
    }

    /// Takes in an entry under the keyword `rename` or `alias`.
    pub(crate) fn entry(&mut self, ctx: &mut Ctx, meta: &Meta)
        requires
            old(self).well_formed(),
            meta.spec_path().is(RENAME@) || meta.spec_path().is(ALIAS@),
        ensures
            final(self).well_formed(),
            final(self)@ == old(self)@.step(*meta).0,
            final(ctx)@ == old(ctx)@ + old(self)@.step(*meta).1,
    {
        let path = meta.path();
        let ghost aliases = self@.aliases;
        if path.is_ident(RENAME) {
            match meta {
                Meta::NameValue(_, lit) => {
                    match lit.to_lit_str(ctx, Symbol(RENAME)) {
                        Ok(value) => {
                            self.ser_name.set(ctx, path.location, value.clone());
                            self.de_name.set_if_none(value.clone());
                            self.de_aliases.insert(path.location, value);
                            assert(self@.aliases =~= aliases.push(value@));
                            assert(ctx@ =~= old(ctx)@ + old(self)@.step(*meta).1);
                        },
                        Err(_) => {
                            assert(ctx@ =~= old(ctx)@ + old(self)@.step(*meta).1);
                        },
                    }
                },
                Meta::List(list) => {
                    match list.get_multiple_renames(ctx) {
                        Ok((ser, de)) => {
                            self.ser_name.set_opt(ctx, path.location, ser);
                            let mut i: usize = 0;
                            assert(views(de@).take(0) =~= Seq::<Seq<char>>::empty());
                            assert(self@.aliases =~= aliases + views(de@).take(0));
                            while i < de.len()
                                invariant
                                    i <= de.len(),
                                    self.well_formed(),
                                    self.ser_name == old(self).ser_name || (old(
                                        self,
                                    ).ser_name.value is None && self.ser_name.name == old(
                                        self,
                                    ).ser_name.name),
                                    self@.ser == or_else(old(self)@.ser, option_view(ser)),
                                    self@.de == or_else(
                                        old(self)@.de,
                                        first_of(views(de@).take(i as int)),
                                    ),
                                    self@.aliases == aliases + views(de@).take(i as int),
                                decreases de.len() - i,
                            {
                                let ghost so_far = self@.aliases;
                                self.de_name.set_if_none(de[i].clone());
                                self.de_aliases.insert(path.location, de[i].clone());
                                assert(views(de@).take(i + 1) =~= views(de@).take(i as int).push(
                                    de@[i as int]@,
                                ));
                                assert(self@.aliases =~= so_far.push(de@[i as int]@));
                                assert(self@.aliases =~= aliases + views(de@).take(i + 1));
                                i = i + 1;
                            }
                            assert(views(de@).take(de.len() as int) =~= views(de@));
                            assert(ctx@ =~= old(ctx)@ + old(self)@.step(*meta).1);
                        },
                        Err(_) => {},
                    }
                },
                Meta::Path(_) => {
                    report_expected_value(ctx, RENAME, path.location);
                    assert(ctx@ =~= old(ctx)@ + old(self)@.step(*meta).1);
                },
            }
        } else {
            match meta {
                Meta::NameValue(_, lit) => {
                    match lit.to_lit_str(ctx, Symbol(ALIAS)) {
                        Ok(value) => {
                            self.de_aliases.insert(path.location, value);
                            assert(self@.aliases =~= aliases.push(value@));
                            assert(ctx@ =~= old(ctx)@ + old(self)@.step(*meta).1);
                        },
                        Err(_) => {
                            assert(ctx@ =~= old(ctx)@ + old(self)@.step(*meta).1);
                        },
                    }
                },
                _ => {
                    report_expected_value(ctx, ALIAS, path.location);
                    assert(ctx@ =~= old(ctx)@ + old(self)@.step(*meta).1);
                },
            }
        }
    }
}

/// What an entry under the keyword `default` does to the default collected
/// so far, and what it reports: the bare keyword asks for the standard
/// default, `default = "path"` for the function at that path. A second
/// default is a `DuplicateAttribute` error; the first stays.
pub open spec fn default_step(current: Option<DefaultView>, meta: Meta) -> (
    Option<DefaultView>,
    Seq<DiagnosticView>,
)
    recommends
        meta.spec_path().is(DEFAULT@),
{
    let path = meta.spec_path();
    let repeated = if current is Some {
        seq![duplicate_error(DEFAULT@, path.location)]
    } else {
        Seq::empty()
    };
    match meta {
        Meta::Path(_) => (or_else(current, Some(DefaultView::Standard)), repeated),
        Meta::NameValue(_, lit) => {
            let errors = crate::meta::expr_path_errors(lit.string_value(), lit.location, DEFAULT@);
            match lit.string_value() {
                Some(text) => if crate::meta::is_expr_path(text) {
                    (or_else(current, Some(DefaultView::Path(text))), repeated)
                } else {
                    (current, errors)
                },
                None => (current, errors),
            }
        },
        Meta::List(_) => (current, seq![expected_value(DEFAULT@, path.location)]),
    }
}

/// Takes in an entry under the keyword `default`.
pub(crate) fn default_entry(default: &mut Attr<Default>, ctx: &mut Ctx, meta: &Meta)
    requires
        old(default).name.text() == DEFAULT@,
    ensures
        final(default).name == old(default).name,
        default_option_view(final(default).value) == default_step(
            default_option_view(old(default).value),
            *meta,
        ).0,
        final(ctx)@ == old(ctx)@ + default_step(default_option_view(old(default).value), *meta).1,
{
    let ghost step = default_step(default_option_view(default.value), *meta);
    match meta {
        Meta::Path(path) => {
            default.set(ctx, path.location, Default::Standard);
            assert(ctx@ =~= old(ctx)@ + step.1);
        },
        Meta::NameValue(path, lit) => {
            match lit.to_expr_path(ctx, Symbol(DEFAULT)) {
                Ok(text) => {
                    default.set(ctx, path.location, Default::Path(text));
                    assert(ctx@ =~= old(ctx)@ + step.1);
                },
                Err(_) => {},
            }
        },
        Meta::List(list) => {
            report_expected_value(ctx, DEFAULT, list.path.location);
            assert(ctx@ =~= old(ctx)@ + step.1);
        },
    }
}

/// The casing rules collected so far: one for encoding, one for decoding.
pub struct RulesState {
    pub ser: Option<RenameRule>,
    pub de: Option<RenameRule>,
}

/// The error for a `rename_all` value that names no rule.
pub open spec fn unknown_rule(name: Seq<char>, location: Location) -> DiagnosticView {
    DiagnosticView {
        kind: ErrorKind::UnknownRenameRule,
        message: unknown_rule_message(name),
        location,
    }
}

/// What one side of `rename_all` does with the value given for it: a known
/// rule is placed unless the side has one already, which is a
/// `DuplicateAttribute` error; an unknown rule is an `UnknownRenameRule`
/// error.
pub open spec fn rule_side(
    current: Option<RenameRule>,
    given: Option<Seq<char>>,
    location: Location,
) -> (Option<RenameRule>, Seq<DiagnosticView>) {
    match given {
        None => (current, Seq::empty()),
        Some(name) => match rule_named(name) {
            Some(rule) => (
                or_else(current, Some(rule)),
                if current is Some {
                    seq![duplicate_error(RENAME_ALL@, location)]
                } else {
                    Seq::empty()
                },
            ),
            None => (current, seq![unknown_rule(name, location)]),
        },
    }
}

impl RulesState {
    /// No rule given yet.
    pub open spec fn initial() -> RulesState {
        RulesState { ser: None, de: None }
    }

    /// The rules that the state freezes into: a side without a rule leaves
    /// names unchanged.
    pub open spec fn rules(self) -> RenameAllRules {
        RenameAllRules {
            serialize: match self.ser {
                Some(rule) => rule,
                None => RenameRule::Unchanged,
            },
            deserialize: match self.de {
                Some(rule) => rule,
                None => RenameRule::Unchanged,
            },
        }
    }

    /// What an entry under the keyword `rename_all` does, and what it
    /// reports: `rename_all = "rule"` gives the rule to both sides,
    /// `rename_all(serialize = ..., deserialize = ...)` to each side its own.
    pub open spec fn step(self, meta: Meta) -> (RulesState, Seq<DiagnosticView>)
        recommends
            meta.spec_path().is(RENAME_ALL@),
    {
        let path = meta.spec_path();
        match meta {
            Meta::NameValue(_, lit) => match lit.string_value() {
                Some(name) => match rule_named(name) {
                    Some(rule) => {
                        let ser = rule_side(self.ser, Some(name), path.location);
                        let de = rule_side(self.de, Some(name), path.location);
                        (RulesState { ser: ser.0, de: de.0 }, ser.1 + de.1)
                    },
                    None => (self, seq![unknown_rule(name, lit.location)]),
                },
                None => (self, seq![not_a_string(RENAME_ALL@, RENAME_ALL@, lit)]),
            },
            Meta::List(list) => {
                let read = renames_of(list.nested@);
                match read.0 {
                    Some((ser_name, de_name)) => {
                        let ser = rule_side(self.ser, ser_name, path.location);
                        let de = rule_side(self.de, de_name, path.location);
                        (RulesState { ser: ser.0, de: de.0 }, read.1 + ser.1 + de.1)
                    },
                    None => (self, read.1),
                }
            },
            Meta::Path(_) => (self, seq![expected_value(RENAME_ALL@, path.location)]),
        }
    }
}

/// The accumulators for the casing rules.
pub(crate) struct RulesBuilder {
    pub(crate) ser: Attr<RenameRule>,
    pub(crate) de: Attr<RenameRule>,
}

impl View for RulesBuilder {
    type V = RulesState;

    closed spec fn view(&self) -> RulesState {
        RulesState { ser: self.ser.value, de: self.de.value }
    }
}

fn rule_side_entry(
    side: &mut Attr<RenameRule>,
    ctx: &mut Ctx,
    given: Option<String>,
    location: Location,
)
    requires
        old(side).name.text() == RENAME_ALL@,
    ensures
        final(side).name == old(side).name,
        final(side).value == rule_side(old(side).value, option_view(given), location).0,
        final(ctx)@ == old(ctx)@ + rule_side(old(side).value, option_view(given), location).1,
{
    let ghost step = rule_side(side.value, option_view(given), location);
    match given {
        None => {
            assert(ctx@ =~= old(ctx)@ + step.1);
        },
        Some(name) => match RenameRule::from_str(name.as_str()) {
            Ok(rule) => {
                side.set(ctx, location, rule);
                assert(ctx@ =~= old(ctx)@ + step.1);
            },
            Err(message) => {
                ctx.error_spanned_by(location, ErrorKind::UnknownRenameRule, message);
                assert(ctx@ =~= old(ctx)@ + step.1);
            },
        },
    }
}

impl RulesBuilder {
    /// The accumulators stand for the keyword `rename_all`.
    pub(crate) closed spec fn well_formed(&self) -> bool {
        self.ser.name.text() == RENAME_ALL@ && self.de.name.text() == RENAME_ALL@
    }

    /// Accumulators that hold nothing.
    pub(crate) fn new() -> (b: RulesBuilder)
        ensures
            b@ == RulesState::initial(),
            b.well_formed(),
    {
        RulesBuilder { ser: Attr::new(Symbol(RENAME_ALL)), de: Attr::new(Symbol(RENAME_ALL)) }
    }

    /// Takes in an entry under the keyword `rename_all`.
    pub(crate) fn entry(&mut self, ctx: &mut Ctx, meta: &Meta)
        requires
            old(self).well_formed(),
        ensures
            final(self).well_formed(),
            final(self)@ == old(self)@.step(*meta).0,
            final(ctx)@ == old(ctx)@ + old(self)@.step(*meta).1,
    {
        let ghost step = self@.step(*meta);
        let path = meta.path();
        match meta {
            Meta::NameValue(_, lit) => {
                match lit.to_lit_str(ctx, Symbol(RENAME_ALL)) {
                    Ok(name) => {
                        match RenameRule::from_str(name.as_str()) {
                            Ok(rule) => {
                                self.ser.set(ctx, path.location, rule);
                                self.de.set(ctx, path.location, rule);
                                assert(ctx@ =~= old(ctx)@ + step.1);
                            },
                            Err(message) => {
                                ctx.error_spanned_by(
                                    lit.location,
                                    ErrorKind::UnknownRenameRule,
                                    message,
                                );
                                assert(ctx@ =~= old(ctx)@ + step.1);
                            },
                        }
                    },
                    Err(_) => {
                        assert(ctx@ =~= old(ctx)@ + step.1);
                    },
                }
            },
            Meta::List(list) => {
                match list.get_renames(ctx) {
                    Ok((ser, de)) => {
                        rule_side_entry(&mut self.ser, ctx, ser, path.location);
                        rule_side_entry(&mut self.de, ctx, de, path.location);
                        assert(ctx@ =~= old(ctx)@ + step.1);
                    },
                    Err(_) => {},
                }
            },
            Meta::Path(_) => {
                report_expected_value(ctx, RENAME_ALL, path.location);
                assert(ctx@ =~= old(ctx)@ + step.1);
            },
        }
    }

    /// Ends the accumulation.
    pub(crate) fn finish(self) -> (rules: RenameAllRules)
        ensures
            rules == self@.rules(),
    {
        RenameAllRules {
            serialize: match self.ser.get() {
                Some(rule) => rule,
                None => RenameRule::Unchanged,
            },
            deserialize: match self.de.get() {
                Some(rule) => rule,
                None => RenameRule::Unchanged,
            },
        }
    }
}

} // verus!
