//! Enum variants and their annotations.

use crate::attr::{Attr, BoolAttr};
use crate::casing::RenameAllRules;
use crate::common::{
    attribute_errors, default_entry, default_option_view, default_step, entries_of,
    fold_attributes, fold_entries, report_unexpected_literal, report_unknown_attribute,
    unexpected_literal, unexpected_value, unknown_attribute, DefaultView, NameBuilder, NameState,
    RulesBuilder, RulesState,
};
use crate::diag::{Ctx, DiagnosticView, Location};
use crate::field::{flag_entry, renamed_by_rules, Field, FieldSource};
use crate::meta::{Attribute, Meta, NestedMeta};
use crate::name::{resolved, Name, NameView};
use crate::symbol::{
    Symbol, ALIAS, DEFAULT, RENAME, RENAME_ALL, SKIP, SKIP_DESERIALIZING, SKIP_SERIALIZING,
};
use crate::text::{strip_raw_prefix, unraw};
use vstd::prelude::*;
use vstd::string::*;

verus! {

/// The fields of a struct or of a variant, as they are declared.
#[derive(Debug)]
pub enum FieldsSource {
    /// `{ a: A, b: B }`
    Named(Vec<FieldSource>),
    /// `(A, B)`
    Unnamed(Vec<FieldSource>),
    /// No fields.
    Unit,
}

/// An enum variant as it is declared.
#[derive(Debug)]
pub struct VariantSource {
    pub ident: String,
    pub attrs: Vec<Attribute>,
    pub fields: FieldsSource,
    pub location: Location,
}

/// How the fields of a struct or variant are written.
#[derive(Clone, Copy, Debug, PartialEq, Eq, Structural)]
pub enum Style {
    /// Named fields.
    Struct,
    /// Several positional fields.
    Tuple,
    /// One positional field.
    Newtype,
    /// No fields.
    Unit,
}

/// The validated annotations of one enum variant.
#[derive(Clone, Debug)]
pub struct VariantAttr {
    pub name: Name,
    pub skip_deserializing: bool,
    pub skip_serializing: bool,
    /// The casing rules for the variant's own fields.
    pub rename_all_rules: RenameAllRules,
}

/// A `VariantAttr` as a plain value.
pub struct VariantAttrView {
    pub name: NameView,
    pub skip_deserializing: bool,
    pub skip_serializing: bool,
    pub rename_all_rules: RenameAllRules,
}

impl View for VariantAttr {
    type V = VariantAttrView;

    open spec fn view(&self) -> VariantAttrView {
        VariantAttrView {
            name: self.name@,
            skip_deserializing: self.skip_deserializing,
            skip_serializing: self.skip_serializing,
            rename_all_rules: self.rename_all_rules,
        }
    }
}

/// A variant of an enum.
#[derive(Debug)]
pub struct Variant<'a> {
    pub ident: String,
    pub attrs: VariantAttr,
    pub style: Style,
    pub fields: Vec<Field<'a>>,
    pub inner: &'a VariantSource,
}

/// What the annotations of a variant have said so far.
pub struct VariantState {
    pub name: NameState,
    pub default: Option<DefaultView>,
    pub skip_deserializing: bool,
    pub skip_serializing: bool,
    pub rules: RulesState,
}

impl VariantState {
    /// Nothing said yet.
    pub open spec fn initial() -> VariantState {
        VariantState {
            name: NameState::initial(),
            default: None,
            skip_deserializing: false,
            skip_serializing: false,
            rules: RulesState::initial(),
        }
    }
}

/// Whether `meta` stands under one of the keywords of a variant.
pub open spec fn is_variant_keyword(meta: Meta) -> bool {
    let path = meta.spec_path();
    path.is(RENAME@) || path.is(ALIAS@) || path.is(DEFAULT@) || path.is(SKIP@) || path.is(
        SKIP_DESERIALIZING@,
    ) || path.is(SKIP_SERIALIZING@) || path.is(RENAME_ALL@)
}

/// What one annotation entry does to a variant's state, and what it reports.
///
/// `rename` and `alias` name the variant, `skip`, `skip_serializing` and
/// `skip_deserializing` set its flags, `rename_all` gives the casing rules of
/// its fields. A keyword outside this set is an `UnknownAttribute` error, a
/// lone literal a `MalformedAttribute` error; neither changes the state.
pub open spec fn variant_step(state: VariantState, entry: NestedMeta) -> (
    VariantState,
    Seq<DiagnosticView>,
) {
    match entry {
        NestedMeta::Lit(lit) => (state, seq![unexpected_literal(lit.location)]),
        NestedMeta::Meta(meta) => {
            let path = meta.spec_path();
            let misplaced_value = |keyword: Seq<char>| seq![unexpected_value(keyword, path.location)];
            if path.is(RENAME@) || path.is(ALIAS@) {
                let named = state.name.step(meta);
                (VariantState { name: named.0, ..state }, named.1)
            } else if path.is(DEFAULT@) {
                let given = default_step(state.default, meta);
                (VariantState { default: given.0, ..state }, given.1)
            } else if path.is(SKIP@) {
                if meta is Path {
                    (
                        VariantState { skip_serializing: true, skip_deserializing: true, ..state },
                        Seq::empty(),
                    )
                } else {
                    (state, misplaced_value(SKIP@))
                }
            } else if path.is(SKIP_DESERIALIZING@) {
                if meta is Path {
                    (VariantState { skip_deserializing: true, ..state }, Seq::empty())
                } else {
                    (state, misplaced_value(SKIP_DESERIALIZING@))
                }
            } else if path.is(SKIP_SERIALIZING@) {
                if meta is Path {
                    (VariantState { skip_serializing: true, ..state }, Seq::empty())
                } else {
                    (state, misplaced_value(SKIP_SERIALIZING@))
                }
            } else if path.is(RENAME_ALL@) {
                let ruled = state.rules.step(meta);
                (VariantState { rules: ruled.0, ..state }, ruled.1)
            } else {
                (state, seq![unknown_attribute("field"@, path.source_text(), path.location)])
            }
        },
    }
}

/// `variant_step` as a value.
pub open spec fn variant_stepper() -> spec_fn(VariantState, NestedMeta) -> (
    VariantState,
    Seq<DiagnosticView>,
) {
    |state: VariantState, entry: NestedMeta| variant_step(state, entry)
}

/// What the attributes of a variant say, and what reading them reports.
pub open spec fn variant_parse(attrs: Seq<Attribute>) -> (VariantState, Seq<DiagnosticView>) {
    fold_attributes(variant_stepper(), VariantState::initial(), attrs)
}

/// The record that a variant's state freezes into.
pub open spec fn variant_attr_of(ident: Seq<char>, state: VariantState) -> VariantAttrView {
    VariantAttrView {
        name: resolved(unraw(ident), state.name.ser, state.name.de, Some(state.name.aliases)),
        skip_deserializing: state.skip_deserializing,
        skip_serializing: state.skip_serializing,
        rename_all_rules: state.rules.rules(),
    }
}

struct VariantBuilder {
    name: NameBuilder,
    default: Attr<crate::common::Default>,
    skip_deserializing: BoolAttr,
    skip_serializing: BoolAttr,
    rules: RulesBuilder,
}

impl View for VariantBuilder {
    type V = VariantState;

    closed spec fn view(&self) -> VariantState {
        VariantState {
            name: self.name@,
            default: default_option_view(self.default.value),
            skip_deserializing: self.skip_deserializing.is_set(),
            skip_serializing: self.skip_serializing.is_set(),
            rules: self.rules@,
        }
    }
}

impl VariantBuilder {
    spec fn well_formed(&self) -> bool {
        self.name.well_formed() && self.default.name.text() == DEFAULT@
            && self.rules.well_formed()
    }

    fn new() -> (b: VariantBuilder)
        ensures
            b@ == VariantState::initial(),
            b.well_formed(),
    {
        VariantBuilder {
            name: NameBuilder::new(),
            default: Attr::new(Symbol(DEFAULT)),
            skip_deserializing: BoolAttr::new(Symbol(SKIP_DESERIALIZING)),
            skip_serializing: BoolAttr::new(Symbol(SKIP_SERIALIZING)),
            rules: RulesBuilder::new(),
        }
    }

    fn entry(&mut self, ctx: &mut Ctx, entry: &NestedMeta)
        requires
            old(self).well_formed(),
        ensures
            final(self).well_formed(),
            final(self)@ == variant_step(old(self)@, *entry).0,
            final(ctx)@ == old(ctx)@ + variant_step(old(self)@, *entry).1,
    {
        match entry {
            NestedMeta::Lit(lit) => {
                report_unexpected_literal(ctx, lit.location);
                assert(ctx@ =~= old(ctx)@ + variant_step(old(self)@, *entry).1);
            },
            NestedMeta::Meta(meta) => {
                let path = meta.path();
                if path.is_ident(RENAME) || path.is_ident(ALIAS) {
                    self.name.entry(ctx, meta);
                } else if path.is_ident(DEFAULT) {
                    default_entry(&mut self.default, ctx, meta);
                } else if path.is_ident(SKIP) {
                    flag_entry(&mut self.skip_serializing, ctx, meta, SKIP);
                    match meta {
                        Meta::Path(p) => {
                            self.skip_deserializing.set_true(p.location);
                        },
                        _ => {},
                    }
                } else if path.is_ident(SKIP_DESERIALIZING) {
                    flag_entry(&mut self.skip_deserializing, ctx, meta, SKIP_DESERIALIZING);
                } else if path.is_ident(SKIP_SERIALIZING) {
                    flag_entry(&mut self.skip_serializing, ctx, meta, SKIP_SERIALIZING);
                } else if path.is_ident(RENAME_ALL) {
                    self.rules.entry(ctx, meta);
                } else {
                    report_unknown_attribute(ctx, "field", path);
                    assert(ctx@ =~= old(ctx)@ + variant_step(old(self)@, *entry).1);
                }
            },
        }
    }
}

impl VariantAttr {
    /// Reads the `#[redis(...)]` attributes of a variant into its validated
    /// record. Every entry is read, in source order; what is wrong with one
    /// is recorded in `ctx`, and reading goes on.
    pub fn from_ast(ctx: &mut Ctx, variant: &VariantSource) -> (attr: VariantAttr)
        ensures
            attr@ == variant_attr_of(variant.ident@, variant_parse(variant.attrs@).0),
            final(ctx)@ == old(ctx)@ + variant_parse(variant.attrs@).1,
    {
        let mut b = VariantBuilder::new();
        let mut i: usize = 0;
        assert(variant.attrs@.take(0) =~= Seq::<Attribute>::empty());
        assert(ctx@ =~= old(ctx)@ + Seq::<DiagnosticView>::empty());
        while i < variant.attrs.len()
            invariant
                i <= variant.attrs.len(),
                b.well_formed(),
                b@ == variant_parse(variant.attrs@.take(i as int)).0,
                ctx@ == old(ctx)@ + variant_parse(variant.attrs@.take(i as int)).1,
            decreases variant.attrs.len() - i,
        {
            let ghost before = variant_parse(variant.attrs@.take(i as int));
            let ghost attr = variant.attrs@[i as int];
            assert(variant.attrs@.take(i + 1).drop_last() =~= variant.attrs@.take(i as int));
            assert(variant.attrs@.take(i + 1).last() == attr);
            match entries_of(ctx, &variant.attrs[i]) {
                None => {
                    assert(ctx@ =~= old(ctx)@ + (before.1 + attribute_errors(attr)
                        + Seq::<DiagnosticView>::empty()));
                },
                Some(entries) => {
                    let mut j: usize = 0;
                    assert(entries@.take(0) =~= Seq::<NestedMeta>::empty());
                    assert(ctx@ =~= old(ctx)@ + (before.1 + attribute_errors(attr)
                        + Seq::<DiagnosticView>::empty()));
                    while j < entries.len()
                        invariant
                            j <= entries.len(),
                            b.well_formed(),
                            b@ == fold_entries(
                                variant_stepper(),
                                before.0,
                                entries@.take(j as int),
                            ).0,
                            ctx@ == old(ctx)@ + (before.1 + attribute_errors(attr) + fold_entries(
                                variant_stepper(),
                                before.0,
                                entries@.take(j as int),
                            ).1),
                        decreases entries.len() - j,
                    {
                        let ghost done = fold_entries(
                            variant_stepper(),
                            before.0,
                            entries@.take(j as int),
                        );
                        assert(entries@.take(j + 1).drop_last() =~= entries@.take(j as int));
                        assert(entries@.take(j + 1).last() == entries@[j as int]);
                        b.entry(ctx, &entries[j]);
                        assert(ctx@ =~= old(ctx)@ + (before.1 + attribute_errors(attr) + (done.1
                            + variant_step(done.0, entries@[j as int]).1)));
                        j = j + 1;
                    }
                    assert(entries@.take(entries.len() as int) =~= entries@);
                },
            }
            i = i + 1;
        }
        assert(variant.attrs@.take(variant.attrs.len() as int) =~= variant.attrs@);
        let VariantBuilder { name, default, skip_deserializing, skip_serializing, rules } = b;
        VariantAttr {
            name: name.finish(strip_raw_prefix(variant.ident.as_str())),
            skip_serializing: skip_serializing.get(),
            skip_deserializing: skip_deserializing.get(),
            rename_all_rules: rules.finish(),
        }
    }

    /// Puts the container's casing rules on the sides of the name that were
    /// not renamed explicitly.
    pub fn rename_by_rules(&mut self, rules: &RenameAllRules)
        ensures
            final(self)@ == (VariantAttrView {
                name: renamed_by_rules(old(self)@.name, *rules),
                ..old(self)@
            }),
    {
        if !self.name.serialize_renamed {
            self.name.serialize = rules.serialize.apply_to_variant(self.name.serialize.as_str());
        }
        if !self.name.deserialize_renamed {
            self.name.deserialize = rules.deserialize.apply_to_variant(
                self.name.deserialize.as_str(),
            );
        }
    }
}

/// A keyword outside the set of a variant's keywords is reported once, as
/// `UnknownAttribute` with the keyword as it stands in the source, and
/// changes nothing.
pub proof fn lemma_unknown_variant_keyword(state: VariantState, meta: Meta)
    requires
        !is_variant_keyword(meta),
    ensures
        variant_step(state, NestedMeta::Meta(meta)) == (
            state,
            seq![
                unknown_attribute(
                    "field"@,
                    meta.spec_path().source_text(),
                    meta.spec_path().location,
                ),
            ],
        ),
{
}

/// Gives the fields of a struct with named fields.
pub trait FieldsExt {
    /// The fields, where they are named.
    spec fn named_fields(&self) -> Option<Seq<FieldSource>>;

    /// The named fields. To ask for them of positional fields or of a unit is
    /// a mistake of the caller.
    fn named(&self) -> (fields: &Vec<FieldSource>)
        requires
            self.named_fields() is Some,
        ensures
            self.named_fields() == Some(fields@),
    ;
}

impl FieldsExt for FieldsSource {
    open spec fn named_fields(&self) -> Option<Seq<FieldSource>> {
        match self {
            FieldsSource::Named(fields) => Some(fields@),
            _ => None,
        }
    }

    fn named(&self) -> (fields: &Vec<FieldSource>) {
        match self {
            FieldsSource::Named(fields) => fields,
            _ => vstd::pervasive::unreached(),
        }
    }
}

impl FieldsSource {
    /// Tells whether the fields are named.
    pub fn is_named(&self) -> (named: bool)
        ensures
            named == self.named_fields() is Some,
    {
        match self {
            FieldsSource::Named(_) => true,
            _ => false,
        }
    }
}

} // verus!
