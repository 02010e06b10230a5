//! The annotations of a struct or enum.

use crate::attr::{duplicate_error, Attr};
use crate::casing::RenameAllRules;
use crate::common::{
    attribute_errors, default_option_view, entries_of, expected_value, fold_attributes,
    fold_entries, or_else, report_expected_value, report_unexpected_literal,
    report_unknown_attribute, unexpected_literal, unknown_attribute, DefaultView, RulesBuilder,
    RulesState,
};
use crate::derive::{model_named, unrecognized_model, Derive};
use crate::diag::{Ctx, DiagnosticView, ErrorKind, Location};
use crate::meta::{expr_path_errors, is_expr_path, Attribute, LitExt, Meta, NestedMeta};
use crate::metalist::not_a_string;
use crate::name::option_view;
use crate::symbol::{
    Symbol, DEFAULT, KEY, MODEL_TYPE, PREFIX_KEY, PRIMARY_KEY, RENAME_ALL,
};
use crate::variant::{FieldsSource, VariantSource};
use vstd::prelude::*;
use vstd::string::*;

verus! {

/// What a declaration holds.
#[derive(Debug)]
pub enum DataSource {
    Struct(FieldsSource),
    Enum(Vec<VariantSource>),
    Union,
}

/// An annotated declaration, as plain values.
#[derive(Debug)]
pub struct DeriveInput {
    /// The name of the struct or enum.
    pub ident: String,
    pub attrs: Vec<Attribute>,
    pub data: DataSource,
    pub location: Location,
}

impl DeriveInput {
    /// The declaration is a struct with named fields.
    pub open spec fn named_struct(&self) -> bool {
        self.data matches DataSource::Struct(FieldsSource::Named(_))
    }

    /// Tells whether the declaration is a struct with named fields.
    pub fn is_named_struct(&self) -> (named: bool)
        ensures
            named == self.named_struct(),
    {
        match &self.data {
            DataSource::Struct(FieldsSource::Named(_)) => true,
            _ => false,
        }
    }
}

/// The validated annotations of a struct or enum.
#[derive(Clone, Debug)]
pub struct ContainerAttr {
    /// The prefix of the storage keys, or the name of the stream.
    pub prefix_key: String,
    /// The name of the field that holds the primary key.
    pub primary_key: String,
    /// What to use for fields that are missing.
    pub default: crate::common::Default,
    pub rename_all_rules: RenameAllRules,
    /// The storage model.
    pub model_type: Derive,
    /// Whether a field is marked `flatten`.
    pub has_flatten: bool,
}

/// A `ContainerAttr` as a plain value.
pub struct ContainerAttrView {
    pub prefix_key: Seq<char>,
    pub primary_key: Seq<char>,
    pub default: DefaultView,
    pub rename_all_rules: RenameAllRules,
    pub model_type: Derive,
    pub has_flatten: bool,
}

impl View for ContainerAttr {
    type V = ContainerAttrView;

    open spec fn view(&self) -> ContainerAttrView {
        ContainerAttrView {
            prefix_key: self.prefix_key@,
            primary_key: self.primary_key@,
            default: self.default@,
            rename_all_rules: self.rename_all_rules,
            model_type: self.model_type,
            has_flatten: self.has_flatten,
        }
    }
}

/// What the annotations of a container have said so far.
pub struct ContainerState {
    pub default: Option<DefaultView>,
    pub primary_key: Option<Seq<char>>,
    pub prefix_key: Option<Seq<char>>,
    pub model_type: Option<Derive>,
    pub rules: RulesState,
}

impl ContainerState {
    /// Nothing said yet.
    pub open spec fn initial() -> ContainerState {
        ContainerState {
            default: None,
            primary_key: None,
            prefix_key: None,
            model_type: None,
            rules: RulesState::initial(),
        }
    }
}

/// The message for a `default` on anything but a struct with named fields;
/// `valued` tells whether it was written `default = "..."`.
pub open spec fn default_placement_message(valued: bool) -> Seq<char> {
    if valued {
        "#[redis(default = \"...\")] can only be used on structs with named fields"@
    } else {
        "#[redis(default)] can only be used on structs with named fields"@
    }
}

/// The error for a `default` on anything but a struct with named fields.
pub open spec fn default_placement(valued: bool, location: Location) -> DiagnosticView {
    DiagnosticView {
        kind: ErrorKind::UnsupportedDefaultPlacement,
        message: default_placement_message(valued),
        location,
    }
}

/// What an entry under `default` does on a container: as on a field where the
/// container is a struct with named fields (`named`), and an
/// `UnsupportedDefaultPlacement` error at the declaration anywhere else.
pub open spec fn container_default_step(
    current: Option<DefaultView>,
    meta: Meta,
    named: bool,
    declared_at: Location,
) -> (Option<DefaultView>, Seq<DiagnosticView>) {
    let path = meta.spec_path();
    let repeated = if current is Some {
        seq![duplicate_error(DEFAULT@, path.location)]
    } else {
        Seq::empty()
    };
    match meta {
        Meta::Path(_) => if named {
            (or_else(current, Some(DefaultView::Standard)), repeated)
        } else {
            (current, seq![default_placement(false, declared_at)])
        },
        Meta::NameValue(_, lit) => match lit.string_value() {
            Some(text) => if !is_expr_path(text) {
                (current, expr_path_errors(lit.string_value(), lit.location, DEFAULT@))
            } else if named {
                (or_else(current, Some(DefaultView::Path(text))), repeated)
            } else {
                (current, seq![default_placement(true, declared_at)])
            },
            None => (current, expr_path_errors(lit.string_value(), lit.location, DEFAULT@)),
        },
        Meta::List(_) => (current, seq![expected_value(DEFAULT@, path.location)]),
    }
}

/// What an entry under a keyword that takes a string does: `keyword = "text"`
/// places the text unless one is placed already, which is a
/// `DuplicateAttribute` error under the name `attr`; a value that is no
/// string is an `InvalidLiteralType` error, a missing value an
/// `UnexpectedAttributeValue` error.
pub open spec fn text_step(
    current: Option<Seq<char>>,
    meta: Meta,
    keyword: Seq<char>,
    attr: Seq<char>,
) -> (Option<Seq<char>>, Seq<DiagnosticView>) {
    let path = meta.spec_path();
    match meta {
        Meta::NameValue(_, lit) => match lit.string_value() {
            Some(text) => (
                or_else(current, Some(text)),
                if current is Some {
                    seq![duplicate_error(attr, path.location)]
                } else {
                    Seq::empty()
                },
            ),
            None => (current, seq![not_a_string(keyword, keyword, lit)]),
        },
        _ => (current, seq![expected_value(keyword, path.location)]),
    }
}

/// What an entry under `model_type` does: `model_type = "HashModel"` places
/// the hash model; any other string is an `UnrecognizedModelType` error.
pub open spec fn model_step(current: Option<Derive>, meta: Meta) -> (
    Option<Derive>,
    Seq<DiagnosticView>,
) {
    let path = meta.spec_path();
    match meta {
        Meta::NameValue(_, lit) => match lit.string_value() {
            Some(text) => match model_named(text) {
                Some(model) => (
                    or_else(current, Some(model)),
                    if current is Some {
                        seq![duplicate_error(MODEL_TYPE@, path.location)]
                    } else {
                        Seq::empty()
                    },
                ),
                None => (current, seq![unrecognized_model(lit.location)]),
            },
            None => (current, seq![not_a_string(MODEL_TYPE@, MODEL_TYPE@, lit)]),
        },
        _ => (current, seq![expected_value(MODEL_TYPE@, path.location)]),
    }
}

/// Whether `meta` stands under one of the keywords of a container.
pub open spec fn is_container_keyword(meta: Meta) -> bool {
    let path = meta.spec_path();
    path.is(DEFAULT@) || path.is(PREFIX_KEY@) || path.is(KEY@) || path.is(PRIMARY_KEY@)
        || path.is(MODEL_TYPE@) || path.is(RENAME_ALL@)
}

/// What one annotation entry does to a container's state, and what it
/// reports.
///
/// `default` gives the default of missing fields, `prefix_key` (or `key`) the
/// key prefix, `primary_key` the name of the primary-key field, `model_type`
/// the storage model, `rename_all` the casing rules. A keyword outside this
/// set is an `UnknownAttribute` error, a lone literal a `MalformedAttribute`
/// error; neither changes the state.
pub open spec fn container_step(
    state: ContainerState,
    entry: NestedMeta,
    named: bool,
    declared_at: Location,
) -> (ContainerState, Seq<DiagnosticView>) {
    match entry {
        NestedMeta::Lit(lit) => (state, seq![unexpected_literal(lit.location)]),
        NestedMeta::Meta(meta) => {
            let path = meta.spec_path();
            if path.is(DEFAULT@) {
                let given = container_default_step(state.default, meta, named, declared_at);
                (ContainerState { default: given.0, ..state }, given.1)
            } else if path.is(PREFIX_KEY@) {
                let given = text_step(state.prefix_key, meta, PREFIX_KEY@, PREFIX_KEY@);
                (ContainerState { prefix_key: given.0, ..state }, given.1)
            } else if path.is(KEY@) {
                let given = text_step(state.prefix_key, meta, KEY@, PREFIX_KEY@);
                (ContainerState { prefix_key: given.0, ..state }, given.1)
            } else if path.is(PRIMARY_KEY@) {
                let given = text_step(state.primary_key, meta, PRIMARY_KEY@, PRIMARY_KEY@);
                (ContainerState { primary_key: given.0, ..state }, given.1)
            } else if path.is(MODEL_TYPE@) {
                let given = model_step(state.model_type, meta);
                (ContainerState { model_type: given.0, ..state }, given.1)
            } else if path.is(RENAME_ALL@) {
                let ruled = state.rules.step(meta);
                (ContainerState { rules: ruled.0, ..state }, ruled.1)
            } else {
                (state, seq![unknown_attribute("container"@, path.source_text(), path.location)])
            }
        },
    }
}

/// `container_step` as a value, for a declaration at `declared_at` that is a
/// struct with named fields or not (`named`).
pub open spec fn container_stepper(named: bool, declared_at: Location) -> spec_fn(
    ContainerState,
    NestedMeta,
) -> (ContainerState, Seq<DiagnosticView>) {
    |state: ContainerState, entry: NestedMeta| container_step(state, entry, named, declared_at)
}

/// What the attributes of a container say, and what reading them reports.
pub open spec fn container_parse(input: DeriveInput) -> (ContainerState, Seq<DiagnosticView>) {
    fold_attributes(
        container_stepper(input.named_struct(), input.location),
        ContainerState::initial(),
        input.attrs@,
    )
}

/// The record that a container's state freezes into: the primary key is `id`
/// and the key prefix the container's own name unless the annotations say
/// otherwise; the model is the hash model.
pub open spec fn container_attr_of(ident: Seq<char>, state: ContainerState) -> ContainerAttrView {
    ContainerAttrView {
        prefix_key: match state.prefix_key {
            Some(key) => key,
            None => ident,
        },
        primary_key: match state.primary_key {
            Some(key) => key,
            None => "id"@,
        },
        default: match state.default {
            Some(d) => d,
            None => DefaultView::Missing,
        },
        rename_all_rules: state.rules.rules(),
        model_type: match state.model_type {
            Some(model) => model,
            None => Derive::HashModel,
        },
        has_flatten: false,
    }
}

struct ContainerBuilder {
    default: Attr<crate::common::Default>,
    primary_key: Attr<String>,
    prefix_key: Attr<String>,
    model_type: Attr<Derive>,
    rules: RulesBuilder,
}

impl View for ContainerBuilder {
    type V = ContainerState;

    closed spec fn view(&self) -> ContainerState {
        ContainerState {
            default: default_option_view(self.default.value),
            primary_key: option_view(self.primary_key.value),
            prefix_key: option_view(self.prefix_key.value),
            model_type: self.model_type.value,
            rules: self.rules@,
        }
    }
}

fn text_entry(attr: &mut Attr<String>, ctx: &mut Ctx, meta: &Meta, keyword: &'static str)
    ensures
        final(attr).name == old(attr).name,
        option_view(final(attr).value) == text_step(
            option_view(old(attr).value),
            *meta,
            keyword@,
            old(attr).name.text(),
        ).0,
        final(ctx)@ == old(ctx)@ + text_step(
            option_view(old(attr).value),
            *meta,
            keyword@,
            old(attr).name.text(),
        ).1,
{
    let ghost step = text_step(option_view(attr.value), *meta, keyword@, attr.name.text());
    match meta {
        Meta::NameValue(path, lit) => {
            match lit.to_lit_str(ctx, Symbol(keyword)) {
                Ok(text) => {
                    attr.set(ctx, path.location, text);
                    assert(ctx@ =~= old(ctx)@ + step.1);
                },
                Err(_) => {
                    assert(ctx@ =~= old(ctx)@ + step.1);
                },
            }
        },
        _ => {
            report_expected_value(ctx, keyword, meta.path().location);
            assert(ctx@ =~= old(ctx)@ + step.1);
        },
    }
}

fn report_default_placement(ctx: &mut Ctx, valued: bool, location: Location)
    ensures
        final(ctx)@ == old(ctx)@.push(default_placement(valued, location)),
{
    let message = if valued {
        String::from_str(
            "#[redis(default = \"...\")] can only be used on structs with named fields",
        )
    } else {
        String::from_str("#[redis(default)] can only be used on structs with named fields")
    };
    ctx.error_spanned_by(location, ErrorKind::UnsupportedDefaultPlacement, message);
}

impl ContainerBuilder {
    spec fn well_formed(&self) -> bool {
        self.default.name.text() == DEFAULT@ && self.primary_key.name.text() == PRIMARY_KEY@
            && self.prefix_key.name.text() == PREFIX_KEY@ && self.model_type.name.text()
            == MODEL_TYPE@ && self.rules.well_formed()
    }

    fn new() -> (b: ContainerBuilder)
        ensures
            b@ == ContainerState::initial(),
            b.well_formed(),
    {
        ContainerBuilder {
            default: Attr::new(Symbol(DEFAULT)),
            primary_key: Attr::new(Symbol(PRIMARY_KEY)),
            prefix_key: Attr::new(Symbol(PREFIX_KEY)),
            model_type: Attr::new(Symbol(MODEL_TYPE)),
            rules: RulesBuilder::new(),
        }
    }

    fn default_entry(&mut self, ctx: &mut Ctx, meta: &Meta, named: bool, declared_at: Location)
        requires
            old(self).well_formed(),
        ensures
            final(self).well_formed(),
            final(self)@ == (ContainerState {
                default: container_default_step(old(self)@.default, *meta, named, declared_at).0,
                ..old(self)@
            }),
            final(ctx)@ == old(ctx)@ + container_default_step(
                old(self)@.default,
                *meta,
                named,
                declared_at,
            ).1,
    {
        let ghost step = container_default_step(self@.default, *meta, named, declared_at);
        match meta {
            Meta::Path(path) => {
                if named {
                    self.default.set(ctx, path.location, crate::common::Default::Standard);
                } else {
                    report_default_placement(ctx, false, declared_at);
                }
                assert(ctx@ =~= old(ctx)@ + step.1);
            },
            Meta::NameValue(path, lit) => {
                match lit.to_expr_path(ctx, Symbol(DEFAULT)) {
                    Ok(text) => {
                        assert(ctx@ =~= old(ctx)@);
                        if named {
                            self.default.set(
                                ctx,
                                path.location,
                                crate::common::Default::Path(text),
                            );
                        } else {
                            report_default_placement(ctx, true, declared_at);
                        }
                        assert(ctx@ =~= old(ctx)@ + step.1);
                    },
                    Err(_) => {},
                }
            },
            Meta::List(list) => {
                report_expected_value(ctx, DEFAULT, list.path.location);
                assert(ctx@ =~= old(ctx)@ + step.1);
            },
        }
    }

    fn model_entry(&mut self, ctx: &mut Ctx, meta: &Meta)
        requires
            old(self).well_formed(),
        ensures
            final(self).well_formed(),
            final(self)@ == (ContainerState {
                model_type: model_step(old(self)@.model_type, *meta).0,
                ..old(self)@
            }),
            final(ctx)@ == old(ctx)@ + model_step(old(self)@.model_type, *meta).1,
    {
        let ghost step = model_step(self@.model_type, *meta);
        match meta {
            Meta::NameValue(path, lit) => {
                match lit.to_lit_str(ctx, Symbol(MODEL_TYPE)) {
                    Ok(text) => {
                        match Derive::from_lit_str(ctx, text.as_str(), lit.location) {
                            Ok(model) => {
                                self.model_type.set(ctx, path.location, model);
                                assert(ctx@ =~= old(ctx)@ + step.1);
                            },
                            Err(_) => {
                                assert(ctx@ =~= old(ctx)@ + step.1);
                            },
                        }
                    },
                    Err(_) => {
                        assert(ctx@ =~= old(ctx)@ + step.1);
                    },
                }
            },
            _ => {
                report_expected_value(ctx, MODEL_TYPE, meta.path().location);
                assert(ctx@ =~= old(ctx)@ + step.1);
            },
        }
    }

    fn entry(&mut self, ctx: &mut Ctx, entry: &NestedMeta, named: bool, declared_at: Location)
        requires
            old(self).well_formed(),
        ensures
            final(self).well_formed(),
            final(self)@ == container_step(old(self)@, *entry, named, declared_at).0,
            final(ctx)@ == old(ctx)@ + container_step(old(self)@, *entry, named, declared_at).1,
    {
        match entry {
            NestedMeta::Lit(lit) => {
                report_unexpected_literal(ctx, lit.location);
                assert(ctx@ =~= old(ctx)@ + container_step(
                    old(self)@,
                    *entry,
                    named,
                    declared_at,
                ).1);
            },
            NestedMeta::Meta(meta) => {
                let path = meta.path();
                if path.is_ident(DEFAULT) {
                    self.default_entry(ctx, meta, named, declared_at);
                } else if path.is_ident(PREFIX_KEY) {
                    text_entry(&mut self.prefix_key, ctx, meta, PREFIX_KEY);
                } else if path.is_ident(KEY) {
                    text_entry(&mut self.prefix_key, ctx, meta, KEY);
                } else if path.is_ident(PRIMARY_KEY) {
                    text_entry(&mut self.primary_key, ctx, meta, PRIMARY_KEY);
                } else if path.is_ident(MODEL_TYPE) {
                    self.model_entry(ctx, meta);
                } else if path.is_ident(RENAME_ALL) {
                    self.rules.entry(ctx, meta);
                } else {
                    report_unknown_attribute(ctx, "container", path);
                    assert(ctx@ =~= old(ctx)@ + container_step(
                        old(self)@,
                        *entry,
                        named,
                        declared_at,
                    ).1);
                }
            },
        }
    }
}

impl ContainerAttr {
    /// Reads the `#[redis(...)]` attributes of a struct or enum into its
    /// validated record. Every entry is read, in source order; what is wrong
    /// with one is recorded in `ctx`, and reading goes on.
    pub fn from_ast(ctx: &mut Ctx, input: &DeriveInput) -> (attr: ContainerAttr)
        ensures
            attr@ == container_attr_of(input.ident@, container_parse(*input).0),
            final(ctx)@ == old(ctx)@ + container_parse(*input).1,
    {
        let named = input.is_named_struct();
        let declared_at = input.location;
        let ghost stepper = container_stepper(named, declared_at);
        let mut b = ContainerBuilder::new();
        let mut i: usize = 0;
        assert(input.attrs@.take(0) =~= Seq::<Attribute>::empty());
        assert(ctx@ =~= old(ctx)@ + Seq::<DiagnosticView>::empty());
        while i < input.attrs.len()
            invariant
                i <= input.attrs.len(),
                b.well_formed(),
                stepper == container_stepper(named, declared_at),
                b@ == fold_attributes(
                    stepper,
                    ContainerState::initial(),
                    input.attrs@.take(i as int),
                ).0,
                ctx@ == old(ctx)@ + fold_attributes(
                    stepper,
                    ContainerState::initial(),
                    input.attrs@.take(i as int),
                ).1,
            decreases input.attrs.len() - i,
        {
            let ghost before = fold_attributes(
                stepper,
                ContainerState::initial(),
                input.attrs@.take(i as int),
            );
            let ghost attr = input.attrs@[i as int];
            assert(input.attrs@.take(i + 1).drop_last() =~= input.attrs@.take(i as int));
            assert(input.attrs@.take(i + 1).last() == attr);
            match entries_of(ctx, &input.attrs[i]) {
                None => {
                    assert(ctx@ =~= old(ctx)@ + (before.1 + attribute_errors(attr)
                        + Seq::<DiagnosticView>::empty()));
                },
                Some(entries) => {
                    let mut j: usize = 0;
                    assert(entries@.take(0) =~= Seq::<NestedMeta>::empty());
                    assert(ctx@ =~= old(ctx)@ + (before.1 + attribute_errors(attr)
                        + Seq::<DiagnosticView>::empty()));
                    while j < entries.len()
                        invariant
                            j <= entries.len(),
                            b.well_formed(),
                            stepper == container_stepper(named, declared_at),
                            b@ == fold_entries(stepper, before.0, entries@.take(j as int)).0,
                            ctx@ == old(ctx)@ + (before.1 + attribute_errors(attr) + fold_entries(
                                stepper,
                                before.0,
                                entries@.take(j as int),
                            ).1),
                        decreases entries.len() - j,
                    {
                        let ghost done = fold_entries(stepper, before.0, entries@.take(j as int));
                        assert(entries@.take(j + 1).drop_last() =~= entries@.take(j as int));
                        assert(entries@.take(j + 1).last() == entries@[j as int]);
                        b.entry(ctx, &entries[j], named, declared_at);
                        assert(ctx@ =~= old(ctx)@ + (before.1 + attribute_errors(attr) + (done.1
                            + container_step(done.0, entries@[j as int], named, declared_at).1)));
                        j = j + 1;
                    }
                    assert(entries@.take(entries.len() as int) =~= entries@);
                },
            }
            i = i + 1;
        }
        assert(input.attrs@.take(input.attrs.len() as int) =~= input.attrs@);
        let ContainerBuilder { default, primary_key, prefix_key, model_type, rules } = b;
        ContainerAttr {
            primary_key: match primary_key.get() {
                Some(key) => key,
                None => String::from_str("id"),
            },
            prefix_key: match prefix_key.get() {
                Some(key) => key,
                None => input.ident.clone(),
            },
            default: match default.get() {
                Some(d) => d,
                None => crate::common::Default::Missing,
            },
            has_flatten: false,
            model_type: match model_type.get() {
                Some(model) => model,
                None => Derive::HashModel,
            },
            rename_all_rules: rules.finish(),
        }
    }

    /// Notes that a field is marked `flatten`.
    pub fn mark_has_flatten(&mut self)
        ensures
            final(self)@ == (ContainerAttrView { has_flatten: true, ..old(self)@ }),
    {
        self.has_flatten = true;
    }
}

/// A keyword outside the set of a container's keywords is reported once, as
/// `UnknownAttribute` with the keyword as it stands in the source, and
/// changes nothing.
pub proof fn lemma_unknown_container_keyword(
    state: ContainerState,
    meta: Meta,
    named: bool,
    declared_at: Location,
)
    requires
        !is_container_keyword(meta),
    ensures
        container_step(state, NestedMeta::Meta(meta), named, declared_at) == (
            state,
            seq![
                unknown_attribute(
                    "container"@,
                    meta.spec_path().source_text(),
                    meta.spec_path().location,
                ),
            ],
        ),
{
}

} // verus!
