//! Fields and their annotations.

use crate::attr::{Attr, BoolAttr};
use crate::casing::{cased, RenameAllRules};
use crate::common::{
    attribute_entries, attribute_errors, default_entry, default_option_view, default_step,
    entries_of, fold_attributes, fold_entries, report_unexpected_literal,
    report_unexpected_value, report_unknown_attribute, unexpected_literal, unexpected_value,
    unknown_attribute, DefaultView, NameBuilder, NameState,
};
use crate::diag::{Ctx, DiagnosticView, Location};
use crate::meta::{Attribute, LitExt, Meta, NestedMeta};
use crate::name::{option_view, resolved, Name, NameView};
use crate::symbol::{
    Symbol, ALIAS, DEFAULT, FLATTEN, FULL_TEXT_SEARCH, INDEX, PRIMARY_KEY, RENAME, SKIP,
    SKIP_DESERIALIZING, SKIP_SERIALIZING, SORTABLE,
};
use crate::text::{decimal, decimal_string, strip_raw_prefix, unraw};
use crate::types::Type;
use crate::variant::VariantAttr;
use vstd::prelude::*;
use vstd::string::*;

verus! {

/// A field as it is declared.
#[derive(Debug)]
pub struct FieldSource {
    /// The field's identifier; none for a positional field.
    pub ident: Option<String>,
    pub attrs: Vec<Attribute>,
    pub ty: Type,
    pub location: Location,
}

/// How a field is named in its struct.
#[derive(Clone, Debug)]
pub enum Member {
    Named(String),
    Unnamed(usize),
}

/// The validated annotations of one field.
#[derive(Clone, Debug)]
pub struct FieldAttr {
    pub name: Name,
    /// What to use when the field is missing.
    pub default: crate::common::Default,
    /// Whether the field holds the primary key.
    pub primary_key: bool,
    /// Whether the field is indexed.
    pub index: bool,
    /// Whether the field can be sorted by.
    pub sortable: bool,
    /// Whether the field is indexed for full-text search.
    pub fts: bool,
    pub skip_deserializing: bool,
    pub skip_serializing: bool,
    /// Whether the field's own fields stand in for it.
    pub flatten: bool,
}

/// A `FieldAttr` as a plain value.
pub struct FieldAttrView {
    pub name: NameView,
    pub default: DefaultView,
    pub primary_key: bool,
    pub index: bool,
    pub sortable: bool,
    pub fts: bool,
    pub skip_deserializing: bool,
    pub skip_serializing: bool,
    pub flatten: bool,
}

impl View for FieldAttr {
    type V = FieldAttrView;

    open spec fn view(&self) -> FieldAttrView {
        FieldAttrView {
            name: self.name@,
            default: self.default@,
            primary_key: self.primary_key,
            index: self.index,
            sortable: self.sortable,
            fts: self.fts,
            skip_deserializing: self.skip_deserializing,
            skip_serializing: self.skip_serializing,
            flatten: self.flatten,
        }
    }
}

/// A field of a struct or of an enum variant.
#[derive(Debug)]
pub struct Field<'a> {
    pub ident: Option<&'a String>,
    pub member: Member,
    pub attrs: FieldAttr,
    pub ty: &'a Type,
    pub original: &'a FieldSource,
}

/// The presence-only keywords of a field.
pub enum FieldFlag {
    PrimaryKey,
    Index,
    Sortable,
    FullTextSearch,
    Flatten,
    Skip,
    SkipSerializing,
    SkipDeserializing,
}

/// What the annotations of a field have said so far.
pub struct FieldState {
    pub name: NameState,
    pub default: Option<DefaultView>,
    pub flatten: bool,
    pub skip_deserializing: bool,
    pub skip_serializing: bool,
    pub primary_key: bool,
    pub index: bool,
    pub sortable: bool,
    pub fts: bool,
}

impl FieldState {
    /// Nothing said yet.
    pub open spec fn initial() -> FieldState {
        FieldState {
            name: NameState::initial(),
            default: None,
            flatten: false,
            skip_deserializing: false,
            skip_serializing: false,
            primary_key: false,
            index: false,
            sortable: false,
            fts: false,
        }
    }

    /// The state with `flag` set; `skip` sets both skip flags.
    pub open spec fn flagged(self, flag: FieldFlag) -> FieldState {
        match flag {
            FieldFlag::PrimaryKey => FieldState { primary_key: true, ..self },
            FieldFlag::Index => FieldState { index: true, ..self },
            FieldFlag::Sortable => FieldState { sortable: true, ..self },
            FieldFlag::FullTextSearch => FieldState { fts: true, ..self },
            FieldFlag::Flatten => FieldState { flatten: true, ..self },
            FieldFlag::Skip => FieldState {
                skip_serializing: true,
                skip_deserializing: true,
                ..self
            },
            FieldFlag::SkipSerializing => FieldState { skip_serializing: true, ..self },
            FieldFlag::SkipDeserializing => FieldState { skip_deserializing: true, ..self },
        }
    }

    /// What an entry under a presence-only keyword does: the bare keyword
    /// sets the flag, any other form is an `UnexpectedAttributeValue` error.
    pub open spec fn flag_step(self, meta: Meta, flag: FieldFlag, keyword: Seq<char>) -> (
        FieldState,
        Seq<DiagnosticView>,
    ) {
        match meta {
            Meta::Path(_) => (self.flagged(flag), Seq::empty()),
            _ => (self, seq![unexpected_value(keyword, meta.spec_path().location)]),
        }
    }
}

/// The presence-only keyword that `meta` stands under, if it is one of a
/// field's.
pub open spec fn field_flag_of(meta: Meta) -> Option<(FieldFlag, Seq<char>)> {
    let path = meta.spec_path();
    if path.is(PRIMARY_KEY@) {
        Some((FieldFlag::PrimaryKey, PRIMARY_KEY@))
    } else if path.is(INDEX@) {
        Some((FieldFlag::Index, INDEX@))
    } else if path.is(SORTABLE@) {
        Some((FieldFlag::Sortable, SORTABLE@))
    } else if path.is(FULL_TEXT_SEARCH@) {
        Some((FieldFlag::FullTextSearch, FULL_TEXT_SEARCH@))
    } else if path.is(FLATTEN@) {
        Some((FieldFlag::Flatten, FLATTEN@))
    } else if path.is(SKIP@) {
        Some((FieldFlag::Skip, SKIP@))
    } else if path.is(SKIP_SERIALIZING@) {
        Some((FieldFlag::SkipSerializing, SKIP_SERIALIZING@))
    } else if path.is(SKIP_DESERIALIZING@) {
        Some((FieldFlag::SkipDeserializing, SKIP_DESERIALIZING@))
    } else {
        None
    }
}

/// Whether `meta` stands under one of the keywords of a field.
pub open spec fn is_field_keyword(meta: Meta) -> bool {
    let path = meta.spec_path();
    path.is(RENAME@) || path.is(ALIAS@) || path.is(DEFAULT@) || field_flag_of(meta) is Some
}

/// What one annotation entry does to a field's state, and what it reports.
///
/// The entry is read by its keyword: `rename` and `alias` name the field,
/// `default` gives its default, a presence-only keyword sets its flag. A
/// keyword outside this set is an `UnknownAttribute` error, a lone literal a
/// `MalformedAttribute` error; neither changes the state.
pub open spec fn field_step(state: FieldState, entry: NestedMeta) -> (
    FieldState,
    Seq<DiagnosticView>,
) {
    match entry {
        NestedMeta::Lit(lit) => (state, seq![unexpected_literal(lit.location)]),
        NestedMeta::Meta(meta) => {
            let path = meta.spec_path();
            if path.is(RENAME@) || path.is(ALIAS@) {
                let named = state.name.step(meta);
                (FieldState { name: named.0, ..state }, named.1)
            } else if path.is(DEFAULT@) {
                let given = default_step(state.default, meta);
                (FieldState { default: given.0, ..state }, given.1)
            } else {
                match field_flag_of(meta) {
                    Some((flag, keyword)) => state.flag_step(meta, flag, keyword),
                    None => (
                        state,
                        seq![unknown_attribute("field"@, path.source_text(), path.location)],
                    ),
                }
            }
        },
    }
}

/// `field_step` as a value.
pub open spec fn field_stepper() -> spec_fn(FieldState, NestedMeta) -> (
    FieldState,
    Seq<DiagnosticView>,
) {
    |state: FieldState, entry: NestedMeta| field_step(state, entry)
}

/// What the attributes of a field say, and what reading them reports.
pub open spec fn field_parse(attrs: Seq<Attribute>) -> (FieldState, Seq<DiagnosticView>) {
    fold_attributes(field_stepper(), FieldState::initial(), attrs)
}

/// The name of a field in the source: its identifier without the
/// raw-identifier prefix, or its position for a positional field.
pub open spec fn field_ident(index: nat, ident: Option<Seq<char>>) -> Seq<char> {
    match ident {
        Some(ident) => unraw(ident),
        None => decimal(index),
    }
}

/// The record that a field's state freezes into.
pub open spec fn field_attr_of(ident: Seq<char>, state: FieldState) -> FieldAttrView {
    FieldAttrView {
        name: resolved(ident, state.name.ser, state.name.de, Some(state.name.aliases)),
        default: match state.default {
            Some(d) => d,
            None => DefaultView::Missing,
        },
        primary_key: state.primary_key,
        index: state.index,
        sortable: state.sortable,
        fts: state.fts,
        skip_deserializing: state.skip_deserializing,
        skip_serializing: state.skip_serializing,
        flatten: state.flatten,
    }
}

/// The wire names of a field after the container's casing rules are applied:
/// a side that was renamed explicitly stays, the other is put into the rule's
/// case.
pub open spec fn renamed_by_rules(name: NameView, rules: RenameAllRules) -> NameView {
    NameView {
        serialize: if name.serialize_renamed {
            name.serialize
        } else {
            cased(rules.serialize, name.serialize)
        },
        deserialize: if name.deserialize_renamed {
            name.deserialize
        } else {
            cased(rules.deserialize, name.deserialize)
        },
        ..name
    }
}

struct FieldBuilder {
    name: NameBuilder,
    default: Attr<crate::common::Default>,
    flatten: BoolAttr,
    skip_deserializing: BoolAttr,
    skip_serializing: BoolAttr,
    primary_key: BoolAttr,
    index: BoolAttr,
    sortable: BoolAttr,
    fts: BoolAttr,
}

impl View for FieldBuilder {
    type V = FieldState;

    closed spec fn view(&self) -> FieldState {
        FieldState {
            name: self.name@,
            default: default_option_view(self.default.value),
            flatten: self.flatten.is_set(),
            skip_deserializing: self.skip_deserializing.is_set(),
            skip_serializing: self.skip_serializing.is_set(),
            primary_key: self.primary_key.is_set(),
            index: self.index.is_set(),
            sortable: self.sortable.is_set(),
            fts: self.fts.is_set(),
        }
    }
}

/// Takes in an entry under a presence-only keyword.
pub(crate) fn flag_entry(flag: &mut BoolAttr, ctx: &mut Ctx, meta: &Meta, keyword: &str)
    ensures
        final(flag).is_set() == (old(flag).is_set() || *meta is Path),
        final(ctx)@ == old(ctx)@ + (if *meta is Path {
            Seq::<DiagnosticView>::empty()
        } else {
            seq![unexpected_value(keyword@, meta.spec_path().location)]
        }),
{
    match meta {
        Meta::Path(path) => {
            flag.set_true(path.location);
            assert(ctx@ =~= old(ctx)@ + Seq::<DiagnosticView>::empty());
        },
        _ => {
            report_unexpected_value(ctx, keyword, meta.path().location);
            assert(ctx@ =~= old(ctx)@ + seq![
                unexpected_value(keyword@, meta.spec_path().location),
            ]);
        },
    }
}

impl FieldBuilder {
    spec fn well_formed(&self) -> bool {
        self.name.well_formed() && self.default.name.text() == DEFAULT@
    }

    fn new() -> (b: FieldBuilder)
        ensures
            b@ == FieldState::initial(),
            b.well_formed(),
    {
        FieldBuilder {
            name: NameBuilder::new(),
            default: Attr::new(Symbol(DEFAULT)),
            flatten: BoolAttr::new(Symbol(FLATTEN)),
            skip_deserializing: BoolAttr::new(Symbol(SKIP_DESERIALIZING)),
            skip_serializing: BoolAttr::new(Symbol(SKIP_SERIALIZING)),
            primary_key: BoolAttr::new(Symbol(PRIMARY_KEY)),
            index: BoolAttr::new(Symbol(INDEX)),
            sortable: BoolAttr::new(Symbol(SORTABLE)),
            fts: BoolAttr::new(Symbol(FULL_TEXT_SEARCH)),
        }
    }

    fn entry(&mut self, ctx: &mut Ctx, entry: &NestedMeta)
        requires
            old(self).well_formed(),
        ensures
            final(self).well_formed(),
            final(self)@ == field_step(old(self)@, *entry).0,
            final(ctx)@ == old(ctx)@ + field_step(old(self)@, *entry).1,
    {
        match entry {
            NestedMeta::Lit(lit) => {
                report_unexpected_literal(ctx, lit.location);
                assert(ctx@ =~= old(ctx)@ + field_step(old(self)@, *entry).1);
            },
            NestedMeta::Meta(meta) => {
                let path = meta.path();
                if path.is_ident(RENAME) || path.is_ident(ALIAS) {
                    self.name.entry(ctx, meta);
                } else if path.is_ident(DEFAULT) {
                    default_entry(&mut self.default, ctx, meta);
                } else if path.is_ident(PRIMARY_KEY) {
                    flag_entry(&mut self.primary_key, ctx, meta, PRIMARY_KEY);
                } else if path.is_ident(INDEX) {
                    flag_entry(&mut self.index, ctx, meta, INDEX);
                } else if path.is_ident(SORTABLE) {
                    flag_entry(&mut self.sortable, ctx, meta, SORTABLE);
                } else if path.is_ident(FULL_TEXT_SEARCH) {
                    flag_entry(&mut self.fts, ctx, meta, FULL_TEXT_SEARCH);
                } else if path.is_ident(FLATTEN) {
                    flag_entry(&mut self.flatten, ctx, meta, FLATTEN);
                } else if path.is_ident(SKIP) {
                    flag_entry(&mut self.skip_serializing, ctx, meta, SKIP);
                    match meta {
                        Meta::Path(p) => {
                            self.skip_deserializing.set_true(p.location);
                            assert(ctx@ =~= old(ctx)@ + field_step(old(self)@, *entry).1);
                        },
                        _ => {},
                    }
                } else if path.is_ident(SKIP_SERIALIZING) {
                    flag_entry(&mut self.skip_serializing, ctx, meta, SKIP_SERIALIZING);
                } else if path.is_ident(SKIP_DESERIALIZING) {
                    flag_entry(&mut self.skip_deserializing, ctx, meta, SKIP_DESERIALIZING);
                } else {
                    report_unknown_attribute(ctx, "field", path);
                    assert(ctx@ =~= old(ctx)@ + field_step(old(self)@, *entry).1);
                }
            },
        }
    }
}

impl FieldAttr {
    /// Reads the `#[redis(...)]` attributes of a field into its validated
    /// record. Every entry is read, in source order; what is wrong with one
    /// is recorded in `ctx`, and reading goes on.
    pub fn from_ast(
        ctx: &mut Ctx,
        index: usize,
        field: &FieldSource,
        _attrs: Option<&VariantAttr>,
        _container_default: &crate::common::Default,
    ) -> (attr: FieldAttr)
        ensures
            attr@ == field_attr_of(
                field_ident(index as nat, option_view(field.ident)),
                field_parse(field.attrs@).0,
            ),
            final(ctx)@ == old(ctx)@ + field_parse(field.attrs@).1,
    {
        let ident = match &field.ident {
            Some(ident) => strip_raw_prefix(ident.as_str()),
            None => decimal_string(index),
        };
        let mut b = FieldBuilder::new();
        let mut i: usize = 0;
        assert(field.attrs@.take(0) =~= Seq::<Attribute>::empty());
        assert(ctx@ =~= old(ctx)@ + Seq::<DiagnosticView>::empty());
        while i < field.attrs.len()
            invariant
                i <= field.attrs.len(),
                b.well_formed(),
                b@ == field_parse(field.attrs@.take(i as int)).0,
                ctx@ == old(ctx)@ + field_parse(field.attrs@.take(i as int)).1,
            decreases field.attrs.len() - i,
        {
            let ghost before = field_parse(field.attrs@.take(i as int));
            let ghost attr = field.attrs@[i as int];
            assert(field.attrs@.take(i + 1).drop_last() =~= field.attrs@.take(i as int));
            assert(field.attrs@.take(i + 1).last() == attr);
            match entries_of(ctx, &field.attrs[i]) {
                None => {
                    assert(ctx@ =~= old(ctx)@ + (before.1 + attribute_errors(attr)
                        + Seq::<DiagnosticView>::empty()));
                },
                Some(entries) => {
                    let mut j: usize = 0;
                    assert(entries@.take(0) =~= Seq::<NestedMeta>::empty());
                    assert(ctx@ =~= old(ctx)@ + (before.1 + attribute_errors(attr)
                        + Seq::<DiagnosticView>::empty()));
                    while j < entries.len()
                        invariant
                            j <= entries.len(),
                            b.well_formed(),
                            b@ == fold_entries(field_stepper(), before.0, entries@.take(j as int)).0,
                            ctx@ == old(ctx)@ + (before.1 + attribute_errors(attr) + fold_entries(
                                field_stepper(),
                                before.0,
                                entries@.take(j as int),
                            ).1),
                        decreases entries.len() - j,
                    {
                        let ghost done = fold_entries(
                            field_stepper(),
                            before.0,
                            entries@.take(j as int),
                        );
                        assert(entries@.take(j + 1).drop_last() =~= entries@.take(j as int));
                        assert(entries@.take(j + 1).last() == entries@[j as int]);
                        b.entry(ctx, &entries[j]);
                        assert(ctx@ =~= old(ctx)@ + (before.1 + attribute_errors(attr) + (done.1
                            + field_step(done.0, entries@[j as int]).1)));
                        j = j + 1;
                    }
                    assert(entries@.take(entries.len() as int) =~= entries@);
                },
            }
            i = i + 1;
        }
        assert(field.attrs@.take(field.attrs.len() as int) =~= field.attrs@);
        let FieldBuilder {
            name,
            default,
            flatten,
            skip_deserializing,
            skip_serializing,
            primary_key,
            index,
            sortable,
            fts,
        } = b;
        FieldAttr {
            name: name.finish(ident),
            default: match default.get() {
                Some(d) => d,
                None => crate::common::Default::Missing,
            },
            primary_key: primary_key.get(),
            index: index.get(),
            sortable: sortable.get(),
            fts: fts.get(),
            flatten: flatten.get(),
            skip_serializing: skip_serializing.get(),
            skip_deserializing: skip_deserializing.get(),
        }
    }

    /// Puts the container's casing rules on the sides of the name that were
    /// not renamed explicitly.
    pub fn rename_by_rules(&mut self, rules: &RenameAllRules)
        ensures
            final(self)@ == (FieldAttrView {
                name: renamed_by_rules(old(self)@.name, *rules),
                ..old(self)@
            }),
    {
        if !self.name.serialize_renamed {
            self.name.serialize = rules.serialize.apply_to_field(self.name.serialize.as_str());
        }
        if !self.name.deserialize_renamed {
            self.name.deserialize = rules.deserialize.apply_to_field(
                self.name.deserialize.as_str(),
            );
        }
    }

    /// Whether the field's own fields stand in for it.
    pub fn flatten(&self) -> (flatten: bool)
        ensures
            flatten == self@.flatten,
    {
        self.flatten
    }
}

/// The keywords of a field differ from each other.
pub proof fn lemma_field_keywords_differ()
    ensures
        RENAME@.len() == 6,
        ALIAS@.len() == 5 && ALIAS@[0] == 'a',
        DEFAULT@.len() == 7 && DEFAULT@[0] == 'd',
        PRIMARY_KEY@.len() == 11,
        INDEX@.len() == 5 && INDEX@[0] == 'i',
        SORTABLE@.len() == 8,
        FULL_TEXT_SEARCH@.len() == 16 && FULL_TEXT_SEARCH@[0] == 'f',
        FLATTEN@.len() == 7 && FLATTEN@[0] == 'f',
        SKIP@.len() == 4,
        SKIP_SERIALIZING@.len() == 16 && SKIP_SERIALIZING@[0] == 's',
        SKIP_DESERIALIZING@.len() == 18,
{
    reveal_strlit("rename");
    reveal_strlit("alias");
    reveal_strlit("default");
    reveal_strlit("primary_key");
    reveal_strlit("index");
    reveal_strlit("sortable");
    reveal_strlit("full_text_search");
    reveal_strlit("flatten");
    reveal_strlit("skip");
    reveal_strlit("skip_serializing");
    reveal_strlit("skip_deserializing");
}

/// A keyword outside the set of a field's keywords is reported once, as
/// `UnknownAttribute` with the keyword as it stands in the source, and
/// changes nothing.
pub proof fn lemma_unknown_field_keyword(state: FieldState, meta: Meta)
    requires
        !is_field_keyword(meta),
    ensures
        field_step(state, NestedMeta::Meta(meta)) == (
            state,
            seq![
                unknown_attribute(
                    "field"@,
                    meta.spec_path().source_text(),
                    meta.spec_path().location,
                ),
            ],
        ),
{
}

/// A second `rename = "..."` is reported as `DuplicateAttribute` at its own
/// place, and the name for encoding that was given first stays.
pub proof fn lemma_second_rename(state: FieldState, meta: Meta)
    requires
        state.name.ser is Some,
        meta.spec_path().is(RENAME@),
        meta matches Meta::NameValue(_, lit) && lit.string_value() is Some,
    ensures
        field_step(state, NestedMeta::Meta(meta)).1 == seq![
            crate::attr::duplicate_error(RENAME@, meta.spec_path().location),
        ],
        field_step(state, NestedMeta::Meta(meta)).0.name.ser == state.name.ser,
{
}

/// A name for encoding that is given stays, whatever entry follows.
pub proof fn lemma_first_name_stays(state: FieldState, entry: NestedMeta)
    requires
        state.name.ser is Some,
    ensures
        field_step(state, entry).0.name.ser == state.name.ser,
{
}

/// A name for encoding that is given stays, whatever entries follow.
pub proof fn lemma_first_name_stays_all(state: FieldState, entries: Seq<NestedMeta>)
    requires
        state.name.ser is Some,
    ensures
        fold_entries(field_stepper(), state, entries).0.name.ser == state.name.ser,
    decreases entries.len(),
{
    if entries.len() > 0 {
        lemma_first_name_stays_all(state, entries.drop_last());
        lemma_first_name_stays(
            fold_entries(field_stepper(), state, entries.drop_last()).0,
            entries.last(),
        );
    }
}

/// `entry` is `rename = "..."` with a string.
pub open spec fn is_rename_value(entry: NestedMeta) -> bool {
    match entry {
        NestedMeta::Meta(Meta::NameValue(path, lit)) => path.is(RENAME@) && lit.string_value()
            is Some,
        _ => false,
    }
}

/// Two entries `rename = "..."` on one field are an error, never a silent
/// overwrite: the second is reported as `DuplicateAttribute` at its own
/// place, and the name for encoding is the one that was in force before it.
pub proof fn lemma_duplicate_rename(entries: Seq<NestedMeta>, i: int, j: int)
    requires
        0 <= i < j < entries.len(),
        is_rename_value(entries[i]),
        is_rename_value(entries[j]),
    ensures
        fold_entries(field_stepper(), FieldState::initial(), entries).1.contains(
            crate::attr::duplicate_error(RENAME@, entries[j].spec_location()),
        ),
        fold_entries(field_stepper(), FieldState::initial(), entries).0.name.ser is Some,
        fold_entries(field_stepper(), FieldState::initial(), entries).0.name.ser == fold_entries(
            field_stepper(),
            FieldState::initial(),
            entries.take(j),
        ).0.name.ser,
{
    let step = field_stepper();
    let start = FieldState::initial();
    let upto_i = fold_entries(step, start, entries.take(i));
    let with_i = fold_entries(step, start, entries.take(i + 1));
    assert(entries.take(i + 1).drop_last() =~= entries.take(i));
    assert(entries.take(i + 1).last() == entries[i]);
    assert(with_i.0.name.ser is Some);
    // From the first rename to just before the second.
    let between = entries.subrange(i + 1, j);
    assert(entries.take(j) =~= entries.take(i + 1) + between);
    crate::common::lemma_fold_entries_concat(step, start, entries.take(i + 1), between);
    lemma_first_name_stays_all(with_i.0, between);
    let upto_j = fold_entries(step, start, entries.take(j));
    assert(upto_j.0.name.ser is Some);
    let with_j = fold_entries(step, start, entries.take(j + 1));
    assert(entries.take(j + 1).drop_last() =~= entries.take(j));
    assert(entries.take(j + 1).last() == entries[j]);
    let reported = field_step(upto_j.0, entries[j]).1;
    assert(reported == seq![
        crate::attr::duplicate_error(RENAME@, entries[j].spec_location()),
    ]);
    assert(with_j.1 == upto_j.1 + reported);
    assert(with_j.1[upto_j.1.len() as int] == reported[0]);
    let rest = entries.subrange(j + 1, entries.len() as int);
    assert(entries =~= entries.take(j + 1) + rest);
    crate::common::lemma_fold_entries_concat(step, start, entries.take(j + 1), rest);
    lemma_first_name_stays_all(with_j.0, rest);
    let all = fold_entries(step, start, entries);
    assert(all.1[upto_j.1.len() as int] == reported[0]);
}

/// `entry` is the bare keyword `keyword`.
pub open spec fn sets(entry: NestedMeta, keyword: Seq<char>) -> bool {
    match entry {
        NestedMeta::Meta(Meta::Path(path)) => path.is(keyword),
        _ => false,
    }
}

/// One of `entries` is the bare keyword `keyword`.
pub open spec fn any_sets(entries: Seq<NestedMeta>, keyword: Seq<char>) -> bool {
    exists|i: int| 0 <= i < entries.len() && sets(#[trigger] entries[i], keyword)
}

/// The flags of a field, as its presence-only keywords set them.
pub struct FieldFlags {
    pub primary_key: bool,
    pub index: bool,
    pub sortable: bool,
    pub fts: bool,
    pub flatten: bool,
    pub skip_serializing: bool,
    pub skip_deserializing: bool,
}

impl FieldState {
    /// The flags of the state.
    pub open spec fn flags(self) -> FieldFlags {
        FieldFlags {
            primary_key: self.primary_key,
            index: self.index,
            sortable: self.sortable,
            fts: self.fts,
            flatten: self.flatten,
            skip_serializing: self.skip_serializing,
            skip_deserializing: self.skip_deserializing,
        }
    }
}

/// The flags that the bare keywords among `entries` set, on top of `start`.
pub open spec fn flags_set(start: FieldFlags, entries: Seq<NestedMeta>) -> FieldFlags {
    FieldFlags {
        primary_key: start.primary_key || any_sets(entries, PRIMARY_KEY@),
        index: start.index || any_sets(entries, INDEX@),
        sortable: start.sortable || any_sets(entries, SORTABLE@),
        fts: start.fts || any_sets(entries, FULL_TEXT_SEARCH@),
        flatten: start.flatten || any_sets(entries, FLATTEN@),
        skip_serializing: start.skip_serializing || any_sets(entries, SKIP@) || any_sets(
            entries,
            SKIP_SERIALIZING@,
        ),
        skip_deserializing: start.skip_deserializing || any_sets(entries, SKIP@) || any_sets(
            entries,
            SKIP_DESERIALIZING@,
        ),
    }
}

proof fn lemma_any_sets_push(entries: Seq<NestedMeta>, keyword: Seq<char>)
    requires
        entries.len() > 0,
    ensures
        any_sets(entries, keyword) == (any_sets(entries.drop_last(), keyword) || sets(
            entries.last(),
            keyword,
        )),
{
    let init = entries.drop_last();
    if any_sets(entries, keyword) {
        let i = choose|i: int| 0 <= i < entries.len() && sets(#[trigger] entries[i], keyword);
        if i < init.len() {
            assert(sets(init[i], keyword));
        }
    }
    if any_sets(init, keyword) {
        let i = choose|i: int| 0 <= i < init.len() && sets(#[trigger] init[i], keyword);
        assert(sets(entries[i], keyword));
    }
    if sets(entries.last(), keyword) {
        assert(sets(entries[entries.len() - 1], keyword));
    }
}

/// A flag is set exactly when its bare keyword stands among the entries.
pub proof fn lemma_flags_by_presence(start: FieldState, entries: Seq<NestedMeta>)
    ensures
        fold_entries(field_stepper(), start, entries).0.flags() == flags_set(
            start.flags(),
            entries,
        ),
    decreases entries.len(),
{
    lemma_field_keywords_differ();
    if entries.len() == 0 {
    } else {
        let init = entries.drop_last();
        lemma_flags_by_presence(start, init);
        lemma_any_sets_push(entries, PRIMARY_KEY@);
        lemma_any_sets_push(entries, INDEX@);
        lemma_any_sets_push(entries, SORTABLE@);
        lemma_any_sets_push(entries, FULL_TEXT_SEARCH@);
        lemma_any_sets_push(entries, FLATTEN@);
        lemma_any_sets_push(entries, SKIP@);
        lemma_any_sets_push(entries, SKIP_SERIALIZING@);
        lemma_any_sets_push(entries, SKIP_DESERIALIZING@);
    }
}

/// The flags of a field do not depend on the order of its annotations: two
/// lists that hold the same entries, each as often, set the same flags.
pub proof fn lemma_flags_any_order(first: Seq<NestedMeta>, second: Seq<NestedMeta>)
    requires
        first.to_multiset() == second.to_multiset(),
    ensures
        fold_entries(field_stepper(), FieldState::initial(), first).0.flags() == fold_entries(
            field_stepper(),
            FieldState::initial(),
            second,
        ).0.flags(),
{
    lemma_flags_by_presence(FieldState::initial(), first);
    lemma_flags_by_presence(FieldState::initial(), second);
    lemma_any_sets_same(first, second, PRIMARY_KEY@);
    lemma_any_sets_same(first, second, INDEX@);
    lemma_any_sets_same(first, second, SORTABLE@);
    lemma_any_sets_same(first, second, FULL_TEXT_SEARCH@);
    lemma_any_sets_same(first, second, FLATTEN@);
    lemma_any_sets_same(first, second, SKIP@);
    lemma_any_sets_same(first, second, SKIP_SERIALIZING@);
    lemma_any_sets_same(first, second, SKIP_DESERIALIZING@);
}

proof fn lemma_any_sets_same(first: Seq<NestedMeta>, second: Seq<NestedMeta>, keyword: Seq<char>)
    requires
        first.to_multiset() == second.to_multiset(),
    ensures
        any_sets(first, keyword) == any_sets(second, keyword),
{
    broadcast use vstd::seq_lib::to_multiset_contains;

    if any_sets(first, keyword) {
        let i = choose|i: int| 0 <= i < first.len() && sets(#[trigger] first[i], keyword);
        assert(first.contains(first[i]));
        assert(second.to_multiset().count(first[i]) > 0);
        assert(second.contains(first[i]));
        let k = choose|k: int| 0 <= k < second.len() && second[k] == first[i];
        assert(sets(second[k], keyword));
    }
    if any_sets(second, keyword) {
        let i = choose|i: int| 0 <= i < second.len() && sets(#[trigger] second[i], keyword);
        assert(second.contains(second[i]));
        assert(first.to_multiset().count(second[i]) > 0);
        assert(first.contains(second[i]));
        let k = choose|k: int| 0 <= k < first.len() && first[k] == second[i];
        assert(sets(first[k], keyword));
    }
}

/// The flags of a field do not depend on how its annotations are spread over
/// attributes or ordered within them: two lists of attributes whose `redis`
/// entries are the same, each as often, set the same flags.
pub proof fn lemma_field_flags_any_order(first: Seq<Attribute>, second: Seq<Attribute>)
    requires
        crate::common::all_entries(first).to_multiset() == crate::common::all_entries(
            second,
        ).to_multiset(),
    ensures
        field_parse(first).0.flags() == field_parse(second).0.flags(),
{
    crate::common::lemma_fold_attributes_state(field_stepper(), FieldState::initial(), first);
    crate::common::lemma_fold_attributes_state(field_stepper(), FieldState::initial(), second);
    lemma_flags_any_order(crate::common::all_entries(first), crate::common::all_entries(second));
}

} // verus!
