//! The assembled model of an annotated struct or enum.

use crate::casing::RenameAllRules;
use crate::container_attr::{
    container_attr_of, container_parse, ContainerAttr, ContainerAttrView, DataSource, DeriveInput,
};
use crate::diag::{Ctx, DiagnosticView, ErrorKind, Location};
use crate::field::{
    field_attr_of, field_ident, field_parse, renamed_by_rules, Field, FieldAttr, FieldAttrView,
    FieldSource, Member,
};
use crate::name::option_view;
use crate::text::str_eq;
use crate::variant::{
    variant_attr_of, variant_parse, FieldsSource, Style, Variant, VariantAttr, VariantAttrView,
    VariantSource,
};
use vstd::prelude::*;
use vstd::string::*;

verus! {

/// The records of a list of fields.
pub open spec fn attr_views<'a>(fields: Seq<Field<'a>>) -> Seq<FieldAttrView> {
    Seq::new(fields.len(), |i: int| fields[i].attrs@)
}

/// The `index`-th field of a list was built from `source`.
pub open spec fn linked<'a>(field: Field<'a>, source: FieldSource, index: int) -> bool {
    &&& *field.ty == source.ty
    &&& *field.original == source
    &&& match source.ident {
        Some(ident) => field.ident is Some && *field.ident->0 == ident && match field.member {
            Member::Named(name) => name@ == ident@,
            Member::Unnamed(_) => false,
        },
        None => field.ident is None && field.member == Member::Unnamed(index as usize),
    }
}

/// Each field of a list was built from the source at its position.
pub open spec fn all_linked<'a>(fields: Seq<Field<'a>>, sources: Seq<FieldSource>) -> bool {
    fields.len() == sources.len() && forall|i: int|
        0 <= i < fields.len() ==> linked(#[trigger] fields[i], sources[i], i)
}

/// What the annotations of the fields of one list say, field by field, and
/// what reading them reports.
pub open spec fn fields_parse(sources: Seq<FieldSource>) -> (
    Seq<FieldAttrView>,
    Seq<DiagnosticView>,
)
    decreases sources.len(),
{
    if sources.len() == 0 {
        (Seq::empty(), Seq::empty())
    } else {
        let before = fields_parse(sources.drop_last());
        let last = sources.last();
        let read = field_parse(last.attrs@);
        (
            before.0.push(
                field_attr_of(
                    field_ident((sources.len() - 1) as nat, option_view(last.ident)),
                    read.0,
                ),
            ),
            before.1 + read.1,
        )
    }
}

/// The number of fields that are annotated `primary_key`.
pub open spec fn count_primary(fields: Seq<FieldAttrView>) -> nat
    decreases fields.len(),
{
    if fields.len() == 0 {
        0
    } else {
        count_primary(fields.drop_last()) + if fields.last().primary_key {
            1nat
        } else {
            0nat
        }
    }
}

/// The first field whose name for encoding is `id`.
pub open spec fn first_id(fields: Seq<FieldAttrView>) -> Option<int>
    decreases fields.len(),
{
    if fields.len() == 0 {
        None
    } else {
        match first_id(fields.drop_last()) {
            Some(k) => Some(k),
            None => if fields.last().name.serialize == "id"@ {
                Some(fields.len() - 1)
            } else {
                None
            },
        }
    }
}

/// The fields with their primary key designated: where no field is annotated
/// `primary_key`, the first field named `id` becomes the primary key.
pub open spec fn designated(fields: Seq<FieldAttrView>) -> Seq<FieldAttrView> {
    if count_primary(fields) == 0 {
        match first_id(fields) {
            Some(k) => fields.update(k, FieldAttrView { primary_key: true, ..fields[k] }),
            None => fields,
        }
    } else {
        fields
    }
}

/// The message for a list of fields without a primary key.
pub open spec fn missing_primary_key_message() -> Seq<char> {
    "A primary field doesn't exists, either add `id` field or annotate a field `primary_key`"@
}

/// The message for a list of fields with several primary keys.
pub open spec fn multiple_primary_keys_message() -> Seq<char> {
    "several fields are annotated `primary_key`, keep one"@
}

/// What designating the primary key reports: `MissingPrimaryKey` where no
/// field is annotated and none is named `id`, `MultiplePrimaryKeys` where
/// several fields are annotated.
pub open spec fn designation_errors(fields: Seq<FieldAttrView>, declared_at: Location) -> Seq<
    DiagnosticView,
> {
    if count_primary(fields) == 0 {
        if first_id(fields) is None {
            seq![
                DiagnosticView {
                    kind: ErrorKind::MissingPrimaryKey,
                    message: missing_primary_key_message(),
                    location: declared_at,
                },
            ]
        } else {
            Seq::empty()
        }
    } else if count_primary(fields) > 1 {
        seq![
            DiagnosticView {
                kind: ErrorKind::MultiplePrimaryKeys,
                message: multiple_primary_keys_message(),
                location: declared_at,
            },
        ]
    } else {
        Seq::empty()
    }
}

/// The style of a list of fields.
pub open spec fn style_of(fields: FieldsSource) -> Style {
    match fields {
        FieldsSource::Named(_) => Style::Struct,
        FieldsSource::Unnamed(sources) => if sources@.len() == 1 {
            Style::Newtype
        } else {
            Style::Tuple
        },
        FieldsSource::Unit => Style::Unit,
    }
}

/// The declared fields of a list.
pub open spec fn sources_of(fields: FieldsSource) -> Seq<FieldSource> {
    match fields {
        FieldsSource::Named(sources) => sources@,
        FieldsSource::Unnamed(sources) => sources@,
        FieldsSource::Unit => Seq::empty(),
    }
}

/// The records of the fields of a struct or variant, with the primary key
/// designated, and what reading them reports. A unit has no fields and
/// reports nothing.
pub open spec fn struct_parse(fields: FieldsSource, declared_at: Location) -> (
    Seq<FieldAttrView>,
    Seq<DiagnosticView>,
) {
    match fields {
        FieldsSource::Unit => (Seq::empty(), Seq::empty()),
        _ => {
            let read = fields_parse(sources_of(fields));
            (designated(read.0), read.1 + designation_errors(read.0, declared_at))
        },
    }
}

/// A variant as a plain value.
pub struct VariantView {
    pub attrs: VariantAttrView,
    pub style: Style,
    pub fields: Seq<FieldAttrView>,
}

impl<'a> View for Variant<'a> {
    type V = VariantView;

    open spec fn view(&self) -> VariantView {
        VariantView { attrs: self.attrs@, style: self.style, fields: attr_views(self.fields@) }
    }
}

/// The views of a list of variants.
pub open spec fn variant_views<'a>(variants: Seq<Variant<'a>>) -> Seq<VariantView> {
    Seq::new(variants.len(), |i: int| variants[i]@)
}

/// What the variants of an enum say, variant by variant, and what reading
/// them reports: for each variant its own annotations, then those of its
/// fields.
pub open spec fn variants_parse(sources: Seq<VariantSource>) -> (
    Seq<VariantView>,
    Seq<DiagnosticView>,
)
    decreases sources.len(),
{
    if sources.len() == 0 {
        (Seq::empty(), Seq::empty())
    } else {
        let before = variants_parse(sources.drop_last());
        let last = sources.last();
        let own = variant_parse(last.attrs@);
        let inner = struct_parse(last.fields, last.location);
        (
            before.0.push(
                VariantView {
                    attrs: variant_attr_of(last.ident@, own.0),
                    style: style_of(last.fields),
                    fields: inner.0,
                },
            ),
            before.1 + own.1 + inner.1,
        )
    }
}

/// The fields after the casing rules of their parent are applied to each.
pub open spec fn renamed_fields(fields: Seq<FieldAttrView>, rules: RenameAllRules) -> Seq<
    FieldAttrView,
> {
    Seq::new(
        fields.len(),
        |i: int| FieldAttrView { name: renamed_by_rules(fields[i].name, rules), ..fields[i] },
    )
}

/// A variant after the casing rules of the container are applied to it, and
/// its own rules to its fields.
pub open spec fn renamed_variant(variant: VariantView, rules: RenameAllRules) -> VariantView {
    VariantView {
        attrs: VariantAttrView {
            name: renamed_by_rules(variant.attrs.name, rules),
            ..variant.attrs
        },
        style: variant.style,
        fields: renamed_fields(variant.fields, variant.attrs.rename_all_rules),
    }
}

/// The variants after the casing rules of the container are applied.
pub open spec fn renamed_variants(variants: Seq<VariantView>, rules: RenameAllRules) -> Seq<
    VariantView,
> {
    Seq::new(variants.len(), |i: int| renamed_variant(variants[i], rules))
}

/// A field of the list is marked `flatten`.
pub open spec fn any_flatten(fields: Seq<FieldAttrView>) -> bool {
    exists|i: int| 0 <= i < fields.len() && (#[trigger] fields[i]).flatten
}

/// A field of a variant of the list is marked `flatten`.
pub open spec fn any_variant_flatten(variants: Seq<VariantView>) -> bool {
    exists|i: int| 0 <= i < variants.len() && any_flatten((#[trigger] variants[i]).fields)
}

/// The contents of a container, as plain values.
pub enum DataView {
    Enum(Seq<VariantView>),
    Struct(Style, Seq<FieldAttrView>),
}

/// The contents of a struct or enum.
#[derive(Debug)]
pub enum Data<'a> {
    Enum(Vec<Variant<'a>>),
    Struct(Style, Vec<Field<'a>>),
}

impl<'a> View for Data<'a> {
    type V = DataView;

    open spec fn view(&self) -> DataView {
        match self {
            Data::Enum(variants) => DataView::Enum(variant_views(variants@)),
            Data::Struct(style, fields) => DataView::Struct(*style, attr_views(fields@)),
        }
    }
}

/// The fields of every variant of a list, in order.
pub open spec fn all_variant_fields<'a>(variants: Seq<Variant<'a>>) -> Seq<Field<'a>>
    decreases variants.len(),
{
    if variants.len() == 0 {
        Seq::empty()
    } else {
        all_variant_fields(variants.drop_last()) + variants.last().fields@
    }
}

/// What a list of references refers to.
pub open spec fn referents<'a, 'b>(refs: Seq<&'b Field<'a>>) -> Seq<Field<'a>> {
    Seq::new(refs.len(), |i: int| *refs[i])
}

impl<'a> Data<'a> {
    /// The fields of a struct, or of every variant of an enum, in order.
    pub open spec fn spec_fields(&self) -> Seq<Field<'a>> {
        match self {
            Data::Enum(variants) => all_variant_fields(variants@),
            Data::Struct(_, fields) => fields@,
        }
    }

    /// The fields of a struct, or of every variant of an enum, in order.
    pub fn fields<'b>(&'b self) -> (all: Vec<&'b Field<'a>>)
        ensures
            referents(all@) == self.spec_fields(),
    {
        let mut all: Vec<&'b Field<'a>> = Vec::new();
        match self {
            Data::Struct(_, fields) => {
                let mut i: usize = 0;
                while i < fields.len()
                    invariant
                        i <= fields.len(),
                        referents(all@) =~= fields@.take(i as int),
                    decreases fields.len() - i,
                {
                    let ghost so_far = referents(all@);
                    all.push(&fields[i]);
                    assert(referents(all@) =~= so_far.push(fields@[i as int]));
                    assert(fields@.take(i + 1) =~= fields@.take(i as int).push(fields@[i as int]));
                    i = i + 1;
                }
                assert(fields@.take(fields.len() as int) =~= fields@);
            },
            Data::Enum(variants) => {
                let mut v: usize = 0;
                assert(variants@.take(0) =~= Seq::<Variant<'a>>::empty());
                assert(referents(all@) =~= Seq::<Field<'a>>::empty());
                while v < variants.len()
                    invariant
                        v <= variants.len(),
                        referents(all@) == all_variant_fields(variants@.take(v as int)),
                    decreases variants.len() - v,
                {
                    let ghost before = referents(all@);
                    let fields = &variants[v].fields;
                    assert(variants@.take(v + 1).drop_last() =~= variants@.take(v as int));
                    assert(variants@.take(v + 1).last() == variants@[v as int]);
                    let mut i: usize = 0;
                    assert(before + fields@.take(0) =~= before);
                    while i < fields.len()
                        invariant
                            i <= fields.len(),
                            referents(all@) =~= before + fields@.take(i as int),
                        decreases fields.len() - i,
                    {
                        let ghost so_far = referents(all@);
                        all.push(&fields[i]);
                        assert(referents(all@) =~= so_far.push(fields@[i as int]));
                        assert(fields@.take(i + 1) =~= fields@.take(i as int).push(
                            fields@[i as int],
                        ));
                        i = i + 1;
                    }
                    assert(fields@.take(fields.len() as int) =~= fields@);
                    v = v + 1;
                }
                assert(variants@.take(variants.len() as int) =~= variants@);
            },
        }
        all
    }
}

/// A container as a plain value.
pub struct ContainerView {
    pub attrs: ContainerAttrView,
    pub data: DataView,
}

/// The validated model of one annotated struct or enum.
#[derive(Debug)]
pub struct Container<'a> {
    /// The name of the struct or enum.
    pub ident: &'a String,
    /// Its fields or variants.
    pub data: Data<'a>,
    /// Its own annotations.
    pub attrs: ContainerAttr,
    /// The declaration that it was built from.
    pub original: &'a DeriveInput,
}

impl<'a> View for Container<'a> {
    type V = ContainerView;

    open spec fn view(&self) -> ContainerView {
        ContainerView { attrs: self.attrs@, data: self.data@ }
    }
}

/// The contents of a declaration before the casing rules are applied, and
/// what reading them reports.
pub open spec fn data_parse(input: DeriveInput) -> (DataView, Seq<DiagnosticView>) {
    match input.data {
        DataSource::Enum(variants) => {
            let read = variants_parse(variants@);
            (DataView::Enum(read.0), read.1)
        },
        DataSource::Struct(fields) => {
            let read = struct_parse(fields, input.location);
            (DataView::Struct(style_of(fields), read.0), read.1)
        },
        DataSource::Union => (DataView::Enum(Seq::empty()), Seq::empty()),
    }
}

/// The error for a union.
pub open spec fn union_error(location: Location) -> DiagnosticView {
    DiagnosticView {
        kind: ErrorKind::UnsupportedShape,
        message: "derive is not supported for unions"@,
        location,
    }
}

/// Everything that building a container reports: what its own annotations
/// give rise to, then what its fields or variants do, in declaration order.
pub open spec fn container_errors(input: DeriveInput) -> Seq<DiagnosticView> {
    if input.data is Union {
        container_parse(input).1.push(union_error(input.location))
    } else {
        container_parse(input).1 + data_parse(input).1
    }
}

/// The model that a declaration is built into: its annotations, then its
/// fields or variants with the casing rules applied to every name that was
/// not renamed explicitly. There is none for a union.
pub open spec fn container_of(input: DeriveInput) -> Option<ContainerView> {
    if input.data is Union {
        None
    } else {
        let attrs = container_attr_of(input.ident@, container_parse(input).0);
        let rules = attrs.rename_all_rules;
        match data_parse(input).0 {
            DataView::Enum(variants) => Some(
                ContainerView {
                    attrs: ContainerAttrView {
                        has_flatten: any_variant_flatten(variants),
                        ..attrs
                    },
                    data: DataView::Enum(renamed_variants(variants, rules)),
                },
            ),
            DataView::Struct(style, fields) => Some(
                ContainerView {
                    attrs: ContainerAttrView { has_flatten: any_flatten(fields), ..attrs },
                    data: DataView::Struct(style, renamed_fields(fields, rules)),
                },
            ),
        }
    }
}

fn fields_from_ast<'a>(
    ctx: &mut Ctx,
    sources: &'a Vec<FieldSource>,
    attrs: Option<&VariantAttr>,
    container_default: &crate::common::Default,
    declared_at: Location,
) -> (fields: Vec<Field<'a>>)
    ensures
        attr_views(fields@) == designated(fields_parse(sources@).0),
        all_linked(fields@, sources@),
        final(ctx)@ == old(ctx)@ + (fields_parse(sources@).1 + designation_errors(
            fields_parse(sources@).0,
            declared_at,
        )),
{
    let mut fields: Vec<Field<'a>> = Vec::new();
    let mut i: usize = 0;
    assert(sources@.take(0) =~= Seq::<FieldSource>::empty());
    assert(attr_views(fields@) =~= Seq::<FieldAttrView>::empty());
    assert(ctx@ =~= old(ctx)@ + Seq::<DiagnosticView>::empty());
    while i < sources.len()
        invariant
            i <= sources.len(),
            attr_views(fields@) == fields_parse(sources@.take(i as int)).0,
            ctx@ == old(ctx)@ + fields_parse(sources@.take(i as int)).1,
            all_linked(fields@, sources@.take(i as int)),
        decreases sources.len() - i,
    {
        let ghost before = fields_parse(sources@.take(i as int));
        let ghost views_before = attr_views(fields@);
        let ghost fields_before = fields@;
        assert(sources@.take(i + 1).drop_last() =~= sources@.take(i as int));
        assert(sources@.take(i + 1).last() == sources@[i as int]);
        let source = &sources[i];
        let attr = FieldAttr::from_ast(ctx, i, source, attrs, container_default);
        let member = match &source.ident {
            Some(ident) => Member::Named(ident.clone()),
            None => Member::Unnamed(i),
        };
        let field = Field {
            ident: source.ident.as_ref(),
            member,
            attrs: attr,
            ty: &source.ty,
            original: source,
        };
        assert(linked(field, sources@[i as int], i as int));
        fields.push(field);
        assert(attr_views(fields@) =~= views_before.push(attr@));
        assert(ctx@ =~= old(ctx)@ + (before.1 + field_parse(source.attrs@).1));
        assert forall|k: int| 0 <= k < fields@.len() implies linked(
            #[trigger] fields@[k],
            sources@.take(i + 1)[k],
            k,
        ) by {
            if k < i {
                assert(fields@[k] == fields_before[k]);
                assert(sources@.take(i + 1)[k] == sources@.take(i as int)[k]);
            }
        }
        i = i + 1;
    }
    assert(sources@.take(sources.len() as int) =~= sources@);
    let ghost parsed = fields_parse(sources@).0;
    let ghost reported = fields_parse(sources@).1;
    let mut annotated: usize = 0;
    let mut id_field: Option<usize> = None;
    let mut k: usize = 0;
    assert(parsed.take(0) =~= Seq::<FieldAttrView>::empty());
    while k < fields.len()
        invariant
            k <= fields.len(),
            fields@.len() == parsed.len(),
            attr_views(fields@) == parsed,
            annotated == count_primary(parsed.take(k as int)),
            annotated <= k,
            match id_field {
                Some(found) => first_id(parsed.take(k as int)) == Some(found as int) && found < k,
                None => first_id(parsed.take(k as int)) is None,
            },
        decreases fields.len() - k,
    {
        assert(parsed.take(k + 1).drop_last() =~= parsed.take(k as int));
        assert(parsed.take(k + 1).last() == parsed[k as int]);
        assert(attr_views(fields@)[k as int] == fields@[k as int].attrs@);
        if fields[k].attrs.primary_key {
            annotated = annotated + 1;
        }
        if id_field.is_none() && str_eq(fields[k].attrs.name.serialize.as_str(), "id") {
            id_field = Some(k);
        }
        k = k + 1;
    }
    assert(parsed.take(fields.len() as int) =~= parsed);
    if annotated == 0 {
        match id_field {
            Some(found) => {
                let ghost fields_before = fields@;
                fields[found].attrs.primary_key = true;
                assert(attr_views(fields@) =~= designated(parsed));
                assert(ctx@ =~= old(ctx)@ + (reported + designation_errors(parsed, declared_at)));
                assert forall|j: int| 0 <= j < fields@.len() implies linked(
                    #[trigger] fields@[j],
                    sources@[j],
                    j,
                ) by {
                    assert(linked(fields_before[j], sources@[j], j));
                }
            },
            None => {
                ctx.error_spanned_by(
                    declared_at,
                    ErrorKind::MissingPrimaryKey,
                    String::from_str(
                        "A primary field doesn't exists, either add `id` field or annotate a field `primary_key`",
                    ),
                );
                assert(ctx@ =~= old(ctx)@ + (reported + designation_errors(parsed, declared_at)));
            },
        }
    } else if annotated > 1 {
        ctx.error_spanned_by(
            declared_at,
            ErrorKind::MultiplePrimaryKeys,
            String::from_str("several fields are annotated `primary_key`, keep one"),
        );
        assert(ctx@ =~= old(ctx)@ + (reported + designation_errors(parsed, declared_at)));
    } else {
        assert(ctx@ =~= old(ctx)@ + (reported + designation_errors(parsed, declared_at)));
    }
    fields
}

fn struct_from_ast<'a>(
    ctx: &mut Ctx,
    fields: &'a FieldsSource,
    attrs: Option<&VariantAttr>,
    container_default: &crate::common::Default,
    declared_at: Location,
) -> (built: (Style, Vec<Field<'a>>))
    ensures
        built.0 == style_of(*fields),
        attr_views(built.1@) == struct_parse(*fields, declared_at).0,
        all_linked(built.1@, sources_of(*fields)),
        final(ctx)@ == old(ctx)@ + struct_parse(*fields, declared_at).1,
{
    match fields {
        FieldsSource::Named(sources) => (
            Style::Struct,
            fields_from_ast(ctx, sources, attrs, container_default, declared_at),
        ),
        FieldsSource::Unnamed(sources) => {
            let style = if sources.len() == 1 {
                Style::Newtype
            } else {
                Style::Tuple
            };
            (style, fields_from_ast(ctx, sources, attrs, container_default, declared_at))
        },
        FieldsSource::Unit => {
            let built: Vec<Field<'a>> = Vec::new();
            assert(attr_views(built@) =~= Seq::<FieldAttrView>::empty());
            assert(ctx@ =~= old(ctx)@ + Seq::<DiagnosticView>::empty());
            (Style::Unit, built)
        },
    }
}

/// Each variant of a list was built from the source at its position.
pub open spec fn variants_linked<'a>(
    variants: Seq<Variant<'a>>,
    sources: Seq<VariantSource>,
) -> bool {
    variants.len() == sources.len() && forall|i: int|
        0 <= i < variants.len() ==> {
            &&& (#[trigger] variants[i]).ident@ == sources[i].ident@
            &&& *variants[i].inner == sources[i]
            &&& all_linked(variants[i].fields@, sources_of(sources[i].fields))
        }
}

fn enum_from_ast<'a>(
    ctx: &mut Ctx,
    sources: &'a Vec<VariantSource>,
    container_default: &crate::common::Default,
) -> (variants: Vec<Variant<'a>>)
    ensures
        variant_views(variants@) == variants_parse(sources@).0,
        variants_linked(variants@, sources@),
        final(ctx)@ == old(ctx)@ + variants_parse(sources@).1,
{
    let mut variants: Vec<Variant<'a>> = Vec::new();
    let mut i: usize = 0;
    assert(sources@.take(0) =~= Seq::<VariantSource>::empty());
    assert(variant_views(variants@) =~= Seq::<VariantView>::empty());
    assert(ctx@ =~= old(ctx)@ + Seq::<DiagnosticView>::empty());
    while i < sources.len()
        invariant
            i <= sources.len(),
            variant_views(variants@) == variants_parse(sources@.take(i as int)).0,
            variants_linked(variants@, sources@.take(i as int)),
            ctx@ == old(ctx)@ + variants_parse(sources@.take(i as int)).1,
        decreases sources.len() - i,
    {
        let ghost before = variants_parse(sources@.take(i as int));
        let ghost views_before = variant_views(variants@);
        let ghost variants_before = variants@;
        assert(sources@.take(i + 1).drop_last() =~= sources@.take(i as int));
        assert(sources@.take(i + 1).last() == sources@[i as int]);
        let source = &sources[i];
        let attrs = VariantAttr::from_ast(ctx, source);
        let (style, fields) = struct_from_ast(
            ctx,
            &source.fields,
            Some(&attrs),
            container_default,
            source.location,
        );
        let variant = Variant { ident: source.ident.clone(), attrs, style, fields, inner: source };
        variants.push(variant);
        assert(variant_views(variants@) =~= views_before.push(variant@));
        assert(ctx@ =~= old(ctx)@ + (before.1 + variant_parse(source.attrs@).1 + struct_parse(
            source.fields,
            source.location,
        ).1));
        assert forall|k: int| 0 <= k < variants@.len() implies {
            &&& (#[trigger] variants@[k]).ident@ == sources@.take(i + 1)[k].ident@
            &&& *variants@[k].inner == sources@.take(i + 1)[k]
            &&& all_linked(variants@[k].fields@, sources_of(sources@.take(i + 1)[k].fields))
        } by {
            if k < i {
                assert(variants@[k] == variants_before[k]);
                assert(sources@.take(i + 1)[k] == sources@.take(i as int)[k]);
            }
        }
        i = i + 1;
    }
    assert(sources@.take(sources.len() as int) =~= sources@);
    variants
}

fn rename_fields<'a>(fields: &mut Vec<Field<'a>>, rules: &RenameAllRules) -> (flatten: bool)
    ensures
        attr_views(final(fields)@) == renamed_fields(attr_views(old(fields)@), *rules),
        flatten == any_flatten(attr_views(old(fields)@)),
        final(fields)@.len() == old(fields)@.len(),
        forall|i: int|
            0 <= i < old(fields)@.len() ==> {
                &&& (#[trigger] final(fields)@[i]).ty == old(fields)@[i].ty
                &&& final(fields)@[i].original == old(fields)@[i].original
                &&& final(fields)@[i].ident == old(fields)@[i].ident
                &&& final(fields)@[i].member == old(fields)@[i].member
            },
{
    let ghost start = attr_views(fields@);
    let mut flatten = false;
    let mut i: usize = 0;
    while i < fields.len()
        invariant
            i <= fields.len(),
            fields@.len() == old(fields)@.len(),
            start == attr_views(old(fields)@),
            forall|k: int| 0 <= k < i ==> (#[trigger] fields@[k]).attrs@ == renamed_fields(
                start,
                *rules,
            )[k],
            forall|k: int| i <= k < fields@.len() ==> (#[trigger] fields@[k]) == old(fields)@[k],
            forall|k: int|
                0 <= k < fields@.len() ==> {
                    &&& (#[trigger] fields@[k]).ty == old(fields)@[k].ty
                    &&& fields@[k].original == old(fields)@[k].original
                    &&& fields@[k].ident == old(fields)@[k].ident
                    &&& fields@[k].member == old(fields)@[k].member
                },
            flatten == any_flatten(start.take(i as int)),
        decreases fields.len() - i,
    {
        let ghost before = fields@;
        assert(before[i as int] == old(fields)@[i as int]);
        assert(start[i as int] == old(fields)@[i as int].attrs@);
        let this_flatten = fields[i].attrs.flatten();
        proof {
            let next = start.take(i + 1);
            if this_flatten {
                assert(next[i as int].flatten);
            } else if flatten {
                let w = choose|w: int| 0 <= w < i && (#[trigger] start.take(i as int)[w]).flatten;
                assert(next[w].flatten);
            } else {
                assert forall|k: int| 0 <= k < i + 1 implies !(#[trigger] next[k]).flatten by {
                    if k < i {
                        assert(start.take(i as int)[k] == next[k]);
                    }
                }
            }
        }
        if this_flatten {
            flatten = true;
        }
        fields[i].attrs.rename_by_rules(rules);
        assert forall|k: int| 0 <= k < fields@.len() && k != i implies fields@[k] == before[k] by {}
        i = i + 1;
    }
    assert(start.take(fields.len() as int) =~= start);
    assert(attr_views(fields@) =~= renamed_fields(start, *rules));
    flatten
}

impl<'a> Container<'a> {
    /// Builds the model of a declaration and collects in `ctx` everything
    /// that is wrong with its annotations.
    ///
    /// The container's own annotations are read first, then those of its
    /// fields or variants in declaration order. Where no field of a struct or
    /// variant is annotated `primary_key`, the first field named `id` becomes
    /// the primary key. The casing rules are applied last, once per name. A
    /// union has no model.
    pub fn new(ctx: &mut Ctx, item: &'a DeriveInput) -> (built: Option<Container<'a>>)
        ensures
            final(ctx)@ == old(ctx)@ + container_errors(*item),
            match built {
                Some(container) => container_of(*item) == Some(container@) && *container.original
                    == *item && *container.ident == item.ident,
                None => container_of(*item) is None,
            },
    {
        let mut attrs = ContainerAttr::from_ast(ctx, item);
        let mut data = match &item.data {
            DataSource::Enum(variants) => Data::Enum(enum_from_ast(ctx, variants, &attrs.default)),
            DataSource::Struct(fields) => {
                let (style, fields) = struct_from_ast(
                    ctx,
                    fields,
                    None,
                    &attrs.default,
                    item.location,
                );
                Data::Struct(style, fields)
            },
            DataSource::Union => {
                ctx.error_spanned_by(
                    item.location,
                    ErrorKind::UnsupportedShape,
                    String::from_str("derive is not supported for unions"),
                );
                assert(ctx@ =~= old(ctx)@ + container_errors(*item));
                return None;
            },
        };
        assert(ctx@ =~= old(ctx)@ + container_errors(*item));
        assert(data@ == data_parse(*item).0);
        let mut has_flatten = false;
        match &mut data {
            Data::Enum(variants) => {
                let ghost start = variant_views(variants@);
                let mut i: usize = 0;
                while i < variants.len()
                    invariant
                        i <= variants.len(),
                        variants@.len() == start.len(),
                        forall|k: int|
                            0 <= k < i ==> (#[trigger] variants@[k])@ == renamed_variant(
                                start[k],
                                attrs.rename_all_rules,
                            ),
                        forall|k: int| i <= k < variants@.len() ==> (#[trigger] variants@[k])@
                            == start[k],
                        has_flatten == any_variant_flatten(start.take(i as int)),
                    decreases variants.len() - i,
                {
                    let ghost before = variants@;
                    let ghost this = start[i as int];
                    assert(before[i as int]@ == this);
                    variants[i].attrs.rename_by_rules(&attrs.rename_all_rules);
                    let rules = variants[i].attrs.rename_all_rules;
                    let flatten = rename_fields(&mut variants[i].fields, &rules);
                    proof {
                        if flatten {
                            assert(any_flatten(start.take(i + 1)[i as int].fields));
                        } else if has_flatten {
                            let w = choose|w: int|
                                0 <= w < i && any_flatten(
                                    (#[trigger] start.take(i as int)[w]).fields,
                                );
                            assert(any_flatten(start.take(i + 1)[w].fields));
                        } else {
                            assert forall|k: int| 0 <= k < i + 1 implies !any_flatten(
                                (#[trigger] start.take(i + 1)[k]).fields,
                            ) by {
                                if k < i {
                                    assert(start.take(i as int)[k] == start.take(i + 1)[k]);
                                }
                            }
                        }
                    }
                    if flatten {
                        has_flatten = true;
                    }
                    assert forall|k: int| 0 <= k < variants@.len() && k != i implies variants@[k]
                        == before[k] by {}
                    i = i + 1;
                }
                assert(start.take(variants.len() as int) =~= start);
                assert(variant_views(variants@) =~= renamed_variants(
                    start,
                    attrs.rename_all_rules,
                ));
            },
            Data::Struct(_, fields) => {
                has_flatten = rename_fields(fields, &attrs.rename_all_rules);
            },
        }
        if has_flatten {
            attrs.mark_has_flatten();
        }
        Some(Container { ident: &item.ident, attrs, data, original: item })
    }
}

/// No field is counted exactly when no field is annotated `primary_key`.
pub proof fn lemma_count_primary(fields: Seq<FieldAttrView>)
    ensures
        count_primary(fields) == 0 <==> forall|i: int|
            0 <= i < fields.len() ==> !(#[trigger] fields[i]).primary_key,
        count_primary(fields) <= fields.len(),
    decreases fields.len(),
{
    if fields.len() > 0 {
        let init = fields.drop_last();
        lemma_count_primary(init);
        if count_primary(fields) == 0 {
            assert forall|i: int| 0 <= i < fields.len() implies !(#[trigger] fields[i]).primary_key by {
                if i < init.len() {
                    assert(init[i] == fields[i]);
                }
            }
        } else if count_primary(init) > 0 {
            let i = choose|i: int| 0 <= i < init.len() && (#[trigger] init[i]).primary_key;
            assert(fields[i].primary_key);
        } else {
            assert(fields[fields.len() - 1].primary_key);
        }
    }
}

/// What `first_id` finds is the first field whose name for encoding is `id`.
pub proof fn lemma_first_id(fields: Seq<FieldAttrView>)
    ensures
        match first_id(fields) {
            Some(k) => 0 <= k < fields.len() && fields[k].name.serialize == "id"@ && forall|j: int|
                0 <= j < k ==> (#[trigger] fields[j]).name.serialize != "id"@,
            None => forall|j: int|
                0 <= j < fields.len() ==> (#[trigger] fields[j]).name.serialize != "id"@,
        },
    decreases fields.len(),
{
    if fields.len() > 0 {
        let init = fields.drop_last();
        lemma_first_id(init);
        match first_id(init) {
            Some(k) => {
                assert(init[k] == fields[k]);
                assert forall|j: int| 0 <= j < k implies (#[trigger] fields[j]).name.serialize
                    != "id"@ by {
                    assert(init[j] == fields[j]);
                }
            },
            None => {
                assert forall|j: int| 0 <= j < init.len() implies (
                #[trigger] fields[j]).name.serialize != "id"@ by {
                    assert(init[j] == fields[j]);
                }
            },
        }
    }
}

/// Replacing one field changes the count by that field alone.
pub proof fn lemma_count_primary_update(fields: Seq<FieldAttrView>, k: int, field: FieldAttrView)
    requires
        0 <= k < fields.len(),
    ensures
        count_primary(fields.update(k, field)) + (if fields[k].primary_key {
            1nat
        } else {
            0nat
        }) == count_primary(fields) + (if field.primary_key {
            1nat
        } else {
            0nat
        }),
    decreases fields.len(),
{
    let last = fields.len() - 1;
    if k == last {
        assert(fields.update(k, field).drop_last() =~= fields.drop_last());
    } else {
        lemma_count_primary_update(fields.drop_last(), k, field);
        assert(fields.update(k, field).drop_last() =~= fields.drop_last().update(k, field));
    }
}

/// Where no field is annotated `primary_key`, the first field whose name for
/// encoding is `id` becomes the primary key, and it alone; nothing is
/// reported.
pub proof fn lemma_designated_by_name(fields: Seq<FieldAttrView>, declared_at: Location, k: int)
    requires
        forall|i: int| 0 <= i < fields.len() ==> !(#[trigger] fields[i]).primary_key,
        0 <= k < fields.len(),
        fields[k].name.serialize == "id"@,
        forall|j: int| 0 <= j < k ==> (#[trigger] fields[j]).name.serialize != "id"@,
    ensures
        designated(fields) == fields.update(k, FieldAttrView { primary_key: true, ..fields[k] }),
        forall|i: int|
            0 <= i < fields.len() ==> ((#[trigger] designated(fields)[i]).primary_key <==> i == k),
        designation_errors(fields, declared_at) == Seq::<DiagnosticView>::empty(),
{
    lemma_count_primary(fields);
    lemma_first_id(fields);
}

/// Where no field is annotated `primary_key` and none is named `id`, the
/// fields stay as they are and `MissingPrimaryKey` is reported.
pub proof fn lemma_missing_primary_key(fields: Seq<FieldAttrView>, declared_at: Location)
    requires
        forall|i: int|
            0 <= i < fields.len() ==> !(#[trigger] fields[i]).primary_key
                && fields[i].name.serialize != "id"@,
    ensures
        designated(fields) == fields,
        designation_errors(fields, declared_at) == seq![
            DiagnosticView {
                kind: ErrorKind::MissingPrimaryKey,
                message: missing_primary_key_message(),
                location: declared_at,
            },
        ],
{
    lemma_count_primary(fields);
    lemma_first_id(fields);
}

/// Where designating the primary key reports nothing, exactly one field is
/// the primary key.
pub proof fn lemma_one_primary_key(fields: Seq<FieldAttrView>, declared_at: Location)
    requires
        designation_errors(fields, declared_at).len() == 0,
    ensures
        count_primary(designated(fields)) == 1,
{
    lemma_count_primary(fields);
    lemma_first_id(fields);
    if count_primary(fields) == 0 {
        let k = first_id(fields)->0;
        lemma_count_primary_update(fields, k, FieldAttrView { primary_key: true, ..fields[k] });
    }
}

/// Applying casing rules changes names only: as many fields are primary keys
/// as before.
pub proof fn lemma_count_primary_renamed(fields: Seq<FieldAttrView>, rules: RenameAllRules)
    ensures
        count_primary(renamed_fields(fields, rules)) == count_primary(fields),
    decreases fields.len(),
{
    if fields.len() > 0 {
        lemma_count_primary_renamed(fields.drop_last(), rules);
        assert(renamed_fields(fields, rules).drop_last() =~= renamed_fields(
            fields.drop_last(),
            rules,
        ));
    }
}

/// A struct with fields that is built without any error has exactly one
/// primary-key field.
pub proof fn lemma_built_struct_has_one_primary_key(input: DeriveInput)
    requires
        container_errors(input).len() == 0,
        input.data is Struct,
        !(input.data->Struct_0 is Unit),
    ensures
        container_of(input) is Some,
        container_of(input)->0.data is Struct,
        count_primary(container_of(input)->0.data->Struct_1) == 1,
{
    let declared = input.data->Struct_0;
    let read = fields_parse(sources_of(declared));
    let own = container_parse(input).1;
    assert(container_errors(input) == own + data_parse(input).1);
    assert(data_parse(input).1 == read.1 + designation_errors(read.0, input.location));
    assert(designation_errors(read.0, input.location).len() == 0);
    lemma_one_primary_key(read.0, input.location);
    let rules = container_attr_of(input.ident@, container_parse(input).0).rename_all_rules;
    lemma_count_primary_renamed(designated(read.0), rules);
}

} // verus!
