//! What a container is carried as: a struct with named fields as a record of
//! flat pairs, an enum of unit variants as the name of the variant.

use crate::container::{variant_views, Container, Data, VariantView};
use crate::diag::{Ctx, DiagnosticView, ErrorKind, Location};
use crate::field::Field;
use crate::name::{contains_name, distinct};
use crate::schema::{report_style_unsupported, style_unsupported};
use crate::text::{join, join_strings, string_from_utf8, views};
use crate::variant::{Style, Variant, VariantAttr, VariantAttrView};
use crate::wire::{Wire, WireValue};
use vstd::prelude::*;
use vstd::string::*;
use vstd::utf8::*;

verus! {

/// The error for a variant with fields where only unit variants are
/// supported.
pub open spec fn variant_unsupported(location: Location) -> DiagnosticView {
    DiagnosticView {
        kind: ErrorKind::EnumFieldsUnsupported,
        message: "Only Enum's Unit variant is currently supported"@,
        location,
    }
}

/// The error for an enum where a record is required.
pub open spec fn record_required(location: Location) -> DiagnosticView {
    DiagnosticView {
        kind: ErrorKind::UnsupportedShape,
        message: "only structs with named fields are records"@,
        location,
    }
}

/// The first variant that is no unit.
pub open spec fn first_with_fields(variants: Seq<VariantView>) -> Option<int>
    decreases variants.len(),
{
    if variants.len() == 0 {
        None
    } else {
        match first_with_fields(variants.drop_last()) {
            Some(i) => Some(i),
            None => if variants.last().style != Style::Unit {
                Some(variants.len() - 1)
            } else {
                None
            },
        }
    }
}

/// What `first_with_fields` finds is a variant that is no unit, and all
/// variants before it are units.
pub proof fn lemma_first_with_fields(variants: Seq<VariantView>)
    ensures
        match first_with_fields(variants) {
            Some(i) => 0 <= i < variants.len() && variants[i].style != Style::Unit && forall|
                j: int,
            |
                0 <= j < i ==> (#[trigger] variants[j]).style == Style::Unit,
            None => forall|j: int|
                0 <= j < variants.len() ==> (#[trigger] variants[j]).style == Style::Unit,
        },
    decreases variants.len(),
{
    if variants.len() > 0 {
        let init = variants.drop_last();
        lemma_first_with_fields(init);
        match first_with_fields(init) {
            Some(i) => {
                assert(init[i] == variants[i]);
                assert forall|j: int| 0 <= j < i implies (#[trigger] variants[j]).style
                    == Style::Unit by {
                    assert(init[j] == variants[j]);
                }
            },
            None => {
                assert forall|j: int| 0 <= j < init.len() implies (#[trigger] variants[j]).style
                    == Style::Unit by {
                    assert(init[j] == variants[j]);
                }
            },
        }
    }
}

/// The fields of a container that is carried as a record. Only a struct with
/// named fields is one: any other struct and an enum are reported as
/// `UnsupportedShape`.
pub fn record_fields<'a, 'b>(ctx: &mut Ctx, cont: &'b Container<'a>) -> (r: Result<
    &'b Vec<Field<'a>>,
    (),
>)
    ensures
        match cont.data {
            Data::Struct(style, fields) => if style == Style::Struct {
                r == Ok::<&Vec<Field<'a>>, ()>(&fields) && final(ctx)@ == old(ctx)@
            } else {
                r is Err && final(ctx)@ == old(ctx)@.push(
                    style_unsupported(style, cont.original.location),
                )
            },
            Data::Enum(_) => r is Err && final(ctx)@ == old(ctx)@.push(
                record_required(cont.original.location),
            ),
        },
{
    match &cont.data {
        Data::Struct(style, fields) => match style {
            Style::Struct => Ok(fields),
            _ => {
                report_style_unsupported(ctx, *style, cont.original.location);
                Err(())
            },
        },
        Data::Enum(_) => {
            ctx.error_spanned_by(
                cont.original.location,
                ErrorKind::UnsupportedShape,
                String::from_str("only structs with named fields are records"),
            );
            Err(())
        },
    }
}

/// The variants of an enum that is carried as the name of its variant. Every
/// variant must be a unit: the first that is not is reported as
/// `EnumFieldsUnsupported`.
pub fn tag_variants<'a, 'b>(ctx: &mut Ctx, variants: &'b Vec<Variant<'a>>) -> (r: Result<
    &'b Vec<Variant<'a>>,
    (),
>)
    ensures
        match first_with_fields(variant_views(variants@)) {
            Some(i) => r is Err && final(ctx)@ == old(ctx)@.push(
                variant_unsupported(variants@[i].inner.location),
            ),
            None => r == Ok::<&Vec<Variant<'a>>, ()>(variants) && final(ctx)@ == old(ctx)@,
        },
{
    let ghost all = variant_views(variants@);
    let mut i: usize = 0;
    assert(all.take(0) =~= Seq::<VariantView>::empty());
    while i < variants.len()
        invariant
            i <= variants.len(),
            all == variant_views(variants@),
            first_with_fields(all.take(i as int)) is None,
            ctx@ == old(ctx)@,
        decreases variants.len() - i,
    {
        assert(all.take(i + 1).drop_last() =~= all.take(i as int));
        assert(all.take(i + 1).last() == variants@[i as int]@);
        match variants[i].style {
            Style::Unit => {},
            _ => {
                ctx.error_spanned_by(
                    variants[i].inner.location,
                    ErrorKind::EnumFieldsUnsupported,
                    String::from_str("Only Enum's Unit variant is currently supported"),
                );
                proof {
                    lemma_first_with_fields_found(all, i as int);
                }
                return Err(());
            },
        }
        i = i + 1;
    }
    assert(all.take(variants.len() as int) =~= all);
    Ok(variants)
}

/// The first variant that is no unit among the first of a list is the first
/// among all.
pub proof fn lemma_first_with_fields_found(variants: Seq<VariantView>, i: int)
    requires
        0 <= i < variants.len(),
        first_with_fields(variants.take(i)) is None,
        variants[i].style != Style::Unit,
    ensures
        first_with_fields(variants) == Some(i),
    decreases variants.len() - i,
{
    assert(variants.take(i + 1).drop_last() =~= variants.take(i));
    assert(variants.take(i + 1).last() == variants[i]);
    lemma_first_with_fields_kept(variants, i + 1);
}

/// A variant that is found among the first of a list is found among all.
pub proof fn lemma_first_with_fields_kept(variants: Seq<VariantView>, count: int)
    requires
        0 <= count <= variants.len(),
        first_with_fields(variants.take(count)) is Some,
    ensures
        first_with_fields(variants) == first_with_fields(variants.take(count)),
    decreases variants.len() - count,
{
    if count < variants.len() {
        assert(variants.take(count + 1).drop_last() =~= variants.take(count));
        lemma_first_with_fields_kept(variants, count + 1);
    } else {
        assert(variants.take(count) =~= variants);
    }
}

/// The bytes that a variant is written as: its name for encoding, in UTF-8;
/// nothing for a variant that is skipped when encoding.
pub open spec fn tag_written(variant: VariantAttrView) -> Option<Seq<u8>> {
    if variant.skip_serializing {
        None
    } else {
        Some(encode_utf8(variant.name.serialize))
    }
}

/// The records of a list of variants.
pub open spec fn variant_attr_views<'a>(variants: Seq<Variant<'a>>) -> Seq<VariantAttrView> {
    Seq::new(variants.len(), |i: int| variants[i].attrs@)
}

/// The records of a list of references to variant records.
pub open spec fn variant_ref_views(attrs: Seq<&VariantAttr>) -> Seq<VariantAttrView> {
    Seq::new(attrs.len(), |i: int| attrs[i]@)
}

/// The records of a list of variants, by reference.
pub fn variant_attrs<'a, 'b>(variants: &'b Vec<Variant<'a>>) -> (attrs: Vec<&'b VariantAttr>)
    ensures
        variant_ref_views(attrs@) == variant_attr_views(variants@),
{
    let mut attrs: Vec<&'b VariantAttr> = Vec::new();
    let mut i: usize = 0;
    while i < variants.len()
        invariant
            i <= variants.len(),
            variant_ref_views(attrs@) =~= variant_attr_views(variants@).take(i as int),
        decreases variants.len() - i,
    {
        let ghost before = variant_ref_views(attrs@);
        attrs.push(&variants[i].attrs);
        assert(variant_ref_views(attrs@) =~= before.push(variants@[i as int].attrs@));
        assert(variant_attr_views(variants@).take(i + 1) =~= variant_attr_views(variants@).take(
            i as int,
        ).push(variants@[i as int].attrs@));
        i = i + 1;
    }
    assert(variant_attr_views(variants@).take(variants.len() as int) =~= variant_attr_views(
        variants@,
    ));
    attrs
}

/// Writes a variant as its name.
pub fn enum_to_wire(variants: &Vec<&VariantAttr>, index: usize) -> (tag: Option<Vec<u8>>)
    ensures
        index >= variants@.len() ==> tag is None,
        index < variants@.len() ==> match tag {
            Some(bytes) => tag_written(variants@[index as int]@) == Some(bytes@),
            None => tag_written(variants@[index as int]@) is None,
        },
{
    if index >= variants.len() {
        return None;
    }
    if variants[index].skip_serializing {
        None
    } else {
        Some(variants[index].name.serialize.as_str().as_bytes_vec())
    }
}

/// The first variant that is not skipped when decoding and accepts `text` as
/// one of its names.
pub open spec fn tag_read(variants: Seq<VariantAttrView>, text: Seq<char>) -> Option<int>
    decreases variants.len(),
{
    if variants.len() == 0 {
        None
    } else {
        match tag_read(variants.drop_last(), text) {
            Some(i) => Some(i),
            None => if accepts(variants.last(), text) {
                Some(variants.len() - 1)
            } else {
                None
            },
        }
    }
}

/// The variant is not skipped when decoding and accepts `text` as one of its
/// names.
pub open spec fn accepts(variant: VariantAttrView, text: Seq<char>) -> bool {
    !variant.skip_deserializing && variant.name.accepted().contains(text)
}

/// Every name under which a variant of the list is read, in order.
pub open spec fn accepted_names(variants: Seq<VariantAttrView>) -> Seq<Seq<char>>
    decreases variants.len(),
{
    if variants.len() == 0 {
        Seq::empty()
    } else {
        accepted_names(variants.drop_last()) + if variants.last().skip_deserializing {
            Seq::empty()
        } else {
            variants.last().name.accepted()
        }
    }
}

/// Why a value could not be read as a variant.
#[derive(Debug)]
pub enum TagError {
    /// The value is no byte string.
    NotAString,
    /// The byte string is not valid UTF-8.
    NotUtf8,
    /// The text names no variant; the message lists the names that do.
    InvalidVariant(String),
}

/// A `TagError` as a plain value.
pub enum TagErrorView {
    NotAString,
    NotUtf8,
    InvalidVariant(Seq<char>),
}

impl View for TagError {
    type V = TagErrorView;

    open spec fn view(&self) -> TagErrorView {
        match self {
            TagError::NotAString => TagErrorView::NotAString,
            TagError::NotUtf8 => TagErrorView::NotUtf8,
            TagError::InvalidVariant(message) => TagErrorView::InvalidVariant(message@),
        }
    }
}

/// The message for a text that names no variant.
pub open spec fn invalid_variant_message(variants: Seq<VariantAttrView>, text: Seq<char>) -> Seq<
    char,
> {
    text + ", Expected one of: "@ + join(accepted_names(variants), ", "@)
}

/// What a value reads as: the variant that it names, or why it names none.
pub open spec fn tag_decoded(variants: Seq<VariantAttrView>, value: Wire) -> Result<
    int,
    TagErrorView,
> {
    match value {
        Wire::Data(bytes) => if !valid_utf8(bytes) {
            Err(TagErrorView::NotUtf8)
        } else {
            match tag_read(variants, decode_utf8(bytes)) {
                Some(i) => Ok(i),
                None => Err(
                    TagErrorView::InvalidVariant(
                        invalid_variant_message(variants, decode_utf8(bytes)),
                    ),
                ),
            }
        },
        _ => Err(TagErrorView::NotAString),
    }
}

/// Reads a variant from its name. The value must be a byte string in UTF-8;
/// the first variant that accepts the text is the one.
pub fn enum_from_wire(variants: &Vec<&VariantAttr>, value: &WireValue) -> (r: Result<
    usize,
    TagError,
>)
    ensures
        match tag_decoded(variant_ref_views(variants@), value@) {
            Ok(i) => r is Ok && r->Ok_0 == i,
            Err(e) => r is Err && r->Err_0@ == e,
        },
{
    let bytes = match value {
        WireValue::Data(bytes) => bytes,
        _ => {
            return Err(TagError::NotAString);
        },
    };
    let text = match string_from_utf8(bytes) {
        Some(text) => text,
        None => {
            return Err(TagError::NotUtf8);
        },
    };
    let ghost all = variant_ref_views(variants@);
    let mut names: Vec<String> = Vec::new();
    let mut i: usize = 0;
    assert(all.take(0) =~= Seq::<VariantAttrView>::empty());
    assert(views(names@) =~= Seq::<Seq<char>>::empty());
    while i < variants.len()
        invariant
            i <= variants.len(),
            all == variant_ref_views(variants@),
            value@ == Wire::Data(bytes@),
            valid_utf8(bytes@),
            text@ == decode_utf8(bytes@),
            tag_read(all.take(i as int), text@) is None,
            views(names@) == accepted_names(all.take(i as int)),
        decreases variants.len() - i,
    {
        assert(all.take(i + 1).drop_last() =~= all.take(i as int));
        assert(all.take(i + 1).last() == variants@[i as int]@);
        let ghost before = views(names@);
        if !variants[i].skip_deserializing {
            let accepted = variants[i].name.deserialize_aliases();
            if contains_name(&accepted, text.as_str()) {
                proof {
                    lemma_tag_read_found(all, text@, i as int);
                }
                return Ok(i);
            }
            let mut k: usize = 0;
            assert(views(accepted@).take(0) =~= Seq::<Seq<char>>::empty());
            assert(views(names@) =~= before + views(accepted@).take(0));
            while k < accepted.len()
                invariant
                    k <= accepted.len(),
                    views(names@) == before + views(accepted@).take(k as int),
                decreases accepted.len() - k,
            {
                let ghost so_far = views(names@);
                names.push(accepted[k].clone());
                assert(views(names@) =~= so_far.push(accepted@[k as int]@));
                assert(views(accepted@).take(k + 1) =~= views(accepted@).take(k as int).push(
                    accepted@[k as int]@,
                ));
                assert(views(names@) =~= before + views(accepted@).take(k + 1));
                k = k + 1;
            }
            assert(views(accepted@).take(accepted.len() as int) =~= views(accepted@));
        } else {
            assert(views(names@) =~= before + Seq::<Seq<char>>::empty());
        }
        i = i + 1;
    }
    assert(all.take(variants.len() as int) =~= all);
    let mut message = text;
    message.append(", Expected one of: ");
    let listed = join_strings(&names, ", ");
    message.append(listed.as_str());
    Err(TagError::InvalidVariant(message))
}

/// A variant that accepts the text, with none before it that does, is the
/// one that is read.
pub proof fn lemma_tag_read_found(variants: Seq<VariantAttrView>, text: Seq<char>, i: int)
    requires
        0 <= i < variants.len(),
        tag_read(variants.take(i), text) is None,
        accepts(variants[i], text),
    ensures
        tag_read(variants, text) == Some(i),
{
    assert(variants.take(i + 1).drop_last() =~= variants.take(i));
    assert(variants.take(i + 1).last() == variants[i]);
    lemma_tag_read_kept(variants, text, i + 1);
}

/// A variant that is read from the first of a list is read from all.
pub proof fn lemma_tag_read_kept(variants: Seq<VariantAttrView>, text: Seq<char>, count: int)
    requires
        0 <= count <= variants.len(),
        tag_read(variants.take(count), text) is Some,
    ensures
        tag_read(variants, text) == tag_read(variants.take(count), text),
    decreases variants.len() - count,
{
    if count < variants.len() {
        assert(variants.take(count + 1).drop_last() =~= variants.take(count));
        lemma_tag_read_kept(variants, text, count + 1);
    } else {
        assert(variants.take(count) =~= variants);
    }
}

/// No variant among the first `count` is read from `text`.
pub proof fn lemma_tag_read_none(variants: Seq<VariantAttrView>, text: Seq<char>, count: int)
    requires
        0 <= count <= variants.len(),
        forall|j: int| 0 <= j < count ==> !accepts(#[trigger] variants[j], text),
    ensures
        tag_read(variants.take(count), text) is None,
    decreases count,
{
    if count > 0 {
        lemma_tag_read_none(variants, text, count - 1);
        assert(variants.take(count).drop_last() =~= variants.take(count - 1));
        assert(variants.take(count).last() == variants[count - 1]);
    }
}

/// A variant that was written is read back: where a variant is neither
/// skipped when encoding nor when decoding, accepts its own name, and no
/// variant before it accepts that name, reading what was written for it gives
/// the same variant.
pub proof fn lemma_tag_round_trip(variants: Seq<VariantAttrView>, i: int)
    requires
        0 <= i < variants.len(),
        !variants[i].skip_serializing,
        accepts(variants[i], variants[i].name.serialize),
        forall|j: int| 0 <= j < i ==> !accepts(#[trigger] variants[j], variants[i].name.serialize),
    ensures
        tag_written(variants[i]) is Some,
        tag_decoded(variants, Wire::Data(tag_written(variants[i])->0)) == Ok::<int, TagErrorView>(
            i,
        ),
{
    broadcast use {encode_utf8_valid_utf8, encode_utf8_decode_utf8};

    let name = variants[i].name.serialize;
    lemma_tag_read_none(variants, name, i);
    lemma_tag_read_found(variants, name, i);
}

} // verus!
