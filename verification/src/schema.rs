//! The search schema of a container.

use crate::container::{Container, Data};
use crate::derive::Derive;
use crate::diag::{Ctx, DiagnosticView, ErrorKind, Location};
use crate::field::{Field, FieldAttr, FieldAttrView};
use crate::text::{join, join_strings, views};
use crate::types::{GenericArg, PathArgs, Type, TypeExt};
use crate::variant::Style;
use vstd::prelude::*;
use vstd::string::*;

verus! {

/// The type that decides a field's clause: what a list collection holds,
/// through any number of nested lists. A list whose item type cannot be read
/// counts as itself.
pub open spec fn leaf_type(ty: Type) -> Type
    decreases ty,
{
    match ty {
        Type::Path(segments) => if ty.list_shaped() && segments@.len() > 0 {
            match segments@[0].arguments {
                PathArgs::AngleBracketed(args) => if args@.len() > 0 {
                    match args@[0] {
                        GenericArg::Type(inner) => leaf_type(inner),
                        GenericArg::Other => ty,
                    }
                } else {
                    ty
                },
                _ => ty,
            }
        } else {
            ty
        },
        _ => ty,
    }
}

/// `leaf_type` unwraps a list by `inner`, one level at a time.
pub proof fn lemma_leaf_type(ty: Type)
    ensures
        leaf_type(ty) == if ty.list_shaped() && ty.inner() is Some {
            leaf_type(ty.inner()->0)
        } else {
            ty
        },
{
}

/// How a field is addressed in a clause: by its bare name in a hash, by its
/// JSON path with the name as alias in a document.
pub open spec fn addressed(model: Derive, name: Seq<char>) -> Seq<char> {
    match model {
        Derive::HashModel => name,
        Derive::JsonModel => "$."@ + name + " AS "@ + name,
    }
}

/// The path of a field: its bare name in a hash, its JSON path in a document.
pub open spec fn path_of(model: Derive, name: Seq<char>) -> Seq<char> {
    match model {
        Derive::HashModel => name,
        Derive::JsonModel => "$."@ + name,
    }
}

/// The clause of a field as a tag.
pub open spec fn tag_clause(model: Derive, name: Seq<char>) -> Seq<char> {
    addressed(model, name) + " TAG SEPARATOR |"@
}

/// The clause that the type of a field gives: `NUMERIC` for a numeric type;
/// a tag for a string, followed by a text clause under the alias
/// `{name}_fts` where full-text search is asked for; a tag for anything else.
/// `SORTABLE` follows where the field is sortable.
pub open spec fn type_clause(model: Derive, attrs: FieldAttrView, ty: Type) -> Seq<char> {
    let name = attrs.name.serialize;
    let leaf = leaf_type(ty);
    let clause = if leaf.numeric() {
        addressed(model, name) + " NUMERIC"@
    } else if leaf.named("String"@) && attrs.fts {
        tag_clause(model, name) + " "@ + path_of(model, name) + " AS "@ + name + "_fts TEXT"@
    } else {
        tag_clause(model, name)
    };
    if attrs.sortable {
        clause + " SORTABLE"@
    } else {
        clause
    }
}

/// The clause of one field, if it has one: the primary key is always a tag;
/// an indexed field and a field that holds a list get the clause of their
/// type; any other field gets none.
pub open spec fn field_clause(model: Derive, attrs: FieldAttrView, ty: Type) -> Option<Seq<char>> {
    if attrs.primary_key {
        Some(tag_clause(model, attrs.name.serialize))
    } else if attrs.index || ty.list_shaped() {
        Some(type_clause(model, attrs, ty))
    } else {
        None
    }
}

/// The clauses of the fields that have one, in declaration order.
pub open spec fn clauses<'a>(model: Derive, fields: Seq<Field<'a>>) -> Seq<Seq<char>>
    decreases fields.len(),
{
    if fields.len() == 0 {
        Seq::empty()
    } else {
        let before = clauses(model, fields.drop_last());
        match field_clause(model, fields.last().attrs@, *fields.last().ty) {
            Some(clause) => before.push(clause),
            None => before,
        }
    }
}

/// What introduces a schema: the storage structure and the key prefix.
pub open spec fn header(model: Derive, prefix_key: Seq<char>) -> Seq<char> {
    (match model {
        Derive::HashModel => "ON HASH PREFIX 1 "@,
        Derive::JsonModel => "ON JSON PREFIX 1 "@,
    }) + prefix_key + " SCHEMA "@
}

/// The schema of a list of fields: the header, then the clauses with one
/// space between neighbours.
pub open spec fn schema_of<'a>(
    model: Derive,
    prefix_key: Seq<char>,
    fields: Seq<Field<'a>>,
) -> Seq<char> {
    header(model, prefix_key) + join(clauses(model, fields), " "@)
}

fn leaf_of<'b>(ty: &'b Type) -> (leaf: &'b Type)
    ensures
        *leaf == leaf_type(*ty),
    decreases ty,
{
    if ty.is_list_collection() {
        match ty.get_inner_type() {
            Some(inner) => {
                proof {
                    lemma_leaf_type(*ty);
                    let segments = ty->Path_0;
                    assert(decreases_to!(ty => ty->Path_0));
                    assert(decreases_to!(segments => segments[0]));
                    assert(decreases_to!(segments[0] => segments[0].arguments));
                    let args = segments[0].arguments->AngleBracketed_0;
                    assert(decreases_to!(segments[0].arguments => args));
                    assert(decreases_to!(args => args[0]));
                    assert(decreases_to!(args[0] => args[0]->Type_0));
                }
                leaf_of(inner)
            },
            None => ty,
        }
    } else {
        ty
    }
}

fn address(model: Derive, name: &str) -> (s: String)
    ensures
        s@ == addressed(model, name@),
{
    match model {
        Derive::HashModel => String::from_str(name),
        Derive::JsonModel => {
            let mut s = String::from_str("$.");
            s.append(name);
            s.append(" AS ");
            s.append(name);
            s
        },
    }
}

fn path_for(model: Derive, name: &str) -> (s: String)
    ensures
        s@ == path_of(model, name@),
{
    match model {
        Derive::HashModel => String::from_str(name),
        Derive::JsonModel => {
            let mut s = String::from_str("$.");
            s.append(name);
            s
        },
    }
}

fn tag_for(model: Derive, name: &str) -> (s: String)
    ensures
        s@ == tag_clause(model, name@),
{
    let mut s = address(model, name);
    s.append(" TAG SEPARATOR |");
    s
}

/// The clause that the type of a field gives.
pub fn schema_for_type(model: Derive, attrs: &FieldAttr, ty: &Type) -> (clause: String)
    ensures
        clause@ == type_clause(model, attrs@, *ty),
{
    let name = attrs.name.serialize_name();
    let leaf = leaf_of(ty);
    let mut clause = if leaf.is_numeric_type() {
        let mut s = address(model, name.as_str());
        s.append(" NUMERIC");
        s
    } else if leaf.is_ident("String") && attrs.fts {
        let mut s = tag_for(model, name.as_str());
        let path = path_for(model, name.as_str());
        s.append(" ");
        s.append(path.as_str());
        s.append(" AS ");
        s.append(name.as_str());
        s.append("_fts TEXT");
        s
    } else {
        tag_for(model, name.as_str())
    };
    if attrs.sortable {
        clause.append(" SORTABLE");
    }
    clause
}

/// The clause of one field, if it has one.
pub fn schema_for_field<'a>(model: Derive, field: &Field<'a>) -> (clause: Option<String>)
    ensures
        crate::name::option_view(clause) == field_clause(model, field.attrs@, *field.ty),
{
    if field.attrs.primary_key {
        let name = field.attrs.name.serialize_name();
        Some(tag_for(model, name.as_str()))
    } else if field.attrs.index || field.ty.is_list_collection() {
        Some(schema_for_type(model, &field.attrs, field.ty))
    } else {
        None
    }
}

/// The schema of a list of fields under the key prefix `prefix_key`: the
/// header, then the clause of each field that has one, in declaration order.
pub fn generate_redissearch_schema<'a>(
    model: Derive,
    prefix_key: &str,
    fields: &Vec<Field<'a>>,
) -> (schema: String)
    ensures
        schema@ == schema_of(model, prefix_key@, fields@),
{
    let mut parts: Vec<String> = Vec::new();
    let mut i: usize = 0;
    assert(fields@.take(0) =~= Seq::<Field<'a>>::empty());
    assert(views(parts@) =~= Seq::<Seq<char>>::empty());
    while i < fields.len()
        invariant
            i <= fields.len(),
            views(parts@) == clauses(model, fields@.take(i as int)),
        decreases fields.len() - i,
    {
        let ghost before = views(parts@);
        assert(fields@.take(i + 1).drop_last() =~= fields@.take(i as int));
        assert(fields@.take(i + 1).last() == fields@[i as int]);
        match schema_for_field(model, &fields[i]) {
            Some(clause) => {
                parts.push(clause);
                assert(views(parts@) =~= before.push(clause@));
            },
            None => {},
        }
        i = i + 1;
    }
    assert(fields@.take(fields.len() as int) =~= fields@);
    let mut schema = match model {
        Derive::HashModel => String::from_str("ON HASH PREFIX 1 "),
        Derive::JsonModel => String::from_str("ON JSON PREFIX 1 "),
    };
    schema.append(prefix_key);
    schema.append(" SCHEMA ");
    let joined = join_strings(&parts, " ");
    schema.append(joined.as_str());
    schema
}

/// The error for an enum where a record is required.
pub open spec fn enum_unsupported(location: Location) -> DiagnosticView {
    DiagnosticView {
        kind: ErrorKind::UnsupportedShape,
        message: "Enum is not supported for redissearch_model"@,
        location,
    }
}

/// The name of a style, as it is shown in messages.
pub open spec fn style_name(style: Style) -> Seq<char> {
    match style {
        Style::Struct => "Struct"@,
        Style::Tuple => "Tuple"@,
        Style::Newtype => "Newtype"@,
        Style::Unit => "Unit"@,
    }
}

/// The error for a struct without named fields where a record is required.
pub open spec fn style_unsupported(style: Style, location: Location) -> DiagnosticView {
    DiagnosticView {
        kind: ErrorKind::UnsupportedShape,
        message: style_name(style) + " Struct is not supported"@,
        location,
    }
}

/// Reports a struct without named fields where a record is required.
pub(crate) fn report_style_unsupported(ctx: &mut Ctx, style: Style, location: Location)
    ensures
        final(ctx)@ == old(ctx)@.push(style_unsupported(style, location)),
{
    let mut message = match style {
        Style::Struct => String::from_str("Struct"),
        Style::Tuple => String::from_str("Tuple"),
        Style::Newtype => String::from_str("Newtype"),
        Style::Unit => String::from_str("Unit"),
    };
    message.append(" Struct is not supported");
    ctx.error_spanned_by(location, ErrorKind::UnsupportedShape, message);
}

/// The schema of a container for the storage model `model`. Only a struct
/// with named fields has one: an enum and any other struct are reported as
/// `UnsupportedShape`.
pub fn redissearch_schema<'a>(ctx: &mut Ctx, cont: &Container<'a>, model: Derive) -> (r: Result<
    String,
    (),
>)
    ensures
        match cont.data {
            Data::Enum(_) => r is Err && final(ctx)@ == old(ctx)@.push(
                enum_unsupported(cont.original.location),
            ),
            Data::Struct(style, fields) => if style == Style::Struct {
                r is Ok && r->Ok_0@ == schema_of(model, cont.attrs@.prefix_key, fields@)
                    && final(ctx)@ == old(ctx)@
            } else {
                r is Err && final(ctx)@ == old(ctx)@.push(
                    style_unsupported(style, cont.original.location),
                )
            },
        },
{
    match &cont.data {
        Data::Enum(_) => {
            ctx.error_spanned_by(
                cont.original.location,
                ErrorKind::UnsupportedShape,
                String::from_str("Enum is not supported for redissearch_model"),
            );
            Err(())
        },
        Data::Struct(style, fields) => {
            match style {
                Style::Struct => Ok(
                    generate_redissearch_schema(model, cont.attrs.prefix_key.as_str(), fields),
                ),
                _ => {
                    report_style_unsupported(ctx, *style, cont.original.location);
                    Err(())
                },
            }
        },
    }
}

/// The clauses of the first fields of a list stand at the start of the
/// clauses of the whole list, in the same order.
pub proof fn lemma_clauses_prefix<'a>(model: Derive, fields: Seq<Field<'a>>, count: int)
    requires
        0 <= count <= fields.len(),
    ensures
        clauses(model, fields.take(count)).len() <= clauses(model, fields).len(),
        clauses(model, fields).take(clauses(model, fields.take(count)).len() as int) == clauses(
            model,
            fields.take(count),
        ),
    decreases fields.len() - count,
{
    if count == fields.len() {
        assert(fields.take(count) =~= fields);
        assert(clauses(model, fields).take(clauses(model, fields).len() as int) =~= clauses(
            model,
            fields,
        ));
    } else {
        lemma_clauses_prefix(model, fields, count + 1);
        let shorter = clauses(model, fields.take(count));
        let longer = clauses(model, fields.take(count + 1));
        assert(fields.take(count + 1).drop_last() =~= fields.take(count));
        assert(longer.take(shorter.len() as int) =~= shorter);
        assert(clauses(model, fields).take(shorter.len() as int) =~= clauses(model, fields).take(
            longer.len() as int,
        ).take(shorter.len() as int));
    }
}

/// The clauses stand in declaration order: the clause of a field stands
/// right behind the clauses of the fields declared before it, and so before
/// the clause of every field declared after it.
pub proof fn lemma_clauses_in_order<'a>(model: Derive, fields: Seq<Field<'a>>, i: int, j: int)
    requires
        0 <= i < j < fields.len(),
        field_clause(model, fields[i].attrs@, *fields[i].ty) is Some,
        field_clause(model, fields[j].attrs@, *fields[j].ty) is Some,
    ensures
        ({
            let at_i = clauses(model, fields.take(i)).len() as int;
            let at_j = clauses(model, fields.take(j)).len() as int;
            &&& at_i < at_j < clauses(model, fields).len()
            &&& clauses(model, fields)[at_i] == field_clause(
                model,
                fields[i].attrs@,
                *fields[i].ty,
            )->0
            &&& clauses(model, fields)[at_j] == field_clause(
                model,
                fields[j].attrs@,
                *fields[j].ty,
            )->0
        }),
{
    let all = clauses(model, fields);
    let upto_i = clauses(model, fields.take(i));
    let with_i = clauses(model, fields.take(i + 1));
    let upto_j = clauses(model, fields.take(j));
    let with_j = clauses(model, fields.take(j + 1));
    assert(fields.take(i + 1).drop_last() =~= fields.take(i));
    assert(fields.take(j + 1).drop_last() =~= fields.take(j));
    assert(fields.take(i + 1).last() == fields[i]);
    assert(fields.take(j + 1).last() == fields[j]);
    lemma_clauses_prefix(model, fields, i + 1);
    lemma_clauses_prefix(model, fields, j + 1);
    lemma_clauses_prefix(model, fields.take(j), i + 1);
    assert(fields.take(j).take(i + 1) =~= fields.take(i + 1));
    assert(all[upto_i.len() as int] == all.take(with_i.len() as int)[upto_i.len() as int]);
    assert(all[upto_j.len() as int] == all.take(with_j.len() as int)[upto_j.len() as int]);
}

/// A model that can be searched: it carries its search schema.
pub trait RedisSearchModel {
    /// The whole search schema of the model.
    const _REDIS_SEARCH_SCHEMA: &'static str;
}

} // verus!
