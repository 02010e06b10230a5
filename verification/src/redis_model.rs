//! Which field of a container holds the primary key.

use crate::container::{attr_views, Container, Data};
use crate::diag::{Ctx, DiagnosticView, ErrorKind, Location};
use crate::field::{Field, FieldAttrView};
use crate::schema::{report_style_unsupported, style_unsupported};
use crate::text::str_eq;
use crate::variant::Style;
use vstd::prelude::*;
use vstd::string::*;

verus! {

/// The first field that is the primary key.
pub open spec fn first_primary(fields: Seq<FieldAttrView>) -> Option<int>
    decreases fields.len(),
{
    if fields.len() == 0 {
        None
    } else {
        match first_primary(fields.drop_last()) {
            Some(i) => Some(i),
            None => if fields.last().primary_key {
                Some(fields.len() - 1)
            } else {
                None
            },
        }
    }
}

/// The first field whose identifier in the source is `id`.
pub open spec fn first_declared_id<'a>(fields: Seq<Field<'a>>) -> Option<int>
    decreases fields.len(),
{
    if fields.len() == 0 {
        None
    } else {
        match first_declared_id(fields.drop_last()) {
            Some(i) => Some(i),
            None => if fields.last().ident is Some && fields.last().ident->0@ == "id"@ {
                Some(fields.len() - 1)
            } else {
                None
            },
        }
    }
}

/// The field that holds the primary key: the first that is marked as primary
/// key, else the first that is declared as `id`.
pub open spec fn primary_key_of<'a>(fields: Seq<Field<'a>>) -> Option<int> {
    match first_primary(attr_views(fields)) {
        Some(i) => Some(i),
        None => first_declared_id(fields),
    }
}

/// The error for an enum where a model is required.
pub open spec fn model_requires_struct(location: Location) -> DiagnosticView {
    DiagnosticView {
        kind: ErrorKind::UnsupportedShape,
        message: "RedisModel is only supported for structs"@,
        location,
    }
}

/// The error for a model without a primary key.
pub open spec fn model_without_key(location: Location) -> DiagnosticView {
    DiagnosticView {
        kind: ErrorKind::MissingPrimaryKey,
        message: crate::container::missing_primary_key_message(),
        location,
    }
}

/// What looking for the primary key of a container gives: the position of the
/// field, or the error to report. Only a struct with named fields has one.
pub open spec fn primary_key_found<'a>(cont: Container<'a>) -> Result<int, DiagnosticView> {
    match cont.data {
        Data::Enum(_) => Err(model_requires_struct(cont.original.location)),
        Data::Struct(style, fields) => if style != Style::Struct {
            Err(style_unsupported(style, cont.original.location))
        } else {
            match primary_key_of(fields@) {
                Some(i) => Ok(i),
                None => Err(model_without_key(cont.original.location)),
            }
        },
    }
}

/// Finds the field that holds the primary key of a container; where there is
/// none, says so in `ctx`.
pub fn primary_key_field<'a>(ctx: &mut Ctx, cont: &Container<'a>) -> (r: Result<usize, ()>)
    ensures
        match primary_key_found(*cont) {
            Ok(i) => r == Ok::<usize, ()>(i as usize) && 0 <= i < cont.data.spec_fields().len()
                && final(ctx)@ == old(ctx)@,
            Err(e) => r is Err && final(ctx)@ == old(ctx)@.push(e),
        },
{
    match &cont.data {
        Data::Enum(_) => {
            ctx.error_spanned_by(
                cont.original.location,
                ErrorKind::UnsupportedShape,
                String::from_str("RedisModel is only supported for structs"),
            );
            Err(())
        },
        Data::Struct(style, fields) => {
            match style {
                Style::Struct => {},
                _ => {
                    report_style_unsupported(ctx, *style, cont.original.location);
                    return Err(());
                },
            }
            let ghost attrs = attr_views(fields@);
            let mut marked: Option<usize> = None;
            let mut declared: Option<usize> = None;
            let mut i: usize = 0;
            assert(attrs.take(0) =~= Seq::<FieldAttrView>::empty());
            assert(fields@.take(0) =~= Seq::<Field<'a>>::empty());
            while i < fields.len()
                invariant
                    i <= fields.len(),
                    attrs == attr_views(fields@),
                    match marked {
                        Some(m) => first_primary(attrs.take(i as int)) == Some(m as int) && m < i,
                        None => first_primary(attrs.take(i as int)) is None,
                    },
                    match declared {
                        Some(d) => first_declared_id(fields@.take(i as int)) == Some(d as int)
                            && d < i,
                        None => first_declared_id(fields@.take(i as int)) is None,
                    },
                decreases fields.len() - i,
            {
                assert(attrs.take(i + 1).drop_last() =~= attrs.take(i as int));
                assert(attrs.take(i + 1).last() == fields@[i as int].attrs@);
                assert(fields@.take(i + 1).drop_last() =~= fields@.take(i as int));
                assert(fields@.take(i + 1).last() == fields@[i as int]);
                if marked.is_none() && fields[i].attrs.primary_key {
                    marked = Some(i);
                }
                if declared.is_none() {
                    match fields[i].ident {
                        Some(ident) => {
                            if str_eq(ident.as_str(), "id") {
                                declared = Some(i);
                            }
                        },
                        None => {},
                    }
                }
                i = i + 1;
            }
            assert(attrs.take(fields.len() as int) =~= attrs);
            assert(fields@.take(fields.len() as int) =~= fields@);
            let found = match marked {
                Some(m) => Some(m),
                None => declared,
            };
            match found {
                Some(at) => Ok(at),
                None => {
                    ctx.error_spanned_by(
                        cont.original.location,
                        ErrorKind::MissingPrimaryKey,
                        String::from_str(
                            "A primary field doesn't exists, either add `id` field or annotate a field `primary_key`",
                        ),
                    );
                    Err(())
                },
            }
        },
    }
}

} // verus!
