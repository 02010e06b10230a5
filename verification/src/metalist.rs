//! Groups of the form `keyword(serialize = "...", deserialize = "...")`.

use crate::attr::{duplicate_error, VecAttr};
use crate::diag::{Ctx, DiagnosticView, ErrorKind, Location};
use crate::meta::{expected_string_message, Lit, LitExt, Meta, MetaList, NestedMeta};
use crate::symbol::{Symbol, DESERIALIZE, RENAME, SERIALIZE};
use crate::text::views;
use vstd::prelude::*;
use vstd::string::*;

verus! {

/// The message for a group that holds anything but `serialize = ...` and
/// `deserialize = ...`.
pub open spec fn malformed_message(attr: Seq<char>) -> Seq<char> {
    "malformed "@ + attr + " attribute, expected `"@ + attr
        + "(serialize = ..., deserialize = ...)`"@
}

/// What a scan over the entries of a group has collected.
pub struct SerDe {
    /// No entry so far was anything but `serialize = ...` or `deserialize = ...`.
    pub ok: bool,
    /// The values of the `serialize` entries, in order.
    pub ser: Seq<Seq<char>>,
    /// Where the second `serialize` entry stands.
    pub ser_dup: Option<Location>,
    /// The values of the `deserialize` entries, in order.
    pub de: Seq<Seq<char>>,
    /// Where the second `deserialize` entry stands.
    pub de_dup: Option<Location>,
    /// What the scan reported.
    pub errors: Seq<DiagnosticView>,
}

/// The error for a literal that is no string, under `attr(item = ...)`.
pub open spec fn not_a_string(attr: Seq<char>, item: Seq<char>, lit: Lit) -> DiagnosticView {
    DiagnosticView {
        kind: ErrorKind::InvalidLiteralType,
        message: expected_string_message(attr, item),
        location: lit.location,
    }
}

/// One step of the scan: a `serialize` or `deserialize` entry adds its value,
/// or an error if its value is no string; any other entry ends the scan with
/// an error. After that nothing changes.
pub open spec fn ser_de_step(before: SerDe, entry: NestedMeta, attr: Seq<char>) -> SerDe {
    if !before.ok {
        before
    } else {
        match entry {
            NestedMeta::Meta(Meta::NameValue(path, lit)) => if path.is(SERIALIZE@) {
                match lit.string_value() {
                    Some(v) => SerDe {
                        ser: before.ser.push(v),
                        ser_dup: if before.ser.len() == 1 {
                            Some(path.location)
                        } else {
                            before.ser_dup
                        },
                        ..before
                    },
                    None => SerDe {
                        errors: before.errors.push(not_a_string(attr, SERIALIZE@, lit)),
                        ..before
                    },
                }
            } else if path.is(DESERIALIZE@) {
                match lit.string_value() {
                    Some(v) => SerDe {
                        de: before.de.push(v),
                        de_dup: if before.de.len() == 1 {
                            Some(path.location)
                        } else {
                            before.de_dup
                        },
                        ..before
                    },
                    None => SerDe {
                        errors: before.errors.push(not_a_string(attr, DESERIALIZE@, lit)),
                        ..before
                    },
                }
            } else {
                ser_de_malformed(before, entry, attr)
            },
            _ => ser_de_malformed(before, entry, attr),
        }
    }
}

/// The scan ends at `entry`, which is neither `serialize = ...` nor
/// `deserialize = ...`.
pub open spec fn ser_de_malformed(before: SerDe, entry: NestedMeta, attr: Seq<char>) -> SerDe {
    SerDe {
        ok: false,
        errors: before.errors.push(
            DiagnosticView {
                kind: ErrorKind::MalformedAttribute,
                message: malformed_message(attr),
                location: entry.spec_location(),
            },
        ),
        ..before
    }
}

/// The scan over all entries of a group, from the first on.
pub open spec fn ser_de_scan(entries: Seq<NestedMeta>, attr: Seq<char>) -> SerDe
    decreases entries.len(),
{
    if entries.len() == 0 {
        SerDe {
            ok: true,
            ser: Seq::empty(),
            ser_dup: None,
            de: Seq::empty(),
            de_dup: None,
            errors: Seq::empty(),
        }
    } else {
        ser_de_step(ser_de_scan(entries.drop_last(), attr), entries.last(), attr)
    }
}

/// Once the scan has ended, further entries change nothing.
pub proof fn lemma_ser_de_scan_ended(entries: Seq<NestedMeta>, attr: Seq<char>, k: int)
    requires
        0 <= k <= entries.len(),
        !ser_de_scan(entries.take(k), attr).ok,
    ensures
        ser_de_scan(entries, attr) == ser_de_scan(entries.take(k), attr),
    decreases entries.len() - k,
{
    if k < entries.len() {
        assert(entries.take(k + 1).drop_last() =~= entries.take(k));
        lemma_ser_de_scan_ended(entries, attr, k + 1);
    } else {
        assert(entries.take(k) =~= entries);
    }
}

/// What `get_renames` returns and reports: at most one value for each side.
/// Two values for one side are a `DuplicateAttribute` error at the second; the
/// `serialize` side is looked at first.
pub open spec fn renames_of(entries: Seq<NestedMeta>) -> (
    Option<(Option<Seq<char>>, Option<Seq<char>>)>,
    Seq<DiagnosticView>,
) {
    let scan = ser_de_scan(entries, RENAME@);
    if !scan.ok {
        (None, scan.errors)
    } else if scan.ser.len() > 1 && scan.ser_dup is Some {
        (None, scan.errors.push(duplicate_error(RENAME@, scan.ser_dup->0)))
    } else if scan.de.len() > 1 && scan.de_dup is Some {
        (None, scan.errors.push(duplicate_error(RENAME@, scan.de_dup->0)))
    } else {
        (Some((first_of(scan.ser), first_of(scan.de))), scan.errors)
    }
}

/// What `get_multiple_renames` returns and reports: at most one value for
/// `serialize`, any number for `deserialize`.
pub open spec fn multiple_renames_of(entries: Seq<NestedMeta>) -> (
    Option<(Option<Seq<char>>, Seq<Seq<char>>)>,
    Seq<DiagnosticView>,
) {
    let scan = ser_de_scan(entries, RENAME@);
    if !scan.ok {
        (None, scan.errors)
    } else if scan.ser.len() > 1 && scan.ser_dup is Some {
        (None, scan.errors.push(duplicate_error(RENAME@, scan.ser_dup->0)))
    } else {
        (Some((first_of(scan.ser), scan.de)), scan.errors)
    }
}

/// The first of `values`, if there is one.
pub open spec fn first_of(values: Seq<Seq<char>>) -> Option<Seq<char>> {
    if values.len() > 0 {
        Some(values[0])
    } else {
        None
    }
}

/// The second value's place is known as soon as there are two values.
pub proof fn lemma_ser_de_scan_dup(entries: Seq<NestedMeta>, attr: Seq<char>)
    ensures
        ser_de_scan(entries, attr).ser.len() > 1 ==> ser_de_scan(entries, attr).ser_dup is Some,
        ser_de_scan(entries, attr).de.len() > 1 ==> ser_de_scan(entries, attr).de_dup is Some,
    decreases entries.len(),
{
    if entries.len() > 0 {
        lemma_ser_de_scan_dup(entries.drop_last(), attr);
    }
}

fn get_ser_and_de(ctx: &mut Ctx, attr_name: Symbol, metas: &Vec<NestedMeta>) -> (r: Result<
    (VecAttr<String>, VecAttr<String>),
    (),
>)
    ensures
        final(ctx)@ == old(ctx)@ + ser_de_scan(metas@, attr_name.text()).errors,
        match r {
            Ok((ser, de)) => {
                let scan = ser_de_scan(metas@, attr_name.text());
                &&& scan.ok
                &&& views(ser.values()) == scan.ser
                &&& ser.first_dup_location() == scan.ser_dup
                &&& ser.name() == attr_name
                &&& views(de.values()) == scan.de
                &&& de.first_dup_location() == scan.de_dup
                &&& de.name() == attr_name
            },
            Err(_) => !ser_de_scan(metas@, attr_name.text()).ok,
        },
{
    let mut ser_meta: VecAttr<String> = VecAttr::new(attr_name);
    let mut de_meta: VecAttr<String> = VecAttr::new(attr_name);
    let ghost attr = attr_name.text();
    let mut i: usize = 0;
    assert(metas@.take(0) =~= Seq::<NestedMeta>::empty());
    assert(views(ser_meta.values()) =~= Seq::<Seq<char>>::empty());
    assert(views(de_meta.values()) =~= Seq::<Seq<char>>::empty());
    assert(ctx@ =~= old(ctx)@ + Seq::<DiagnosticView>::empty());
    while i < metas.len()
        invariant
            i <= metas.len(),
            attr == attr_name.text(),
            ser_de_scan(metas@.take(i as int), attr).ok,
            ctx@ == old(ctx)@ + ser_de_scan(metas@.take(i as int), attr).errors,
            views(ser_meta.values()) == ser_de_scan(metas@.take(i as int), attr).ser,
            ser_meta.first_dup_location() == ser_de_scan(metas@.take(i as int), attr).ser_dup,
            ser_meta.name() == attr_name,
            views(de_meta.values()) == ser_de_scan(metas@.take(i as int), attr).de,
            de_meta.first_dup_location() == ser_de_scan(metas@.take(i as int), attr).de_dup,
            de_meta.name() == attr_name,
        decreases metas.len() - i,
    {
        let ghost before = ser_de_scan(metas@.take(i as int), attr);
        let ghost after = ser_de_scan(metas@.take(i + 1), attr);
        let ghost ser_before = views(ser_meta.values());
        let ghost de_before = views(de_meta.values());
        assert(metas@.take(i + 1).drop_last() =~= metas@.take(i as int));
        assert(metas@.take(i + 1).last() == metas@[i as int]);
        assert(after == ser_de_step(before, metas@[i as int], attr));
        let mut malformed = false;
        match &metas[i] {
            NestedMeta::Meta(Meta::NameValue(path, lit)) => {
                if path.is_ident(SERIALIZE) {
                    match lit.to_lit_str_0(ctx, attr_name, Symbol(SERIALIZE)) {
                        Ok(v) => {
                            ser_meta.insert(path.location, v);
                            assert(views(ser_meta.values()) =~= ser_before.push(v@));
                        },
                        Err(_) => {},
                    }
                } else if path.is_ident(DESERIALIZE) {
                    match lit.to_lit_str_0(ctx, attr_name, Symbol(DESERIALIZE)) {
                        Ok(v) => {
                            de_meta.insert(path.location, v);
                            assert(views(de_meta.values()) =~= de_before.push(v@));
                        },
                        Err(_) => {},
                    }
                } else {
                    malformed = true;
                }
            },
            _ => {
                malformed = true;
            },
        }
        if malformed {
            let mut message = String::from_str("malformed ");
            message.append(attr_name.as_str());
            message.append(" attribute, expected `");
            message.append(attr_name.as_str());
            message.append("(serialize = ..., deserialize = ...)`");
            ctx.error_spanned_by(metas[i].location(), ErrorKind::MalformedAttribute, message);
            proof {
                assert(ctx@ =~= old(ctx)@ + after.errors);
                lemma_ser_de_scan_ended(metas@, attr, i + 1);
            }
            return Err(());
        }
        assert(ctx@ =~= old(ctx)@ + after.errors);
        i = i + 1;
    }
    assert(metas@.take(metas.len() as int) =~= metas@);
    Ok((ser_meta, de_meta))
}

/// Reads the two sides of a group.
pub trait MetaListExt {
    /// The entries of the group.
    spec fn entries(&self) -> Seq<NestedMeta>;

    /// At most one value for each side.
    fn get_renames(&self, ctx: &mut Ctx) -> (r: Result<(Option<String>, Option<String>), ()>)
        ensures
            final(ctx)@ == old(ctx)@ + renames_of(self.entries()).1,
            match r {
                Ok((ser, de)) => renames_of(self.entries()).0 == Some(
                    (crate::name::option_view(ser), crate::name::option_view(de)),
                ),
                Err(_) => renames_of(self.entries()).0 is None,
            },
    ;

    /// At most one value for `serialize`, any number for `deserialize`.
    fn get_multiple_renames(&self, ctx: &mut Ctx) -> (r: Result<
        (Option<String>, Vec<String>),
        (),
    >)
        ensures
            final(ctx)@ == old(ctx)@ + multiple_renames_of(self.entries()).1,
            match r {
                Ok((ser, de)) => multiple_renames_of(self.entries()).0 == Some(
                    (crate::name::option_view(ser), views(de@)),
                ),
                Err(_) => multiple_renames_of(self.entries()).0 is None,
            },
    ;
}

impl MetaListExt for MetaList {
    open spec fn entries(&self) -> Seq<NestedMeta> {
        self.nested@
    }

    fn get_renames(&self, ctx: &mut Ctx) -> (r: Result<(Option<String>, Option<String>), ()>) {
        proof {
            lemma_ser_de_scan_dup(self.nested@, RENAME@);
        }
        match get_ser_and_de(ctx, Symbol(RENAME), &self.nested) {
            Err(_) => Err(()),
            Ok((ser, de)) => {
                match ser.at_most_one(ctx) {
                    Err(_) => {
                        assert(ctx@ =~= old(ctx)@ + renames_of(self.nested@).1);
                        Err(())
                    },
                    Ok(ser) => {
                        match de.at_most_one(ctx) {
                            Err(_) => {
                                assert(ctx@ =~= old(ctx)@ + renames_of(self.nested@).1);
                                Err(())
                            },
                            Ok(de) => Ok((ser, de)),
                        }
                    },
                }
            },
        }
    }

    fn get_multiple_renames(&self, ctx: &mut Ctx) -> (r: Result<
        (Option<String>, Vec<String>),
        (),
    >) {
        proof {
            lemma_ser_de_scan_dup(self.nested@, RENAME@);
        }
        match get_ser_and_de(ctx, Symbol(RENAME), &self.nested) {
            Err(_) => Err(()),
            Ok((ser, de)) => {
                match ser.at_most_one(ctx) {
                    Err(_) => {
                        assert(ctx@ =~= old(ctx)@ + multiple_renames_of(self.nested@).1);
                        Err(())
                    },
                    Ok(ser) => Ok((ser, de.get())),
                }
            },
        }
    }
}

} // verus!
