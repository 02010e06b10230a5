//! The flat encoding of a record: an ordered list of key and value pairs.
//!
//! A field that expands to one wire value is written under its name; a field
//! that expands to several is written under `name.0`, `name.1`, and so on.
//! Decoding groups the pairs by the part of the key before the first dot, in
//! the order in which they arrive, and hands each field what is found under
//! the first of its accepted names.

use crate::container::attr_views;
use crate::field::{Field, FieldAttr, FieldAttrView};
use crate::text::{decimal, decimal_string, find_char, first_index_of, str_eq, views};
use crate::wire::{key_of, lemma_bulk_view, wire_views, Wire, WireValue};
use vstd::prelude::*;
use vstd::string::*;
use vstd::utf8::*;

verus! {

/// Why a record could not be encoded or decoded.
#[derive(Clone, Copy, Debug, PartialEq, Eq, Structural)]
pub enum CodecError {
    /// The record does not hold one entry for each field.
    FieldCountMismatch,
    /// The wire data is no list, or holds an odd number of items, or an item
    /// in the place of a key that is no text.
    MalformedWireData,
}

/// The key of the `index`-th of several values of the field `name`.
pub open spec fn indexed_key(name: Seq<char>, index: nat) -> Seq<char> {
    name + seq!['.'] + decimal(index)
}

/// The pairs that one field is encoded into: one pair under its name for a
/// single value, else one pair for each value under its indexed key, in the
/// order of the values.
pub open spec fn field_pairs(name: Seq<char>, values: Seq<Seq<u8>>) -> Seq<(Seq<char>, Seq<u8>)> {
    if values.len() == 1 {
        seq![(name, values[0])]
    } else {
        Seq::new(values.len(), |i: int| (indexed_key(name, i as nat), values[i]))
    }
}

/// The pairs that a record is encoded into: those of each field that is not
/// skipped when encoding, in declaration order.
pub open spec fn encoded(fields: Seq<FieldAttrView>, record: Seq<Seq<Seq<u8>>>) -> Seq<
    (Seq<char>, Seq<u8>),
>
    recommends
        fields.len() == record.len(),
    decreases fields.len(),
{
    if fields.len() == 0 || record.len() == 0 {
        Seq::empty()
    } else {
        encoded(fields.drop_last(), record.drop_last()) + if fields.last().skip_serializing {
            Seq::empty()
        } else {
            field_pairs(fields.last().name.serialize, record.last())
        }
    }
}

/// The wire values of one field, as plain values.
pub open spec fn value_views(values: Seq<Vec<u8>>) -> Seq<Seq<u8>> {
    Seq::new(values.len(), |i: int| values[i]@)
}

/// The wire values of every field of a record, as plain values.
pub open spec fn record_views(record: Seq<Vec<Vec<u8>>>) -> Seq<Seq<Seq<u8>>> {
    Seq::new(record.len(), |i: int| value_views(record[i]@))
}

/// A list of pairs, as plain values.
pub open spec fn pair_views(pairs: Seq<(String, Vec<u8>)>) -> Seq<(Seq<char>, Seq<u8>)> {
    Seq::new(pairs.len(), |i: int| (pairs[i].0@, pairs[i].1@))
}

/// The records of a list of references to field records.
pub open spec fn ref_views(attrs: Seq<&FieldAttr>) -> Seq<FieldAttrView> {
    Seq::new(attrs.len(), |i: int| attrs[i]@)
}

/// The records of a list of fields, by reference.
pub fn field_attrs<'a, 'b>(fields: &'b Vec<Field<'a>>) -> (attrs: Vec<&'b FieldAttr>)
    ensures
        ref_views(attrs@) == attr_views(fields@),
{
    let mut attrs: Vec<&'b FieldAttr> = Vec::new();
    let mut i: usize = 0;
    while i < fields.len()
        invariant
            i <= fields.len(),
            ref_views(attrs@) =~= attr_views(fields@).take(i as int),
        decreases fields.len() - i,
    {
        let ghost before = ref_views(attrs@);
        attrs.push(&fields[i].attrs);
        assert(ref_views(attrs@) =~= before.push(fields@[i as int].attrs@));
        assert(attr_views(fields@).take(i + 1) =~= attr_views(fields@).take(i as int).push(
            fields@[i as int].attrs@,
        ));
        i = i + 1;
    }
    assert(attr_views(fields@).take(fields.len() as int) =~= attr_views(fields@));
    attrs
}

/// Encodes a record. `record` holds for each field, in declaration order, the
/// wire values that the field's value expands to; the entry of a field that
/// is skipped when encoding is not looked at. A value is written whatever it
/// holds: an empty primary key gives a pair with an empty value.
pub fn encode<'a>(fields: &Vec<Field<'a>>, record: &Vec<Vec<Vec<u8>>>) -> (r: Result<
    Vec<(String, Vec<u8>)>,
    CodecError,
>)
    ensures
        fields@.len() != record@.len() ==> r == Err::<Vec<(String, Vec<u8>)>, CodecError>(
            CodecError::FieldCountMismatch,
        ),
        fields@.len() == record@.len() ==> r is Ok && pair_views(r->Ok_0@) == encoded(
            attr_views(fields@),
            record_views(record@),
        ),
{
    let attrs = field_attrs(fields);
    assert(ref_views(attrs@).len() == attrs@.len());
    assert(attr_views(fields@).len() == fields@.len());
    encode_attrs(&attrs, record)
}

/// As `encode`, for fields that are given by their records alone.
pub fn encode_attrs(fields: &Vec<&FieldAttr>, record: &Vec<Vec<Vec<u8>>>) -> (r: Result<
    Vec<(String, Vec<u8>)>,
    CodecError,
>)
    ensures
        fields@.len() != record@.len() ==> r == Err::<Vec<(String, Vec<u8>)>, CodecError>(
            CodecError::FieldCountMismatch,
        ),
        fields@.len() == record@.len() ==> r is Ok && pair_views(r->Ok_0@) == encoded(
            ref_views(fields@),
            record_views(record@),
        ),
{
    if fields.len() != record.len() {
        return Err(CodecError::FieldCountMismatch);
    }
    let ghost attrs = ref_views(fields@);
    let ghost all = record_views(record@);
    let mut pairs: Vec<(String, Vec<u8>)> = Vec::new();
    let mut i: usize = 0;
    assert(pair_views(pairs@) =~= encoded(attrs.take(0), all.take(0)));
    while i < fields.len()
        invariant
            i <= fields.len(),
            fields@.len() == record@.len(),
            attrs == ref_views(fields@),
            all == record_views(record@),
            pair_views(pairs@) == encoded(attrs.take(i as int), all.take(i as int)),
        decreases fields.len() - i,
    {
        let ghost before = pair_views(pairs@);
        assert(attrs.take(i + 1).drop_last() =~= attrs.take(i as int));
        assert(all.take(i + 1).drop_last() =~= all.take(i as int));
        assert(attrs.take(i + 1).last() == fields@[i as int]@);
        assert(all.take(i + 1).last() == value_views(record@[i as int]@));
        if !fields[i].skip_serializing {
            let name = &fields[i].name.serialize;
            let values = &record[i];
            let ghost wanted = field_pairs(name@, value_views(values@));
            if values.len() == 1 {
                let value = values[0].clone();
                assert(value@ =~= values@[0]@);
                pairs.push((name.clone(), value));
                assert(pair_views(pairs@) =~= before + wanted);
            } else {
                let mut j: usize = 0;
                assert(pair_views(pairs@) =~= before + wanted.take(0));
                while j < values.len()
                    invariant
                        j <= values.len(),
                        values@.len() != 1,
                        wanted == field_pairs(name@, value_views(values@)),
                        pair_views(pairs@) == before + wanted.take(j as int),
                    decreases values.len() - j,
                {
                    let ghost so_far = pair_views(pairs@);
                    proof {
                        reveal_strlit(".");
                    }
                    let mut key = name.clone();
                    key.append(".");
                    let index = decimal_string(j);
                    key.append(index.as_str());
                    assert(key@ =~= indexed_key(name@, j as nat));
                    let value = values[j].clone();
                    assert(value@ =~= values@[j as int]@);
                    pairs.push((key, value));
                    assert(pair_views(pairs@) =~= so_far.push(wanted[j as int]));
                    assert(wanted.take(j + 1) =~= wanted.take(j as int).push(wanted[j as int]));
                    assert(pair_views(pairs@) =~= before + wanted.take(j + 1));
                    j = j + 1;
                }
                assert(wanted.take(values.len() as int) =~= wanted);
            }
        } else {
            assert(pair_views(pairs@) =~= before + Seq::<(Seq<char>, Seq<u8>)>::empty());
        }
        i = i + 1;
    }
    assert(attrs.take(fields.len() as int) =~= attrs);
    assert(all.take(fields.len() as int) =~= all);
    Ok(pairs)
}

/// The wire data that the store hands back for a list of pairs: one list of
/// byte strings, key and value in turn, the keys in UTF-8.
pub open spec fn wire_of(pairs: Seq<(Seq<char>, Seq<u8>)>) -> Wire {
    Wire::Bulk(
        Seq::new(
            2 * pairs.len(),
            |k: int|
                if k % 2 == 0 {
                    Wire::Data(encode_utf8(pairs[k / 2].0))
                } else {
                    Wire::Data(pairs[k / 2].1)
                },
        ),
    )
}

/// Lays a list of pairs out as the store hands it back.
pub fn to_wire(pairs: &Vec<(String, Vec<u8>)>) -> (wire: WireValue)
    ensures
        wire@ == wire_of(pair_views(pairs@)),
{
    let ghost wanted = wire_of(pair_views(pairs@))->Bulk_0;
    let mut items: Vec<WireValue> = Vec::new();
    let mut i: usize = 0;
    while i < pairs.len()
        invariant
            i <= pairs.len(),
            wanted == wire_of(pair_views(pairs@))->Bulk_0,
            wire_views(items@) =~= wanted.take(2 * i),
        decreases pairs.len() - i,
    {
        let ghost before = wire_views(items@);
        let key = pairs[i].0.as_str().as_bytes_vec();
        let value = pairs[i].1.clone();
        assert(value@ =~= pairs@[i as int].1@);
        items.push(WireValue::Data(key));
        items.push(WireValue::Data(value));
        assert(wanted[2 * i] == Wire::Data(encode_utf8(pairs@[i as int].0@)));
        assert(wanted[2 * i + 1] == Wire::Data(pairs@[i as int].1@));
        assert(wire_views(items@) =~= before.push(wanted[2 * i]).push(wanted[2 * i + 1]));
        i = i + 1;
    }
    proof {
        lemma_bulk_view(items);
        assert(wanted.take(2 * (pairs@.len() as int)) =~= wanted);
    }
    WireValue::Bulk(items)
}

/// The part of a key that names the field: what stands before the first dot,
/// or the whole key where there is no dot.
pub open spec fn base_of(key: Seq<char>) -> Seq<char> {
    match first_index_of(key, '.') {
        Some(i) => key.take(i),
        None => key,
    }
}

/// What one pair does to the values grouped so far. A key without a dot
/// places its value under the key, replacing what was there. A key with a dot
/// adds its value to the list under the key's base; where the base holds no
/// list yet, one is started.
pub open spec fn group_step(
    grouped: Map<Seq<char>, Wire>,
    key: Seq<char>,
    value: Wire,
) -> Map<Seq<char>, Wire> {
    match first_index_of(key, '.') {
        None => grouped.insert(key, value),
        Some(i) => {
            let base = key.take(i);
            if grouped.contains_key(base) && grouped[base] is Bulk {
                grouped.insert(base, Wire::Bulk(grouped[base]->Bulk_0.push(value)))
            } else {
                grouped.insert(base, Wire::Bulk(seq![value]))
            }
        },
    }
}

/// The values grouped from `start` on by a list of pairs, taken in order.
pub open spec fn group_pairs(
    start: Map<Seq<char>, Wire>,
    pairs: Seq<(Seq<char>, Wire)>,
) -> Map<Seq<char>, Wire>
    decreases pairs.len(),
{
    if pairs.len() == 0 {
        start
    } else {
        group_step(group_pairs(start, pairs.drop_last()), pairs.last().0, pairs.last().1)
    }
}

/// Every item in the place of a key is a text.
pub open spec fn keys_readable(items: Seq<Wire>) -> bool {
    forall|p: int| 0 <= 2 * p < items.len() ==> key_of(#[trigger] items[2 * p]) is Some
}

/// The first `count` pairs of a flat list of items.
pub open spec fn pairs_of(items: Seq<Wire>, count: nat) -> Seq<(Seq<char>, Wire)>
    recommends
        2 * count <= items.len(),
{
    Seq::new(count, |p: int| (key_of(items[2 * p])->0, items[2 * p + 1]))
}

/// The pairs that wire data holds: it is a list of an even number of items,
/// and each item in the place of a key is a text.
pub open spec fn wire_pairs(wire: Wire) -> Option<Seq<(Seq<char>, Wire)>> {
    match wire {
        Wire::Bulk(items) => if items.len() % 2 == 0 && keys_readable(items) {
            Some(pairs_of(items, items.len() / 2))
        } else {
            None
        },
        _ => None,
    }
}

/// What a field is handed: the value under the first of its accepted names
/// that the grouped values hold, or `Nil` where they hold none of them.
pub open spec fn lookup(grouped: Map<Seq<char>, Wire>, names: Seq<Seq<char>>) -> Wire
    decreases names.len(),
{
    if names.len() == 0 {
        Wire::Nil
    } else if grouped.contains_key(names[0]) {
        grouped[names[0]]
    } else {
        lookup(grouped, names.drop_first())
    }
}

/// What each field is handed from the grouped values: nothing for a field
/// that is skipped when decoding.
pub open spec fn slots(fields: Seq<FieldAttrView>, grouped: Map<Seq<char>, Wire>) -> Seq<
    Option<Wire>,
> {
    Seq::new(
        fields.len(),
        |i: int|
            if fields[i].skip_deserializing {
                None
            } else {
                Some(lookup(grouped, fields[i].name.accepted()))
            },
    )
}

/// What wire data decodes into, field by field; nothing where the data is
/// malformed.
pub open spec fn decoded(fields: Seq<FieldAttrView>, wire: Wire) -> Option<Seq<Option<Wire>>> {
    match wire_pairs(wire) {
        Some(pairs) => Some(slots(fields, group_pairs(Map::empty(), pairs))),
        None => None,
    }
}

/// The values grouped by base key: an association list that holds no key
/// twice.
struct Grouped {
    keys: Vec<String>,
    values: Vec<WireValue>,
}

/// The map that an association list stands for; of equal keys the last
/// counts.
pub open spec fn assoc<V>(keys: Seq<Seq<char>>, values: Seq<V>) -> Map<Seq<char>, V>
    recommends
        keys.len() == values.len(),
    decreases keys.len(),
{
    if keys.len() == 0 || values.len() == 0 {
        Map::empty()
    } else {
        assoc(keys.drop_last(), values.drop_last()).insert(keys.last(), values.last())
    }
}

/// An association list holds exactly its keys, and under a key that occurs
/// once the value at the key's position.
pub proof fn lemma_assoc<V>(keys: Seq<Seq<char>>, values: Seq<V>)
    requires
        keys.len() == values.len(),
    ensures
        forall|k: Seq<char>| assoc(keys, values).contains_key(k) <==> keys.contains(k),
        crate::name::distinct(keys) ==> forall|i: int|
            0 <= i < keys.len() ==> assoc(keys, values)[#[trigger] keys[i]] == values[i],
    decreases keys.len(),
{
    if keys.len() > 0 {
        let init_keys = keys.drop_last();
        let init_values = values.drop_last();
        lemma_assoc(init_keys, init_values);
        assert forall|k: Seq<char>| assoc(keys, values).contains_key(k) <==> keys.contains(k) by {
            if keys.contains(k) {
                let i = choose|i: int| 0 <= i < keys.len() && keys[i] == k;
                if i < keys.len() - 1 {
                    assert(init_keys[i] == k);
                    assert(init_keys.contains(k));
                }
            }
            if assoc(keys, values).contains_key(k) && k != keys.last() {
                assert(init_keys.contains(k));
                let i = choose|i: int| 0 <= i < init_keys.len() && init_keys[i] == k;
                assert(keys[i] == k);
            } else if k == keys.last() {
                assert(keys[keys.len() - 1] == k);
            }
        }
        if crate::name::distinct(keys) {
            assert(crate::name::distinct(init_keys)) by {
                assert forall|i: int, j: int| 0 <= i < j < init_keys.len() implies init_keys[i]
                    != init_keys[j] by {
                    assert(keys[i] != keys[j]);
                }
            }
            assert forall|i: int| 0 <= i < keys.len() implies assoc(keys, values)[#[trigger] keys[i]]
                == values[i] by {
                if i < keys.len() - 1 {
                    assert(keys[i] != keys[keys.len() - 1]);
                    assert(init_keys[i] == keys[i]);
                    assert(init_values[i] == values[i]);
                }
            }
        }
    }
}

/// Replacing the value at the position of a key that occurs once is placing
/// the value under that key.
pub proof fn lemma_assoc_update<V>(keys: Seq<Seq<char>>, values: Seq<V>, i: int, value: V)
    requires
        keys.len() == values.len(),
        0 <= i < keys.len(),
        crate::name::distinct(keys),
    ensures
        assoc(keys, values.update(i, value)) == assoc(keys, values).insert(keys[i], value),
    decreases keys.len(),
{
    let init_keys = keys.drop_last();
    let init_values = values.drop_last();
    let last = keys.len() - 1;
    assert(crate::name::distinct(init_keys)) by {
        assert forall|a: int, b: int| 0 <= a < b < init_keys.len() implies init_keys[a]
            != init_keys[b] by {
            assert(keys[a] != keys[b]);
        }
    }
    if i == last {
        assert(values.update(i, value).drop_last() =~= init_values);
        assert(assoc(keys, values.update(i, value)) =~= assoc(keys, values).insert(
            keys[i],
            value,
        ));
    } else {
        lemma_assoc_update(init_keys, init_values, i, value);
        assert(values.update(i, value).drop_last() =~= init_values.update(i, value));
        assert(keys[i] != keys[last]);
        assert(init_keys[i] == keys[i]);
        assert(assoc(keys, values.update(i, value)) =~= assoc(keys, values).insert(
            keys[i],
            value,
        ));
    }
}

/// Adding a key that does not occur yet keeps the keys distinct.
pub proof fn lemma_distinct_push(keys: Seq<Seq<char>>, key: Seq<char>)
    requires
        crate::name::distinct(keys),
        !keys.contains(key),
    ensures
        crate::name::distinct(keys.push(key)),
{
    let all = keys.push(key);
    assert forall|a: int, b: int| 0 <= a < b < all.len() implies all[a] != all[b] by {
        if b < keys.len() {
            assert(keys[a] != keys[b]);
        } else {
            assert(keys[a] == all[a]);
            assert(keys.contains(keys[a]));
        }
    }
}

impl View for Grouped {
    type V = Map<Seq<char>, Wire>;

    closed spec fn view(&self) -> Map<Seq<char>, Wire> {
        assoc(views(self.keys@), wire_views(self.values@))
    }
}

impl Grouped {
    spec fn well_formed(&self) -> bool {
        self.keys@.len() == self.values@.len() && crate::name::distinct(views(self.keys@))
    }

    fn new() -> (grouped: Grouped)
        ensures
            grouped.well_formed(),
            grouped@ == Map::<Seq<char>, Wire>::empty(),
    {
        Grouped { keys: Vec::new(), values: Vec::new() }
    }

    fn find(&self, key: &str) -> (found: Option<usize>)
        requires
            self.well_formed(),
        ensures
            match found {
                Some(i) => i < self.keys@.len() && self.keys@[i as int]@ == key@
                    && self@.contains_key(key@) && self@[key@] == self.values@[i as int]@,
                None => !self@.contains_key(key@),
            },
    {
        proof {
            lemma_assoc(views(self.keys@), wire_views(self.values@));
        }
        let mut i: usize = 0;
        while i < self.keys.len()
            invariant
                i <= self.keys.len(),
                self.well_formed(),
                forall|k: int| 0 <= k < i ==> views(self.keys@)[k] != key@,
            decreases self.keys.len() - i,
        {
            if str_eq(self.keys[i].as_str(), key) {
                proof {
                    lemma_assoc(views(self.keys@), wire_views(self.values@));
                    assert(views(self.keys@)[i as int] == key@);
                    assert(views(self.keys@).contains(key@));
                    assert(wire_views(self.values@)[i as int] == self.values@[i as int]@);
                }
                return Some(i);
            }
            i = i + 1;
        }
        proof {
            lemma_assoc(views(self.keys@), wire_views(self.values@));
            assert(!views(self.keys@).contains(key@));
        }
        None
    }

    fn get(&self, key: &str) -> (value: Option<&WireValue>)
        requires
            self.well_formed(),
        ensures
            match value {
                Some(v) => self@.contains_key(key@) && self@[key@] == v@,
                None => !self@.contains_key(key@),
            },
    {
        match self.find(key) {
            Some(i) => Some(&self.values[i]),
            None => None,
        }
    }

    fn put(&mut self, key: String, value: WireValue)
        requires
            old(self).well_formed(),
        ensures
            final(self).well_formed(),
            final(self)@ == old(self)@.insert(key@, value@),
    {
        let ghost keys = views(self.keys@);
        let ghost values = wire_views(self.values@);
        match self.find(key.as_str()) {
            Some(i) => {
                proof {
                    lemma_assoc_update(keys, values, i as int, value@);
                }
                self.values[i] = value;
                assert(wire_views(self.values@) =~= values.update(i as int, value@));
            },
            None => {
                proof {
                    lemma_assoc(keys, values);
                }
                self.keys.push(key);
                self.values.push(value);
                assert(views(self.keys@) =~= keys.push(key@));
                assert(wire_views(self.values@) =~= values.push(value@));
                assert(views(self.keys@).drop_last() =~= keys);
                assert(wire_views(self.values@).drop_last() =~= values);
                assert forall|a: int, b: int| 0 <= a < b < views(self.keys@).len() implies views(
                    self.keys@,
                )[a] != views(self.keys@)[b] by {
                    if b < keys.len() {
                        assert(keys[a] != keys[b]);
                    } else {
                        assert(keys[a] == views(self.keys@)[a]);
                        assert(keys.contains(keys[a]));
                    }
                }
            },
        }
    }

    fn step(&mut self, key: String, value: WireValue)
        requires
            old(self).well_formed(),
        ensures
            final(self).well_formed(),
            final(self)@ == group_step(old(self)@, key@, value@),
    {
        match find_char(key.as_str(), '.') {
            None => {
                self.put(key, value);
            },
            Some(dot) => {
                proof {
                    crate::text::lemma_first_index_of(key@, '.');
                }
                let base_str = key.as_str().substring_char(0, dot);
                assert(base_str@ =~= key@.take(dot as int));
                let base = String::from_str(base_str);
                match self.find(base.as_str()) {
                    Some(i) => {
                        let ghost keys = views(self.keys@);
                        let ghost values = wire_views(self.values@);
                        let mut current = WireValue::Nil;
                        core::mem::swap(&mut current, &mut self.values[i]);
                        assert(current@ == values[i as int]);
                        let next = match current {
                            WireValue::Bulk(mut items) => {
                                proof {
                                    lemma_bulk_view(items);
                                }
                                let ghost before = wire_views(items@);
                                items.push(value);
                                proof {
                                    lemma_bulk_view(items);
                                    assert(wire_views(items@) =~= before.push(value@));
                                }
                                WireValue::Bulk(items)
                            },
                            _ => {
                                let mut items: Vec<WireValue> = Vec::new();
                                items.push(value);
                                proof {
                                    lemma_bulk_view(items);
                                    assert(wire_views(items@) =~= seq![value@]);
                                }
                                WireValue::Bulk(items)
                            },
                        };
                        proof {
                            lemma_assoc_update(keys, values, i as int, next@);
                        }
                        self.values[i] = next;
                        assert(wire_views(self.values@) =~= values.update(i as int, next@));
                    },
                    None => {
                        let mut items: Vec<WireValue> = Vec::new();
                        items.push(value);
                        proof {
                            lemma_bulk_view(items);
                            assert(wire_views(items@) =~= seq![value@]);
                        }
                        self.put(base, WireValue::Bulk(items));
                    },
                }
            },
        }
    }

    fn lookup(&self, names: &Vec<String>) -> (value: WireValue)
        requires
            self.well_formed(),
        ensures
            value@ == lookup(self@, views(names@)),
    {
        let mut i: usize = 0;
        assert(views(names@).skip(0) =~= views(names@));
        while i < names.len()
            invariant
                i <= names.len(),
                self.well_formed(),
                lookup(self@, views(names@)) == lookup(self@, views(names@).skip(i as int)),
            decreases names.len() - i,
        {
            assert(views(names@).skip(i as int)[0] == names@[i as int]@);
            assert(views(names@).skip(i as int).drop_first() =~= views(names@).skip(i + 1));
            match self.get(names[i].as_str()) {
                Some(value) => {
                    return value.duplicate();
                },
                None => {},
            }
            i = i + 1;
        }
        WireValue::Nil
    }
}

/// What a list of decoded slots holds, as plain values.
pub open spec fn slot_views(slots: Seq<Option<WireValue>>) -> Seq<Option<Wire>> {
    Seq::new(
        slots.len(),
        |i: int|
            match slots[i] {
                Some(value) => Some(value@),
                None => None,
            },
    )
}

/// Decodes wire data into what each field is handed, in declaration order:
/// nothing for a field that is skipped when decoding, else the value found
/// under the first of the field's accepted names, or `Nil`. Turning what a
/// field is handed into a value of the field's type is left to that type.
pub fn decode<'a>(fields: &Vec<Field<'a>>, wire: &WireValue) -> (r: Result<
    Vec<Option<WireValue>>,
    CodecError,
>)
    ensures
        match decoded(attr_views(fields@), wire@) {
            Some(slots) => r is Ok && slot_views(r->Ok_0@) == slots,
            None => r == Err::<Vec<Option<WireValue>>, CodecError>(CodecError::MalformedWireData),
        },
{
    let attrs = field_attrs(fields);
    decode_attrs(&attrs, wire)
}

/// As `decode`, for fields that are given by their records alone.
pub fn decode_attrs(fields: &Vec<&FieldAttr>, wire: &WireValue) -> (r: Result<
    Vec<Option<WireValue>>,
    CodecError,
>)
    ensures
        match decoded(ref_views(fields@), wire@) {
            Some(slots) => r is Ok && slot_views(r->Ok_0@) == slots,
            None => r == Err::<Vec<Option<WireValue>>, CodecError>(CodecError::MalformedWireData),
        },
{
    let items = match wire {
        WireValue::Bulk(items) => items,
        _ => {
            return Err(CodecError::MalformedWireData);
        },
    };
    proof {
        lemma_bulk_view(*items);
    }
    let ghost all = wire_views(items@);
    if items.len() % 2 != 0 {
        return Err(CodecError::MalformedWireData);
    }
    let total = items.len();
    let count = total / 2;
    let mut grouped = Grouped::new();
    let mut p: usize = 0;
    let mut at: usize = 0;
    assert(pairs_of(all, 0) =~= Seq::<(Seq<char>, Wire)>::empty());
    while p < count
        invariant
            p <= count,
            at == 2 * p,
            total == items@.len(),
            count == items@.len() / 2,
            items@.len() % 2 == 0,
            all == wire_views(items@),
            wire@ == Wire::Bulk(all),
            grouped.well_formed(),
            forall|q: int| 0 <= q < p ==> key_of(#[trigger] all[2 * q]) is Some,
            grouped@ == group_pairs(Map::empty(), pairs_of(all, p as nat)),
        decreases count - p,
    {
        assert(2 * p + 1 < items@.len());
        assert(all[2 * p] == items@[2 * p]@);
        assert(all[2 * p + 1] == items@[2 * p + 1]@);
        let key = match items[at].to_key() {
            Some(key) => key,
            None => {
                assert(!keys_readable(all));
                return Err(CodecError::MalformedWireData);
            },
        };
        let value = items[at + 1].duplicate();
        assert(pairs_of(all, (p + 1) as nat).drop_last() =~= pairs_of(all, p as nat));
        assert(pairs_of(all, (p + 1) as nat).last() == (key@, value@));
        grouped.step(key, value);
        assert(at + 2 <= items@.len());
        at = at + 2;
        p = p + 1;
    }
    assert(keys_readable(all)) by {
        assert forall|q: int| 0 <= 2 * q < all.len() implies key_of(#[trigger] all[2 * q])
            is Some by {
            assert(q < p);
        }
    }
    let mut handed: Vec<Option<WireValue>> = Vec::new();
    let ghost attrs = ref_views(fields@);
    let ghost wanted = slots(attrs, grouped@);
    let mut i: usize = 0;
    while i < fields.len()
        invariant
            i <= fields.len(),
            grouped.well_formed(),
            attrs == ref_views(fields@),
            wanted == slots(attrs, grouped@),
            slot_views(handed@) =~= wanted.take(i as int),
        decreases fields.len() - i,
    {
        let ghost before = slot_views(handed@);
        assert(attrs[i as int] == fields@[i as int]@);
        if fields[i].skip_deserializing {
            handed.push(None);
            assert(slot_views(handed@) =~= before.push(wanted[i as int]));
        } else {
            let names = fields[i].name.deserialize_aliases();
            let value = grouped.lookup(&names);
            handed.push(Some(value));
            assert(slot_views(handed@) =~= before.push(wanted[i as int]));
        }
        i = i + 1;
    }
    assert(wanted.take(fields.len() as int) =~= wanted);
    Ok(handed)
}

/// Of the accepted names that are found, the first decides: a field is
/// handed what stands under the first of its accepted names that the grouped
/// values hold.
pub proof fn lemma_lookup_first(grouped: Map<Seq<char>, Wire>, names: Seq<Seq<char>>, k: int)
    requires
        0 <= k < names.len(),
        grouped.contains_key(names[k]),
        forall|j: int| 0 <= j < k ==> !grouped.contains_key(#[trigger] names[j]),
    ensures
        lookup(grouped, names) == grouped[names[k]],
    decreases names.len(),
{
    if k > 0 {
        let rest = names.drop_first();
        assert(!grouped.contains_key(names[0]));
        assert(rest[k - 1] == names[k]);
        assert forall|j: int| 0 <= j < k - 1 implies !grouped.contains_key(#[trigger] rest[j]) by {
            assert(rest[j] == names[j + 1]);
        }
        lemma_lookup_first(grouped, rest, k - 1);
    }
}

/// An explicit alias that is found goes before the canonical name: where the
/// wire data holds a value under an alias and none under the aliases listed
/// before it, the field is handed that value, whether or not the data holds
/// one under the canonical name too.
pub proof fn lemma_alias_before_canonical(
    name: crate::name::NameView,
    grouped: Map<Seq<char>, Wire>,
    k: int,
)
    requires
        0 <= k < name.deserialize_aliases.len(),
        grouped.contains_key(name.deserialize_aliases[k]),
        forall|j: int| 0 <= j < k ==> !grouped.contains_key(#[trigger] name.deserialize_aliases[j]),
    ensures
        lookup(grouped, name.accepted()) == grouped[name.deserialize_aliases[k]],
{
    let names = name.accepted();
    assert(names[k] == name.deserialize_aliases[k]);
    assert forall|j: int| 0 <= j < k implies !grouped.contains_key(#[trigger] names[j]) by {
        assert(names[j] == name.deserialize_aliases[j]);
    }
    lemma_lookup_first(grouped, names, k);
}

/// The canonical name is found where no explicit alias is: where the wire
/// data holds a value under the canonical name and none under an alias, the
/// field is handed that value.
pub proof fn lemma_canonical_found(name: crate::name::NameView, grouped: Map<Seq<char>, Wire>)
    requires
        grouped.contains_key(name.deserialize),
        forall|j: int|
            0 <= j < name.deserialize_aliases.len() ==> !grouped.contains_key(
                #[trigger] name.deserialize_aliases[j],
            ),
    ensures
        lookup(grouped, name.accepted()) == grouped[name.deserialize],
{
    let names = name.accepted();
    let aliases = name.deserialize_aliases;
    if aliases.contains(name.deserialize) {
        let i = choose|i: int| 0 <= i < aliases.len() && aliases[i] == name.deserialize;
        assert(grouped.contains_key(aliases[i]));
    }
    let last = names.len() - 1;
    assert(names[last] == name.deserialize);
    assert forall|j: int| 0 <= j < last implies !grouped.contains_key(#[trigger] names[j]) by {
        assert(names[j] == aliases[j]);
    }
    lemma_lookup_first(grouped, names, last);
}

} // verus!
