//! Decoding what was encoded gives the record back.

use crate::codec::{
    base_of, decoded, encoded, field_pairs, group_pairs, group_step, indexed_key, keys_readable,
    lookup, pairs_of, slots, wire_of, wire_pairs,
};
use crate::field::FieldAttrView;
use crate::text::{decimal, first_index_of, lemma_first_index_of_is, lemma_first_index_of_none};
use crate::wire::{key_of, Wire};
use vstd::prelude::*;
use vstd::utf8::*;

verus! {

/// A list of pairs whose values are byte strings, as the store hands them
/// back.
pub open spec fn data_pairs(pairs: Seq<(Seq<char>, Seq<u8>)>) -> Seq<(Seq<char>, Wire)> {
    Seq::new(pairs.len(), |i: int| (pairs[i].0, Wire::Data(pairs[i].1)))
}

/// What is found under the name of a field that was encoded from `values`:
/// nothing for no value, the value itself for one, the list of the values in
/// their order for several.
pub open spec fn stored(values: Seq<Seq<u8>>) -> Wire {
    if values.len() == 0 {
        Wire::Nil
    } else if values.len() == 1 {
        Wire::Data(values[0])
    } else {
        Wire::Bulk(Seq::new(values.len(), |i: int| Wire::Data(values[i])))
    }
}

/// What each field is handed when a record is encoded and decoded again:
/// nothing for a field that is skipped when decoding, `Nil` for one that is
/// skipped when encoding, else what was stored for its values.
pub open spec fn handed_back(fields: Seq<FieldAttrView>, record: Seq<Seq<Seq<u8>>>) -> Seq<
    Option<Wire>,
> {
    Seq::new(
        fields.len(),
        |i: int|
            if fields[i].skip_deserializing {
                None
            } else if fields[i].skip_serializing {
                Some(Wire::Nil)
            } else {
                Some(stored(record[i]))
            },
    )
}

/// The wire names of a list of fields can be told apart: no name for encoding
/// holds a dot; no two encoded fields share their name; a field that is
/// encoded and decoded accepts its own name; and no decoded field accepts the
/// name of another encoded field.
pub open spec fn names_sound(fields: Seq<FieldAttrView>) -> bool {
    &&& forall|i: int|
        0 <= i < fields.len() && !(#[trigger] fields[i]).skip_serializing ==> first_index_of(
            fields[i].name.serialize,
            '.',
        ) is None
    &&& forall|i: int, j: int|
        0 <= i < j < fields.len() && !(#[trigger] fields[i]).skip_serializing && !(
        #[trigger] fields[j]).skip_serializing ==> fields[i].name.serialize
            != fields[j].name.serialize
    &&& forall|i: int|
        0 <= i < fields.len() && !(#[trigger] fields[i]).skip_serializing
            && !fields[i].skip_deserializing ==> fields[i].name.accepted().contains(
            fields[i].name.serialize,
        )
    &&& forall|i: int, j: int, k: int|
        0 <= i < fields.len() && 0 <= j < fields.len() && i != j && !(
        #[trigger] fields[i]).skip_deserializing && !(#[trigger] fields[j]).skip_serializing && 0
            <= k < fields[i].name.accepted().len() ==> (#[trigger] fields[i].name.accepted()[k])
            != fields[j].name.serialize
}

/// What the store hands back for a list of pairs reads as those pairs.
pub proof fn lemma_wire_pairs_of_wire(pairs: Seq<(Seq<char>, Seq<u8>)>)
    ensures
        wire_pairs(wire_of(pairs)) == Some(data_pairs(pairs)),
{
    broadcast use {encode_utf8_valid_utf8, encode_utf8_decode_utf8};

    let items = wire_of(pairs)->Bulk_0;
    assert forall|p: int| 0 <= 2 * p < items.len() implies key_of(#[trigger] items[2 * p])
        is Some by {
        assert(items[2 * p] == Wire::Data(encode_utf8(pairs[p].0)));
    }
    assert(keys_readable(items));
    assert(items.len() / 2 == pairs.len());
    assert(pairs_of(items, pairs.len()) =~= data_pairs(pairs)) by {
        assert forall|p: int| 0 <= p < pairs.len() implies pairs_of(items, pairs.len())[p]
            == data_pairs(pairs)[p] by {
            assert(items[2 * p] == Wire::Data(encode_utf8(pairs[p].0)));
            assert(items[2 * p + 1] == Wire::Data(pairs[p].1));
        }
    }
}

/// Grouping two runs of pairs is grouping the first, then the second from
/// where the first ended.
pub proof fn lemma_group_pairs_concat(
    start: Map<Seq<char>, Wire>,
    first: Seq<(Seq<char>, Wire)>,
    second: Seq<(Seq<char>, Wire)>,
)
    ensures
        group_pairs(start, first + second) == group_pairs(group_pairs(start, first), second),
    decreases second.len(),
{
    if second.len() == 0 {
        assert(first + second =~= first);
    } else {
        lemma_group_pairs_concat(start, first, second.drop_last());
        assert((first + second).drop_last() =~= first + second.drop_last());
        assert((first + second).last() == second.last());
    }
}

/// An indexed key has its first dot right behind the name, where the name
/// holds none.
pub proof fn lemma_indexed_key(name: Seq<char>, index: nat)
    requires
        first_index_of(name, '.') is None,
    ensures
        first_index_of(indexed_key(name, index), '.') == Some(name.len() as int),
        base_of(indexed_key(name, index)) == name,
{
    let key = indexed_key(name, index);
    crate::text::lemma_first_index_of(name, '.');
    assert(key[name.len() as int] == '.');
    assert forall|j: int| 0 <= j < name.len() implies key[j] != '.' by {
        assert(key[j] == name[j]);
    }
    lemma_first_index_of_is(key, '.', name.len() as int);
    assert(key.take(name.len() as int) =~= name);
}

/// The values of one field that are grouped after its first `count` pairs,
/// where it has several.
pub open spec fn listed(values: Seq<Seq<u8>>, count: int) -> Wire {
    Wire::Bulk(Seq::new(count as nat, |i: int| Wire::Data(values[i])))
}

proof fn lemma_group_indexed(
    start: Map<Seq<char>, Wire>,
    name: Seq<char>,
    values: Seq<Seq<u8>>,
    count: int,
)
    requires
        first_index_of(name, '.') is None,
        !start.contains_key(name),
        values.len() != 1,
        0 <= count <= values.len(),
    ensures
        group_pairs(start, data_pairs(field_pairs(name, values)).take(count)) == if count == 0 {
            start
        } else {
            start.insert(name, listed(values, count))
        },
    decreases count,
{
    let pairs = data_pairs(field_pairs(name, values));
    if count > 0 {
        lemma_group_indexed(start, name, values, count - 1);
        let before = group_pairs(start, pairs.take(count - 1));
        assert(pairs.take(count).drop_last() =~= pairs.take(count - 1));
        let last = pairs.take(count).last();
        assert(last == (indexed_key(name, (count - 1) as nat), Wire::Data(values[count - 1])));
        lemma_indexed_key(name, (count - 1) as nat);
        let after = group_step(before, last.0, last.1);
        if count == 1 {
            assert(listed(values, 1)->Bulk_0 =~= seq![last.1]);
        } else {
            assert(before[name] == listed(values, count - 1));
            assert(listed(values, count)->Bulk_0 =~= listed(values, count - 1)->Bulk_0.push(
                last.1,
            ));
            assert(after =~= start.insert(name, listed(values, count)));
        }
    }
}

/// Grouping the pairs of one field places what was stored for its values
/// under its name, and changes nothing else.
pub proof fn lemma_group_field(start: Map<Seq<char>, Wire>, name: Seq<char>, values: Seq<Seq<u8>>)
    requires
        first_index_of(name, '.') is None,
        !start.contains_key(name),
    ensures
        group_pairs(start, data_pairs(field_pairs(name, values))) == if values.len() == 0 {
            start
        } else {
            start.insert(name, stored(values))
        },
{
    let pairs = data_pairs(field_pairs(name, values));
    if values.len() == 1 {
        assert(pairs.drop_last() =~= Seq::<(Seq<char>, Wire)>::empty());
        assert(pairs.last() == (name, Wire::Data(values[0])));
        assert(group_pairs(start, pairs.drop_last()) == start);
        assert(group_pairs(start, pairs) == group_step(start, name, Wire::Data(values[0])));
    } else {
        lemma_group_indexed(start, name, values, values.len() as int);
        assert(pairs.take(values.len() as int) =~= pairs);
        if values.len() > 1 {
            assert(listed(values, values.len() as int)->Bulk_0 =~= stored(values)->Bulk_0);
        }
    }
}

/// What is grouped from an encoded record: for each field that is encoded
/// from at least one value, what was stored for its values, under its name.
pub open spec fn stored_record(fields: Seq<FieldAttrView>, record: Seq<Seq<Seq<u8>>>) -> Map<
    Seq<char>,
    Wire,
>
    decreases fields.len(),
{
    if fields.len() == 0 || record.len() == 0 {
        Map::empty()
    } else {
        let before = stored_record(fields.drop_last(), record.drop_last());
        if fields.last().skip_serializing || record.last().len() == 0 {
            before
        } else {
            before.insert(fields.last().name.serialize, stored(record.last()))
        }
    }
}

/// What is grouped from an encoded record holds the names of encoded fields
/// only, and for each field that is encoded from at least one value what was
/// stored for it.
pub proof fn lemma_stored_record(fields: Seq<FieldAttrView>, record: Seq<Seq<Seq<u8>>>)
    requires
        fields.len() == record.len(),
        names_sound(fields),
    ensures
        forall|key: Seq<char>| #[trigger]
            stored_record(fields, record).contains_key(key) ==> exists|j: int|
                0 <= j < fields.len() && !(#[trigger] fields[j]).skip_serializing
                    && fields[j].name.serialize == key && record[j].len() > 0,
        forall|j: int|
            0 <= j < fields.len() && !(#[trigger] fields[j]).skip_serializing && record[j].len()
                > 0 ==> stored_record(fields, record).contains_key(fields[j].name.serialize)
                && stored_record(fields, record)[fields[j].name.serialize] == stored(record[j]),
    decreases fields.len(),
{
    if fields.len() > 0 {
        let init = fields.drop_last();
        let init_record = record.drop_last();
        lemma_names_sound_prefix(fields);
        lemma_stored_record(init, init_record);
        let before = stored_record(init, init_record);
        let after = stored_record(fields, record);
        let last = fields.len() - 1;
        assert forall|key: Seq<char>| #[trigger] after.contains_key(key) implies exists|j: int|
            0 <= j < fields.len() && !(#[trigger] fields[j]).skip_serializing
                && fields[j].name.serialize == key && record[j].len() > 0 by {
            if before.contains_key(key) {
                let j = choose|j: int|
                    0 <= j < init.len() && !(#[trigger] init[j]).skip_serializing
                        && init[j].name.serialize == key && init_record[j].len() > 0;
                assert(fields[j] == init[j]);
                assert(record[j] == init_record[j]);
            } else {
                assert(fields[last].name.serialize == key);
            }
        }
        assert forall|j: int|
            0 <= j < fields.len() && !(#[trigger] fields[j]).skip_serializing && record[j].len()
                > 0 implies after.contains_key(fields[j].name.serialize)
            && after[fields[j].name.serialize] == stored(record[j]) by {
            if j < last {
                assert(fields[j] == init[j]);
                assert(record[j] == init_record[j]);
                if !fields[last].skip_serializing {
                    assert(fields[j].name.serialize != fields[last].name.serialize);
                }
            }
        }
    }
}

/// The names of the fields but the last can be told apart where those of all
/// fields can.
pub proof fn lemma_names_sound_prefix(fields: Seq<FieldAttrView>)
    requires
        fields.len() > 0,
        names_sound(fields),
    ensures
        names_sound(fields.drop_last()),
{
    let init = fields.drop_last();
    assert forall|i: int|
        0 <= i < init.len() && !(#[trigger] init[i]).skip_serializing implies first_index_of(
        init[i].name.serialize,
        '.',
    ) is None by {
        assert(init[i] == fields[i]);
    }
    assert forall|i: int, j: int|
        0 <= i < j < init.len() && !(#[trigger] init[i]).skip_serializing && !(
        #[trigger] init[j]).skip_serializing implies init[i].name.serialize
        != init[j].name.serialize by {
        assert(init[i] == fields[i]);
        assert(init[j] == fields[j]);
    }
    assert forall|i: int|
        0 <= i < init.len() && !(#[trigger] init[i]).skip_serializing
            && !init[i].skip_deserializing implies init[i].name.accepted().contains(
        init[i].name.serialize,
    ) by {
        assert(init[i] == fields[i]);
    }
    assert forall|i: int, j: int, k: int|
        0 <= i < init.len() && 0 <= j < init.len() && i != j && !(
        #[trigger] init[i]).skip_deserializing && !(#[trigger] init[j]).skip_serializing && 0 <= k
            < init[i].name.accepted().len() implies (#[trigger] init[i].name.accepted()[k])
        != init[j].name.serialize by {
        assert(init[i] == fields[i]);
        assert(init[j] == fields[j]);
        assert(fields[i].name.accepted()[k] != fields[j].name.serialize);
    }
}

/// Grouping an encoded record gives, for each field that is encoded from at
/// least one value, what was stored for its values.
pub proof fn lemma_group_encoded(fields: Seq<FieldAttrView>, record: Seq<Seq<Seq<u8>>>)
    requires
        fields.len() == record.len(),
        names_sound(fields),
    ensures
        group_pairs(Map::empty(), data_pairs(encoded(fields, record))) == stored_record(
            fields,
            record,
        ),
    decreases fields.len(),
{
    if fields.len() == 0 {
        assert(data_pairs(encoded(fields, record)) =~= Seq::<(Seq<char>, Wire)>::empty());
    } else {
        let init = fields.drop_last();
        let init_record = record.drop_last();
        let last = fields.len() - 1;
        lemma_names_sound_prefix(fields);
        lemma_group_encoded(init, init_record);
        lemma_stored_record(init, init_record);
        let before = stored_record(init, init_record);
        let head = encoded(init, init_record);
        if fields.last().skip_serializing {
            assert(encoded(fields, record) =~= head);
        } else {
            let name = fields.last().name.serialize;
            let tail = field_pairs(name, record.last());
            assert(data_pairs(head + tail) =~= data_pairs(head) + data_pairs(tail));
            lemma_group_pairs_concat(Map::empty(), data_pairs(head), data_pairs(tail));
            assert(!before.contains_key(name)) by {
                if before.contains_key(name) {
                    let j = choose|j: int|
                        0 <= j < init.len() && !(#[trigger] init[j]).skip_serializing
                            && init[j].name.serialize == name && init_record[j].len() > 0;
                    assert(fields[j] == init[j]);
                    assert(fields[j].name.serialize != fields[last].name.serialize);
                }
            }
            assert(first_index_of(fields[last].name.serialize, '.') is None);
            lemma_group_field(before, name, record.last());
        }
    }
}

/// Where only one name can be found among the grouped values, a field is
/// handed what stands under that name, or `Nil`.
pub proof fn lemma_lookup_only(
    grouped: Map<Seq<char>, Wire>,
    names: Seq<Seq<char>>,
    target: Seq<char>,
)
    requires
        forall|k: int|
            0 <= k < names.len() && grouped.contains_key(#[trigger] names[k]) ==> names[k]
                == target,
        grouped.contains_key(target) ==> names.contains(target),
    ensures
        lookup(grouped, names) == if grouped.contains_key(target) {
            grouped[target]
        } else {
            Wire::Nil
        },
    decreases names.len(),
{
    if names.len() > 0 {
        if grouped.contains_key(names[0]) {
            assert(names[0] == target);
        } else {
            let rest = names.drop_first();
            assert forall|k: int|
                0 <= k < rest.len() && grouped.contains_key(#[trigger] rest[k]) implies rest[k]
                == target by {
                assert(rest[k] == names[k + 1]);
            }
            if grouped.contains_key(target) {
                let w = choose|w: int| 0 <= w < names.len() && names[w] == target;
                assert(w > 0);
                assert(rest[w - 1] == target);
            }
            lemma_lookup_only(grouped, rest, target);
        }
    }
}

/// Decoding what a record was encoded into hands each field what was stored
/// for its values, where the wire names can be told apart: the record comes
/// back, value by value and in the order of each field's values.
pub proof fn lemma_round_trip(fields: Seq<FieldAttrView>, record: Seq<Seq<Seq<u8>>>)
    requires
        fields.len() == record.len(),
        names_sound(fields),
    ensures
        decoded(fields, wire_of(encoded(fields, record))) == Some(handed_back(fields, record)),
{
    let pairs = encoded(fields, record);
    lemma_wire_pairs_of_wire(pairs);
    lemma_group_encoded(fields, record);
    lemma_stored_record(fields, record);
    let grouped = stored_record(fields, record);
    assert(slots(fields, grouped) =~= handed_back(fields, record)) by {
        assert forall|i: int| 0 <= i < fields.len() implies slots(fields, grouped)[i]
            == handed_back(fields, record)[i] by {
            if !fields[i].skip_deserializing {
                let names = fields[i].name.accepted();
                let target = fields[i].name.serialize;
                assert forall|k: int|
                    0 <= k < names.len() && grouped.contains_key(
                        #[trigger] names[k],
                    ) implies names[k] == target by {
                    let j = choose|j: int|
                        0 <= j < fields.len() && !(#[trigger] fields[j]).skip_serializing
                            && fields[j].name.serialize == names[k] && record[j].len() > 0;
                    if j != i {
                        assert(fields[i].name.accepted()[k] != fields[j].name.serialize);
                    }
                }
                if grouped.contains_key(target) {
                    let j = choose|j: int|
                        0 <= j < fields.len() && !(#[trigger] fields[j]).skip_serializing
                            && fields[j].name.serialize == target && record[j].len() > 0;
                    if j != i && !fields[i].skip_serializing {
                        if i < j {
                            assert(fields[i].name.serialize != fields[j].name.serialize);
                        } else {
                            assert(fields[j].name.serialize != fields[i].name.serialize);
                        }
                    }
                }
                if fields[i].skip_serializing {
                    lemma_lookup_none(grouped, names, fields, record, i);
                } else {
                    lemma_lookup_only(grouped, names, target);
                }
            }
        }
    }
}

/// A field that is not encoded is handed `Nil`: none of its accepted names
/// is the name of an encoded field.
proof fn lemma_lookup_none(
    grouped: Map<Seq<char>, Wire>,
    names: Seq<Seq<char>>,
    fields: Seq<FieldAttrView>,
    record: Seq<Seq<Seq<u8>>>,
    i: int,
)
    requires
        0 <= i < fields.len(),
        fields.len() == record.len(),
        names_sound(fields),
        fields[i].skip_serializing,
        !fields[i].skip_deserializing,
        names == fields[i].name.accepted(),
        grouped == stored_record(fields, record),
    ensures
        lookup(grouped, names) == Wire::Nil,
{
    lemma_stored_record(fields, record);
    assert forall|k: int| 0 <= k < names.len() implies !grouped.contains_key(
        #[trigger] names[k],
    ) by {
        if grouped.contains_key(names[k]) {
            let j = choose|j: int|
                0 <= j < fields.len() && !(#[trigger] fields[j]).skip_serializing
                    && fields[j].name.serialize == names[k] && record[j].len() > 0;
            assert(j != i);
            assert(fields[i].name.accepted()[k] != fields[j].name.serialize);
        }
    }
    lemma_lookup_miss(grouped, names);
}

/// Where none of a field's accepted names is found, the field is handed
/// `Nil`.
pub proof fn lemma_lookup_miss(grouped: Map<Seq<char>, Wire>, names: Seq<Seq<char>>)
    requires
        forall|k: int| 0 <= k < names.len() ==> !grouped.contains_key(#[trigger] names[k]),
    ensures
        lookup(grouped, names) == Wire::Nil,
    decreases names.len(),
{
    if names.len() > 0 {
        let rest = names.drop_first();
        assert forall|k: int| 0 <= k < rest.len() implies !grouped.contains_key(
            #[trigger] rest[k],
        ) by {
            assert(rest[k] == names[k + 1]);
        }
        lemma_lookup_miss(grouped, rest);
    }
}

} // verus!
