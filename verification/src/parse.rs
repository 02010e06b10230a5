//! The annotations of an item as a map from keyword to text.

use crate::codec::{assoc, lemma_assoc, lemma_assoc_update, lemma_distinct_push};
use crate::meta::{AttrBody, Attribute, Lit, LitKind, Meta, NestedMeta};
use crate::name::distinct;
use crate::symbol::{INDEX, SYMBOL_REDIS};
use crate::text::{str_eq, views};
use vstd::prelude::*;
use vstd::string::*;

verus! {

/// A map from keyword to text.
pub struct AttributeMap {
    keys: Vec<String>,
    values: Vec<String>,
}

impl View for AttributeMap {
    type V = Map<Seq<char>, Seq<char>>;

    closed spec fn view(&self) -> Map<Seq<char>, Seq<char>> {
        assoc(views(self.keys@), views(self.values@))
    }
}

impl AttributeMap {
    #[verifier::type_invariant]
    spec fn well_formed(self) -> bool {
        self.keys@.len() == self.values@.len() && distinct(views(self.keys@))
    }

    /// The empty map.
    pub fn new() -> (map: AttributeMap)
        ensures
            map@ == Map::<Seq<char>, Seq<char>>::empty(),
    {
        AttributeMap { keys: Vec::new(), values: Vec::new() }
    }

    fn find(&self, key: &str) -> (found: Option<usize>)
        ensures
            match found {
                Some(i) => i < self.keys@.len() && i < self.values@.len() && self@.contains_key(
                    key@,
                ) && self@[key@] == self.values@[i as int]@ && self.keys@[i as int]@ == key@,
                None => !self@.contains_key(key@) && !views(self.keys@).contains(key@),
            },
    {
        proof {
            use_type_invariant(self);
            lemma_assoc(views(self.keys@), views(self.values@));
        }
        let mut i: usize = 0;
        while i < self.keys.len()
            invariant
                i <= self.keys.len(),
                self.keys@.len() == self.values@.len(),
                distinct(views(self.keys@)),
                forall|k: int| 0 <= k < i ==> views(self.keys@)[k] != key@,
            decreases self.keys.len() - i,
        {
            if str_eq(self.keys[i].as_str(), key) {
                proof {
                    lemma_assoc(views(self.keys@), views(self.values@));
                    assert(views(self.keys@)[i as int] == key@);
                    assert(views(self.keys@).contains(key@));
                    assert(views(self.values@)[i as int] == self.values@[i as int]@);
                }
                return Some(i);
            }
            i = i + 1;
        }
        proof {
            lemma_assoc(views(self.keys@), views(self.values@));
            assert(!views(self.keys@).contains(key@));
        }
        None
    }

    /// The text under `key`, if the map holds the key.
    pub fn get(&self, key: &str) -> (value: Option<&String>)
        ensures
            match value {
                Some(text) => self@.contains_key(key@) && self@[key@] == text@,
                None => !self@.contains_key(key@),
            },
    {
        match self.find(key) {
            Some(i) => Some(&self.values[i]),
            None => None,
        }
    }

    /// Places `value` under `key`, in the place of what was there.
    pub fn insert(&mut self, key: String, value: String)
        ensures
            final(self)@ == old(self)@.insert(key@, value@),
    {
        let found = self.find(key.as_str());
        proof {
            use_type_invariant(&*self);
        }
        let mut taken = AttributeMap::new();
        core::mem::swap(self, &mut taken);
        let AttributeMap { keys: mut keys, values: mut values } = taken;
        let ghost old_keys = views(keys@);
        let ghost old_values = views(values@);
        match found {
            Some(i) => {
                proof {
                    lemma_assoc_update(old_keys, old_values, i as int, value@);
                }
                values[i] = value;
                assert(views(values@) =~= old_values.update(i as int, value@));
            },
            None => {
                proof {
                    lemma_distinct_push(old_keys, key@);
                }
                keys.push(key);
                values.push(value);
                assert(views(keys@) =~= old_keys.push(key@));
                assert(views(values@) =~= old_values.push(value@));
                assert(views(keys@).drop_last() =~= old_keys);
                assert(views(values@).drop_last() =~= old_values);
            },
        }
        *self = AttributeMap { keys, values };
    }
}

/// The keyword of a path that is a single identifier.
pub open spec fn single_ident(path: crate::meta::AttrPath) -> Option<Seq<char>> {
    if !path.leading_colon && path.segments@.len() == 1 {
        Some(path.segments@[0]@)
    } else {
        None
    }
}

/// The text that a literal stands for in the map: the value of a string, or
/// `true` or `false` for a boolean.
pub open spec fn literal_text(lit: Lit) -> Option<Seq<char>> {
    match lit.kind {
        LitKind::Str(text) => Some(text@),
        LitKind::Bool(b) => Some(
            if b {
                "true"@
            } else {
                "false"@
            },
        ),
        LitKind::Other => None,
    }
}

/// An entry can be taken into the map: a bare keyword or a pair is written
/// under a single identifier, and the value of a pair is a string or a
/// boolean. Groups and lone literals are passed over.
pub open spec fn mappable(entry: NestedMeta) -> bool {
    match entry {
        NestedMeta::Meta(Meta::Path(path)) => single_ident(path) is Some,
        NestedMeta::Meta(Meta::NameValue(path, lit)) => single_ident(path) is Some
            && literal_text(lit) is Some,
        _ => true,
    }
}

/// What one entry does to the map: a bare keyword is placed with the text
/// `true`, a pair with the text of its value; groups and lone literals change
/// nothing.
pub open spec fn map_step(map: Map<Seq<char>, Seq<char>>, entry: NestedMeta) -> Map<
    Seq<char>,
    Seq<char>,
> {
    match entry {
        NestedMeta::Meta(Meta::Path(path)) => match single_ident(path) {
            Some(keyword) => map.insert(keyword, "true"@),
            None => map,
        },
        NestedMeta::Meta(Meta::NameValue(path, lit)) => match (
            single_ident(path),
            literal_text(lit),
        ) {
            (Some(keyword), Some(text)) => map.insert(keyword, text),
            _ => map,
        },
        _ => map,
    }
}

/// The map after a list of entries, taken in order.
pub open spec fn map_entries(map: Map<Seq<char>, Seq<char>>, entries: Seq<NestedMeta>) -> Map<
    Seq<char>,
    Seq<char>,
>
    decreases entries.len(),
{
    if entries.len() == 0 {
        map
    } else {
        map_step(map_entries(map, entries.drop_last()), entries.last())
    }
}

/// The entries that one attribute gives to the map: those of
/// `#[redis(...)]`.
pub open spec fn mapped_entries(attr: Attribute) -> Seq<NestedMeta> {
    if !attr.path.is(SYMBOL_REDIS@) {
        Seq::empty()
    } else {
        match attr.body {
            AttrBody::Parsed(Meta::List(list)) => if list.path.is(SYMBOL_REDIS@) {
                list.nested@
            } else {
                Seq::empty()
            },
            _ => Seq::empty(),
        }
    }
}

/// The map that a list of attributes stands for: later entries replace
/// earlier ones under the same keyword.
pub open spec fn attribute_map(attrs: Seq<Attribute>) -> Map<Seq<char>, Seq<char>>
    decreases attrs.len(),
{
    if attrs.len() == 0 {
        Map::empty()
    } else {
        map_entries(attribute_map(attrs.drop_last()), mapped_entries(attrs.last()))
    }
}

/// Every entry of every `redis` attribute can be taken into the map.
pub open spec fn all_mappable(attrs: Seq<Attribute>) -> bool {
    forall|i: int, j: int|
        0 <= i < attrs.len() && 0 <= j < mapped_entries(attrs[i]).len() ==> mappable(
            #[trigger] mapped_entries(attrs[i])[j],
        )
}

/// Tells whether every entry of every `redis` attribute can be taken into
/// the map.
pub fn can_map(attributes: &Vec<Attribute>) -> (ok: bool)
    ensures
        ok == all_mappable(attributes@),
{
    let mut i: usize = 0;
    while i < attributes.len()
        invariant
            i <= attributes.len(),
            forall|a: int, j: int|
                0 <= a < i && 0 <= j < mapped_entries(attributes@[a]).len() ==> mappable(
                    #[trigger] mapped_entries(attributes@[a])[j],
                ),
        decreases attributes.len() - i,
    {
        match entries_to_map(&attributes[i]) {
            None => {},
            Some(entries) => {
                let mut j: usize = 0;
                while j < entries.len()
                    invariant
                        j <= entries.len(),
                        i < attributes.len(),
                        entries@ == mapped_entries(attributes@[i as int]),
                        forall|k: int| 0 <= k < j ==> mappable(#[trigger] entries@[k]),
                    decreases entries.len() - j,
                {
                    let ok = match &entries[j] {
                        NestedMeta::Meta(Meta::Path(path)) => !path.leading_colon
                            && path.segments.len() == 1,
                        NestedMeta::Meta(Meta::NameValue(path, lit)) => !path.leading_colon
                            && path.segments.len() == 1 && match &lit.kind {
                            LitKind::Other => false,
                            _ => true,
                        },
                        _ => true,
                    };
                    if !ok {
                        assert(!mappable(mapped_entries(attributes@[i as int])[j as int]));
                        return false;
                    }
                    j = j + 1;
                }
            },
        }
        i = i + 1;
    }
    true
}

fn entries_to_map<'a>(attr: &'a Attribute) -> (entries: Option<&'a Vec<NestedMeta>>)
    ensures
        match entries {
            Some(e) => e@ == mapped_entries(*attr),
            None => mapped_entries(*attr) == Seq::<NestedMeta>::empty(),
        },
{
    if !attr.path.is_ident(SYMBOL_REDIS) {
        return None;
    }
    match &attr.body {
        AttrBody::Parsed(Meta::List(list)) => {
            if list.path.is_ident(SYMBOL_REDIS) {
                Some(&list.nested)
            } else {
                None
            }
        },
        _ => None,
    }
}

/// Reads the `redis` attributes among `attrs` into a map from keyword to
/// text. A bare keyword stands for `true`; of several entries under one
/// keyword the last counts. An entry that is written under a path of several
/// segments, or whose value is neither a string nor a boolean, is a mistake
/// of the caller.
pub fn attributes(attrs: &Vec<Attribute>) -> (map: AttributeMap)
    requires
        all_mappable(attrs@),
    ensures
        map@ == attribute_map(attrs@),
{
    let mut map = AttributeMap::new();
    let mut i: usize = 0;
    assert(attrs@.take(0) =~= Seq::<Attribute>::empty());
    while i < attrs.len()
        invariant
            i <= attrs.len(),
            all_mappable(attrs@),
            map@ == attribute_map(attrs@.take(i as int)),
        decreases attrs.len() - i,
    {
        let ghost before = map@;
        assert(attrs@.take(i + 1).drop_last() =~= attrs@.take(i as int));
        assert(attrs@.take(i + 1).last() == attrs@[i as int]);
        match entries_to_map(&attrs[i]) {
            None => {},
            Some(entries) => {
                let mut j: usize = 0;
                assert(entries@.take(0) =~= Seq::<NestedMeta>::empty());
                while j < entries.len()
                    invariant
                        j <= entries.len(),
                        i < attrs.len(),
                        all_mappable(attrs@),
                        entries@ == mapped_entries(attrs@[i as int]),
                        map@ == map_entries(before, entries@.take(j as int)),
                    decreases entries.len() - j,
                {
                    assert(entries@.take(j + 1).drop_last() =~= entries@.take(j as int));
                    assert(entries@.take(j + 1).last() == entries@[j as int]);
                    assert(mappable(mapped_entries(attrs@[i as int])[j as int]));
                    match &entries[j] {
                        NestedMeta::Meta(Meta::Path(path)) => {
                            map.insert(path.segments[0].clone(), String::from_str("true"));
                        },
                        NestedMeta::Meta(Meta::NameValue(path, lit)) => {
                            let text = match &lit.kind {
                                LitKind::Str(text) => text.clone(),
                                LitKind::Bool(b) => if *b {
                                    String::from_str("true")
                                } else {
                                    String::from_str("false")
                                },
                                LitKind::Other => String::new(),
                            };
                            map.insert(path.segments[0].clone(), text);
                        },
                        _ => {},
                    }
                    j = j + 1;
                }
                assert(entries@.take(entries.len() as int) =~= entries@);
            },
        }
        i = i + 1;
    }
    assert(attrs@.take(attrs.len() as int) =~= attrs@);
    map
}

} // verus!
