//! The wire name of a field or variant.

use crate::attr::{Attr, VecAttr};
use crate::text::{str_eq, views};
use vstd::prelude::*;
use vstd::string::*;

verus! {

/// `names` without repetitions: of equal names the first stays, and the order
/// of what stays is kept.
pub open spec fn deduplicated(names: Seq<Seq<char>>) -> Seq<Seq<char>>
    decreases names.len(),
{
    if names.len() == 0 {
        Seq::empty()
    } else {
        let before = deduplicated(names.drop_last());
        if before.contains(names.last()) {
            before
        } else {
            before.push(names.last())
        }
    }
}

/// `aliases`, followed by `canonical` unless it is among them.
pub open spec fn with_canonical(aliases: Seq<Seq<char>>, canonical: Seq<char>) -> Seq<Seq<char>> {
    if aliases.contains(canonical) {
        aliases
    } else {
        aliases.push(canonical)
    }
}

/// No name occurs twice in `names`.
pub open spec fn distinct(names: Seq<Seq<char>>) -> bool {
    forall|i: int, j: int| 0 <= i < j < names.len() ==> names[i] != names[j]
}

/// Deduplication keeps exactly the names that occur, each once.
pub proof fn lemma_deduplicated(names: Seq<Seq<char>>)
    ensures
        distinct(deduplicated(names)),
        forall|name: Seq<char>| deduplicated(names).contains(name) <==> names.contains(name),
        deduplicated(names).len() <= names.len(),
    decreases names.len(),
{
    if names.len() > 0 {
        let init = names.drop_last();
        let before = deduplicated(init);
        lemma_deduplicated(init);
        let after = deduplicated(names);
        assert forall|name: Seq<char>| after.contains(name) <==> names.contains(name) by {
            if names.contains(name) {
                let i = choose|i: int| 0 <= i < names.len() && names[i] == name;
                if i < names.len() - 1 {
                    assert(init[i] == name);
                    assert(init.contains(name));
                    assert(deduplicated(init).contains(name));
                    let k = choose|k: int| 0 <= k < before.len() && before[k] == name;
                    assert(after[k] == name);
                } else if before.contains(name) {
                } else {
                    assert(after[after.len() - 1] == name);
                }
            }
            if after.contains(name) {
                let k = choose|k: int| 0 <= k < after.len() && after[k] == name;
                if k < before.len() {
                    assert(before[k] == name);
                    assert(deduplicated(init).contains(name));
                    assert(init.contains(name));
                    let i = choose|i: int| 0 <= i < init.len() && init[i] == name;
                    assert(names[i] == name);
                } else {
                    assert(names[names.len() - 1] == name);
                }
            }
        }
        assert forall|i: int, j: int| 0 <= i < j < after.len() implies after[i] != after[j] by {
            if j < before.len() {
                assert(before[i] != before[j]);
            } else {
                assert(before[i] == after[i]);
                assert(before.contains(after[i]));
            }
        }
    }
}

/// The resolved identity of a field or variant.
#[derive(Clone, Debug)]
pub struct Name {
    /// The name under which the item is encoded.
    pub serialize: String,
    /// Whether `serialize` was given by an explicit rename.
    pub serialize_renamed: bool,
    /// The canonical name under which the item is decoded.
    pub deserialize: String,
    /// Whether `deserialize` was given by an explicit rename.
    pub deserialize_renamed: bool,
    /// The explicit aliases, each once, in the order in which they were first
    /// seen.
    pub deserialize_aliases: Vec<String>,
}

/// A `Name` as a plain value.
pub struct NameView {
    pub serialize: Seq<char>,
    pub serialize_renamed: bool,
    pub deserialize: Seq<char>,
    pub deserialize_renamed: bool,
    pub deserialize_aliases: Seq<Seq<char>>,
}

impl View for Name {
    type V = NameView;

    open spec fn view(&self) -> NameView {
        NameView {
            serialize: self.serialize@,
            serialize_renamed: self.serialize_renamed,
            deserialize: self.deserialize@,
            deserialize_renamed: self.deserialize_renamed,
            deserialize_aliases: views(self.deserialize_aliases@),
        }
    }
}

impl NameView {
    /// Every name under which the item is accepted when decoding: the explicit
    /// aliases, then the canonical name unless it is among them.
    pub open spec fn accepted(self) -> Seq<Seq<char>> {
        with_canonical(self.deserialize_aliases, self.deserialize)
    }
}

/// The name that `from_attrs` resolves.
pub open spec fn resolved(
    source_name: Seq<char>,
    ser_name: Option<Seq<char>>,
    de_name: Option<Seq<char>>,
    de_aliases: Option<Seq<Seq<char>>>,
) -> NameView {
    NameView {
        serialize: match ser_name {
            Some(name) => name,
            None => source_name,
        },
        serialize_renamed: ser_name is Some,
        deserialize: match de_name {
            Some(name) => name,
            None => source_name,
        },
        deserialize_renamed: de_name is Some,
        deserialize_aliases: match de_aliases {
            Some(aliases) => deduplicated(aliases),
            None => Seq::empty(),
        },
    }
}

/// The view of an optional string.
pub open spec fn option_view(s: Option<String>) -> Option<Seq<char>> {
    match s {
        Some(s) => Some(s@),
        None => None,
    }
}

/// Tells whether `names` holds `name`.
pub fn contains_name(names: &Vec<String>, name: &str) -> (found: bool)
    ensures
        found == views(names@).contains(name@),
{
    let mut i: usize = 0;
    while i < names.len()
        invariant
            i <= names.len(),
            forall|j: int| 0 <= j < i ==> views(names@)[j] != name@,
        decreases names.len() - i,
    {
        if str_eq(names[i].as_str(), name) {
            assert(views(names@)[i as int] == name@);
            return true;
        }
        i = i + 1;
    }
    false
}

/// Removes repetitions, keeping the first of equal names and the order.
pub fn deduplicate(names: Vec<String>) -> (kept: Vec<String>)
    ensures
        views(kept@) == deduplicated(views(names@)),
{
    let mut kept: Vec<String> = Vec::new();
    let mut i: usize = 0;
    assert(views(names@).take(0) =~= Seq::<Seq<char>>::empty());
    assert(views(kept@) =~= Seq::<Seq<char>>::empty());
    while i < names.len()
        invariant
            i <= names.len(),
            views(kept@) == deduplicated(views(names@).take(i as int)),
        decreases names.len() - i,
    {
        let ghost before = views(kept@);
        assert(views(names@).take(i + 1).drop_last() =~= views(names@).take(i as int));
        assert(views(names@).take(i + 1).last() == names@[i as int]@);
        if !contains_name(&kept, names[i].as_str()) {
            kept.push(names[i].clone());
            assert(views(kept@) =~= before.push(names@[i as int]@));
        }
        i = i + 1;
    }
    assert(views(names@).take(names.len() as int) =~= views(names@));
    kept
}

impl Name {
    /// Resolves a name from the source identifier and what the annotations
    /// gave. Without a rename, each side is the source identifier; a rename
    /// of one side leaves the other alone. The aliases are kept once each, in
    /// the order in which they were first seen.
    pub fn from_attrs(
        source_name: String,
        ser_name: Attr<String>,
        de_name: Attr<String>,
        de_aliases: Option<VecAttr<String>>,
    ) -> (name: Name)
        ensures
            name@ == resolved(
                source_name@,
                option_view(ser_name.value),
                option_view(de_name.value),
                match de_aliases {
                    Some(aliases) => Some(views(aliases.values())),
                    None => None,
                },
            ),
    {
        let deserialize_aliases = match de_aliases {
            Some(aliases) => deduplicate(aliases.get()),
            None => Vec::new(),
        };
        assert(de_aliases is None ==> views(deserialize_aliases@) =~= Seq::<Seq<char>>::empty());
        let ser_name = ser_name.get();
        let ser_renamed = ser_name.is_some();
        let de_name = de_name.get();
        let de_renamed = de_name.is_some();
        let serialize = match ser_name {
            Some(name) => name,
            None => source_name.clone(),
        };
        let deserialize = match de_name {
            Some(name) => name,
            None => source_name,
        };
        Name {
            serialize,
            serialize_renamed: ser_renamed,
            deserialize,
            deserialize_renamed: de_renamed,
            deserialize_aliases,
        }
    }

    /// The name under which the item is encoded.
    pub fn serialize_name(&self) -> (name: String)
        ensures
            name@ == self@.serialize,
    {
        self.serialize.clone()
    }

    /// The canonical name under which the item is decoded.
    pub fn deserialize_name(&self) -> (name: String)
        ensures
            name@ == self@.deserialize,
    {
        self.deserialize.clone()
    }

    /// Every name under which the item is accepted when decoding: the explicit
    /// aliases in their order, then the canonical name unless it is among
    /// them.
    pub fn deserialize_aliases(&self) -> (aliases: Vec<String>)
        ensures
            views(aliases@) == self@.accepted(),
    {
        let mut aliases: Vec<String> = Vec::new();
        let mut i: usize = 0;
        while i < self.deserialize_aliases.len()
            invariant
                i <= self.deserialize_aliases.len(),
                views(aliases@) =~= views(self.deserialize_aliases@).take(i as int),
            decreases self.deserialize_aliases.len() - i,
        {
            let ghost before = views(aliases@);
            aliases.push(self.deserialize_aliases[i].clone());
            assert(views(aliases@) =~= before.push(self.deserialize_aliases@[i as int]@));
            assert(views(self.deserialize_aliases@).take(i + 1) =~= views(
                self.deserialize_aliases@,
            ).take(i as int).push(self.deserialize_aliases@[i as int]@));
            i = i + 1;
        }
        assert(views(aliases@) =~= views(self.deserialize_aliases@));
        if !contains_name(&aliases, self.deserialize.as_str()) {
            let ghost before = views(aliases@);
            aliases.push(self.deserialize.clone());
            assert(views(aliases@) =~= before.push(self.deserialize@));
        }
        aliases
    }
}

/// The canonical name is always accepted, and where the explicit aliases hold
/// no name twice, neither do the accepted names.
pub proof fn lemma_accepted(name: NameView)
    ensures
        name.accepted().contains(name.deserialize),
        forall|alias: Seq<char>|
            name.deserialize_aliases.contains(alias) ==> name.accepted().contains(alias),
        distinct(name.deserialize_aliases) ==> distinct(name.accepted()),
{
    let aliases = name.deserialize_aliases;
    let all = name.accepted();
    if !aliases.contains(name.deserialize) {
        assert(all[all.len() - 1] == name.deserialize);
    }
    assert forall|alias: Seq<char>| aliases.contains(alias) implies all.contains(alias) by {
        let i = choose|i: int| 0 <= i < aliases.len() && aliases[i] == alias;
        assert(all[i] == alias);
    }
    if distinct(aliases) {
        assert forall|i: int, j: int| 0 <= i < j < all.len() implies all[i] != all[j] by {
            if j < aliases.len() {
            } else {
                assert(aliases[i] == all[i]);
                assert(aliases.contains(all[i]));
            }
        }
    }
}

} // verus!
