//! Storage keys: `{prefix_key}:{primary_key}`.

use crate::text::{is_prefix, starts_with};
use vstd::prelude::*;
use vstd::string::*;

verus! {

/// The storage key of the record with primary key `pk` under `prefix_key`.
pub open spec fn storage_key(prefix_key: Seq<char>, pk: Seq<char>) -> Seq<char> {
    prefix_key + ":"@ + pk
}

/// The key that a record is addressed by: `pk` itself where it is a storage
/// key already, else the storage key made of it.
pub open spec fn addressed_key(prefix_key: Seq<char>, pk: Seq<char>) -> Seq<char> {
    if is_prefix(prefix_key, pk) {
        pk
    } else {
        storage_key(prefix_key, pk)
    }
}

/// The primary key that a record is saved under: its own unless that is
/// empty, else a fresh one.
pub open spec fn ensured(current: Seq<char>, fresh: Seq<char>) -> Seq<char> {
    if current.len() == 0 {
        fresh
    } else {
        current
    }
}

/// A digit of Crockford's base 32: a decimal digit or an upper-case letter
/// other than `I`, `L`, `O` and `U`.
pub open spec fn is_crockford_digit(c: char) -> bool {
    ('0' <= c && c <= '9') || ('A' <= c && c <= 'Z' && c != 'I' && c != 'L' && c != 'O' && c
        != 'U')
}

/// The text is a ULID as it is written: 26 digits of Crockford's base 32.
pub open spec fn is_ulid(text: Seq<char>) -> bool {
    text.len() == 26 && forall|i: int| 0 <= i < text.len() ==> is_crockford_digit(#[trigger] text[i])
}

/// Asks `rusty_ulid::generate_ulid_string` for a fresh identifier. Each call
/// gives another one, made of the time and of random bits; whatever they are,
/// it is written as 26 digits of Crockford's base 32.
#[verifier::external_body]
fn generate_pk() -> (pk: String)
    ensures
        is_ulid(pk@),
{
    rusty_ulid::generate_ulid_string()
}

/// Makes the storage key `{prefix_key}:{pk}`.
pub fn fmt_pk(prefix_key: &str, pk: &str) -> (key: String)
    ensures
        key@ == storage_key(prefix_key@, pk@),
{
    let mut key = String::from_str(prefix_key);
    key.append(":");
    key.append(pk);
    key
}

/// Tells whether `pk` is a storage key already: whether it starts with the
/// key prefix.
pub fn is_pk_fmt(prefix_key: &str, pk: &str) -> (yes: bool)
    ensures
        yes == is_prefix(prefix_key@, pk@),
{
    starts_with(pk, prefix_key)
}

/// The key to address a record by, given its primary key or its storage key.
pub fn get_redis_key(prefix_key: &str, pk: &str) -> (key: String)
    ensures
        key@ == addressed_key(prefix_key@, pk@),
{
    if is_pk_fmt(prefix_key, pk) {
        String::from_str(pk)
    } else {
        fmt_pk(prefix_key, pk)
    }
}

/// The pattern that matches every storage key under `prefix_key`.
pub fn all_pks_pattern(prefix_key: &str) -> (pattern: String)
    ensures
        pattern@ == prefix_key@ + ":*"@,
{
    let mut pattern = String::from_str(prefix_key);
    pattern.append(":*");
    pattern
}

/// The primary key to save a record under, given its own and a fresh one.
pub fn ensure_pk_with(current: String, fresh: String) -> (pk: String)
    ensures
        pk@ == ensured(current@, fresh@),
{
    if current.as_str().unicode_len() == 0 {
        fresh
    } else {
        current
    }
}

/// The primary key to save a record under: its own unless that is empty,
/// else a freshly generated ULID. The key is never empty.
pub fn ensure_pk(current: String) -> (pk: String)
    ensures
        current@.len() > 0 ==> pk@ == current@,
        current@.len() == 0 ==> is_ulid(pk@),
        pk@.len() > 0,
{
    if current.as_str().unicode_len() == 0 {
        ensure_pk_with(current, generate_pk())
    } else {
        current
    }
}

} // verus!
