//! The commands of records that are kept as hashes.

use crate::command::{
    arg_str, args_bytes, byte_args, cmd_args, cmd_cursor, new_cmd, scan_keys, text_arg,
};
use crate::keys::{addressed_key, get_redis_key};
use vstd::prelude::*;

verus! {

/// The command that saves a record under `key`; `data` holds the record's
/// flat pairs, key and value in turn.
pub fn save(key: &str, data: &Vec<Vec<u8>>) -> (cmd: redis::Cmd)
    ensures
        cmd_args(cmd) == seq![text_arg("HSET"@), text_arg(key@)] + byte_args(data@),
        cmd_cursor(cmd) is None,
{
    let mut cmd = new_cmd("HSET");
    arg_str(&mut cmd, key);
    args_bytes(&mut cmd, data);
    cmd
}

/// The command that fetches the record with primary key or storage key `pk`.
pub fn get(prefix_key: &str, pk: &str) -> (cmd: redis::Cmd)
    ensures
        cmd_args(cmd) == seq![text_arg("HGETALL"@), text_arg(addressed_key(prefix_key@, pk@))],
        cmd_cursor(cmd) is None,
{
    let key = get_redis_key(prefix_key, pk);
    let mut cmd = new_cmd("HGETALL");
    arg_str(&mut cmd, key.as_str());
    cmd
}

/// The command that lists the storage keys of all records under
/// `prefix_key`.
pub fn all_pks(prefix_key: &str) -> (cmd: redis::Cmd)
    ensures
        cmd_args(cmd) == seq![
            text_arg("SCAN"@),
            None,
            text_arg("MATCH"@),
            text_arg(prefix_key@ + ":*"@),
        ],
        cmd_cursor(cmd) == Some(0u64),
{
    scan_keys(prefix_key)
}

/// The command that deletes the record with primary key or storage key `pk`.
pub fn delete(prefix_key: &str, pk: &str) -> (cmd: redis::Cmd)
    ensures
        cmd_args(cmd) == seq![text_arg("DEL"@), text_arg(addressed_key(prefix_key@, pk@))],
        cmd_cursor(cmd) is None,
{
    let key = get_redis_key(prefix_key, pk);
    let mut cmd = new_cmd("DEL");
    arg_str(&mut cmd, key.as_str());
    cmd
}

} // verus!
