//! The commands of records that are kept as JSON documents.

use crate::command::{arg_str, cmd_args, cmd_cursor, new_cmd, scan_keys, text_arg};
use crate::keys::{addressed_key, get_redis_key};
use vstd::prelude::*;

verus! {

/// The command that saves a record under `key`; `json` is the record as a
/// JSON text.
pub fn save(key: &str, json: &str) -> (cmd: redis::Cmd)
    ensures
        cmd_args(cmd) == seq![
            text_arg("JSON.SET"@),
            text_arg(key@),
            text_arg("$"@),
            text_arg(json@),
        ],
        cmd_cursor(cmd) is None,
{
    let mut cmd = new_cmd("JSON.SET");
    arg_str(&mut cmd, key);
    arg_str(&mut cmd, "$");
    arg_str(&mut cmd, json);
    cmd
}

/// The command that fetches the record with primary key or storage key `pk`.
pub fn get(prefix_key: &str, pk: &str) -> (cmd: redis::Cmd)
    ensures
        cmd_args(cmd) == seq![
            text_arg("JSON.GET"@),
            text_arg(addressed_key(prefix_key@, pk@)),
            text_arg("$"@),
        ],
        cmd_cursor(cmd) is None,
{
    let key = get_redis_key(prefix_key, pk);
    let mut cmd = new_cmd("JSON.GET");
    arg_str(&mut cmd, key.as_str());
    arg_str(&mut cmd, "$");
    cmd
}

/// The command that lists the storage keys of all records under
/// `prefix_key`.
pub fn all_pks(prefix_key: &str) -> (cmd: redis::Cmd)
    ensures
        cmd_args(cmd) == seq![
            text_arg("SCAN"@),
            None,
            text_arg("MATCH"@),
            text_arg(prefix_key@ + ":*"@),
        ],
        cmd_cursor(cmd) == Some(0u64),
{
    scan_keys(prefix_key)
}

/// The command that deletes the record with primary key or storage key `pk`.
pub fn delete(prefix_key: &str, pk: &str) -> (cmd: redis::Cmd)
    ensures
        cmd_args(cmd) == seq![
            text_arg("JSON.DEL"@),
            text_arg(addressed_key(prefix_key@, pk@)),
            text_arg("$"@),
        ],
        cmd_cursor(cmd) is None,
{
    let key = get_redis_key(prefix_key, pk);
    let mut cmd = new_cmd("JSON.DEL");
    arg_str(&mut cmd, key.as_str());
    arg_str(&mut cmd, "$");
    cmd
}

} // verus!
