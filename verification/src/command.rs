//! Store commands, as the client library assembles them.

use crate::text::decimal;
use vstd::prelude::*;
use vstd::utf8::*;

verus! {

/// `redis::Cmd`, a command with its arguments; nothing inside it is looked at.
#[verifier::external_type_specification]
#[verifier::external_body]
pub struct ExCmd(redis::Cmd);

/// The arguments of a command in their order, the command's name first. The
/// place of a cursor holds nothing: what stands there changes while the
/// command is repeated.
pub uninterp spec fn cmd_args(cmd: redis::Cmd) -> Seq<Option<Seq<u8>>>;

/// Where a command that is repeated starts from, if it has a cursor.
pub uninterp spec fn cmd_cursor(cmd: redis::Cmd) -> Option<u64>;

/// A text as an argument.
pub open spec fn text_arg(text: Seq<char>) -> Option<Seq<u8>> {
    Some(encode_utf8(text))
}

/// A number as an argument: its decimal digits.
pub open spec fn number_arg(n: nat) -> Option<Seq<u8>> {
    Some(encode_utf8(decimal(n)))
}

/// Byte strings as arguments.
pub open spec fn byte_args(values: Seq<Vec<u8>>) -> Seq<Option<Seq<u8>>> {
    Seq::new(values.len(), |i: int| Some(values[i]@))
}

/// Texts as arguments.
pub open spec fn text_args(values: Seq<String>) -> Seq<Option<Seq<u8>>> {
    Seq::new(values.len(), |i: int| text_arg(values[i]@))
}

/// Starts a command with `redis::cmd`, which makes an empty command and
/// appends `name` as its first argument.
#[verifier::external_body]
pub(crate) fn new_cmd(name: &str) -> (cmd: redis::Cmd)
    ensures
        cmd_args(cmd) == seq![text_arg(name@)],
        cmd_cursor(cmd) is None,
{
    redis::cmd(name)
}

/// Appends a text with `Cmd::arg`, which writes a `&str` as one argument
/// that holds its bytes.
#[verifier::external_body]
pub(crate) fn arg_str(cmd: &mut redis::Cmd, value: &str)
    ensures
        cmd_args(*final(cmd)) == cmd_args(*old(cmd)).push(text_arg(value@)),
        cmd_cursor(*final(cmd)) == cmd_cursor(*old(cmd)),
{
    cmd.arg(value);
}

/// Appends a byte string with `Cmd::arg`, which writes a slice of bytes as
/// one argument.
#[verifier::external_body]
pub(crate) fn arg_bytes(cmd: &mut redis::Cmd, value: &Vec<u8>)
    ensures
        cmd_args(*final(cmd)) == cmd_args(*old(cmd)).push(Some(value@)),
        cmd_cursor(*final(cmd)) == cmd_cursor(*old(cmd)),
{
    cmd.arg(value.as_slice());
}

/// Appends a number with `Cmd::arg`, which writes a `usize` as one argument
/// that holds its decimal digits.
#[verifier::external_body]
pub(crate) fn arg_usize(cmd: &mut redis::Cmd, value: usize)
    ensures
        cmd_args(*final(cmd)) == cmd_args(*old(cmd)).push(number_arg(value as nat)),
        cmd_cursor(*final(cmd)) == cmd_cursor(*old(cmd)),
{
    cmd.arg(value);
}

/// Appends the place of the cursor with `Cmd::cursor_arg`, which fails on a
/// command that has a cursor already.
#[verifier::external_body]
pub(crate) fn cursor_arg(cmd: &mut redis::Cmd, cursor: u64)
    requires
        cmd_cursor(*old(cmd)) is None,
    ensures
        cmd_args(*final(cmd)) == cmd_args(*old(cmd)).push(None),
        cmd_cursor(*final(cmd)) == Some(cursor),
{
    cmd.cursor_arg(cursor);
}

/// Appends each of `values` as one argument.
pub fn args_bytes(cmd: &mut redis::Cmd, values: &Vec<Vec<u8>>)
    ensures
        cmd_args(*final(cmd)) == cmd_args(*old(cmd)) + byte_args(values@),
        cmd_cursor(*final(cmd)) == cmd_cursor(*old(cmd)),
{
    let mut i: usize = 0;
    assert(cmd_args(*cmd) =~= cmd_args(*old(cmd)) + byte_args(values@).take(0));
    while i < values.len()
        invariant
            i <= values.len(),
            cmd_args(*cmd) == cmd_args(*old(cmd)) + byte_args(values@).take(i as int),
            cmd_cursor(*cmd) == cmd_cursor(*old(cmd)),
        decreases values.len() - i,
    {
        arg_bytes(cmd, &values[i]);
        assert(byte_args(values@).take(i + 1) =~= byte_args(values@).take(i as int).push(
            Some(values@[i as int]@),
        ));
        assert(cmd_args(*cmd) =~= cmd_args(*old(cmd)) + byte_args(values@).take(i + 1));
        i = i + 1;
    }
    assert(byte_args(values@).take(values.len() as int) =~= byte_args(values@));
}

/// Appends each of `values` as one argument.
pub fn args_strs(cmd: &mut redis::Cmd, values: &Vec<String>)
    ensures
        cmd_args(*final(cmd)) == cmd_args(*old(cmd)) + text_args(values@),
        cmd_cursor(*final(cmd)) == cmd_cursor(*old(cmd)),
{
    let mut i: usize = 0;
    assert(cmd_args(*cmd) =~= cmd_args(*old(cmd)) + text_args(values@).take(0));
    while i < values.len()
        invariant
            i <= values.len(),
            cmd_args(*cmd) == cmd_args(*old(cmd)) + text_args(values@).take(i as int),
            cmd_cursor(*cmd) == cmd_cursor(*old(cmd)),
        decreases values.len() - i,
    {
        arg_str(cmd, values[i].as_str());
        assert(text_args(values@).take(i + 1) =~= text_args(values@).take(i as int).push(
            text_arg(values@[i as int]@),
        ));
        assert(cmd_args(*cmd) =~= cmd_args(*old(cmd)) + text_args(values@).take(i + 1));
        i = i + 1;
    }
    assert(text_args(values@).take(values.len() as int) =~= text_args(values@));
}

/// The command that lists the storage keys under `prefix_key`, from the
/// start.
pub fn scan_keys(prefix_key: &str) -> (cmd: redis::Cmd)
    ensures
        cmd_args(cmd) == seq![
            text_arg("SCAN"@),
            None,
            text_arg("MATCH"@),
            text_arg(prefix_key@ + ":*"@),
        ],
        cmd_cursor(cmd) == Some(0u64),
{
    let pattern = crate::keys::all_pks_pattern(prefix_key);
    let mut cmd = new_cmd("SCAN");
    cursor_arg(&mut cmd, 0);
    arg_str(&mut cmd, "MATCH");
    arg_str(&mut cmd, pattern.as_str());
    cmd
}

/// The command that lets the record under `key` expire after `secs` seconds.
pub fn expire_cmd(key: &str, secs: usize) -> (cmd: redis::Cmd)
    ensures
        cmd_args(cmd) == seq![text_arg("EXPIRE"@), text_arg(key@), number_arg(secs as nat)],
        cmd_cursor(cmd) is None,
{
    let mut cmd = new_cmd("EXPIRE");
    arg_str(&mut cmd, key);
    arg_usize(&mut cmd, secs);
    cmd
}

} // verus!
