//! Streams: their commands, and the messages that their replies hold.

use crate::command::{
    arg_str, arg_usize, args_bytes, args_strs, byte_args, cmd_args, cmd_cursor, new_cmd,
    number_arg, text_arg, text_args,
};
use crate::text::str_eq;
use crate::wire::{Wire, WireValue};
use vstd::prelude::*;
use vstd::string::*;

verus! {

/// An entry of a stream: its id and what it holds.
#[derive(Debug)]
pub struct StreamId {
    /// The id of the entry.
    pub id: String,
    /// The fields of the entry with their values.
    pub value: WireValue,
}

/// The entries read from one stream.
#[derive(Debug)]
pub struct StreamKey {
    /// The key of the stream.
    pub key: String,
    /// The entries, in the order of the reply.
    pub ids: Vec<StreamId>,
}

/// The reply to a read from streams.
#[derive(Debug)]
pub struct StreamReadReply {
    /// What was read, stream by stream.
    pub keys: Vec<StreamKey>,
}

/// The reply to a read of a range of one stream.
#[derive(Debug)]
pub struct StreamRangeReply {
    /// The entries, in the order of the reply.
    pub ids: Vec<StreamId>,
}

/// A message of a stream.
#[derive(Debug)]
pub struct Message {
    /// The id of the message, as the store made it.
    pub id: String,
    /// The group that the message was read for.
    pub group: String,
    /// What the message holds.
    pub value: WireValue,
}

/// A `Message` as a plain value.
pub struct MessageView {
    pub id: Seq<char>,
    pub group: Seq<char>,
    pub value: Wire,
}

impl View for Message {
    type V = MessageView;

    open spec fn view(&self) -> MessageView {
        MessageView { id: self.id@, group: self.group@, value: self.value@ }
    }
}

impl Message {
    /// The message that an entry stands for, read for `group`.
    pub fn new(value: StreamId, group: String) -> (message: Message)
        ensures
            message@ == (MessageView { id: value.id@, group: group@, value: value.value@ }),
    {
        Message { id: value.id, group, value: value.value }
    }

    /// What the message holds.
    pub fn data(&self) -> (value: &WireValue)
        ensures
            *value == self.value,
    {
        &self.value
    }
}

/// The views of a list of messages.
pub open spec fn message_views(messages: Seq<Message>) -> Seq<MessageView> {
    Seq::new(messages.len(), |i: int| messages[i]@)
}

/// The messages that a list of entries stands for, read for `group`.
pub open spec fn messages_of(ids: Seq<StreamId>, group: Seq<char>) -> Seq<MessageView> {
    Seq::new(
        ids.len(),
        |i: int| MessageView { id: ids[i].id@, group, value: ids[i].value@ },
    )
}

/// The messages that the entries of a list of streams stand for, stream by
/// stream.
pub open spec fn messages_of_streams(keys: Seq<StreamKey>, group: Seq<char>) -> Seq<MessageView>
    decreases keys.len(),
{
    if keys.len() == 0 {
        Seq::empty()
    } else {
        messages_of_streams(keys.drop_last(), group) + messages_of(keys.last().ids@, group)
    }
}

fn append_messages(messages: &mut Vec<Message>, ids: &Vec<StreamId>, group: &str)
    ensures
        message_views(final(messages)@) == message_views(old(messages)@) + messages_of(
            ids@,
            group@,
        ),
{
    let ghost before = message_views(messages@);
    let ghost wanted = messages_of(ids@, group@);
    let mut i: usize = 0;
    assert(message_views(messages@) =~= before + wanted.take(0));
    while i < ids.len()
        invariant
            i <= ids.len(),
            wanted == messages_of(ids@, group@),
            message_views(messages@) == before + wanted.take(i as int),
        decreases ids.len() - i,
    {
        let ghost so_far = message_views(messages@);
        let entry = StreamId { id: ids[i].id.clone(), value: ids[i].value.duplicate() };
        let message = Message::new(entry, String::from_str(group));
        messages.push(message);
        assert(message_views(messages@) =~= so_far.push(wanted[i as int]));
        assert(wanted.take(i + 1) =~= wanted.take(i as int).push(wanted[i as int]));
        assert(message_views(messages@) =~= before + wanted.take(i + 1));
        i = i + 1;
    }
    assert(wanted.take(ids.len() as int) =~= wanted);
}

fn messages_from_streams(keys: &Vec<StreamKey>, group: &str) -> (messages: Vec<Message>)
    ensures
        message_views(messages@) == messages_of_streams(keys@, group@),
{
    let mut messages: Vec<Message> = Vec::new();
    let mut i: usize = 0;
    assert(keys@.take(0) =~= Seq::<StreamKey>::empty());
    assert(message_views(messages@) =~= Seq::<MessageView>::empty());
    while i < keys.len()
        invariant
            i <= keys.len(),
            message_views(messages@) == messages_of_streams(keys@.take(i as int), group@),
        decreases keys.len() - i,
    {
        assert(keys@.take(i + 1).drop_last() =~= keys@.take(i as int));
        assert(keys@.take(i + 1).last() == keys@[i as int]);
        append_messages(&mut messages, &keys[i].ids, group);
        i = i + 1;
    }
    assert(keys@.take(keys.len() as int) =~= keys@);
    messages
}

/// The messages of a reply to a read for `group_name`: every entry of every
/// stream, in the order of the reply.
pub fn stream_read_reply_to_messages(group_name: &str, reply: StreamReadReply) -> (messages: Vec<
    Message,
>)
    ensures
        message_views(messages@) == messages_of_streams(reply.keys@, group_name@),
{
    messages_from_streams(&reply.keys, group_name)
}

/// The messages of a reply to a read without a group; their group is `none`.
pub fn stream_read_no_group_reply_to_messages(reply: StreamReadReply) -> (messages: Vec<Message>)
    ensures
        message_views(messages@) == messages_of_streams(reply.keys@, "none"@),
{
    messages_from_streams(&reply.keys, "none")
}

/// The messages of a reply to a read of a range; their group is `none`.
pub fn stream_range_to_messages(reply: StreamRangeReply) -> (messages: Vec<Message>)
    ensures
        message_views(messages@) == messages_of(reply.ids@, "none"@),
{
    let mut messages: Vec<Message> = Vec::new();
    assert(message_views(messages@) =~= Seq::<MessageView>::empty());
    append_messages(&mut messages, &reply.ids, "none");
    assert(message_views(messages@) =~= messages_of(reply.ids@, "none"@));
    messages
}

/// The id to go on from and the messages of a reply to a claim for `group`.
pub fn autoclaim_range_to_id_and_messages(
    group: &str,
    new_id: String,
    reply: StreamRangeReply,
) -> (claimed: (String, Vec<Message>))
    ensures
        claimed.0@ == new_id@,
        message_views(claimed.1@) == messages_of(reply.ids@, group@),
{
    let mut messages: Vec<Message> = Vec::new();
    assert(message_views(messages@) =~= Seq::<MessageView>::empty());
    append_messages(&mut messages, &reply.ids, group);
    assert(message_views(messages@) =~= messages_of(reply.ids@, group@));
    (new_id, messages)
}

/// Tells whether the attempt to create a group is good: it succeeded, or it
/// failed with the code `BUSYGROUP`, which says that the group exists
/// already. `failed_with` is nothing for a success, else the code of the
/// error, if the error has one.
pub fn ensure_group_stream_success(failed_with: Option<Option<&str>>) -> (good: bool)
    ensures
        good == match failed_with {
            None => true,
            Some(Some(code)) => code@ == "BUSYGROUP"@,
            Some(None) => false,
        },
{
    match failed_with {
        None => true,
        Some(Some(code)) => str_eq(code, "BUSYGROUP"),
        Some(None) => false,
    }
}

/// How far a stream is trimmed.
#[derive(Clone, Copy, Debug, PartialEq, Eq, Structural)]
pub enum StreamMaxlen {
    /// To exactly this many entries.
    Equals(usize),
    /// To about this many entries.
    Approx(usize),
}

/// The arguments that a bound on a stream's length is written as.
pub open spec fn maxlen_args(maxlen: StreamMaxlen) -> Seq<Option<Seq<u8>>> {
    match maxlen {
        StreamMaxlen::Equals(n) => seq![text_arg("MAXLEN"@), text_arg("="@), number_arg(n as nat)],
        StreamMaxlen::Approx(n) => seq![text_arg("MAXLEN"@), text_arg("~"@), number_arg(n as nat)],
    }
}

/// The arguments that the options of a read for a group are written as: how
/// long to block, how many entries to read, then the group and the consumer.
pub open spec fn read_option_args(
    group: Seq<char>,
    consumer: Seq<char>,
    count: Option<usize>,
    block: Option<usize>,
) -> Seq<Option<Seq<u8>>> {
    (match block {
        Some(ms) => seq![text_arg("BLOCK"@), number_arg(ms as nat)],
        None => Seq::empty(),
    }) + (match count {
        Some(n) => seq![text_arg("COUNT"@), number_arg(n as nat)],
        None => Seq::empty(),
    }) + seq![text_arg("GROUP"@), text_arg(group), text_arg(consumer)]
}

/// The command that publishes an entry to a stream; `data` holds the entry's
/// flat pairs, key and value in turn. The store makes the id.
pub fn publish(stream_key: &str, data: &Vec<Vec<u8>>) -> (cmd: redis::Cmd)
    ensures
        cmd_args(cmd) == seq![text_arg("XADD"@), text_arg(stream_key@), text_arg("*"@)]
            + byte_args(data@),
        cmd_cursor(cmd) is None,
{
    let mut cmd = new_cmd("XADD");
    arg_str(&mut cmd, stream_key);
    arg_str(&mut cmd, "*");
    args_bytes(&mut cmd, data);
    cmd
}

/// The command that creates a group of consumers at the end of a stream.
pub fn ensure_group_stream(stream_key: &str, group_name: &str) -> (cmd: redis::Cmd)
    ensures
        cmd_args(cmd) == seq![
            text_arg("XGROUP"@),
            text_arg("CREATE"@),
            text_arg(stream_key@),
            text_arg(group_name@),
            text_arg("$"@),
        ],
        cmd_cursor(cmd) is None,
{
    let mut cmd = new_cmd("XGROUP");
    arg_str(&mut cmd, "CREATE");
    arg_str(&mut cmd, stream_key);
    arg_str(&mut cmd, group_name);
    arg_str(&mut cmd, "$");
    cmd
}

/// The command that reads the entries of a stream that no consumer of the
/// group has read yet.
pub fn read(
    stream_key: &str,
    group_name: &str,
    consumer_name: &str,
    read_count: Option<usize>,
    block_interval: Option<usize>,
) -> (cmd: redis::Cmd)
    ensures
        cmd_args(cmd) == seq![text_arg("XREADGROUP"@)] + read_option_args(
            group_name@,
            consumer_name@,
            read_count,
            block_interval,
        ) + seq![text_arg("STREAMS"@), text_arg(stream_key@), text_arg(">"@)],
        cmd_cursor(cmd) is None,
{
    let mut cmd = new_cmd("XREADGROUP");
    let ghost start = cmd_args(cmd);
    match block_interval {
        Some(ms) => {
            arg_str(&mut cmd, "BLOCK");
            arg_usize(&mut cmd, ms);
        },
        None => {},
    }
    match read_count {
        Some(n) => {
            arg_str(&mut cmd, "COUNT");
            arg_usize(&mut cmd, n);
        },
        None => {},
    }
    arg_str(&mut cmd, "GROUP");
    arg_str(&mut cmd, group_name);
    arg_str(&mut cmd, consumer_name);
    assert(cmd_args(cmd) =~= start + read_option_args(
        group_name@,
        consumer_name@,
        read_count,
        block_interval,
    ));
    arg_str(&mut cmd, "STREAMS");
    arg_str(&mut cmd, stream_key);
    arg_str(&mut cmd, ">");
    assert(cmd_args(cmd) =~= seq![text_arg("XREADGROUP"@)] + read_option_args(
        group_name@,
        consumer_name@,
        read_count,
        block_interval,
    ) + seq![text_arg("STREAMS"@), text_arg(stream_key@), text_arg(">"@)]);
    cmd
}

/// The command that reads the entries of a stream after `id`, for no group.
pub fn read_no_group(stream_key: &str, id: &str) -> (cmd: redis::Cmd)
    ensures
        cmd_args(cmd) == seq![
            text_arg("XREAD"@),
            text_arg("STREAMS"@),
            text_arg(stream_key@),
            text_arg(id@),
        ],
        cmd_cursor(cmd) is None,
{
    let mut cmd = new_cmd("XREAD");
    arg_str(&mut cmd, "STREAMS");
    arg_str(&mut cmd, stream_key);
    arg_str(&mut cmd, id);
    cmd
}

/// The command that claims for `consumer` the entries that another consumer
/// of the group left pending for `min_idle_time` milliseconds, from
/// `last_autoclaim_id` on.
pub fn autoclaim(
    stream_key: &str,
    group: &str,
    consumer: &str,
    min_idle_time: usize,
    last_autoclaim_id: &str,
    read_count: Option<usize>,
) -> (cmd: redis::Cmd)
    ensures
        cmd_args(cmd) == seq![
            text_arg("XAUTOCLAIM"@),
            text_arg(stream_key@),
            text_arg(group@),
            text_arg(consumer@),
            number_arg(min_idle_time as nat),
            text_arg(last_autoclaim_id@),
        ] + match read_count {
            Some(n) => seq![text_arg("COUNT"@), number_arg(n as nat)],
            None => Seq::empty(),
        },
        cmd_cursor(cmd) is None,
{
    let mut cmd = new_cmd("XAUTOCLAIM");
    arg_str(&mut cmd, stream_key);
    arg_str(&mut cmd, group);
    arg_str(&mut cmd, consumer);
    arg_usize(&mut cmd, min_idle_time);
    arg_str(&mut cmd, last_autoclaim_id);
    let ghost fixed = cmd_args(cmd);
    match read_count {
        Some(n) => {
            arg_str(&mut cmd, "COUNT");
            arg_usize(&mut cmd, n);
            assert(cmd_args(cmd) =~= fixed + seq![text_arg("COUNT"@), number_arg(n as nat)]);
        },
        None => {
            assert(cmd_args(cmd) =~= fixed + Seq::<Option<Seq<u8>>>::empty());
        },
    }
    cmd
}

/// The command that acknowledges the entries with the given ids for a group.
pub fn ack(stream_key: &str, group: &str, ids: &Vec<String>) -> (cmd: redis::Cmd)
    ensures
        cmd_args(cmd) == seq![text_arg("XACK"@), text_arg(stream_key@), text_arg(group@)]
            + text_args(ids@),
        cmd_cursor(cmd) is None,
{
    let mut cmd = new_cmd("XACK");
    arg_str(&mut cmd, stream_key);
    arg_str(&mut cmd, group);
    args_strs(&mut cmd, ids);
    cmd
}

/// The command that trims a stream.
pub fn trim(stream_key: &str, maxlen: StreamMaxlen) -> (cmd: redis::Cmd)
    ensures
        cmd_args(cmd) == seq![text_arg("XTRIM"@), text_arg(stream_key@)] + maxlen_args(maxlen),
        cmd_cursor(cmd) is None,
{
    let mut cmd = new_cmd("XTRIM");
    arg_str(&mut cmd, stream_key);
    let ghost fixed = cmd_args(cmd);
    arg_str(&mut cmd, "MAXLEN");
    match maxlen {
        StreamMaxlen::Equals(n) => {
            arg_str(&mut cmd, "=");
            arg_usize(&mut cmd, n);
        },
        StreamMaxlen::Approx(n) => {
            arg_str(&mut cmd, "~");
            arg_usize(&mut cmd, n);
        },
    }
    assert(cmd_args(cmd) =~= fixed + maxlen_args(maxlen));
    cmd
}

/// The command that asks for the number of entries of a stream.
pub fn len(stream_key: &str) -> (cmd: redis::Cmd)
    ensures
        cmd_args(cmd) == seq![text_arg("XLEN"@), text_arg(stream_key@)],
        cmd_cursor(cmd) is None,
{
    let mut cmd = new_cmd("XLEN");
    arg_str(&mut cmd, stream_key);
    cmd
}

/// The command that reads at most `count` entries of a stream between two
/// ids.
pub fn range_count(stream_key: &str, start: &str, end: &str, count: usize) -> (cmd: redis::Cmd)
    ensures
        cmd_args(cmd) == seq![
            text_arg("XRANGE"@),
            text_arg(stream_key@),
            text_arg(start@),
            text_arg(end@),
            text_arg("COUNT"@),
            number_arg(count as nat),
        ],
        cmd_cursor(cmd) is None,
{
    let mut cmd = new_cmd("XRANGE");
    arg_str(&mut cmd, stream_key);
    arg_str(&mut cmd, start);
    arg_str(&mut cmd, end);
    arg_str(&mut cmd, "COUNT");
    arg_usize(&mut cmd, count);
    cmd
}

/// The command that reads the entries of a stream between two ids.
pub fn range(stream_key: &str, start: &str, end: &str) -> (cmd: redis::Cmd)
    ensures
        cmd_args(cmd) == seq![
            text_arg("XRANGE"@),
            text_arg(stream_key@),
            text_arg(start@),
            text_arg(end@),
        ],
        cmd_cursor(cmd) is None,
{
    let mut cmd = new_cmd("XRANGE");
    arg_str(&mut cmd, stream_key);
    arg_str(&mut cmd, start);
    arg_str(&mut cmd, end);
    cmd
}

/// The command that reads every entry of a stream, the newest first.
pub fn range_all(stream_key: &str) -> (cmd: redis::Cmd)
    ensures
        cmd_args(cmd) == seq![
            text_arg("XREVRANGE"@),
            text_arg(stream_key@),
            text_arg("+"@),
            text_arg("-"@),
        ],
        cmd_cursor(cmd) is None,
{
    let mut cmd = new_cmd("XREVRANGE");
    arg_str(&mut cmd, stream_key);
    arg_str(&mut cmd, "+");
    arg_str(&mut cmd, "-");
    cmd
}

} // verus!
