use vstd::prelude::*;

use crate::protocol::json::deserialize::spec_json_deserialize;
use crate::protocol::json::value::{lemma_members_view, members_view, JsonView, Value};
use crate::protocol::json::Json;
use crate::util::text::str_eq;

verus! {

/// The opcode of the handshake with Discord.
pub const OP_HANDSHAKE: u32 = 0;

/// The opcode of a command or a reply.
pub const OP_FRAME: u32 = 1;

/// The opcode with which either side closes the connection.
pub const OP_CLOSE: u32 = 2;

/// The four little-endian bytes of a number.
pub open spec fn le32(n: u32) -> Seq<u8> {
    seq![
        (n & 0xff) as u8,
        ((n >> 8u32) & 0xff) as u8,
        ((n >> 16u32) & 0xff) as u8,
        ((n >> 24u32) & 0xff) as u8,
    ]
}

/// The number whose little-endian bytes are the four bytes of `s` from `at`.
pub open spec fn from_le32(s: Seq<u8>, at: int) -> u32 {
    (s[at] as u32) | ((s[at + 1] as u32) << 8u32) | ((s[at + 2] as u32) << 16u32) | ((
    s[at + 3] as u32) << 24u32)
}

/// Appends the little-endian bytes of `n`.
fn push_le32(out: &mut Vec<u8>, n: u32)
    ensures
        final(out)@ == old(out)@ + le32(n),
{
    out.push((n & 0xff) as u8);
    out.push(((n >> 8u32) & 0xff) as u8);
    out.push(((n >> 16u32) & 0xff) as u8);
    out.push(((n >> 24u32) & 0xff) as u8);
    assert(out@ =~= old(out)@ + le32(n));
}

/// Appends bytes.
fn push_all(out: &mut Vec<u8>, bytes: &[u8])
    ensures
        final(out)@ == old(out)@ + bytes@,
{
    let mut i: usize = 0;
    while i < bytes.len()
        invariant
            i <= bytes@.len(),
            out@ == old(out)@ + bytes@.subrange(0, i as int),
        decreases bytes@.len() - i,
    {
        out.push(bytes[i]);
        i = i + 1;
        assert(out@ =~= old(out)@ + bytes@.subrange(0, i as int));
    }
    assert(bytes@.subrange(0, bytes@.len() as int) =~= bytes@);
}

/// A frame for Discord: the opcode and the payload's length, each as four
/// little-endian bytes, then the payload; `None` when the payload is too long
/// for its length to be written.
pub fn encode_frame(op: u32, payload: &[u8]) -> (r: Option<Vec<u8>>)
    ensures
        payload@.len() <= u32::MAX ==> (r matches Some(f) && f@ == le32(op) + le32(
            payload@.len() as u32,
        ) + payload@),
        payload@.len() > u32::MAX ==> r is None,
{
    if payload.len() > 0xffff_ffff {
        return None;
    }
    let mut out: Vec<u8> = Vec::new();
    push_le32(&mut out, op);
    push_le32(&mut out, payload.len() as u32);
    push_all(&mut out, payload);
    Some(out)
}

/// The opcode and payload length of a frame from Discord, read from its
/// first eight bytes; `None` when there are fewer.
pub fn decode_header(header: &[u8]) -> (r: Option<(u32, u32)>)
    ensures
        header@.len() >= 8 ==> r == Some((from_le32(header@, 0), from_le32(header@, 4))),
        header@.len() < 8 ==> r is None,
{
    if header.len() < 8 {
        return None;
    }
    Some((read_le32(header, 0), read_le32(header, 4)))
}

fn read_le32(s: &[u8], at: usize) -> (r: u32)
    requires
        at + 4 <= s@.len(),
    ensures
        r == from_le32(s@, at as int),
{
    (s[at] as u32) | ((s[at + 1] as u32) << 8u32) | ((s[at + 2] as u32) << 16u32) | ((
    s[at + 3] as u32) << 24u32)
}

/// A message for an editor: its length as four little-endian bytes, then
/// the message; `None` when it is too long for its length to be written.
pub fn encode_message_frame(message: &[u8]) -> (r: Option<Vec<u8>>)
    ensures
        message@.len() <= u32::MAX ==> (r matches Some(f) && f@ == le32(message@.len() as u32)
            + message@),
        message@.len() > u32::MAX ==> r is None,
{
    if message.len() > 0xffff_ffff {
        return None;
    }
    let mut out: Vec<u8> = Vec::new();
    push_le32(&mut out, message.len() as u32);
    push_all(&mut out, message);
    Some(out)
}

/// The length of a message from an editor, read from the first four bytes;
/// `None` when there are fewer.
pub fn decode_message_length(header: &[u8]) -> (r: Option<u32>)
    ensures
        header@.len() >= 4 ==> r == Some(from_le32(header@, 0)),
        header@.len() < 4 ==> r is None,
{
    if header.len() < 4 {
        return None;
    }
    Some(read_le32(header, 0))
}

/// Reading back the four bytes of a number gives the number.
pub proof fn lemma_le32_roundtrip(n: u32, rest: Seq<u8>)
    ensures
        from_le32(le32(n) + rest, 0) == n,
{
    let s = le32(n) + rest;
    assert(s[0] == (n & 0xff) as u8);
    assert(s[1] == ((n >> 8u32) & 0xff) as u8);
    assert(s[2] == ((n >> 16u32) & 0xff) as u8);
    assert(s[3] == ((n >> 24u32) & 0xff) as u8);
    assert(((n & 0xff) as u8 as u32) | ((((n >> 8u32) & 0xff) as u8 as u32) << 8u32) | ((((n
        >> 16u32) & 0xff) as u8 as u32) << 16u32) | ((((n >> 24u32) & 0xff) as u8 as u32)
        << 24u32) == n) by (bit_vector);
}

/// A frame written by `encode_frame` reads back, through `decode_header`, as
/// its opcode and its payload's length.
pub proof fn lemma_frame_roundtrip(op: u32, payload: Seq<u8>)
    requires
        payload.len() <= u32::MAX,
    ensures
        ({
            let f = le32(op) + le32(payload.len() as u32) + payload;
            from_le32(f, 0) == op && from_le32(f, 4) == payload.len() as u32
        }),
{
    let len = payload.len() as u32;
    let f = le32(op) + le32(len) + payload;
    lemma_le32_roundtrip(op, le32(len) + payload);
    assert(f =~= le32(op) + (le32(len) + payload));
    lemma_le32_roundtrip(len, payload);
    assert(f.subrange(4, f.len() as int) =~= le32(len) + payload);
    assert(f[4] == (le32(len) + payload)[0]);
    assert(f[5] == (le32(len) + payload)[1]);
    assert(f[6] == (le32(len) + payload)[2]);
    assert(f[7] == (le32(len) + payload)[3]);
}

/// What a reply from Discord is.
#[derive(Debug, Clone, Copy, PartialEq, Eq, Structural)]
pub enum Reply {
    /// Discord closed the connection.
    Closed,
    /// Discord is ready for commands.
    Ready,
    /// Discord reported an error.
    Error,
    /// Anything else.
    Other,
}

/// The member at `i` is the first one named `key`.
pub open spec fn first_named(m: Seq<(Seq<char>, JsonView)>, key: Seq<char>, i: int) -> bool {
    &&& 0 <= i < m.len()
    &&& m[i].0 == key
    &&& forall|j: int| 0 <= j < i ==> m[j].0 != key
}

/// The first member named `evt` is the string `text`.
pub open spec fn event_is(m: Seq<(Seq<char>, JsonView)>, text: Seq<char>) -> bool {
    exists|i: int| #[trigger] first_named(m, "evt"@, i) && m[i].1 == JsonView::String(text)
}

/// What a reply with opcode `op` and body `body` is: the close opcode closes;
/// else a JSON object whose event is `READY` or `ERROR` is that, and anything
/// else is something else.
pub open spec fn reply_of(op: u32, body: Seq<char>) -> Reply {
    if op == OP_CLOSE {
        Reply::Closed
    } else {
        match spec_json_deserialize(body) {
            Ok(m) => if event_is(m, "READY"@) {
                Reply::Ready
            } else if event_is(m, "ERROR"@) {
                Reply::Error
            } else {
                Reply::Other
            },
            Err(_) => Reply::Other,
        }
    }
}

/// The position of the first member named `evt`, if any.
fn find_event(members: &Vec<(String, Value)>) -> (r: Option<usize>)
    ensures
        match r {
            Some(i) => first_named(members_view(members@), "evt"@, i as int),
            None => forall|j: int|
                0 <= j < members@.len() ==> members_view(members@)[j].0 != "evt"@,
        },
{
    let ghost mv = members_view(members@);
    proof {
        lemma_members_view(members@);
    }
    let mut i: usize = 0;
    while i < members.len()
        invariant
            mv == members_view(members@),
            mv.len() == members@.len(),
            forall|j: int| 0 <= j < members@.len() ==> #[trigger] mv[j] == (members@[j].0@, members@[j].1@),
            i <= members@.len(),
            forall|j: int| 0 <= j < i ==> mv[j].0 != "evt"@,
        decreases members@.len() - i,
    {
        if str_eq(members[i].0.as_str(), "evt") {
            return Some(i);
        }
        i = i + 1;
    }
    None
}

/// Tells what a reply from Discord is, as `reply_of` describes.
pub fn classify_reply(op: u32, body: &str) -> (r: Reply)
    ensures
        r == reply_of(op, body@),
{
    if op == OP_CLOSE {
        return Reply::Closed;
    }
    let members = match Json::deserialize(body) {
        Ok(m) => m,
        Err(_) => return Reply::Other,
    };
    let ghost mv = members_view(members@);
    proof {
        lemma_members_view(members@);
    }
    match find_event(&members) {
        Some(i) => {
            assert(first_named(mv, "evt"@, i as int));
            proof {
                assert forall|k: int| #[trigger] first_named(mv, "evt"@, k) implies k == i by {
                    if k < i {
                        assert(mv[k].0 != "evt"@);
                    }
                    if k > i {
                        assert(mv[i as int].0 != "evt"@);
                    }
                }
            }
            match &members[i].1 {
                Value::String(s) => {
                    assert(mv[i as int].1 == JsonView::String(s@));
                    if str_eq(s.as_str(), "READY") {
                        Reply::Ready
                    } else if str_eq(s.as_str(), "ERROR") {
                        Reply::Error
                    } else {
                        Reply::Other
                    }
                },
                _ => {
                    assert(mv[i as int].1 !is String);
                    Reply::Other
                },
            }
        },
        None => {
            assert forall|k: int| !#[trigger] first_named(mv, "evt"@, k) by {
                if 0 <= k < mv.len() {
                    assert(mv[k].0 != "evt"@);
                }
            }
            Reply::Other
        },
    }
}

} // verus!
