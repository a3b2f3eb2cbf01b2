//! The command of a client write as it is stored in the log: the request id
//! that makes retries idempotent, and the message for the application.

use crate::payload::{bytes_content, bytes_from_vec, bytes_to_vec};
use bytes::Bytes;
use vstd::bytes::{
    lemma_auto_spec_u64_to_from_le_bytes, spec_u64_from_le_bytes, spec_u64_to_le_bytes,
    u64_from_le_bytes, u64_to_le_bytes,
};
use vstd::prelude::*;
use vstd::slice::slice_subrange;

verus! {

/// A client write.
#[derive(Clone, Debug, PartialEq, Eq)]
pub struct Command {
    /// The idempotency key that the client chose.
    pub request_id: Vec<u8>,
    /// What the application is to process.
    pub message: Vec<u8>,
}

/// What a [`Command`] is, as a mathematical value.
pub struct CommandView {
    pub request_id: Seq<u8>,
    pub message: Seq<u8>,
}

impl View for Command {
    type V = CommandView;

    open spec fn view(&self) -> CommandView {
        CommandView { request_id: self.request_id@, message: self.message@ }
    }
}

/// The stored form of a command: the length of the request id as eight
/// octets, least significant first, then the request id, then the message.
pub open spec fn frame(c: CommandView) -> Seq<u8> {
    spec_u64_to_le_bytes(c.request_id.len() as u64) + c.request_id + c.message
}

/// The command that `bytes` store, if they store one.
pub open spec fn unframe(bytes: Seq<u8>) -> Option<CommandView> {
    if bytes.len() < 8 {
        None
    } else {
        let n = spec_u64_from_le_bytes(bytes.subrange(0, 8));
        if 8 + n > bytes.len() {
            None
        } else {
            Some(
                CommandView {
                    request_id: bytes.subrange(8, 8 + n),
                    message: bytes.subrange(8 + n, bytes.len() as int),
                },
            )
        }
    }
}

/// Encode-decode is the identity: a stored command reads back as itself.
pub proof fn lemma_unframe_frame(c: CommandView)
    requires
        c.request_id.len() <= u64::MAX,
    ensures
        unframe(frame(c)) == Some(c),
{
    lemma_auto_spec_u64_to_from_le_bytes();
    let n = c.request_id.len() as u64;
    let bytes = frame(c);
    assert(bytes.subrange(0, 8) =~= spec_u64_to_le_bytes(n));
    assert(bytes.subrange(8, 8 + n) =~= c.request_id);
    assert(bytes.subrange(8 + n, bytes.len() as int) =~= c.message);
}

/// Decode-encode is the identity: what reads as a command is the stored form
/// of that command.
pub proof fn lemma_frame_unframe(bytes: Seq<u8>)
    requires
        unframe(bytes) is Some,
    ensures
        frame(unframe(bytes)->Some_0) == bytes,
{
    lemma_auto_spec_u64_to_from_le_bytes();
    let c = unframe(bytes)->Some_0;
    let n = spec_u64_from_le_bytes(bytes.subrange(0, 8));
    assert(c.request_id.len() == n);
    assert(spec_u64_to_le_bytes(spec_u64_from_le_bytes(bytes.subrange(0, 8))) == bytes.subrange(
        0,
        8,
    ));
    assert(frame(c) =~= bytes);
}

/// Appends the octets `from .. to` of `src` to `dst`.
fn push_range(dst: &mut Vec<u8>, src: &Vec<u8>, from: usize, to: usize)
    requires
        from <= to <= src.len(),
    ensures
        final(dst)@ == old(dst)@ + src@.subrange(from as int, to as int),
{
    let mut i: usize = from;
    while i < to
        invariant
            from <= i <= to <= src.len(),
            dst@ == old(dst)@ + src@.subrange(from as int, i as int),
        decreases to - i,
    {
        dst.push(src[i]);
        i = i + 1;
        proof {
            assert(src@.subrange(from as int, i as int) =~= src@.subrange(
                from as int,
                i - 1,
            ).push(src@[i - 1]));
            assert(dst@ =~= old(dst)@ + src@.subrange(from as int, i as int));
        }
    }
    proof {
        assert(dst@ =~= old(dst)@ + src@.subrange(from as int, to as int));
    }
}

impl Command {
    /// The stored form of the command.
    pub fn to_frame(&self) -> (out: Vec<u8>)
        ensures
            out@ == frame(self@),
    {
        let mut out = u64_to_le_bytes(self.request_id.len() as u64);
        push_range(&mut out, &self.request_id, 0, self.request_id.len());
        push_range(&mut out, &self.message, 0, self.message.len());
        proof {
            assert(self.request_id@.subrange(0, self.request_id@.len() as int)
                =~= self.request_id@);
            assert(self.message@.subrange(0, self.message@.len() as int) =~= self.message@);
        }
        out
    }

    /// The command that `bytes` store, if they store one: they do unless
    /// they are too short for the length of a request id, or for the request
    /// id whose length they give.
    pub fn from_frame(bytes: &Vec<u8>) -> (out: Option<Command>)
        ensures
            match out {
                Some(c) => unframe(bytes@) == Some(c@),
                None => unframe(bytes@) is None,
            },
    {
        if bytes.len() < 8 {
            return None;
        }
        let head = slice_subrange(bytes.as_slice(), 0, 8);
        let n: u64 = u64_from_le_bytes(head);
        if n > (bytes.len() - 8) as u64 {
            return None;
        }
        let end: usize = 8 + n as usize;
        let mut request_id: Vec<u8> = Vec::new();
        push_range(&mut request_id, bytes, 8, end);
        let mut message: Vec<u8> = Vec::new();
        push_range(&mut message, bytes, end, bytes.len());
        Some(Command { request_id, message })
    }

    /// The payload of the log entry that stores the command.
    pub fn encode(&self) -> (out: Bytes)
        ensures
            bytes_content(out) == frame(self@),
    {
        bytes_from_vec(self.to_frame())
    }

    /// The command that the payload of a log entry stores, if it stores one.
    pub fn decode(payload: &Bytes) -> (out: Option<Command>)
        ensures
            match out {
                Some(c) => unframe(bytes_content(*payload)) == Some(c@),
                None => unframe(bytes_content(*payload)) is None,
            },
    {
        let bytes = bytes_to_vec(payload);
        Command::from_frame(&bytes)
    }
}

} // verus!
