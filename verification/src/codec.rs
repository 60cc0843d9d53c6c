//! The bridge wire protocol: length-prefixed binary frames, unambiguous and
//! able to carry arbitrary-length bodies, embedded newlines included.
//!
//! A client first sends a handshake (the session token, length-prefixed),
//! then a sequence of event frames, then an explicit finish frame or closes
//! the connection. An event frame is one severity tag byte, a four-byte
//! big-endian body length, and the body verbatim; the finish frame is a
//! single tag byte.

use vstd::prelude::*;

use crate::events::{LogEvent, LogEventView, OutputLevel};

verus! {

/// A frame of the wire protocol, as sent by a validated client.
#[derive(Clone, Debug)]
pub enum Frame {
    Event(LogEvent),
    Finish,
}

/// Mathematical model of a [`Frame`].
pub enum FrameView {
    Event(LogEventView),
    Finish,
}

impl View for Frame {
    type V = FrameView;

    open spec fn view(&self) -> FrameView {
        match self {
            Frame::Event(e) => FrameView::Event(e@),
            Frame::Finish => FrameView::Finish,
        }
    }
}

/// The tag byte of the finish frame; event tags are the severities' tags.
pub const FINISH_TAG: u8 = 4;

/// The tag byte of an event frame carrying severity `level`.
pub open spec fn level_tag(level: OutputLevel) -> u8 {
    match level {
        OutputLevel::Print => 0,
        OutputLevel::Info => 1,
        OutputLevel::Warning => 2,
        OutputLevel::Error => 3,
    }
}

/// The severity a tag byte stands for, if any.
pub open spec fn tag_level(tag: u8) -> Option<OutputLevel> {
    if tag == 0 {
        Some(OutputLevel::Print)
    } else if tag == 1 {
        Some(OutputLevel::Info)
    } else if tag == 2 {
        Some(OutputLevel::Warning)
    } else if tag == 3 {
        Some(OutputLevel::Error)
    } else {
        None
    }
}

fn level_tag_exec(level: OutputLevel) -> (r: u8)
    ensures
        r == level_tag(level),
{
    match level {
        OutputLevel::Print => 0,
        OutputLevel::Info => 1,
        OutputLevel::Warning => 2,
        OutputLevel::Error => 3,
    }
}

fn tag_level_exec(tag: u8) -> (r: Option<OutputLevel>)
    ensures
        r == tag_level(tag),
{
    if tag == 0 {
        Some(OutputLevel::Print)
    } else if tag == 1 {
        Some(OutputLevel::Info)
    } else if tag == 2 {
        Some(OutputLevel::Warning)
    } else if tag == 3 {
        Some(OutputLevel::Error)
    } else {
        None
    }
}

proof fn lemma_tag_level_inverse(level: OutputLevel)
    ensures
        tag_level(level_tag(level)) == Some(level),
        level_tag(level) != FINISH_TAG,
{
}

/// The four big-endian bytes of `n`.
pub open spec fn be32(n: u32) -> Seq<u8> {
    seq![(n >> 24) as u8, (n >> 16) as u8, (n >> 8) as u8, n as u8]
}

/// The value the four big-endian bytes stand for.
pub open spec fn be32_val(b0: u8, b1: u8, b2: u8, b3: u8) -> u32 {
    ((b0 as u32) << 24) | ((b1 as u32) << 16) | ((b2 as u32) << 8) | (b3 as u32)
}

pub proof fn lemma_be32_round_trip(n: u32)
    ensures
        be32_val(be32(n)[0], be32(n)[1], be32(n)[2], be32(n)[3]) == n,
{
    let b0 = (n >> 24) as u8;
    let b1 = (n >> 16) as u8;
    let b2 = (n >> 8) as u8;
    let b3 = n as u8;
    assert((((n >> 24) as u8 as u32) << 24) | (((n >> 16) as u8 as u32) << 16) | (((n >> 8) as u8
        as u32) << 8) | (n as u8 as u32) == n) by (bit_vector);
}

/// A frame the protocol can carry: an event body must fit the four-byte
/// length field.
pub open spec fn frame_wf(f: FrameView) -> bool {
    match f {
        FrameView::Event(e) => e.body.len() <= u32::MAX,
        FrameView::Finish => true,
    }
}

/// The encoding of one frame.
pub open spec fn frame_bytes(f: FrameView) -> Seq<u8> {
    match f {
        FrameView::Event(e) => seq![level_tag(e.level)] + be32(e.body.len() as u32) + e.body,
        FrameView::Finish => seq![FINISH_TAG],
    }
}

/// Parse one frame off the front of `s`: the frame and how many bytes it
/// took, or nothing if `s` does not begin with a complete frame.
pub open spec fn parse_frame_spec(s: Seq<u8>) -> Option<(FrameView, int)> {
    if s.len() < 1 {
        None
    } else if s[0] == FINISH_TAG {
        Some((FrameView::Finish, 1))
    } else {
        match tag_level(s[0]) {
            None => None,
            Some(level) => {
                if s.len() < 5 {
                    None
                } else {
                    let n = be32_val(s[1], s[2], s[3], s[4]) as int;
                    if s.len() < 5 + n {
                        None
                    } else {
                        Some(
                            (
                                FrameView::Event(
                                    LogEventView { level, body: s.subrange(5, 5 + n) },
                                ),
                                5 + n,
                            ),
                        )
                    }
                }
            },
        }
    }
}

/// Round trip: a frame followed by anything parses back to exactly that
/// frame — its body byte for byte, embedded line breaks included — consuming
/// exactly the frame's bytes.
pub proof fn lemma_frame_round_trip(f: FrameView, rest: Seq<u8>)
    requires
        frame_wf(f),
    ensures
        parse_frame_spec(frame_bytes(f) + rest) == Some((f, frame_bytes(f).len() as int)),
{
    let s = frame_bytes(f) + rest;
    match f {
        FrameView::Finish => {
            assert(s[0] == FINISH_TAG);
        },
        FrameView::Event(e) => {
            let len32 = e.body.len() as u32;
            lemma_tag_level_inverse(e.level);
            assert(s[0] == level_tag(e.level));
            assert(s[1] == be32(len32)[0] && s[2] == be32(len32)[1] && s[3] == be32(len32)[2]
                && s[4] == be32(len32)[3]);
            lemma_be32_round_trip(len32);
            let n = be32_val(s[1], s[2], s[3], s[4]) as int;
            assert(n == e.body.len());
            assert(s.len() >= 5 + n);
            assert(s.subrange(5, 5 + n) =~= e.body);
            assert(frame_bytes(f).len() == 5 + n);
        },
    }
}

/// Encode one frame.
pub fn encode_frame(f: &Frame) -> (r: Vec<u8>)
    requires
        frame_wf(f@),
    ensures
        r@ == frame_bytes(f@),
{
    match f {
        Frame::Finish => {
            let mut v: Vec<u8> = Vec::new();
            v.push(FINISH_TAG);
            proof {
                assert(v@ =~= frame_bytes(f@));
            }
            v
        },
        Frame::Event(e) => {
            let mut v: Vec<u8> = Vec::new();
            v.push(level_tag_exec(e.level));
            let n: u32 = e.body.len() as u32;
            v.push(#[verifier::truncate] ((n >> 24) as u8));
            v.push(#[verifier::truncate] ((n >> 16) as u8));
            v.push(#[verifier::truncate] ((n >> 8) as u8));
            v.push(#[verifier::truncate] (n as u8));
            let mut i: usize = 0;
            while i < e.body.len()
                invariant
                    0 <= i <= e.body@.len(),
                    v@ == seq![level_tag(e@.level)] + be32(e.body@.len() as u32) + e.body@.take(
                        i as int,
                    ),
                decreases e.body@.len() - i,
            {
                v.push(e.body[i]);
                proof {
                    assert(v@ =~= seq![level_tag(e@.level)] + be32(e.body@.len() as u32)
                        + e.body@.take(i + 1));
                }
                i = i + 1;
            }
            proof {
                assert(e.body@.take(e.body@.len() as int) =~= e.body@);
                assert(v@ =~= frame_bytes(f@));
            }
            v
        },
    }
}

/// The model of an executable parse result.
pub open spec fn parse_result_view(r: Option<(Frame, usize)>) -> Option<(FrameView, int)> {
    match r {
        None => None,
        Some((f, used)) => Some((f@, used as int)),
    }
}

/// Parse one frame from `buf` at offset `start`: the frame and how many
/// bytes it took, or nothing if a complete frame does not begin there.
pub fn parse_frame(buf: &Vec<u8>, start: usize) -> (r: Option<(Frame, usize)>)
    requires
        start <= buf@.len(),
    ensures
        parse_result_view(r) == parse_frame_spec(buf@.skip(start as int)),
{
    let ghost s = buf@.skip(start as int);
    proof {
        assert(forall|j: int| 0 <= j < s.len() ==> s[j] == buf@[start + j]);
    }
    let avail: usize = buf.len() - start;
    if avail < 1 {
        return None;
    }
    let tag = buf[start];
    if tag == FINISH_TAG {
        return Some((Frame::Finish, 1));
    }
    let level = match tag_level_exec(tag) {
        None => {
            return None;
        },
        Some(level) => level,
    };
    if avail < 5 {
        return None;
    }
    let n32: u32 = be32_val_exec(buf[start + 1], buf[start + 2], buf[start + 3], buf[start + 4]);
    let n: usize = n32 as usize;
    if avail - 5 < n {
        return None;
    }
    let buf_len: usize = buf.len();
    let mut body: Vec<u8> = Vec::new();
    let mut i: usize = 0;
    while i < n
        invariant
            0 <= i <= n,
            buf_len == buf@.len(),
            start + 5 + n <= buf@.len(),
            n == be32_val(s[1], s[2], s[3], s[4]) as int,
            s == buf@.skip(start as int),
            s.len() == buf@.len() - start,
            forall|j: int| 0 <= j < s.len() ==> s[j] == buf@[start + j],
            body@ == s.subrange(5, 5 + i),
        decreases n - i,
    {
        body.push(buf[start + 5 + i]);
        proof {
            assert(body@ =~= s.subrange(5, 5 + i + 1));
        }
        i = i + 1;
    }
    let event = LogEvent { level, body };
    proof {
        assert(s.subrange(5, 5 + n) =~= event.body@);
    }
    Some((Frame::Event(event), 5 + n))
}

fn be32_val_exec(b0: u8, b1: u8, b2: u8, b3: u8) -> (r: u32)
    ensures
        r == be32_val(b0, b1, b2, b3),
{
    ((b0 as u32) << 24) | ((b1 as u32) << 16) | ((b2 as u32) << 8) | (b3 as u32)
}

/// The handshake: the session token, length-prefixed, sent once when the
/// client connects.
pub open spec fn handshake_wf(token: Seq<u8>) -> bool {
    token.len() <= u32::MAX
}

/// The encoding of the handshake for `token`.
pub open spec fn handshake_bytes(token: Seq<u8>) -> Seq<u8> {
    be32(token.len() as u32) + token
}

/// Parse the handshake off the front of `s`: the presented token and how
/// many bytes it took.
pub open spec fn parse_handshake_spec(s: Seq<u8>) -> Option<(Seq<u8>, int)> {
    if s.len() < 4 {
        None
    } else {
        let n = be32_val(s[0], s[1], s[2], s[3]) as int;
        if s.len() < 4 + n {
            None
        } else {
            Some((s.subrange(4, 4 + n), 4 + n))
        }
    }
}

/// Round trip: an encoded handshake followed by anything parses back to
/// exactly the token that was sent.
pub proof fn lemma_handshake_round_trip(token: Seq<u8>, rest: Seq<u8>)
    requires
        handshake_wf(token),
    ensures
        parse_handshake_spec(handshake_bytes(token) + rest) == Some(
            (token, handshake_bytes(token).len() as int),
        ),
{
    let s = handshake_bytes(token) + rest;
    let len32 = token.len() as u32;
    assert(s[0] == be32(len32)[0] && s[1] == be32(len32)[1] && s[2] == be32(len32)[2] && s[3]
        == be32(len32)[3]);
    lemma_be32_round_trip(len32);
    let n = be32_val(s[0], s[1], s[2], s[3]) as int;
    assert(n == token.len());
    assert(s.subrange(4, 4 + n) =~= token);
    assert(handshake_bytes(token).len() == 4 + n);
}

/// Encode the handshake for `token`.
pub fn encode_handshake(token: &Vec<u8>) -> (r: Vec<u8>)
    requires
        handshake_wf(token@),
    ensures
        r@ == handshake_bytes(token@),
{
    let n: u32 = token.len() as u32;
    let mut v: Vec<u8> = Vec::new();
    v.push(#[verifier::truncate] ((n >> 24) as u8));
    v.push(#[verifier::truncate] ((n >> 16) as u8));
    v.push(#[verifier::truncate] ((n >> 8) as u8));
    v.push(#[verifier::truncate] (n as u8));
    let mut i: usize = 0;
    while i < token.len()
        invariant
            0 <= i <= token@.len(),
            v@ == be32(token@.len() as u32) + token@.take(i as int),
        decreases token@.len() - i,
    {
        v.push(token[i]);
        proof {
            assert(v@ =~= be32(token@.len() as u32) + token@.take(i + 1));
        }
        i = i + 1;
    }
    proof {
        assert(token@.take(token@.len() as int) =~= token@);
        assert(v@ =~= handshake_bytes(token@));
    }
    v
}

/// Parse the handshake from `buf` at offset `start`.
pub fn parse_handshake(buf: &Vec<u8>, start: usize) -> (r: Option<(Vec<u8>, usize)>)
    requires
        start <= buf@.len(),
    ensures
        (match r {
            None => parse_handshake_spec(buf@.skip(start as int)) is None,
            Some((token, used)) => parse_handshake_spec(buf@.skip(start as int)) == Some(
                (token@, used as int),
            ),
        }),
{
    let ghost s = buf@.skip(start as int);
    proof {
        assert(forall|j: int| 0 <= j < s.len() ==> s[j] == buf@[start + j]);
    }
    let avail: usize = buf.len() - start;
    if avail < 4 {
        return None;
    }
    let n32: u32 = be32_val_exec(buf[start], buf[start + 1], buf[start + 2], buf[start + 3]);
    let n: usize = n32 as usize;
    if avail - 4 < n {
        return None;
    }
    let buf_len: usize = buf.len();
    let mut token: Vec<u8> = Vec::new();
    let mut i: usize = 0;
    while i < n
        invariant
            0 <= i <= n,
            buf_len == buf@.len(),
            start + 4 + n <= buf@.len(),
            n == be32_val(s[0], s[1], s[2], s[3]) as int,
            s == buf@.skip(start as int),
            s.len() == buf@.len() - start,
            forall|j: int| 0 <= j < s.len() ==> s[j] == buf@[start + j],
            token@ == s.subrange(4, 4 + i),
        decreases n - i,
    {
        token.push(buf[start + 4 + i]);
        proof {
            assert(token@ =~= s.subrange(4, 4 + i + 1));
        }
        i = i + 1;
    }
    proof {
        assert(s.subrange(4, 4 + n) =~= token@);
    }
    Some((token, 4 + n))
}

} // verus!
