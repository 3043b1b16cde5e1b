use vstd::prelude::*;

use crate::error::Error;
use crate::wire::{
    be_i64, be_u64, decoded_text, i64_be, lemma_i64_be_round_trip, lemma_u64_be_round_trip,
    put_i64_be, put_u64_be, read_i64_be, read_u64_be, u64_be, utf8_lossy,
};
use vstd::slice::slice_subrange;
use vstd::utf8::encode_utf8;

verus! {

broadcast use vstd::slice::group_slice_axioms, vstd::utf8::encode_utf8_valid_utf8, vstd::utf8::encode_utf8_decode_utf8;

/// Tag bytes of the server-to-client frames: `<`, `u`, `q`, `o`, `e`, `a`.
pub const TAG_C_MSG: u8 = 60;

pub const TAG_C_UPDATE: u8 = 117;

pub const TAG_C_QUIT: u8 = 113;

pub const TAG_C_OK: u8 = 111;

pub const TAG_C_ERR: u8 = 101;

pub const TAG_C_AUTH: u8 = 97;

/// Tag bytes of the client-to-server frames: `>`, `l`, `p`, `?`.
pub const TAG_S_MSG: u8 = 62;

pub const TAG_S_LOGIN: u8 = 108;

pub const TAG_S_PULL: u8 = 112;

pub const TAG_S_BEAT: u8 = 63;

/// The outcome of checking the unconsumed bytes for one complete frame:
/// `Ready(n)` means the first `n` bytes hold a whole frame, `Incomplete`
/// means more bytes are needed, and `Invalid` carries an unrecognized tag.
pub enum FrameCheck {
    Ready(int),
    Incomplete,
    Invalid(u8),
}

/// Reads one byte at `*pos` and advances, or reports `Incomplete` without
/// moving when the buffer is exhausted.
pub fn get_u8(src: &[u8], pos: &mut usize) -> (r: Result<u8, Error>)
    requires
        *old(pos) <= src@.len(),
    ensures
        *old(pos) < src@.len() ==> (r == Ok::<u8, Error>(src@[*old(pos) as int]) && *final(pos)
            == *old(pos) + 1),
        *old(pos) == src@.len() ==> (r == Err::<u8, Error>(Error::Incomplete) && *final(pos)
            == *old(pos)),
{
    if *pos < src.len() {
        let b = src[*pos];
        *pos = *pos + 1;
        Ok(b)
    } else {
        Err(Error::Incomplete)
    }
}

/// Advances `*pos` by `n` bytes, or reports `Incomplete` without moving when
/// fewer than `n` bytes remain.
pub fn skip(src: &[u8], pos: &mut usize, n: usize) -> (r: Result<(), Error>)
    requires
        *old(pos) <= src@.len(),
    ensures
        src@.len() - *old(pos) >= n ==> (r == Ok::<(), Error>(()) && *final(pos) == *old(pos)
            + n),
        src@.len() - *old(pos) < n ==> (r == Err::<(), Error>(Error::Incomplete) && *final(pos)
            == *old(pos)),
{
    if src.len() - *pos < n {
        Err(Error::Incomplete)
    } else {
        *pos = *pos + n;
        Ok(())
    }
}

/// One self-delimiting frame family of the wire protocol: a tag byte, then
/// fixed-width big-endian fields, then for payload-bearing frames an 8-byte
/// length followed by that many raw bytes.
///
/// The two-phase decode contract: `check` never consumes past bytes it
/// cannot fully validate, and `parse` is infallible once `check` has seen a
/// whole frame.
pub trait FrameMsg: View + Sized {
    /// A frame value whose stored payload length agrees with the byte
    /// length of its text; only such frames encode to a parseable image.
    spec fn wf_frame(v: Self::V) -> bool;

    /// The byte-exact encoding of a frame.
    spec fn enc(v: Self::V) -> Seq<u8>;

    /// What checking a byte sequence for a leading frame yields.
    spec fn spec_check(s: Seq<u8>) -> FrameCheck;

    /// The frame held by the leading bytes of `s`; meaningful when
    /// `spec_check(s)` is `Ready`.
    spec fn spec_parse(s: Seq<u8>) -> Self::V;

    /// A complete frame is at least one byte and never longer than the
    /// checked buffer.
    proof fn lemma_ready_bounds(s: Seq<u8>)
        ensures
            Self::spec_check(s) matches FrameCheck::Ready(n) ==> 1 <= n <= s.len(),
    ;

    /// Round trip: the encoding of a well-formed frame checks out as ready
    /// and parses back to the same frame.
    proof fn lemma_round_trip(v: Self::V)
        requires
            Self::wf_frame(v),
        ensures
            Self::spec_check(Self::enc(v)) == FrameCheck::Ready(Self::enc(v).len() as int),
            Self::spec_parse(Self::enc(v)) == v,
    ;

    /// Truncation: every strict prefix of an encoded frame is incomplete,
    /// so only the full encoding yields `Ready`.
    proof fn lemma_prefix_incomplete(v: Self::V, k: int)
        requires
            Self::wf_frame(v),
            0 <= k < Self::enc(v).len(),
        ensures
            Self::spec_check(Self::enc(v).take(k)) == FrameCheck::Incomplete,
    ;

    /// Extension: bytes that follow a complete frame change neither its
    /// boundary nor its value, so a frame split across reads decodes the
    /// same once the rest arrives.
    proof fn lemma_extension(v: Self::V, rest: Seq<u8>)
        requires
            Self::wf_frame(v),
        ensures
            Self::spec_check(Self::enc(v) + rest) == FrameCheck::Ready(Self::enc(v).len() as int),
            Self::spec_parse(Self::enc(v) + rest) == v,
    ;

    /// Validates that the bytes from `*pos` on begin with one whole frame,
    /// advancing `*pos` past it exactly when they do.
    fn check(src: &[u8], pos: &mut usize) -> (r: Result<(), Error>)
        requires
            *old(pos) <= src@.len(),
        ensures
            match Self::spec_check(src@.skip(*old(pos) as int)) {
                FrameCheck::Ready(n) => r == Ok::<(), Error>(()) && *final(pos) == *old(pos) + n,
                FrameCheck::Incomplete => r == Err::<(), Error>(Error::Incomplete) && *final(pos)
                    == *old(pos),
                FrameCheck::Invalid(b) => r == Err::<(), Error>(Error::Invalid(b)) && *final(pos)
                    == *old(pos),
            },
    ;

    /// Decodes the frame that `check` has validated, advancing `*pos` past
    /// its bytes.
    fn parse(src: &[u8], pos: &mut usize) -> (r: Self)
        requires
            *old(pos) <= src@.len(),
            Self::spec_check(src@.skip(*old(pos) as int)) is Ready,
        ensures
            r@ == Self::spec_parse(src@.skip(*old(pos) as int)),
            Self::spec_check(src@.skip(*old(pos) as int)) matches FrameCheck::Ready(n)
                && *final(pos) == *old(pos) + n,
    ;

    /// Encodes the frame into a fresh byte vector.
    fn to_bytes(&self) -> (r: Vec<u8>)
        ensures
            r@ == Self::enc(self@),
    ;
}

/// Server-to-client frames.
#[derive(Debug, Clone)]
pub enum Msg2C {
    /// A routed chat message: tag `<`, then msg_id, from, ts and len, then
    /// `len` bytes of text.
    Msg { msg_id: u64, from: u64, ts: i64, len: u64, msg: String },
    /// Correlates a client-assigned negative fake id with the
    /// server-assigned id: tag `u`.
    Update { fake_msg_id: i64, real_msg_id: u64 },
    /// Control frames with no payload: tags `q`, `o`, `e`, `a`.
    Quit,
    OkFrame,
    ErrFrame,
    AuthRequired,
}

/// The mathematical image of a server-to-client frame.
#[verifier::ext_equal]
pub enum Msg2CV {
    Msg { msg_id: u64, from: u64, ts: i64, len: u64, msg: Seq<char> },
    Update { fake_msg_id: i64, real_msg_id: u64 },
    Quit,
    OkFrame,
    ErrFrame,
    AuthRequired,
}

impl View for Msg2C {
    type V = Msg2CV;

    open spec fn view(&self) -> Msg2CV {
        match self {
            Msg2C::Msg { msg_id, from, ts, len, msg } => Msg2CV::Msg {
                msg_id: *msg_id,
                from: *from,
                ts: *ts,
                len: *len,
                msg: msg@,
            },
            Msg2C::Update { fake_msg_id, real_msg_id } => Msg2CV::Update {
                fake_msg_id: *fake_msg_id,
                real_msg_id: *real_msg_id,
            },
            Msg2C::Quit => Msg2CV::Quit,
            Msg2C::OkFrame => Msg2CV::OkFrame,
            Msg2C::ErrFrame => Msg2CV::ErrFrame,
            Msg2C::AuthRequired => Msg2CV::AuthRequired,
        }
    }
}

impl PartialEq for Msg2C {
    fn eq(&self, other: &Self) -> (r: bool) {
        match (self, other) {
            (
                Msg2C::Msg { msg_id: a1, from: a2, ts: a3, len: a4, msg: a5 },
                Msg2C::Msg { msg_id: b1, from: b2, ts: b3, len: b4, msg: b5 },
            ) => *a1 == *b1 && *a2 == *b2 && *a3 == *b3 && *a4 == *b4 && *a5 == *b5,
            (
                Msg2C::Update { fake_msg_id: a1, real_msg_id: a2 },
                Msg2C::Update { fake_msg_id: b1, real_msg_id: b2 },
            ) => *a1 == *b1 && *a2 == *b2,
            (Msg2C::Quit, Msg2C::Quit) => true,
            (Msg2C::OkFrame, Msg2C::OkFrame) => true,
            (Msg2C::ErrFrame, Msg2C::ErrFrame) => true,
            (Msg2C::AuthRequired, Msg2C::AuthRequired) => true,
            _ => false,
        }
    }
}

impl vstd::std_specs::cmp::PartialEqSpecImpl for Msg2C {
    open spec fn obeys_eq_spec() -> bool {
        true
    }

    open spec fn eq_spec(&self, other: &Self) -> bool {
        self@ == other@
    }
}

impl FrameMsg for Msg2C {
    open spec fn wf_frame(v: Msg2CV) -> bool {
        v matches Msg2CV::Msg { len, msg, .. } ==> len == encode_utf8(msg).len()
    }

    open spec fn enc(v: Msg2CV) -> Seq<u8> {
        match v {
            Msg2CV::Msg { msg_id, from, ts, len, msg } => seq![TAG_C_MSG] + u64_be(msg_id) + u64_be(
                from,
            ) + i64_be(ts) + u64_be(len) + encode_utf8(msg),
            Msg2CV::Update { fake_msg_id, real_msg_id } => seq![TAG_C_UPDATE] + i64_be(fake_msg_id)
                + u64_be(real_msg_id),
            Msg2CV::Quit => seq![TAG_C_QUIT],
            Msg2CV::OkFrame => seq![TAG_C_OK],
            Msg2CV::ErrFrame => seq![TAG_C_ERR],
            Msg2CV::AuthRequired => seq![TAG_C_AUTH],
        }
    }

    open spec fn spec_check(s: Seq<u8>) -> FrameCheck {
        if s.len() == 0 {
            FrameCheck::Incomplete
        } else if s[0] == TAG_C_MSG {
            if s.len() < 33 {
                FrameCheck::Incomplete
            } else {
                let len = be_u64(s.subrange(25, 33));
                if s.len() < 33 + len {
                    FrameCheck::Incomplete
                } else {
                    FrameCheck::Ready(33 + len)
                }
            }
        } else if s[0] == TAG_C_UPDATE {
            if s.len() < 17 {
                FrameCheck::Incomplete
            } else {
                FrameCheck::Ready(17)
            }
        } else if s[0] == TAG_C_QUIT || s[0] == TAG_C_OK || s[0] == TAG_C_ERR || s[0] == TAG_C_AUTH {
            FrameCheck::Ready(1)
        } else {
            FrameCheck::Invalid(s[0])
        }
    }

    open spec fn spec_parse(s: Seq<u8>) -> Msg2CV {
        if s[0] == TAG_C_MSG {
            let len = be_u64(s.subrange(25, 33));
            Msg2CV::Msg {
                msg_id: be_u64(s.subrange(1, 9)),
                from: be_u64(s.subrange(9, 17)),
                ts: be_i64(s.subrange(17, 25)),
                len: len,
                msg: decoded_text(s.subrange(33, 33 + len)),
            }
        } else if s[0] == TAG_C_UPDATE {
            Msg2CV::Update {
                fake_msg_id: be_i64(s.subrange(1, 9)),
                real_msg_id: be_u64(s.subrange(9, 17)),
            }
        } else if s[0] == TAG_C_QUIT {
            Msg2CV::Quit
        } else if s[0] == TAG_C_OK {
            Msg2CV::OkFrame
        } else if s[0] == TAG_C_ERR {
            Msg2CV::ErrFrame
        } else {
            Msg2CV::AuthRequired
        }
    }

    proof fn lemma_ready_bounds(s: Seq<u8>) {
    }

    proof fn lemma_round_trip(v: Msg2CV) {
        let e = Self::enc(v);
        match v {
            Msg2CV::Msg { msg_id, from, ts, len, msg } => {
                let p = encode_utf8(msg);
                assert(e.len() == 33 + p.len());
                assert(e[0] == TAG_C_MSG);
                assert(e.subrange(1, 9) =~= u64_be(msg_id));
                assert(e.subrange(9, 17) =~= u64_be(from));
                assert(e.subrange(17, 25) =~= i64_be(ts));
                assert(e.subrange(25, 33) =~= u64_be(len));
                lemma_u64_be_round_trip(msg_id);
                lemma_u64_be_round_trip(from);
                lemma_i64_be_round_trip(ts);
                lemma_u64_be_round_trip(len);
                assert(e.subrange(33, 33 + len) =~= p);
            },
            Msg2CV::Update { fake_msg_id, real_msg_id } => {
                assert(e.len() == 17);
                assert(e[0] == TAG_C_UPDATE);
                assert(e.subrange(1, 9) =~= i64_be(fake_msg_id));
                assert(e.subrange(9, 17) =~= u64_be(real_msg_id));
                lemma_i64_be_round_trip(fake_msg_id);
                lemma_u64_be_round_trip(real_msg_id);
            },
            _ => {
                assert(e.len() == 1);
            },
        }
    }

    proof fn lemma_prefix_incomplete(v: Msg2CV, k: int) {
        let e = Self::enc(v);
        let t = e.take(k);
        if k == 0 {
        } else {
            match v {
                Msg2CV::Msg { msg_id, from, ts, len, msg } => {
                    let p = encode_utf8(msg);
                    assert(e.len() == 33 + p.len());
                    assert(t[0] == TAG_C_MSG);
                    if k >= 33 {
                        assert(t.subrange(25, 33) =~= e.subrange(25, 33));
                        assert(e.subrange(25, 33) =~= u64_be(len));
                        lemma_u64_be_round_trip(len);
                        assert(t.len() < 33 + len);
                    }
                },
                Msg2CV::Update { .. } => {
                    assert(e.len() == 17);
                    assert(t[0] == TAG_C_UPDATE);
                    assert(t.len() < 17);
                },
                _ => {
                    assert(e.len() == 1);
                },
            }
        }
    }

    proof fn lemma_extension(v: Msg2CV, rest: Seq<u8>) {
        let e = Self::enc(v);
        let s = e + rest;
        Self::lemma_round_trip(v);
        match v {
            Msg2CV::Msg { msg_id, from, ts, len, msg } => {
                let p = encode_utf8(msg);
                assert(e.len() == 33 + p.len());
                assert(s[0] == TAG_C_MSG);
                assert(s.subrange(1, 9) =~= e.subrange(1, 9));
                assert(s.subrange(9, 17) =~= e.subrange(9, 17));
                assert(s.subrange(17, 25) =~= e.subrange(17, 25));
                assert(s.subrange(25, 33) =~= e.subrange(25, 33));
                assert(s.subrange(33, 33 + len) =~= e.subrange(33, 33 + len));
            },
            Msg2CV::Update { .. } => {
                assert(s[0] == TAG_C_UPDATE);
                assert(s.subrange(1, 9) =~= e.subrange(1, 9));
                assert(s.subrange(9, 17) =~= e.subrange(9, 17));
            },
            _ => {
                assert(s[0] == e[0]);
            },
        }
    }

    fn check(src: &[u8], pos: &mut usize) -> (r: Result<(), Error>) {
        let ghost s = src@.skip(*old(pos) as int);
        let mut p: usize = *pos;
        let tag = match get_u8(src, &mut p) {
            Ok(t) => t,
            Err(e) => {
                return Err(e);
            },
        };
        assert(tag == s[0]);
        if tag == TAG_C_MSG {
            if src.len() - p < 32 {
                return Err(Error::Incomplete);
            }
            let len_pos = p + 24;
            let len = read_u64_be(src, len_pos);
            proof {
                assert(s.subrange(25, 33) =~= src@.subrange(len_pos as int, len_pos + 8));
            }
            let after = len_pos + 8;
            let rem = src.len() - after;
            if (rem as u64) < len {
                return Err(Error::Incomplete);
            }
            *pos = after + (len as usize);
            Ok(())
        } else if tag == TAG_C_UPDATE {
            match skip(src, &mut p, 16) {
                Ok(()) => {
                    *pos = p;
                    Ok(())
                },
                Err(e) => Err(e),
            }
        } else if tag == TAG_C_QUIT || tag == TAG_C_OK || tag == TAG_C_ERR || tag == TAG_C_AUTH {
            *pos = p;
            Ok(())
        } else {
            Err(Error::Invalid(tag))
        }
    }

    fn parse(src: &[u8], pos: &mut usize) -> (r: Self) {
        let ghost s = src@.skip(*old(pos) as int);
        let mut p: usize = *pos;
        let tag = match get_u8(src, &mut p) {
            Ok(t) => t,
            Err(_) => {
                return vstd::pervasive::unreached();
            },
        };
        let n = src.len();
        assert(tag == s[0]);
        if tag == TAG_C_MSG {
            proof {
                assert(s.len() >= 33);
                assert(p + 32 <= n);
                assert(33 + be_u64(s.subrange(25, 33)) <= s.len());
                assert(s.subrange(1, 9) =~= src@.subrange(p as int, p + 8));
                assert(s.subrange(9, 17) =~= src@.subrange(p + 8, p + 16));
                assert(s.subrange(17, 25) =~= src@.subrange(p + 16, p + 24));
                assert(s.subrange(25, 33) =~= src@.subrange(p + 24, p + 32));
            }
            let msg_id = read_u64_be(src, p);
            let from = read_u64_be(src, p + 8);
            let ts = read_i64_be(src, p + 16);
            let len = read_u64_be(src, p + 24);
            let start = p + 32;
            let end = start + (len as usize);
            let payload = slice_subrange(src, start, end);
            proof {
                assert(s.subrange(33, 33 + len) =~= src@.subrange(start as int, end as int));
            }
            let msg = utf8_lossy(payload);
            *pos = end;
            Msg2C::Msg { msg_id, from, ts, len, msg }
        } else if tag == TAG_C_UPDATE {
            proof {
                assert(s.len() >= 17);
                assert(s.subrange(1, 9) =~= src@.subrange(p as int, p + 8));
                assert(s.subrange(9, 17) =~= src@.subrange(p + 8, p + 16));
            }
            let fake_msg_id = read_i64_be(src, p);
            let real_msg_id = read_u64_be(src, p + 8);
            *pos = p + 16;
            Msg2C::Update { fake_msg_id, real_msg_id }
        } else if tag == TAG_C_QUIT {
            *pos = p;
            Msg2C::Quit
        } else if tag == TAG_C_OK {
            *pos = p;
            Msg2C::OkFrame
        } else if tag == TAG_C_ERR {
            *pos = p;
            Msg2C::ErrFrame
        } else if tag == TAG_C_AUTH {
            *pos = p;
            Msg2C::AuthRequired
        } else {
            vstd::pervasive::unreached()
        }
    }

    fn to_bytes(&self) -> (r: Vec<u8>) {
        let mut res: Vec<u8> = Vec::new();
        match self {
            Msg2C::Msg { msg_id, from, ts, len, msg } => {
                res.push(TAG_C_MSG);
                put_u64_be(&mut res, *msg_id);
                put_u64_be(&mut res, *from);
                put_i64_be(&mut res, *ts);
                put_u64_be(&mut res, *len);
                res.extend_from_slice(msg.as_str().as_bytes());
            },
            Msg2C::Update { fake_msg_id, real_msg_id } => {
                res.push(TAG_C_UPDATE);
                put_i64_be(&mut res, *fake_msg_id);
                put_u64_be(&mut res, *real_msg_id);
            },
            Msg2C::Quit => {
                res.push(TAG_C_QUIT);
            },
            Msg2C::OkFrame => {
                res.push(TAG_C_OK);
            },
            Msg2C::ErrFrame => {
                res.push(TAG_C_ERR);
            },
            Msg2C::AuthRequired => {
                res.push(TAG_C_AUTH);
            },
        }
        proof {
            assert(res@ =~= Self::enc(self@));
        }
        res
    }
}

/// Client-to-server frames.
#[derive(Debug, Clone)]
pub enum Msg2S {
    /// An outgoing chat message: tag `>`, then the client-assigned negative
    /// fake id, the recipient id and len, then `len` bytes of text.
    Msg { fake_msg_id: i64, to: u64, len: u64, msg: String },
    /// An unauthenticated identity claim: tag `l`.
    Login { user_id: u64 },
    /// Requests delivery of mailbox contents: tag `p`.
    Pull,
    /// A no-op keepalive, accepted and discarded: tag `?`.
    Beat,
}

/// The mathematical image of a client-to-server frame.
#[verifier::ext_equal]
pub enum Msg2SV {
    Msg { fake_msg_id: i64, to: u64, len: u64, msg: Seq<char> },
    Login { user_id: u64 },
    Pull,
    Beat,
}

impl View for Msg2S {
    type V = Msg2SV;

    open spec fn view(&self) -> Msg2SV {
        match self {
            Msg2S::Msg { fake_msg_id, to, len, msg } => Msg2SV::Msg {
                fake_msg_id: *fake_msg_id,
                to: *to,
                len: *len,
                msg: msg@,
            },
            Msg2S::Login { user_id } => Msg2SV::Login { user_id: *user_id },
            Msg2S::Pull => Msg2SV::Pull,
            Msg2S::Beat => Msg2SV::Beat,
        }
    }
}

impl PartialEq for Msg2S {
    fn eq(&self, other: &Self) -> (r: bool) {
        match (self, other) {
            (
                Msg2S::Msg { fake_msg_id: a1, to: a2, len: a3, msg: a4 },
                Msg2S::Msg { fake_msg_id: b1, to: b2, len: b3, msg: b4 },
            ) => *a1 == *b1 && *a2 == *b2 && *a3 == *b3 && *a4 == *b4,
            (Msg2S::Login { user_id: a1 }, Msg2S::Login { user_id: b1 }) => *a1 == *b1,
            (Msg2S::Pull, Msg2S::Pull) => true,
            (Msg2S::Beat, Msg2S::Beat) => true,
            _ => false,
        }
    }
}

impl vstd::std_specs::cmp::PartialEqSpecImpl for Msg2S {
    open spec fn obeys_eq_spec() -> bool {
        true
    }

    open spec fn eq_spec(&self, other: &Self) -> bool {
        self@ == other@
    }
}

impl FrameMsg for Msg2S {
    open spec fn wf_frame(v: Msg2SV) -> bool {
        v matches Msg2SV::Msg { len, msg, .. } ==> len == encode_utf8(msg).len()
    }

    open spec fn enc(v: Msg2SV) -> Seq<u8> {
        match v {
            Msg2SV::Msg { fake_msg_id, to, len, msg } => seq![TAG_S_MSG] + i64_be(fake_msg_id)
                + u64_be(to) + u64_be(len) + encode_utf8(msg),
            Msg2SV::Login { user_id } => seq![TAG_S_LOGIN] + u64_be(user_id),
            Msg2SV::Pull => seq![TAG_S_PULL],
            Msg2SV::Beat => seq![TAG_S_BEAT],
        }
    }

    open spec fn spec_check(s: Seq<u8>) -> FrameCheck {
        if s.len() == 0 {
            FrameCheck::Incomplete
        } else if s[0] == TAG_S_MSG {
            if s.len() < 25 {
                FrameCheck::Incomplete
            } else {
                let len = be_u64(s.subrange(17, 25));
                if s.len() < 25 + len {
                    FrameCheck::Incomplete
                } else {
                    FrameCheck::Ready(25 + len)
                }
            }
        } else if s[0] == TAG_S_LOGIN {
            if s.len() < 9 {
                FrameCheck::Incomplete
            } else {
                FrameCheck::Ready(9)
            }
        } else if s[0] == TAG_S_PULL || s[0] == TAG_S_BEAT {
            FrameCheck::Ready(1)
        } else {
            FrameCheck::Invalid(s[0])
        }
    }

    open spec fn spec_parse(s: Seq<u8>) -> Msg2SV {
        if s[0] == TAG_S_MSG {
            let len = be_u64(s.subrange(17, 25));
            Msg2SV::Msg {
                fake_msg_id: be_i64(s.subrange(1, 9)),
                to: be_u64(s.subrange(9, 17)),
                len: len,
                msg: decoded_text(s.subrange(25, 25 + len)),
            }
        } else if s[0] == TAG_S_LOGIN {
            Msg2SV::Login { user_id: be_u64(s.subrange(1, 9)) }
        } else if s[0] == TAG_S_PULL {
            Msg2SV::Pull
        } else {
            Msg2SV::Beat
        }
    }

    proof fn lemma_ready_bounds(s: Seq<u8>) {
    }

    proof fn lemma_round_trip(v: Msg2SV) {
        let e = Self::enc(v);
        match v {
            Msg2SV::Msg { fake_msg_id, to, len, msg } => {
                let p = encode_utf8(msg);
                assert(e.len() == 25 + p.len());
                assert(e[0] == TAG_S_MSG);
                assert(e.subrange(1, 9) =~= i64_be(fake_msg_id));
                assert(e.subrange(9, 17) =~= u64_be(to));
                assert(e.subrange(17, 25) =~= u64_be(len));
                lemma_i64_be_round_trip(fake_msg_id);
                lemma_u64_be_round_trip(to);
                lemma_u64_be_round_trip(len);
                assert(e.subrange(25, 25 + len) =~= p);
            },
            Msg2SV::Login { user_id } => {
                assert(e.len() == 9);
                assert(e[0] == TAG_S_LOGIN);
                assert(e.subrange(1, 9) =~= u64_be(user_id));
                lemma_u64_be_round_trip(user_id);
            },
            _ => {
                assert(e.len() == 1);
            },
        }
    }

    proof fn lemma_prefix_incomplete(v: Msg2SV, k: int) {
        let e = Self::enc(v);
        let t = e.take(k);
        if k == 0 {
        } else {
            match v {
                Msg2SV::Msg { fake_msg_id, to, len, msg } => {
                    let p = encode_utf8(msg);
                    assert(e.len() == 25 + p.len());
                    assert(t[0] == TAG_S_MSG);
                    if k >= 25 {
                        assert(t.subrange(17, 25) =~= e.subrange(17, 25));
                        assert(e.subrange(17, 25) =~= u64_be(len));
                        lemma_u64_be_round_trip(len);
                        assert(t.len() < 25 + len);
                    }
                },
                Msg2SV::Login { .. } => {
                    assert(e.len() == 9);
                    assert(t[0] == TAG_S_LOGIN);
                    assert(t.len() < 9);
                },
                _ => {
                    assert(e.len() == 1);
                },
            }
        }
    }

    proof fn lemma_extension(v: Msg2SV, rest: Seq<u8>) {
        let e = Self::enc(v);
        let s = e + rest;
        Self::lemma_round_trip(v);
        match v {
            Msg2SV::Msg { fake_msg_id, to, len, msg } => {
                let p = encode_utf8(msg);
                assert(e.len() == 25 + p.len());
                assert(s[0] == TAG_S_MSG);
                assert(s.subrange(1, 9) =~= e.subrange(1, 9));
                assert(s.subrange(9, 17) =~= e.subrange(9, 17));
                assert(s.subrange(17, 25) =~= e.subrange(17, 25));
                assert(s.subrange(25, 25 + len) =~= e.subrange(25, 25 + len));
            },
            Msg2SV::Login { .. } => {
                assert(s[0] == TAG_S_LOGIN);
                assert(s.subrange(1, 9) =~= e.subrange(1, 9));
            },
            _ => {
                assert(s[0] == e[0]);
            },
        }
    }

    fn check(src: &[u8], pos: &mut usize) -> (r: Result<(), Error>) {
        let ghost s = src@.skip(*old(pos) as int);
        let mut p: usize = *pos;
        let tag = match get_u8(src, &mut p) {
            Ok(t) => t,
            Err(e) => {
                return Err(e);
            },
        };
        assert(tag == s[0]);
        if tag == TAG_S_MSG {
            if src.len() - p < 24 {
                return Err(Error::Incomplete);
            }
            let len_pos = p + 16;
            let len = read_u64_be(src, len_pos);
            proof {
                assert(s.subrange(17, 25) =~= src@.subrange(len_pos as int, len_pos + 8));
            }
            let after = len_pos + 8;
            let rem = src.len() - after;
            if (rem as u64) < len {
                return Err(Error::Incomplete);
            }
            *pos = after + (len as usize);
            Ok(())
        } else if tag == TAG_S_LOGIN {
            match skip(src, &mut p, 8) {
                Ok(()) => {
                    *pos = p;
                    Ok(())
                },
                Err(e) => Err(e),
            }
        } else if tag == TAG_S_PULL || tag == TAG_S_BEAT {
            *pos = p;
            Ok(())
        } else {
            Err(Error::Invalid(tag))
        }
    }

    fn parse(src: &[u8], pos: &mut usize) -> (r: Self) {
        let ghost s = src@.skip(*old(pos) as int);
        let mut p: usize = *pos;
        let tag = match get_u8(src, &mut p) {
            Ok(t) => t,
            Err(_) => {
                return vstd::pervasive::unreached();
            },
        };
        let n = src.len();
        assert(tag == s[0]);
        if tag == TAG_S_MSG {
            proof {
                assert(s.len() >= 25);
                assert(p + 24 <= n);
                assert(25 + be_u64(s.subrange(17, 25)) <= s.len());
                assert(s.subrange(1, 9) =~= src@.subrange(p as int, p + 8));
                assert(s.subrange(9, 17) =~= src@.subrange(p + 8, p + 16));
                assert(s.subrange(17, 25) =~= src@.subrange(p + 16, p + 24));
            }
            let fake_msg_id = read_i64_be(src, p);
            let to = read_u64_be(src, p + 8);
            let len = read_u64_be(src, p + 16);
            let start = p + 24;
            let end = start + (len as usize);
            let payload = slice_subrange(src, start, end);
            proof {
                assert(s.subrange(25, 25 + len) =~= src@.subrange(start as int, end as int));
            }
            let msg = utf8_lossy(payload);
            *pos = end;
            Msg2S::Msg { fake_msg_id, to, len, msg }
        } else if tag == TAG_S_LOGIN {
            proof {
                assert(s.len() >= 9);
                assert(s.subrange(1, 9) =~= src@.subrange(p as int, p + 8));
            }
            let user_id = read_u64_be(src, p);
            *pos = p + 8;
            Msg2S::Login { user_id }
        } else if tag == TAG_S_PULL {
            *pos = p;
            Msg2S::Pull
        } else if tag == TAG_S_BEAT {
            *pos = p;
            Msg2S::Beat
        } else {
            vstd::pervasive::unreached()
        }
    }

    fn to_bytes(&self) -> (r: Vec<u8>) {
        let mut res: Vec<u8> = Vec::new();
        match self {
            Msg2S::Msg { fake_msg_id, to, len, msg } => {
                res.push(TAG_S_MSG);
                put_i64_be(&mut res, *fake_msg_id);
                put_u64_be(&mut res, *to);
                put_u64_be(&mut res, *len);
                res.extend_from_slice(msg.as_str().as_bytes());
            },
            Msg2S::Login { user_id } => {
                res.push(TAG_S_LOGIN);
                put_u64_be(&mut res, *user_id);
            },
            Msg2S::Pull => {
                res.push(TAG_S_PULL);
            },
            Msg2S::Beat => {
                res.push(TAG_S_BEAT);
            },
        }
        proof {
            assert(res@ =~= Self::enc(self@));
        }
        res
    }
}

/// The tag bytes that the server-to-client family recognizes.
pub open spec fn is_c_tag(b: u8) -> bool {
    b == TAG_C_MSG || b == TAG_C_UPDATE || b == TAG_C_QUIT || b == TAG_C_OK || b == TAG_C_ERR
        || b == TAG_C_AUTH
}

/// The tag bytes that the client-to-server family recognizes.
pub open spec fn is_s_tag(b: u8) -> bool {
    b == TAG_S_MSG || b == TAG_S_LOGIN || b == TAG_S_PULL || b == TAG_S_BEAT
}

/// Invalid tag: a non-empty buffer whose first byte is not a recognized
/// server-to-client tag is rejected as `Invalid` with that byte, never as
/// `Incomplete`.
pub proof fn lemma_invalid_tag_c(s: Seq<u8>)
    requires
        s.len() > 0,
        !is_c_tag(s[0]),
    ensures
        <Msg2C as FrameMsg>::spec_check(s) == FrameCheck::Invalid(s[0]),
{
}

/// Invalid tag: a non-empty buffer whose first byte is not a recognized
/// client-to-server tag is rejected as `Invalid` with that byte, never as
/// `Incomplete`.
pub proof fn lemma_invalid_tag_s(s: Seq<u8>)
    requires
        s.len() > 0,
        !is_s_tag(s[0]),
    ensures
        <Msg2S as FrameMsg>::spec_check(s) == FrameCheck::Invalid(s[0]),
{
}

/// Partial-delivery robustness: the encoded bytes of a well-formed frame,
/// split at any byte boundary, decode to the same frame as a single read.
/// The first part alone is incomplete and consumes nothing, and the whole
/// encoding, with any bytes following it, checks out at the same boundary
/// and parses to the same frame.
pub proof fn lemma_partial_delivery<T: FrameMsg>(v: T::V, k: int, rest: Seq<u8>)
    requires
        T::wf_frame(v),
        0 <= k < T::enc(v).len(),
    ensures
        T::spec_check(T::enc(v).take(k)) == FrameCheck::Incomplete,
        T::spec_check(T::enc(v) + rest) == FrameCheck::Ready(T::enc(v).len() as int),
        T::spec_parse(T::enc(v) + rest) == v,
{
    T::lemma_prefix_incomplete(v, k);
    T::lemma_extension(v, rest);
}

} // verus!
