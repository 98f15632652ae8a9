//! Wire codec of the collaboration relay. A text frame has the shape
//! `"<note_id>:<content>"`: the canonical form of the note identifier, the
//! first colon as delimiter, then the raw content bytes. A frame without a
//! colon, or whose prefix is not a parsable identifier, carries no message.

use vstd::prelude::*;
use vstd::slice::{slice_subrange, slice_to_vec};
use crate::models::clone_bytes;

verus! {

/// The colon delimiter, as a byte.
pub const DELIM: u8 = 58;

/// Mathematical model of a [`WsMessage`].
pub ghost struct MsgView {
    pub note_id: u128,
    pub content: Seq<u8>,
}

/// The one payload shape the relay carries: a full-content replacement for
/// one note, not a diff.
pub enum WsMessage {
    Sync { note_id: u128, content: Vec<u8> },
}

impl View for WsMessage {
    type V = MsgView;

    open spec fn view(&self) -> MsgView {
        match self {
            WsMessage::Sync { note_id, content } => MsgView {
                note_id: *note_id,
                content: content@,
            },
        }
    }
}

impl WsMessage {
    /// Copies a message; the copy has the same view.
    pub fn duplicate(&self) -> (r: WsMessage)
        ensures
            r@ == self@,
    {
        match self {
            WsMessage::Sync { note_id, content } => WsMessage::Sync {
                note_id: *note_id,
                content: clone_bytes(content),
            },
        }
    }

    /// The note this message is addressed to.
    pub fn note_id(&self) -> (r: u128)
        ensures
            r == self@.note_id,
    {
        match self {
            WsMessage::Sync { note_id, .. } => *note_id,
        }
    }
}

/// What an identifier text parses to, if anything. The value is a function
/// of the bytes alone.
pub uninterp spec fn uuid_of_bytes(s: Seq<u8>) -> Option<u128>;

/// The canonical text form of an identifier value.
pub uninterp spec fn uuid_canonical(v: u128) -> Seq<u8>;

/// Relies on uuid::Uuid::parse_str (and Uuid::as_u128): whether a string
/// parses, and to which value, depends on the string alone.
#[verifier::external_body]
fn parse_uuid_bytes(s: &[u8]) -> (r: Option<u128>)
    ensures
        r == uuid_of_bytes(s@),
{
    match core::str::from_utf8(s) {
        Ok(t) => match uuid::Uuid::parse_str(t) {
            Ok(u) => Some(u.as_u128()),
            Err(_) => None,
        },
        Err(_) => None,
    }
}

/// Relies on uuid::Uuid::from_u128 and the hyphenated display form: 36 ASCII
/// bytes (hex digits and hyphens, never a colon), determined by the value
/// alone; uuid::Uuid::parse_str parses that form back to the same value.
#[verifier::external_body]
fn format_uuid(v: u128) -> (r: Vec<u8>)
    ensures
        r@ == uuid_canonical(v),
        r@.len() == 36,
        forall|i: int| 0 <= i < r@.len() ==> r@[i] != DELIM,
        uuid_of_bytes(r@) == Some(v),
{
    uuid::Uuid::from_u128(v).to_string().into_bytes()
}

/// Relies on uuid::Uuid::new_v4: a fresh identifier drawn from OS
/// randomness; nothing is promised of its value.
#[verifier::external_body]
pub fn fresh_id() -> (r: u128) {
    uuid::Uuid::new_v4().as_u128()
}

/// Position of the first colon in a frame, or -1 when there is none.
pub open spec fn first_colon(s: Seq<u8>) -> int
    decreases s.len(),
{
    if s.len() == 0 {
        -1
    } else if s[0] == DELIM {
        0
    } else {
        let r = first_colon(s.drop_first());
        if r == -1 {
            -1
        } else {
            r + 1
        }
    }
}

proof fn lemma_first_colon_at(s: Seq<u8>, i: int)
    requires
        0 <= i < s.len(),
        s[i] == DELIM,
        forall|j: int| 0 <= j < i ==> s[j] != DELIM,
    ensures
        first_colon(s) == i,
    decreases i,
{
    if i > 0 {
        lemma_first_colon_at(s.drop_first(), i - 1);
    }
}

proof fn lemma_no_colon(s: Seq<u8>)
    requires
        forall|j: int| 0 <= j < s.len() ==> s[j] != DELIM,
    ensures
        first_colon(s) == -1,
    decreases s.len(),
{
    if s.len() > 0 {
        lemma_no_colon(s.drop_first());
    }
}

/// The message a text frame carries: the frame is split at its first colon,
/// the prefix must parse as an identifier, and the rest is the content.
/// `None` when there is no colon or the prefix does not parse.
pub open spec fn frame_msg(s: Seq<u8>) -> Option<MsgView> {
    let p = first_colon(s);
    if p < 0 {
        Option::None
    } else {
        match uuid_of_bytes(s.take(p)) {
            Option::Some(v) => Option::Some(MsgView { note_id: v, content: s.skip(p + 1) }),
            Option::None => Option::None,
        }
    }
}

/// The frame that carries a message: canonical identifier, one colon, then
/// the raw content.
pub open spec fn frame_bytes(m: MsgView) -> Seq<u8> {
    uuid_canonical(m.note_id) + seq![DELIM] + m.content
}

/// Parses one inbound text frame. Returns exactly the message of
/// [`frame_msg`]; a malformed frame (no delimiter, or a prefix that is not a
/// parsable identifier) yields `None`.
pub fn parse_frame(frame: &[u8]) -> (r: Option<WsMessage>)
    ensures
        r matches Some(m) ==> frame_msg(frame@) == Some(m@),
        r is None ==> frame_msg(frame@) is None,
{
    let n = frame.len();
    let mut i: usize = 0;
    while i < n && frame[i] != DELIM
        invariant
            i <= n == frame@.len(),
            forall|j: int| 0 <= j < i ==> frame@[j] != DELIM,
        decreases n - i,
    {
        i += 1;
    }
    if i == n {
        proof {
            lemma_no_colon(frame@);
        }
        return None;
    }
    proof {
        lemma_first_colon_at(frame@, i as int);
    }
    let head = slice_subrange(frame, 0, i);
    proof {
        assert(head@ =~= frame@.take(i as int));
    }
    match parse_uuid_bytes(head) {
        None => None,
        Some(v) => {
            let content = slice_to_vec(slice_subrange(frame, i + 1, n));
            proof {
                assert(content@ =~= frame@.skip(i + 1));
            }
            Some(WsMessage::Sync { note_id: v, content })
        },
    }
}

/// Encodes a message as a text frame. The result is the canonical frame for
/// the message, and parsing it yields the message back — so a rebroadcast
/// frame (including the sender's own echo) carries exactly the published
/// content.
pub fn encode_frame(msg: &WsMessage) -> (r: Vec<u8>)
    ensures
        r@ == frame_bytes(msg@),
        frame_msg(r@) == Some(msg@),
{
    match msg {
        WsMessage::Sync { note_id, content } => {
            let mut out = format_uuid(*note_id);
            let ghost idtext = out@;
            out.push(DELIM);
            let mut k: usize = 0;
            while k < content.len()
                invariant
                    k <= content@.len(),
                    out@ == idtext + seq![DELIM] + content@.take(k as int),
                decreases content@.len() - k,
            {
                out.push(content[k]);
                proof {
                    assert(out@ =~= idtext + seq![DELIM] + content@.take(k + 1));
                }
                k += 1;
            }
            proof {
                assert(content@.take(content@.len() as int) =~= content@);
                assert(out@ == frame_bytes(msg@));
                assert(forall|j: int| 0 <= j < 36 ==> out@[j] != DELIM);
                assert(out@[36] == DELIM);
                lemma_first_colon_at(out@, 36);
                assert(out@.take(36) =~= idtext);
                assert(out@.skip(37) =~= content@);
            }
            out
        },
    }
}

} // verus!
