//! Collaboration relay: one logical broadcast topic per note. Every live
//! subscriber of a note observes every publish to that note, in publish
//! order; subscribers of other notes observe nothing. Queues are bounded: a
//! subscriber whose queue is full when a publish arrives is marked lagged
//! and is expected to be disconnected, so a slow client never throttles the
//! rest. Delivery failure or disconnect is local to one session.

use vstd::prelude::*;
use vstd::slice::slice_to_vec;
use crate::frame::{frame_msg, parse_frame, MsgView, WsMessage};

verus! {

/// Mathematical model of a [`Session`].
pub ghost struct SessionView {
    pub session_id: u64,
    pub note_id: u128,
    pub queue: Seq<MsgView>,
    pub lagged: bool,
}

/// One connection's subscription state: the note it is scoped to, the
/// messages queued for delivery to it, and whether its bounded queue has
/// overflowed.
pub struct Session {
    pub session_id: u64,
    pub note_id: u128,
    pub queue: Vec<WsMessage>,
    pub lagged: bool,
}

impl View for Session {
    type V = SessionView;

    open spec fn view(&self) -> SessionView {
        SessionView {
            session_id: self.session_id,
            note_id: self.note_id,
            queue: self.queue@.map_values(|m: WsMessage| m@),
            lagged: self.lagged,
        }
    }
}

/// What one publish does to one session: a live subscriber of the topic with
/// room in its queue receives the message at the end; one with a full queue
/// is marked lagged instead and receives nothing; subscribers of other
/// topics, and sessions already lagged, are untouched.
pub open spec fn publish_one(s: SessionView, topic: u128, content: Seq<u8>, cap: nat) -> SessionView {
    if s.note_id == topic && !s.lagged {
        if s.queue.len() < cap {
            SessionView { queue: s.queue.push(MsgView { note_id: topic, content }), ..s }
        } else {
            SessionView { lagged: true, ..s }
        }
    } else {
        s
    }
}

/// Relation between the relay's sessions before and after one publish:
/// every session observes [`publish_one`], pointwise.
pub open spec fn publish_post(
    pre: Seq<SessionView>,
    post: Seq<SessionView>,
    topic: u128,
    content: Seq<u8>,
    cap: nat,
) -> bool {
    &&& post.len() == pre.len()
    &&& forall|i: int|
        0 <= i < pre.len() ==> post[i] == publish_one(#[trigger] pre[i], topic, content, cap)
}

/// What polling a session for its next outbound message yielded.
pub enum PollReply {
    /// The next queued message, in publish order.
    Message(WsMessage),
    /// Nothing pending.
    Empty,
    /// The session's queue overflowed earlier; the caller must disconnect it.
    Lagged,
    /// No session with that identifier exists.
    Gone,
}

/// In-memory fan-out relay over all live sessions. Session identifiers are
/// allocated from a counter and never reused.
pub struct Relay {
    pub sessions: Vec<Session>,
    pub next_session_id: u64,
    pub capacity: usize,
}

impl Relay {
    /// The views of all live sessions, in registration order.
    pub open spec fn sviews(self) -> Seq<SessionView> {
        self.sessions@.map_values(|s: Session| s@)
    }

    /// Well-formedness: session identifiers are unique and below the
    /// allocation counter, queues respect the bound, and every queued
    /// message is addressed to the note its session is subscribed to.
    pub open spec fn wf(self) -> bool {
        &&& self.capacity >= 1
        &&& forall|i: int, j: int|
            0 <= i < j < self.sviews().len() ==> (#[trigger] self.sviews()[i]).session_id != (
            #[trigger] self.sviews()[j]).session_id
        &&& forall|i: int|
            0 <= i < self.sviews().len() ==> (#[trigger] self.sviews()[i]).session_id
                < self.next_session_id
        &&& forall|i: int|
            0 <= i < self.sviews().len() ==> (#[trigger] self.sviews()[i]).queue.len()
                <= self.capacity
        &&& forall|i: int, k: int|
            0 <= i < self.sviews().len() && 0 <= k < (#[trigger] self.sviews()[i]).queue.len()
                ==> (#[trigger] self.sviews()[i].queue[k]).note_id == self.sviews()[i].note_id
    }

    /// Whether a live session has this identifier.
    pub open spec fn has_session(self, sid: u64) -> bool {
        exists|i: int| 0 <= i < self.sviews().len() && (#[trigger] self.sviews()[i]).session_id == sid
    }

    /// The position of the session with this identifier.
    pub open spec fn session_index(self, sid: u64) -> int {
        choose|i: int| 0 <= i < self.sviews().len() && (#[trigger] self.sviews()[i]).session_id == sid
    }

    /// The view of the session with this identifier.
    pub open spec fn session_at(self, sid: u64) -> SessionView {
        self.sviews()[self.session_index(sid)]
    }

    /// A relay with no sessions and the given per-session queue bound.
    pub fn new(capacity: usize) -> (r: Relay)
        requires
            capacity >= 1,
        ensures
            r.wf(),
            r.sviews() == Seq::<SessionView>::empty(),
            r.capacity == capacity,
            r.next_session_id == 0,
    {
        let r = Relay { sessions: Vec::new(), next_session_id: 0, capacity };
        proof {
            assert(r.sviews() =~= Seq::<SessionView>::empty());
        }
        r
    }

    fn find_session(&self, sid: u64) -> (r: Option<usize>)
        ensures
            match r {
                Some(i) => i < self.sviews().len() && self.sviews()[i as int].session_id == sid,
                None => !self.has_session(sid),
            },
            r is Some <==> self.has_session(sid),
    {
        let mut i: usize = 0;
        while i < self.sessions.len()
            invariant
                i <= self.sessions.len(),
                forall|j: int| 0 <= j < i ==> (#[trigger] self.sviews()[j]).session_id != sid,
            decreases self.sessions.len() - i,
        {
            if self.sessions[i].session_id == sid {
                return Some(i);
            }
            i += 1;
        }
        None
    }

    /// Registers a connection against a note's topic and returns its fresh
    /// session identifier. Fails only when the identifier space is
    /// exhausted. There is no limit on the subscriber count of a note.
    pub fn subscribe(&mut self, note_id: u128) -> (r: Option<u64>)
        requires
            old(self).wf(),
        ensures
            final(self).wf(),
            final(self).capacity == old(self).capacity,
            old(self).next_session_id == u64::MAX ==> (r is None && final(self).sviews()
                == old(self).sviews() && final(self).next_session_id
                == old(self).next_session_id),
            old(self).next_session_id < u64::MAX ==> (r matches Some(sid) && sid
                == old(self).next_session_id && !old(self).has_session(sid) && final(self).sviews()
                == old(self).sviews().push(
                SessionView { session_id: sid, note_id, queue: Seq::empty(), lagged: false },
            ) && final(self).has_session(sid) && final(self).next_session_id
                == old(self).next_session_id + 1),
    {
        if self.next_session_id == u64::MAX {
            return None;
        }
        let sid = self.next_session_id;
        self.next_session_id = self.next_session_id + 1;
        let session = Session { session_id: sid, note_id, queue: Vec::new(), lagged: false };
        let ghost sv = session@;
        self.sessions.push(session);
        proof {
            assert(sv.queue =~= Seq::<MsgView>::empty());
            assert(sv == SessionView { session_id: sid, note_id, queue: Seq::empty(), lagged: false });
            assert(self.sviews() =~= old(self).sviews().push(sv));
            let n = self.sviews().len() - 1;
            assert(self.sviews()[n].session_id == sid);
        }
        Some(sid)
    }

    /// Delivers a message to every current subscriber of the note — the
    /// sender's own session included — as [`publish_one`] describes; no
    /// other session is affected, and a full or missing subscriber never
    /// disturbs delivery to the rest.
    pub fn publish(&mut self, note_id: u128, content: &[u8])
        requires
            old(self).wf(),
        ensures
            final(self).wf(),
            final(self).capacity == old(self).capacity,
            final(self).next_session_id == old(self).next_session_id,
            publish_post(
                old(self).sviews(),
                final(self).sviews(),
                note_id,
                content@,
                old(self).capacity as nat,
            ),
    {
        let n = self.sessions.len();
        let mut i: usize = 0;
        while i < n
            invariant
                n == self.sessions@.len(),
                i <= n,
                self.capacity == old(self).capacity,
                self.capacity >= 1,
                self.next_session_id == old(self).next_session_id,
                old(self).sviews().len() == n,
                forall|k: int| i <= k < n ==> self.sviews()[k] == old(self).sviews()[k],
                forall|k: int|
                    0 <= k < i ==> self.sviews()[k] == publish_one(
                        old(self).sviews()[k],
                        note_id,
                        content@,
                        old(self).capacity as nat,
                    ),
                old(self).wf(),
            decreases n - i,
        {
            let ghost pre = self.sviews();
            let cap = self.capacity;
            let mut s = self.sessions.remove(i);
            let ghost sv = s@;
            if s.note_id == note_id && !s.lagged {
                if s.queue.len() < cap {
                    s.queue.push(WsMessage::Sync { note_id, content: slice_to_vec(content) });
                    proof {
                        assert(s@.queue =~= sv.queue.push(MsgView { note_id, content: content@ }));
                    }
                } else {
                    s.lagged = true;
                }
            }
            proof {
                assert(s@ == publish_one(sv, note_id, content@, old(self).capacity as nat));
            }
            self.sessions.insert(i, s);
            proof {
                assert(self.sviews() =~= pre.update(i as int, s@));
            }
            i += 1;
        }
    }

    /// Removes a session; on disconnect, parse error or explicit close. The
    /// session's identifier is gone afterwards and its queue is discarded;
    /// every other session is untouched.
    pub fn unsubscribe(&mut self, sid: u64) -> (found: bool)
        requires
            old(self).wf(),
        ensures
            final(self).wf(),
            final(self).capacity == old(self).capacity,
            final(self).next_session_id == old(self).next_session_id,
            found <==> old(self).has_session(sid),
            !found ==> final(self).sviews() == old(self).sviews(),
            found ==> final(self).sviews() == old(self).sviews().remove(
                old(self).session_index(sid),
            ),
            !final(self).has_session(sid),
    {
        match self.find_session(sid) {
            None => false,
            Some(i) => {
                proof {
                    assert(self.session_index(sid) == i as int);
                }
                self.sessions.remove(i);
                proof {
                    assert(self.sviews() =~= old(self).sviews().remove(i as int));
                    assert forall|j: int| 0 <= j < self.sviews().len() implies (
                    #[trigger] self.sviews()[j]).session_id != sid by {
                        if j < i as int {
                            assert(self.sviews()[j] == old(self).sviews()[j]);
                        } else {
                            assert(self.sviews()[j] == old(self).sviews()[j + 1]);
                        }
                    }
                }
                true
            },
        }
    }

    /// Hands out the session's next pending message, in the order publishes
    /// were enqueued for it; `Empty` when nothing is pending, `Lagged` once
    /// the queue has overflowed (the caller must then disconnect the
    /// session), `Gone` when no such session exists.
    pub fn poll_message(&mut self, sid: u64) -> (r: PollReply)
        requires
            old(self).wf(),
        ensures
            final(self).wf(),
            final(self).capacity == old(self).capacity,
            final(self).next_session_id == old(self).next_session_id,
            !old(self).has_session(sid) ==> (r is Gone && final(self).sviews()
                == old(self).sviews()),
            old(self).has_session(sid) && old(self).session_at(sid).lagged ==> (r is Lagged
                && final(self).sviews() == old(self).sviews()),
            old(self).has_session(sid) && !old(self).session_at(sid).lagged && old(self).session_at(
                sid,
            ).queue.len() == 0 ==> (r is Empty && final(self).sviews() == old(self).sviews()),
            old(self).has_session(sid) && !old(self).session_at(sid).lagged && old(self).session_at(
                sid,
            ).queue.len() > 0 ==> (r matches PollReply::Message(m) && m@ == old(self).session_at(
                sid,
            ).queue[0] && final(self).sviews() == old(self).sviews().update(
                old(self).session_index(sid),
                (SessionView {
                    queue: old(self).session_at(sid).queue.drop_first(),
                    ..old(self).session_at(sid)
                }),
            )),
    {
        match self.find_session(sid) {
            None => PollReply::Gone,
            Some(i) => {
                proof {
                    assert(self.session_index(sid) == i as int);
                }
                if self.sessions[i].lagged {
                    return PollReply::Lagged;
                }
                if self.sessions[i].queue.len() == 0 {
                    return PollReply::Empty;
                }
                let ghost pre = self.sviews();
                let mut s = self.sessions.remove(i);
                let m = s.queue.remove(0);
                proof {
                    assert(s@.queue =~= pre[i as int].queue.drop_first());
                }
                self.sessions.insert(i, s);
                proof {
                    assert(self.sviews() =~= pre.update(i as int, s@));
                }
                PollReply::Message(m)
            },
        }
    }

    /// Processes one inbound text frame: a well-formed frame is published to
    /// its note's subscribers; a malformed one (no delimiter, or an
    /// unparsable identifier prefix) is silently dropped — no outbound
    /// message, no error, and the relay is left exactly as it was.
    pub fn handle_frame(&mut self, frame: &[u8]) -> (published: bool)
        requires
            old(self).wf(),
        ensures
            final(self).wf(),
            final(self).capacity == old(self).capacity,
            final(self).next_session_id == old(self).next_session_id,
            frame_msg(frame@) is None ==> (!published && final(self).sviews()
                == old(self).sviews()),
            frame_msg(frame@) matches Some(m) ==> (published && publish_post(
                old(self).sviews(),
                final(self).sviews(),
                m.note_id,
                m.content,
                old(self).capacity as nat,
            )),
    {
        match parse_frame(frame) {
            None => false,
            Some(msg) => {
                match msg {
                    WsMessage::Sync { note_id, content } => {
                        self.publish(note_id, content.as_slice());
                        true
                    },
                }
            },
        }
    }
}

/// Topic isolation: in any well-formed relay state — and every operation
/// preserves well-formedness — each message queued for a session is
/// addressed to the very note that session subscribed to; a subscriber to
/// one note never holds a message published to another, over any
/// interleaving of publishes.
pub proof fn lemma_topic_isolation(r: Relay, i: int, k: int)
    requires
        r.wf(),
        0 <= i < r.sviews().len(),
        0 <= k < r.sviews()[i].queue.len(),
    ensures
        r.sviews()[i].queue[k].note_id == r.sviews()[i].note_id,
{
}

/// A publish to one note leaves every session subscribed to another note
/// exactly as it was.
pub proof fn lemma_publish_other_topic(
    pre: Seq<SessionView>,
    post: Seq<SessionView>,
    topic: u128,
    content: Seq<u8>,
    cap: nat,
    i: int,
)
    requires
        publish_post(pre, post, topic, content, cap),
        0 <= i < pre.len(),
        pre[i].note_id != topic,
    ensures
        post[i] == pre[i],
{
}

/// Fan-out completeness: every session subscribed to the topic when the
/// publish happened — the publisher's own session included — and able to
/// receive (not lagged, queue below the bound) ends with exactly the
/// published message appended at the end of its queue.
pub proof fn lemma_fanout_completeness(
    pre: Seq<SessionView>,
    post: Seq<SessionView>,
    topic: u128,
    content: Seq<u8>,
    cap: nat,
)
    requires
        publish_post(pre, post, topic, content, cap),
    ensures
        forall|i: int|
            0 <= i < pre.len() && (#[trigger] pre[i]).note_id == topic && !pre[i].lagged
                && pre[i].queue.len() < cap ==> post[i].queue == pre[i].queue.push(
                MsgView { note_id: topic, content },
            ),
{
}

/// Per-subscriber ordering: a subscriber that received two publishes to its
/// topic holds them queued in exactly the order they were published.
pub proof fn lemma_publish_order(
    s0: Seq<SessionView>,
    s1: Seq<SessionView>,
    s2: Seq<SessionView>,
    topic: u128,
    c1: Seq<u8>,
    c2: Seq<u8>,
    cap: nat,
    i: int,
)
    requires
        publish_post(s0, s1, topic, c1, cap),
        publish_post(s1, s2, topic, c2, cap),
        0 <= i < s0.len(),
        s0[i].note_id == topic,
        !s0[i].lagged,
        s0[i].queue.len() + 2 <= cap,
    ensures
        s2[i].queue == s0[i].queue.push(MsgView { note_id: topic, content: c1 }).push(
            MsgView { note_id: topic, content: c2 },
        ),
{
    assert(s1[i] == publish_one(s0[i], topic, c1, cap));
    assert(s2[i] == publish_one(s1[i], topic, c2, cap));
}

/// Disconnect cleanup: once a session identifier is absent it stays absent
/// across any publish — the defunct session receives nothing — and the
/// publish itself goes through unharmed for everyone else.
pub proof fn lemma_disconnect_cleanup(
    pre: Seq<SessionView>,
    post: Seq<SessionView>,
    topic: u128,
    content: Seq<u8>,
    cap: nat,
    sid: u64,
)
    requires
        publish_post(pre, post, topic, content, cap),
        forall|i: int| 0 <= i < pre.len() ==> (#[trigger] pre[i]).session_id != sid,
    ensures
        forall|i: int| 0 <= i < post.len() ==> (#[trigger] post[i]).session_id != sid,
{
    assert forall|i: int| 0 <= i < post.len() implies (#[trigger] post[i]).session_id != sid by {
        assert(post[i] == publish_one(pre[i], topic, content, cap));
    }
}

} // verus!
