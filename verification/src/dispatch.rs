//! The message dispatcher: request/response over the asymmetric
//! WebSocket.
//!
//! An outbound send allocates a fresh `message_seq`, records it as
//! pending, and completes as `MessageSent` only once the server's
//! `ACK` with the same `message_seq` has been routed through
//! [`Dispatcher::handle_frame`].  Inbound `Distribute` frames are
//! turned into stream deliveries in exactly the order they arrive;
//! `ACK` frames never reach the stream callback.  The one-shot
//! notifiers, channels and socket halves are the runtime's; it obeys
//! the actions returned here.

use vstd::prelude::*;
use crate::events::{ChatConnError, ChatMessage, ChatMetaData, MessageError, MessageEvent,
    MessageSent, SessionEvent};
use crate::session::{accepts_send, SessionState};
use crate::wire::{Ack, Distribute, ServerToClient};

verus! {

/// Abstract state of the dispatcher.
///
/// `pending` holds the sequence numbers of sends awaiting an
/// acknowledgement; `acked` those whose notifier has fired.
#[verifier::ext_equal]
pub struct DispatcherView {
    pub session: Option<SessionState>,
    pub next_seq: u64,
    pub pending: Set<u64>,
    pub acked: Set<u64>,
}

impl DispatcherView {
    pub open spec fn wf(self) -> bool {
        &&& forall|s: u64| self.pending.contains(s) ==> s < self.next_seq
        &&& forall|s: u64| self.acked.contains(s) ==> s < self.next_seq
        &&& self.pending.disjoint(self.acked)
    }

    /// Whether a send is accepted right now: a live session exists.
    pub open spec fn session_live(self) -> bool {
        match self.session {
            Some(s) => accepts_send(s),
            None => false,
        }
    }
}

/// The stream delivery for one inbound `Distribute` frame.
pub open spec fn chat_of(d: Distribute) -> ChatMessage {
    ChatMessage { sender: d.sender, conversation_id: d.content.conversation_id, content: d.content.content }
}

/// What the inbound pump must do with one frame.
#[derive(Debug, PartialEq, Eq)]
pub enum InboundAction {
    /// Invoke the session's stream callback with this message,
    /// panic-isolated.
    DeliverStream(ChatMessage),
    /// Wake the send that is waiting on this sequence number.
    NotifySent(u64),
    /// A duplicate or late acknowledgement: not an error, nothing to
    /// do.
    DropLateAck(u64),
}

/// The action for `frame` in state `pre`.
pub open spec fn action_of(pre: DispatcherView, frame: ServerToClient) -> InboundAction {
    match frame {
        ServerToClient::Distribute(d) => InboundAction::DeliverStream(chat_of(d)),
        ServerToClient::Ack(a) => if pre.pending.contains(a.message_seq) {
            InboundAction::NotifySent(a.message_seq)
        } else {
            InboundAction::DropLateAck(a.message_seq)
        },
    }
}

/// The state after routing `frame` in state `pre`.
pub open spec fn ack_effect(pre: DispatcherView, frame: ServerToClient) -> DispatcherView {
    match frame {
        ServerToClient::Distribute(d) => pre,
        ServerToClient::Ack(a) => if pre.pending.contains(a.message_seq) {
            DispatcherView {
                pending: pre.pending.remove(a.message_seq),
                acked: pre.acked.insert(a.message_seq),
                ..pre
            }
        } else {
            pre
        },
    }
}

/// The state after routing a whole batch of frames, oldest first.
pub open spec fn after_frames(pre: DispatcherView, frames: Seq<ServerToClient>) -> DispatcherView
    decreases frames.len(),
{
    if frames.len() == 0 {
        pre
    } else {
        ack_effect(after_frames(pre, frames.drop_last()), frames.last())
    }
}

/// The stream deliveries for a batch of frames: exactly the
/// `Distribute` payloads, in wire order.  `ACK` frames contribute
/// nothing.
pub open spec fn distributes_of(frames: Seq<ServerToClient>) -> Seq<ChatMessage>
    decreases frames.len(),
{
    if frames.len() == 0 {
        Seq::empty()
    } else {
        distributes_of(frames.drop_last()) + match frames.last() {
            ServerToClient::Distribute(d) => seq![chat_of(d)],
            ServerToClient::Ack(_) => Seq::empty(),
        }
    }
}

/// One inbound-frame transition.
pub open spec fn frame_step(
    pre: DispatcherView,
    post: DispatcherView,
    frame: ServerToClient,
    a: InboundAction,
) -> bool {
    &&& a == action_of(pre, frame)
    &&& post =~= ack_effect(pre, frame)
}

/// Allocation of a fresh sequence number for an outbound send, or
/// immediate failure when no live session exists.
pub open spec fn begin_send_step(
    pre: DispatcherView,
    post: DispatcherView,
    r: Result<u64, MessageError>,
) -> bool {
    if pre.session_live() {
        &&& pre.next_seq < u64::MAX
        &&& r == Result::<u64, MessageError>::Ok(pre.next_seq)
        &&& post =~= (DispatcherView {
            next_seq: (pre.next_seq + 1) as u64,
            pending: pre.pending.insert(pre.next_seq),
            ..pre
        })
    } else {
        &&& r == Result::<u64, MessageError>::Err(MessageError::MissingSession)
        &&& post =~= pre
    }
}

/// Cleanup when a send is abandoned (timeout or cancel): its pending
/// entry is removed so a late acknowledgement is silently dropped.
pub open spec fn abandon_step(pre: DispatcherView, post: DispatcherView, seq: u64) -> bool {
    post =~= (DispatcherView { pending: pre.pending.remove(seq), ..pre })
}

/// A session-lifecycle transition: installing the session record after
/// the handshake, or the watcher driving it towards `Closed`.  Sends
/// and acknowledgements are untouched.
pub open spec fn session_change_step(pre: DispatcherView, post: DispatcherView) -> bool {
    &&& post.next_seq == pre.next_seq
    &&& post.pending =~= pre.pending
    &&& post.acked =~= pre.acked
}

/// Any single dispatcher transition.
pub open spec fn dispatcher_step(pre: DispatcherView, post: DispatcherView) -> bool {
    ||| exists|frame: ServerToClient, a: InboundAction| frame_step(pre, post, frame, a)
    ||| exists|r: Result<u64, MessageError>| begin_send_step(pre, post, r)
    ||| exists|seq: u64| abandon_step(pre, post, seq)
    ||| session_change_step(pre, post)
}

pub open spec fn dispatcher_trace(t: Seq<DispatcherView>) -> bool {
    &&& t.len() >= 1
    &&& t[0].wf()
    &&& forall|i: int| 1 <= i < t.len() ==> dispatcher_step(t[i - 1], #[trigger] t[i])
}

pub proof fn lemma_dispatcher_step_preserves_wf(pre: DispatcherView, post: DispatcherView)
    requires
        pre.wf(),
        dispatcher_step(pre, post),
    ensures
        post.wf(),
        pre.acked.subset_of(post.acked),
{
    if exists|frame: ServerToClient, a: InboundAction| frame_step(pre, post, frame, a) {
        let (frame, a) = choose|frame: ServerToClient, a: InboundAction|
            frame_step(pre, post, frame, a);
    } else if exists|r: Result<u64, MessageError>| begin_send_step(pre, post, r) {
        let r = choose|r: Result<u64, MessageError>| begin_send_step(pre, post, r);
        if pre.session_live() {
            assert(!pre.acked.contains(pre.next_seq));
        }
    } else if exists|seq: u64| abandon_step(pre, post, seq) {
        let seq = choose|seq: u64| abandon_step(pre, post, seq);
    } else {
    }
}

/// Acknowledgement correlation, one step: a sequence number enters the
/// acknowledged set only through an `ACK` frame carrying exactly that
/// number, and only while the send was still pending.
pub proof fn lemma_ack_entry_needs_ack_frame(
    pre: DispatcherView,
    post: DispatcherView,
    frame: ServerToClient,
    a: InboundAction,
    seq: u64,
)
    requires
        frame_step(pre, post, frame, a),
        !pre.acked.contains(seq),
        post.acked.contains(seq),
    ensures
        frame == (ServerToClient::Ack(Ack { message_seq: seq })),
        pre.pending.contains(seq),
        a == InboundAction::NotifySent(seq),
{
}

/// The same, over any dispatcher transition: whatever the step was, a
/// newly acknowledged sequence number was pending just before it.
pub proof fn lemma_ack_entry_was_pending(pre: DispatcherView, post: DispatcherView, seq: u64)
    requires
        dispatcher_step(pre, post),
        !pre.acked.contains(seq),
        post.acked.contains(seq),
    ensures
        pre.pending.contains(seq),
        !post.pending.contains(seq),
{
    if exists|frame: ServerToClient, a: InboundAction| frame_step(pre, post, frame, a) {
        let (frame, a) = choose|frame: ServerToClient, a: InboundAction|
            frame_step(pre, post, frame, a);
    } else if exists|r: Result<u64, MessageError>| begin_send_step(pre, post, r) {
        let r = choose|r: Result<u64, MessageError>| begin_send_step(pre, post, r);
    } else if exists|seq0: u64| abandon_step(pre, post, seq0) {
        let seq0 = choose|seq0: u64| abandon_step(pre, post, seq0);
    } else {
    }
}

/// Acknowledgement correlation over a whole trace: a send observed as
/// acknowledged at the end but not at the start has a moment at which
/// an `ACK` for it arrived while it was pending.
pub proof fn lemma_sent_has_ack_arrival(t: Seq<DispatcherView>, seq: u64, j: int)
    requires
        dispatcher_trace(t),
        0 <= j < t.len(),
        !t[0].acked.contains(seq),
        t[j].acked.contains(seq),
    ensures
        exists|i: int|
            1 <= i <= j && !t[i - 1].acked.contains(seq) && #[trigger] t[i].acked.contains(seq)
                && t[i - 1].pending.contains(seq),
    decreases j,
{
    if t[j - 1].acked.contains(seq) {
        lemma_sent_has_ack_arrival(t, seq, j - 1);
        let i = choose|i: int|
            1 <= i <= j - 1 && !t[i - 1].acked.contains(seq) && #[trigger] t[i].acked.contains(
                seq,
            ) && t[i - 1].pending.contains(seq);
        assert(t[i].acked.contains(seq));
    } else {
        lemma_ack_entry_was_pending(t[j - 1], t[j], seq);
        assert(t[j].acked.contains(seq));
    }
}

/// Two sends never share a sequence number: allocations at two points
/// of a trace hand out distinct values.
pub proof fn lemma_message_seq_uniqueness(
    t: Seq<DispatcherView>,
    i: int,
    j: int,
    si: u64,
    sj: u64,
)
    requires
        dispatcher_trace(t),
        0 <= i < j < t.len() - 1,
        begin_send_step(t[i], t[i + 1], Ok(si)),
        begin_send_step(t[j], t[j + 1], Ok(sj)),
    ensures
        si != sj,
    decreases j,
{
    lemma_seq_counter_monotone(t, i + 1, j);
}

pub proof fn lemma_seq_counter_monotone(t: Seq<DispatcherView>, i: int, j: int)
    requires
        dispatcher_trace(t),
        0 <= i <= j < t.len(),
    ensures
        t[i].next_seq <= t[j].next_seq,
    decreases j - i,
{
    if i < j {
        lemma_seq_counter_monotone(t, i, j - 1);
        let pre = t[j - 1];
        let post = t[j];
        assert(dispatcher_step(pre, post));
        if exists|frame: ServerToClient, a: InboundAction| frame_step(pre, post, frame, a) {
            let (frame, a) = choose|frame: ServerToClient, a: InboundAction|
                frame_step(pre, post, frame, a);
        } else if exists|r: Result<u64, MessageError>| begin_send_step(pre, post, r) {
            let r = choose|r: Result<u64, MessageError>| begin_send_step(pre, post, r);
        } else if exists|seq0: u64| abandon_step(pre, post, seq0) {
            let seq0 = choose|seq0: u64| abandon_step(pre, post, seq0);
        } else {
        }
    }
}

/// The dispatcher itself.  Pending sequence numbers are kept in
/// allocation order; `acked` is ghost bookkeeping tying the
/// executable operations to the model.
pub struct Dispatcher {
    session: Option<SessionState>,
    next_seq: u64,
    pending: Vec<u64>,
    acked: Ghost<Set<u64>>,
}

impl Dispatcher {
    pub closed spec fn view(&self) -> DispatcherView {
        DispatcherView {
            session: self.session,
            next_seq: self.next_seq,
            pending: self.pending@.to_set(),
            acked: self.acked@,
        }
    }

    pub closed spec fn wf(&self) -> bool {
        &&& forall|i: int, j: int|
            0 <= i < j < self.pending@.len() ==> #[trigger] self.pending@[i]
                < #[trigger] self.pending@[j]
        &&& self@.wf()
    }

    pub fn new() -> (r: Dispatcher)
        ensures
            r.wf(),
            r@ =~= (DispatcherView {
                session: None,
                next_seq: 0,
                pending: Set::empty(),
                acked: Set::empty(),
            }),
    {
        let r = Dispatcher {
            session: None,
            next_seq: 0,
            pending: Vec::new(),
            acked: Ghost(Set::empty()),
        };
        proof {
            assert(r.pending@.to_set() =~= Set::<u64>::empty());
        }
        r
    }

    /// Whether a fresh `connect_chat` may proceed: at most one session
    /// exists per core, so a connect while one is being set up or is
    /// live or closing is rejected.
    pub fn connect_allowed(&self) -> (allowed: bool)
        ensures
            allowed == (self@.session is None || self@.session == Some(SessionState::Closed)),
    {
        match self.session {
            None => true,
            Some(SessionState::Closed) => true,
            Some(_) => false,
        }
    }

    /// Install the session record once the WebSocket handshake has
    /// resolved, and report the event for the `connect_chat` task.  A
    /// connect attempted while a session already exists is rejected
    /// with a protocol error and changes nothing.
    pub fn install_session(&mut self, connected: bool) -> (e: SessionEvent)
        requires
            old(self).wf(),
        ensures
            final(self).wf(),
            session_change_step(old(self)@, final(self)@),
            !(old(self)@.session is None || old(self)@.session == Some(SessionState::Closed))
                ==> final(self)@ =~= old(self)@ && e == (SessionEvent {
                result: Err(ChatConnError::FallbackError),
            }),
            (old(self)@.session is None || old(self)@.session == Some(SessionState::Closed))
                ==> {
                &&& connected ==> final(self)@ =~= (DispatcherView {
                    session: Some(SessionState::Live),
                    ..old(self)@
                }) && e == (SessionEvent { result: Ok(ChatMetaData) })
                &&& !connected ==> final(self)@ =~= old(self)@ && e == (SessionEvent {
                    result: Err(ChatConnError::FallbackError),
                })
            },
    {
        let allowed = self.connect_allowed();
        if allowed && connected {
            self.session = Some(SessionState::Live);
            SessionEvent { result: Ok(ChatMetaData) }
        } else {
            SessionEvent { result: Err(ChatConnError::FallbackError) }
        }
    }

    /// The watcher observed a sub-task ending: a live session starts
    /// closing.  Outstanding acknowledgement waits are not notified;
    /// they surface through their own timeouts.
    pub fn mark_closing(&mut self)
        requires
            old(self).wf(),
        ensures
            final(self).wf(),
            session_change_step(old(self)@, final(self)@),
            final(self)@.session == if old(self)@.session == Some(SessionState::Live) {
                Some(SessionState::Closing)
            } else {
                old(self)@.session
            },
    {
        if let Some(SessionState::Live) = self.session {
            self.session = Some(SessionState::Closing);
        }
    }

    /// Both sub-tasks have exited: the session is gone for good.  A
    /// new one requires a fresh `connect_chat`.
    pub fn mark_closed(&mut self)
        requires
            old(self).wf(),
        ensures
            final(self).wf(),
            session_change_step(old(self)@, final(self)@),
            final(self)@.session == if old(self)@.session == Some(SessionState::Closing)
                || old(self)@.session == Some(SessionState::Live) {
                Some(SessionState::Closed)
            } else {
                old(self)@.session
            },
    {
        match self.session {
            Some(SessionState::Closing) | Some(SessionState::Live) => {
                self.session = Some(SessionState::Closed);
            },
            _ => {},
        }
    }

    /// Start an outbound send: allocate the next `message_seq` and
    /// record it as pending, or fail immediately with `MissingSession`
    /// when no live session exists (no retry, no wait).
    pub fn begin_send(&mut self) -> (r: Result<u64, MessageError>)
        requires
            old(self).wf(),
            old(self)@.next_seq < u64::MAX,
        ensures
            final(self).wf(),
            begin_send_step(old(self)@, final(self)@, r),
    {
        let live = match self.session {
            Some(SessionState::Live) => true,
            _ => false,
        };
        if !live {
            return Err(MessageError::MissingSession);
        }
        let seq = self.next_seq;
        self.next_seq = seq + 1;
        self.pending.push(seq);
        proof {
            assert(self.pending@.to_set() =~= old(self).pending@.to_set().insert(seq)) by {
                assert forall|x: u64| self.pending@.to_set().contains(x)
                    implies old(self).pending@.to_set().insert(seq).contains(x) by {
                    let k = choose|k: int| 0 <= k < self.pending@.len() && self.pending@[k] == x;
                    if k < self.pending@.len() - 1 {
                        assert(old(self).pending@[k] == x);
                    }
                };
                assert forall|x: u64| old(self).pending@.to_set().insert(seq).contains(x)
                    implies self.pending@.to_set().contains(x) by {
                    if x == seq {
                        assert(self.pending@[self.pending@.len() - 1] == x);
                    } else {
                        let k = choose|k: int|
                            0 <= k < old(self).pending@.len() && old(self).pending@[k] == x;
                        assert(self.pending@[k] == x);
                    }
                };
            }
            assert forall|i: int, j: int|
                0 <= i < j < self.pending@.len() implies #[trigger] self.pending@[i]
                    < #[trigger] self.pending@[j] by {
                if j == self.pending@.len() - 1 {
                    assert(old(self)@.pending.contains(self.pending@[i]));
                }
            }
            assert(!old(self)@.acked.contains(seq));
        }
        Ok(seq)
    }

    /// The sequence number the next send will use.
    pub fn peek_next_seq(&self) -> (s: u64)
        ensures
            s == self@.next_seq,
    {
        self.next_seq
    }

    /// Drop the pending entry for an abandoned send, so that a late
    /// acknowledgement for it is discarded silently.
    pub fn abandon_send(&mut self, message_seq: u64)
        requires
            old(self).wf(),
        ensures
            final(self).wf(),
            abandon_step(old(self)@, final(self)@, message_seq),
    {
        self.remove_pending(message_seq);
    }

    /// Route one inbound frame, in receive order, and say what the
    /// pump must do with it.
    pub fn handle_frame(&mut self, frame: &ServerToClient) -> (a: InboundAction)
        requires
            old(self).wf(),
        ensures
            final(self).wf(),
            frame_step(old(self)@, final(self)@, *frame, a),
    {
        match frame {
            ServerToClient::Distribute(d) => {
                let m = ChatMessage {
                    sender: d.sender,
                    conversation_id: d.content.conversation_id,
                    content: d.content.content.clone(),
                };
                InboundAction::DeliverStream(m)
            },
            ServerToClient::Ack(ack) => {
                let seq = ack.message_seq;
                let found = self.remove_pending(seq);
                if found {
                    proof {
                        self.acked@ = self.acked@.insert(seq);
                        assert(old(self)@.pending.contains(seq));
                        assert forall|x: u64| final(self)@.acked.contains(x)
                            implies x < final(self)@.next_seq by {
                            if x != seq {
                                assert(old(self)@.acked.contains(x));
                            }
                        }
                    }
                    InboundAction::NotifySent(seq)
                } else {
                    InboundAction::DropLateAck(seq)
                }
            },
        }
    }

    /// Route a batch of inbound frames, oldest first.  The returned
    /// deliveries are exactly the `Distribute` payloads in wire order,
    /// so the stream callback observes server-delivery order.
    pub fn route_frames(&mut self, frames: &Vec<ServerToClient>) -> (deliveries: Vec<ChatMessage>)
        requires
            old(self).wf(),
        ensures
            final(self).wf(),
            final(self)@ =~= after_frames(old(self)@, frames@),
            deliveries@ == distributes_of(frames@),
    {
        let mut deliveries: Vec<ChatMessage> = Vec::new();
        let n = frames.len();
        let mut i: usize = 0;
        proof {
            assert(frames@.take(0) =~= Seq::<ServerToClient>::empty());
        }
        while i < n
            invariant
                n == frames@.len(),
                i <= n,
                self.wf(),
                self@ =~= after_frames(old(self)@, frames@.take(i as int)),
                deliveries@ == distributes_of(frames@.take(i as int)),
            decreases n - i,
        {
            let a = self.handle_frame(&frames[i]);
            match a {
                InboundAction::DeliverStream(m) => {
                    deliveries.push(m);
                },
                InboundAction::NotifySent(_) => {},
                InboundAction::DropLateAck(_) => {},
            }
            proof {
                assert(frames@.take(i + 1).drop_last() =~= frames@.take(i as int));
                assert(frames@.take(i + 1).last() == frames@[i as int]);
            }
            i = i + 1;
        }
        proof {
            assert(frames@.take(n as int) =~= frames@);
        }
        deliveries
    }

    /// A send whose notifier has fired completes with `MessageSent`;
    /// by [`lemma_sent_has_ack_arrival`] the notifier fires only after
    /// an `ACK` with this very sequence number arrived on the wire.
    pub fn finish_send(&self, message_seq: u64) -> (e: MessageEvent)
        requires
            self@.acked.contains(message_seq),
        ensures
            e == (MessageEvent { result: Ok(MessageSent) }),
    {
        let _ = message_seq;
        MessageEvent { result: Ok(MessageSent) }
    }

    /// Remove `message_seq` from the pending vector if present.
    fn remove_pending(&mut self, message_seq: u64) -> (found: bool)
        requires
            old(self).wf(),
        ensures
            final(self).wf(),
            found == old(self)@.pending.contains(message_seq),
            final(self)@.session == old(self)@.session,
            final(self)@.next_seq == old(self)@.next_seq,
            final(self)@.acked =~= old(self)@.acked,
            final(self)@.pending =~= old(self)@.pending.remove(message_seq),
    {
        let n = self.pending.len();
        let mut idx: usize = n;
        let mut i: usize = 0;
        while i < n
            invariant
                n == self.pending@.len(),
                i <= n,
                idx <= n,
                idx == n ==> forall|k: int| 0 <= k < i ==> self.pending@[k] != message_seq,
                idx < n ==> self.pending@[idx as int] == message_seq,
            decreases n - i,
        {
            if idx == n && self.pending[i] == message_seq {
                idx = i;
            }
            i = i + 1;
        }
        if idx == n {
            proof {
                assert(!old(self)@.pending.contains(message_seq)) by {
                    if old(self).pending@.contains(message_seq) {
                        let k = choose|k: int|
                            0 <= k < old(self).pending@.len() && old(self).pending@[k]
                                == message_seq;
                        assert(old(self).pending@[k] != message_seq);
                    }
                }
                assert(old(self)@.pending.remove(message_seq) =~= old(self)@.pending);
            }
            false
        } else {
            self.pending.remove(idx);
            proof {
                let pre = old(self).pending@;
                let post = self.pending@;
                assert(old(self)@.pending.contains(message_seq)) by {
                    assert(pre[idx as int] == message_seq);
                }
                assert(post.to_set() =~= pre.to_set().remove(message_seq)) by {
                    assert forall|x: u64| post.to_set().contains(x)
                        implies pre.to_set().remove(message_seq).contains(x) by {
                        let k = choose|k: int| 0 <= k < post.len() && post[k] == x;
                        if k < idx {
                            assert(pre[k] == x);
                            assert(pre[k] != pre[idx as int]);
                        } else {
                            assert(pre[k + 1] == x);
                            assert(pre[k + 1] != pre[idx as int]);
                        }
                    };
                    assert forall|x: u64| pre.to_set().remove(message_seq).contains(x)
                        implies post.to_set().contains(x) by {
                        let k = choose|k: int| 0 <= k < pre.len() && pre[k] == x;
                        if k < idx {
                            assert(post[k] == x);
                        } else {
                            assert(k != idx);
                            assert(post[k - 1] == x);
                        }
                    };
                }
                assert forall|a: int, b: int|
                    0 <= a < b < post.len() implies #[trigger] post[a] < #[trigger] post[b] by {
                    if b < idx {
                        assert(pre[a] < pre[b]);
                    } else if a < idx {
                        assert(pre[a] < pre[b + 1]);
                    } else {
                        assert(pre[a + 1] < pre[b + 1]);
                    }
                }
            }
            true
        }
    }
}

} // verus!
