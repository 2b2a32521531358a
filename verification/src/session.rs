//! The WebSocket session's lifecycle state machine.
//!
//! A session is established once, never reconnects, and dies
//! irreversibly: `Connecting` either reaches `Live` or fails to
//! `Closed`; from `Live` the shutdown watcher moves it to `Closing`
//! and then `Closed`.  Only `Live` accepts sends.

use vstd::prelude::*;

verus! {

#[derive(Clone, Copy, Debug, PartialEq, Eq, Structural)]
pub enum SessionState {
    Connecting,
    Live,
    Closing,
    Closed,
}

/// Whether outbound sends are accepted in this state.
pub open spec fn accepts_send(s: SessionState) -> bool {
    s == SessionState::Live
}

/// The only transitions a session can take: the handshake resolves
/// `Connecting` into `Live` or `Closed`, and closing is one-way.
pub open spec fn session_phase_step(pre: SessionState, post: SessionState) -> bool {
    ||| (pre == SessionState::Connecting && (post == SessionState::Live || post
        == SessionState::Closed))
    ||| (pre == SessionState::Live && post == SessionState::Closing)
    ||| (pre == SessionState::Closing && post == SessionState::Closed)
}

/// Progress measure: transitions only move forward.
pub open spec fn session_rank(s: SessionState) -> int {
    match s {
        SessionState::Connecting => 0,
        SessionState::Live => 1,
        SessionState::Closing => 2,
        SessionState::Closed => 3,
    }
}

pub open spec fn session_trace(t: Seq<SessionState>) -> bool {
    &&& t.len() >= 1
    &&& forall|i: int| 1 <= i < t.len() ==> session_phase_step(t[i - 1], #[trigger] t[i])
}

/// Irreversibility: along any sequence of transitions the rank never
/// decreases; in particular, once a session is `Closing` or `Closed`
/// it can never accept a send again.
pub proof fn lemma_session_irreversible(t: Seq<SessionState>, i: int, j: int)
    requires
        session_trace(t),
        0 <= i <= j < t.len(),
    ensures
        session_rank(t[i]) <= session_rank(t[j]),
        session_rank(t[i]) >= session_rank(SessionState::Closing) ==> !accepts_send(t[j]),
    decreases j - i,
{
    if i < j {
        lemma_session_irreversible(t, i, j - 1);
    }
}

} // verus!
