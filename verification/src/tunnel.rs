//! Tunnel establishment as a state machine. The caller resolves, binds,
//! connects and relays; this module decides, after each outcome, what is
//! done next.

use vstd::prelude::*;
use crate::egress::{drawn_of, LocalAddress, OutboundAddressPool};

verus! {

/// Where the establishment of one tunnel stands.
#[derive(Clone, Copy, Debug, PartialEq, Eq, Structural)]
pub enum TunnelState {
    /// The destination authority is being resolved.
    Resolving,
    /// Candidate number `candidate` of `total` is being tried.
    Attempting { candidate: usize, total: usize },
    /// The connection to candidate `candidate` carries the relay.
    Relaying { candidate: usize },
    /// Nothing more will be done for this tunnel.
    Closed,
}

/// What the caller reports back.
#[derive(Clone, Copy, Debug, PartialEq, Eq, Structural)]
pub enum TunnelEvent {
    /// Resolution gave `candidates` addresses, in the order to be kept.
    Resolved { candidates: usize },
    /// The authority is malformed or does not resolve.
    ResolveFailed,
    /// No socket could be created for the attempt.
    SocketUnavailable,
    /// The socket could not be bound to the local address.
    BindFailed,
    /// The bound socket could not be connected to the candidate.
    ConnectFailed,
    /// The bound socket is connected to the candidate.
    Connected,
    /// The relay ended: one side closed or failed.
    RelayEnded,
}

/// What the caller does next.
#[derive(Clone, Copy, Debug, PartialEq, Eq, Structural)]
pub enum TunnelAction {
    /// Bind a new socket to `local` and connect it to candidate `candidate`.
    Attempt { candidate: usize, local: LocalAddress },
    /// Relay bytes between the client and candidate `candidate`.
    Relay { candidate: usize },
    /// Close what is open; the tunnel is over.
    Stop,
}

/// The attempt on a candidate, with the local address that `draw` selects.
pub open spec fn attempt_of(candidate: usize, total: usize, pool: Seq<LocalAddress>, draw: u64) -> (
    TunnelState,
    TunnelAction,
) {
    (
        TunnelState::Attempting { candidate, total },
        TunnelAction::Attempt { candidate, local: drawn_of(pool, draw) },
    )
}

/// The transition relation. A failed bind or connect moves on to the next
/// candidate while one is left; a connection starts the relay; everything
/// else closes the tunnel.
pub open spec fn step_of(state: TunnelState, event: TunnelEvent, pool: Seq<LocalAddress>, draw: u64) -> (
    TunnelState,
    TunnelAction,
) {
    match (state, event) {
        (TunnelState::Resolving, TunnelEvent::Resolved { candidates }) => if candidates > 0 {
            attempt_of(0, candidates, pool, draw)
        } else {
            (TunnelState::Closed, TunnelAction::Stop)
        },
        (TunnelState::Attempting { candidate, total }, TunnelEvent::BindFailed)
        | (TunnelState::Attempting { candidate, total }, TunnelEvent::ConnectFailed) => if candidate
            + 1 < total {
            attempt_of((candidate + 1) as usize, total, pool, draw)
        } else {
            (TunnelState::Closed, TunnelAction::Stop)
        },
        (TunnelState::Attempting { candidate, total }, TunnelEvent::Connected) => (
            TunnelState::Relaying { candidate },
            TunnelAction::Relay { candidate },
        ),
        _ => (TunnelState::Closed, TunnelAction::Stop),
    }
}

/// The state in which every tunnel starts.
pub fn start() -> (s: TunnelState)
    ensures
        s == TunnelState::Resolving,
{
    TunnelState::Resolving
}

fn attempt(candidate: usize, total: usize, pool: &OutboundAddressPool, draw: u64) -> (r: (
    TunnelState,
    TunnelAction,
))
    requires
        pool.wf(),
    ensures
        r == attempt_of(candidate, total, pool@, draw),
{
    (
        TunnelState::Attempting { candidate, total },
        TunnelAction::Attempt { candidate, local: pool.random(draw) },
    )
}

/// One transition: from the state and the reported event to the next state
/// and the action to perform. `draw` is a fresh uniform draw; it selects the
/// local address when the action is an attempt and is ignored otherwise.
pub fn step(state: TunnelState, event: TunnelEvent, pool: &OutboundAddressPool, draw: u64) -> (r: (
    TunnelState,
    TunnelAction,
))
    requires
        pool.wf(),
    ensures
        r == step_of(state, event, pool@, draw),
{
    match state {
        TunnelState::Resolving => match event {
            TunnelEvent::Resolved { candidates } => {
                if candidates > 0 {
                    attempt(0, candidates, pool, draw)
                } else {
                    (TunnelState::Closed, TunnelAction::Stop)
                }
            },
            _ => (TunnelState::Closed, TunnelAction::Stop),
        },
        TunnelState::Attempting { candidate, total } => match event {
            TunnelEvent::BindFailed | TunnelEvent::ConnectFailed => {
                if total > 0 && candidate < total - 1 {
                    attempt(candidate + 1, total, pool, draw)
                } else {
                    (TunnelState::Closed, TunnelAction::Stop)
                }
            },
            TunnelEvent::Connected => (
                TunnelState::Relaying { candidate },
                TunnelAction::Relay { candidate },
            ),
            _ => (TunnelState::Closed, TunnelAction::Stop),
        },
        _ => (TunnelState::Closed, TunnelAction::Stop),
    }
}

/// The state reached from `state` when the events are reported in order,
/// step `i` with the draw `draws[i]`.
pub open spec fn state_after(
    state: TunnelState,
    events: Seq<TunnelEvent>,
    pool: Seq<LocalAddress>,
    draws: Seq<u64>,
) -> TunnelState
    recommends
        draws.len() == events.len(),
    decreases events.len(),
{
    if events.len() == 0 {
        state
    } else {
        state_after(
            step_of(state, events[0], pool, draws[0]).0,
            events.drop_first(),
            pool,
            draws.drop_first(),
        )
    }
}

/// The actions asked for along the way, one per event.
pub open spec fn actions_along(
    state: TunnelState,
    events: Seq<TunnelEvent>,
    pool: Seq<LocalAddress>,
    draws: Seq<u64>,
) -> Seq<TunnelAction>
    recommends
        draws.len() == events.len(),
    decreases events.len(),
{
    if events.len() == 0 {
        Seq::<TunnelAction>::empty()
    } else {
        seq![step_of(state, events[0], pool, draws[0]).1] + actions_along(
            step_of(state, events[0], pool, draws[0]).0,
            events.drop_first(),
            pool,
            draws.drop_first(),
        )
    }
}

/// A failed bind or a failed connect.
pub open spec fn is_attempt_failure(event: TunnelEvent) -> bool {
    event == TunnelEvent::BindFailed || event == TunnelEvent::ConnectFailed
}

/// While candidate `candidate` is being tried: after `failures.len()` failed
/// attempts and then a connection, the candidates that follow were tried one
/// by one in order, each from the address of its own draw, and the relay
/// runs on the one that connected.
pub proof fn lemma_failures_then_connection(
    candidate: usize,
    total: usize,
    failures: Seq<TunnelEvent>,
    pool: Seq<LocalAddress>,
    draws: Seq<u64>,
)
    requires
        candidate + failures.len() < total,
        draws.len() == failures.len() + 1,
        forall|j: int| 0 <= j < failures.len() ==> is_attempt_failure(#[trigger] failures[j]),
    ensures
        state_after(
            TunnelState::Attempting { candidate, total },
            failures.push(TunnelEvent::Connected),
            pool,
            draws,
        ) == (TunnelState::Relaying { candidate: (candidate + failures.len()) as usize }),
        actions_along(
            TunnelState::Attempting { candidate, total },
            failures.push(TunnelEvent::Connected),
            pool,
            draws,
        ).len() == failures.len() + 1,
        forall|j: int|
            0 <= j < failures.len() ==> #[trigger] actions_along(
                TunnelState::Attempting { candidate, total },
                failures.push(TunnelEvent::Connected),
                pool,
                draws,
            )[j] == (TunnelAction::Attempt {
                candidate: (candidate + 1 + j) as usize,
                local: drawn_of(pool, draws[j]),
            }),
        actions_along(
            TunnelState::Attempting { candidate, total },
            failures.push(TunnelEvent::Connected),
            pool,
            draws,
        )[failures.len() as int] == (TunnelAction::Relay {
            candidate: (candidate + failures.len()) as usize,
        }),
    decreases failures.len(),
{
    let state = TunnelState::Attempting { candidate, total };
    let events = failures.push(TunnelEvent::Connected);
    let rest = events.drop_first();
    let next = step_of(state, events[0], pool, draws[0]).0;
    let tail = actions_along(next, rest, pool, draws.drop_first());
    let all = actions_along(state, events, pool, draws);
    assert(all == seq![step_of(state, events[0], pool, draws[0]).1] + tail);
    if failures.len() == 0 {
        assert(events[0] == TunnelEvent::Connected);
        assert(rest.len() == 0);
        assert(tail.len() == 0);
        assert(state_after(next, rest, pool, draws.drop_first()) == next);
    } else {
        assert(events[0] == failures[0]);
        assert(is_attempt_failure(failures[0]));
        let shorter = failures.drop_first();
        assert(rest =~= shorter.push(TunnelEvent::Connected));
        let following = (candidate + 1) as usize;
        assert(next == (TunnelState::Attempting { candidate: following, total }));
        lemma_failures_then_connection(following, total, shorter, pool, draws.drop_first());
        assert forall|j: int| 0 <= j < failures.len() implies #[trigger] all[j] == (
        TunnelAction::Attempt {
            candidate: (candidate + 1 + j) as usize,
            local: drawn_of(pool, draws[j]),
        }) by {
            if j > 0 {
                assert(all[j] == tail[j - 1]);
                assert(draws.drop_first()[j - 1] == draws[j]);
            }
        }
        assert(all[failures.len() as int] == tail[shorter.len() as int]);
    }
}

} // verus!
