//! Laws of the proxy's decisions, each proved from the definitions that the
//! functions' contracts use.

use vstd::prelude::*;
use crate::base64::{base64_of, lemma_encoding_has_no_space, lemma_encoding_is_injective};
use crate::digest::token_proof;
use crate::dispatch::{action_of, opens_connection, status_of, ActionView};
use crate::egress::{drawn_of, LocalAddress};
use crate::gate::{
    alternate_token_header, basic_payload, credentials_allowed, has_basic_scheme, host_allowed,
    passes_credential_check, passes_host_check, passes_token_check, proxy_authorization_header,
    token_header, token_required, user_pass, verdict_of, CredentialView, PolicyView, Verdict,
};
use crate::request::{lookup, RequestView};
use crate::target::target_host;
use crate::text::{is_space, lemma_trimmed_after_space, lemma_trimmed_of_tight, trimmed};
use crate::tunnel::{
    actions_along, is_attempt_failure, lemma_failures_then_connection, state_after, step_of,
    TunnelAction, TunnelEvent, TunnelState,
};

verus! {

/// With a non-empty host allowlist, a request whose target host matches no
/// entry is rejected as a bad request, whatever its method and headers, and
/// the dispatcher answers 400 without opening a connection.
pub proof fn law_unlisted_host_is_rejected(req: RequestView, policy: PolicyView, pool: Seq<LocalAddress>)
    requires
        policy.allowed_hosts.len() > 0,
        !host_allowed(target_host(req.target), policy.allowed_hosts),
    ensures
        verdict_of(req, policy) == Verdict::RejectBadRequest,
        action_of(req, policy, pool) == ActionView::RejectBadRequest,
        status_of(action_of(req, policy, pool)) == Some(400u16),
{
}

/// An empty target host matches no allowlist.
pub proof fn law_empty_host_matches_nothing(allowed: Seq<Seq<u8>>)
    ensures
        !host_allowed(Seq::<u8>::empty(), allowed),
{
}

/// While the token is enforced, a request with neither the token header
/// nor the alternate header is rejected as a bad request.
pub proof fn law_missing_token_is_rejected(req: RequestView, policy: PolicyView)
    requires
        token_required(policy),
        lookup(req.headers, token_header()) is None,
        lookup(req.headers, alternate_token_header()) is None,
    ensures
        verdict_of(req, policy) == Verdict::RejectBadRequest,
{
}

/// While the token is enforced, a token header whose value is not the
/// hashed secret is rejected as a bad request, alternate header or not.
pub proof fn law_wrong_token_is_rejected(req: RequestView, policy: PolicyView, value: Seq<u8>)
    requires
        token_required(policy),
        lookup(req.headers, token_header()) == Some(value),
        trimmed(value) != token_proof(policy.secret_token),
    ensures
        verdict_of(req, policy) == Verdict::RejectBadRequest,
{
}

/// A token header that carries the hashed secret passes the token check,
/// and the request is accepted when the other two checks pass.
pub proof fn law_hashed_token_is_accepted(req: RequestView, policy: PolicyView, value: Seq<u8>)
    requires
        lookup(req.headers, token_header()) == Some(value),
        trimmed(value) == token_proof(policy.secret_token),
    ensures
        passes_token_check(req, policy, token_proof(policy.secret_token)),
        passes_host_check(target_host(req.target), policy) && passes_credential_check(req, policy) ==> verdict_of(
            req,
            policy,
        ) == Verdict::Accept,
{
}

/// With a non-empty credential list, a request without a
/// proxy-authorization header is never accepted; where the first two checks
/// pass it is answered 407 with the Basic challenge.
pub proof fn law_missing_credentials_are_challenged(
    req: RequestView,
    policy: PolicyView,
    pool: Seq<LocalAddress>,
)
    requires
        policy.allowed_credentials.len() > 0,
        lookup(req.headers, proxy_authorization_header()) is None,
    ensures
        verdict_of(req, policy) != Verdict::Accept,
        passes_host_check(target_host(req.target), policy) && passes_token_check(
            req,
            policy,
            token_proof(policy.secret_token),
        ) ==> verdict_of(req, policy) == Verdict::RejectUnauthorized && action_of(req, policy, pool)
            == ActionView::RequireBasicAuth && status_of(action_of(req, policy, pool)) == Some(
            407u16,
        ),
{
}

/// The header value `Basic ` followed by the base64 form of `login:password`.
pub open spec fn basic_value_for(c: CredentialView) -> Seq<u8> {
    seq![66u8, 97u8, 115u8, 105u8, 99u8, 32u8] + base64_of(user_pass(c))
}

/// The Basic value written for an entry of the credential list is allowed,
/// so a request that carries it passes the credential check.
pub proof fn law_matching_credentials_pass(req: RequestView, policy: PolicyView, i: int)
    requires
        0 <= i < policy.allowed_credentials.len(),
        lookup(req.headers, proxy_authorization_header()) == Some(
            basic_value_for(policy.allowed_credentials[i]),
        ),
    ensures
        credentials_allowed(
            basic_value_for(policy.allowed_credentials[i]),
            policy.allowed_credentials,
        ),
        passes_credential_check(req, policy),
{
    let c = policy.allowed_credentials[i];
    let b = base64_of(user_pass(c));
    let v = basic_value_for(c);
    lemma_encoding_has_no_space(user_pass(c));
    assert(user_pass(c).len() > 0);
    assert(!is_space(b[0]));
    assert(!is_space(b.last()));
    assert(v[0] == 66u8);
    assert(v.last() == b.last());
    lemma_trimmed_of_tight(v);
    assert(has_basic_scheme(v));
    assert(v.skip(5) =~= seq![32u8] + b);
    lemma_trimmed_after_space(b);
    assert(basic_payload(v) == Some(b));
}

/// The access check has no hidden state: two checks of one request under one
/// policy give one verdict.
pub proof fn law_gate_is_idempotent(req: RequestView, policy: PolicyView, first: Verdict, second: Verdict)
    requires
        first == verdict_of(req, policy),
        second == verdict_of(req, policy),
    ensures
        first == second,
{
}

/// No outbound connection follows unless the request has been accepted.
pub proof fn law_no_connection_before_acceptance(
    req: RequestView,
    policy: PolicyView,
    pool: Seq<LocalAddress>,
)
    ensures
        opens_connection(action_of(req, policy, pool)) <==> verdict_of(req, policy)
            == Verdict::Accept,
{
}

/// Every address of the pool is selected by some draw.
pub proof fn law_every_address_can_be_drawn(pool: Seq<LocalAddress>, i: int)
    requires
        0 <= i < pool.len(),
        pool.len() <= u64::MAX,
    ensures
        exists|draw: u64| #[trigger] drawn_of(pool, draw) == pool[i],
{
    let draw = i as u64;
    assert(draw as int % pool.len() as int == i) by (nonlinear_arith)
        requires
            0 <= i < pool.len(),
            draw as int == i,
    ;
    assert(drawn_of(pool, draw) == pool[i]);
}

/// The events of a tunnel whose resolution gives `total` candidates, whose
/// first attempts fail as `failures` tells, and whose next attempt connects.
pub open spec fn connects_after(total: usize, failures: Seq<TunnelEvent>) -> Seq<TunnelEvent> {
    seq![TunnelEvent::Resolved { candidates: total }] + failures.push(TunnelEvent::Connected)
}

/// Candidates are tried in resolution order, one at a time, each from the
/// local address of its own draw, and the first that connects gets the
/// relay: after `k` failed attempts and a connection, the actions were the
/// attempts on candidates `0` to `k`, in that order, and then the relay on
/// candidate `k`.
pub proof fn law_first_connection_wins(
    total: usize,
    failures: Seq<TunnelEvent>,
    pool: Seq<LocalAddress>,
    draws: Seq<u64>,
)
    requires
        failures.len() < total,
        draws.len() == failures.len() + 2,
        forall|j: int| 0 <= j < failures.len() ==> is_attempt_failure(#[trigger] failures[j]),
    ensures
        state_after(TunnelState::Resolving, connects_after(total, failures), pool, draws) == (
        TunnelState::Relaying { candidate: failures.len() as usize }),
        actions_along(TunnelState::Resolving, connects_after(total, failures), pool, draws).len()
            == failures.len() + 2,
        forall|j: int|
            0 <= j <= failures.len() ==> #[trigger] actions_along(
                TunnelState::Resolving,
                connects_after(total, failures),
                pool,
                draws,
            )[j] == (TunnelAction::Attempt {
                candidate: j as usize,
                local: drawn_of(pool, draws[j]),
            }),
        actions_along(TunnelState::Resolving, connects_after(total, failures), pool, draws)[
            failures.len() as int + 1
        ] == (TunnelAction::Relay { candidate: failures.len() as usize }),
{
    let events = connects_after(total, failures);
    let first = TunnelState::Attempting { candidate: 0, total };
    let all = actions_along(TunnelState::Resolving, events, pool, draws);
    let tail = actions_along(first, failures.push(TunnelEvent::Connected), pool, draws.drop_first());
    assert(events[0] == TunnelEvent::Resolved { candidates: total });
    assert(events.drop_first() =~= failures.push(TunnelEvent::Connected));
    assert(step_of(TunnelState::Resolving, events[0], pool, draws[0]).0 == first);
    lemma_failures_then_connection(0, total, failures, pool, draws.drop_first());
    assert(all == seq![step_of(TunnelState::Resolving, events[0], pool, draws[0]).1] + tail);
    assert forall|j: int| 0 <= j <= failures.len() implies #[trigger] all[j] == (
    TunnelAction::Attempt { candidate: j as usize, local: drawn_of(pool, draws[j]) }) by {
        if j > 0 {
            assert(all[j] == tail[j - 1]);
            assert(draws.drop_first()[j - 1] == draws[j]);
        }
    }
    assert(all[failures.len() as int + 1] == tail[failures.len() as int]);
}

/// Once a tunnel is closed it stays closed, and every further action is to stop.
pub proof fn law_closed_stays_closed(events: Seq<TunnelEvent>, pool: Seq<LocalAddress>, draws: Seq<u64>)
    requires
        draws.len() == events.len(),
    ensures
        state_after(TunnelState::Closed, events, pool, draws) == TunnelState::Closed,
        actions_along(TunnelState::Closed, events, pool, draws).len() == events.len(),
        forall|j: int|
            0 <= j < events.len() ==> #[trigger] actions_along(
                TunnelState::Closed,
                events,
                pool,
                draws,
            )[j] == TunnelAction::Stop,
    decreases events.len(),
{
    if events.len() > 0 {
        law_closed_stays_closed(events.drop_first(), pool, draws.drop_first());
        let all = actions_along(TunnelState::Closed, events, pool, draws);
        let tail = actions_along(TunnelState::Closed, events.drop_first(), pool, draws.drop_first());
        assert(all == seq![TunnelAction::Stop] + tail);
        assert forall|j: int| 0 <= j < events.len() implies #[trigger] all[j]
            == TunnelAction::Stop by {
            if j > 0 {
                assert(all[j] == tail[j - 1]);
            }
        }
    }
}

/// After the connection that won, no candidate is tried any more: whatever
/// is reported while the relay runs, no action is an attempt or a second relay.
pub proof fn law_no_attempt_follows_the_relay(
    candidate: usize,
    events: Seq<TunnelEvent>,
    pool: Seq<LocalAddress>,
    draws: Seq<u64>,
)
    requires
        draws.len() == events.len(),
    ensures
        forall|j: int|
            0 <= j < events.len() ==> #[trigger] actions_along(
                TunnelState::Relaying { candidate },
                events,
                pool,
                draws,
            )[j] == TunnelAction::Stop,
{
    if events.len() > 0 {
        let state = TunnelState::Relaying { candidate };
        law_closed_stays_closed(events.drop_first(), pool, draws.drop_first());
        let all = actions_along(state, events, pool, draws);
        let tail = actions_along(TunnelState::Closed, events.drop_first(), pool, draws.drop_first());
        assert(step_of(state, events[0], pool, draws[0]) == (
            TunnelState::Closed,
            TunnelAction::Stop,
        ));
        assert(all == seq![TunnelAction::Stop] + tail);
        assert forall|j: int| 0 <= j < events.len() implies #[trigger] all[j]
            == TunnelAction::Stop by {
            if j > 0 {
                assert(all[j] == tail[j - 1]);
            }
        }
    }
}

/// An attempt is only ever asked for from the address that the step's own
/// draw selects, and only on a candidate that resolution gave.
pub proof fn law_attempts_use_their_own_draw(
    state: TunnelState,
    event: TunnelEvent,
    pool: Seq<LocalAddress>,
    draw: u64,
)
    ensures
        match step_of(state, event, pool, draw).1 {
            TunnelAction::Attempt { candidate, local } => local == drawn_of(pool, draw) && (match step_of(
                state,
                event,
                pool,
                draw,
            ).0 {
                TunnelState::Attempting { candidate: c, total } => c == candidate && candidate
                    < total,
                _ => false,
            }),
            _ => true,
        },
{
}

/// A failed resolution, or one without candidates, abandons the tunnel
/// with no attempt made.
pub proof fn law_unresolved_authority_is_abandoned(pool: Seq<LocalAddress>, draw: u64)
    ensures
        step_of(TunnelState::Resolving, TunnelEvent::ResolveFailed, pool, draw) == (
            TunnelState::Closed,
            TunnelAction::Stop,
        ),
        step_of(TunnelState::Resolving, TunnelEvent::Resolved { candidates: 0 }, pool, draw) == (
            TunnelState::Closed,
            TunnelAction::Stop,
        ),
{
}

/// When the last candidate fails too, the tunnel is closed.
pub proof fn law_exhaustion_closes(total: usize, event: TunnelEvent, pool: Seq<LocalAddress>, draw: u64)
    requires
        total > 0,
        is_attempt_failure(event),
    ensures
        step_of(
            TunnelState::Attempting { candidate: (total - 1) as usize, total },
            event,
            pool,
            draw,
        ) == (TunnelState::Closed, TunnelAction::Stop),
{
}

/// Only listed credentials pass: when a Basic value encodes the text
/// `presented` and is allowed, `presented` is `login:password` of an entry.
pub proof fn law_only_listed_credentials_pass(
    header: Seq<u8>,
    presented: Seq<u8>,
    allowed: Seq<CredentialView>,
)
    requires
        basic_payload(header) == Some(base64_of(presented)),
        credentials_allowed(header, allowed),
    ensures
        exists|i: int| 0 <= i < allowed.len() && presented == user_pass(#[trigger] allowed[i]),
{
    let i = choose|i: int|
        0 <= i < allowed.len() && base64_of(presented) == base64_of(
            user_pass(#[trigger] allowed[i]),
        );
    lemma_encoding_is_injective(presented, user_pass(allowed[i]));
}

/// Without a token header, the alternate header alone passes the token check.
pub proof fn law_alternate_header_vouches(req: RequestView, policy: PolicyView, expected: Seq<u8>)
    requires
        lookup(req.headers, token_header()) is None,
        lookup(req.headers, alternate_token_header()) is Some,
    ensures
        passes_token_check(req, policy, expected),
{
}

} // verus!
