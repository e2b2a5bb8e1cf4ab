//! The request dispatcher: gate first, then the route that the method asks for.

use vstd::prelude::*;
use crate::egress::{current_of, LocalAddress, OutboundAddressPool};
use crate::gate::{verdict_of, PolicyView, ProxyPolicy, Verdict};
use crate::request::{InboundRequest, Method, RequestView};
use crate::target::{authority_of, target_authority};

verus! {

/// What the connection handler does with a request.
#[derive(Clone, Debug, PartialEq, Eq)]
pub enum Action {
    /// Answer 400 with an empty body; open no connection.
    RejectBadRequest,
    /// Answer 407 with the challenge `Proxy-Authenticate: Basic`; open no connection.
    RequireBasicAuth,
    /// Answer 200 with an empty body at once, then try to establish a tunnel
    /// to `authority` in the background.
    Tunnel { authority: Vec<u8> },
    /// Replay the request against its origin from the local address `local`
    /// and hand the origin's answer back unchanged.
    Forward { local: LocalAddress },
}

pub enum ActionView {
    RejectBadRequest,
    RequireBasicAuth,
    Tunnel { authority: Seq<u8> },
    Forward { local: LocalAddress },
}

impl View for Action {
    type V = ActionView;

    open spec fn view(&self) -> ActionView {
        match self {
            Action::RejectBadRequest => ActionView::RejectBadRequest,
            Action::RequireBasicAuth => ActionView::RequireBasicAuth,
            Action::Tunnel { authority } => ActionView::Tunnel { authority: authority@ },
            Action::Forward { local } => ActionView::Forward { local: *local },
        }
    }
}

/// The route of an accepted request: `CONNECT` asks for a tunnel to the
/// target's authority, every other method is forwarded from the pool's
/// current address.
pub open spec fn route_given(method: Method, authority: Seq<u8>, pool: Seq<LocalAddress>) -> ActionView {
    match method {
        Method::Connect => ActionView::Tunnel { authority },
        Method::Other => ActionView::Forward { local: current_of(pool) },
    }
}

/// The action that a verdict asks for: the rejection, or the route of the
/// accepted request.
pub open spec fn action_given(
    verdict: Verdict,
    method: Method,
    authority: Seq<u8>,
    pool: Seq<LocalAddress>,
) -> ActionView {
    match verdict {
        Verdict::RejectBadRequest => ActionView::RejectBadRequest,
        Verdict::RejectUnauthorized => ActionView::RequireBasicAuth,
        Verdict::Accept => route_given(method, authority, pool),
    }
}

/// The action for a request under a policy.
pub open spec fn action_of(req: RequestView, policy: PolicyView, pool: Seq<LocalAddress>) -> ActionView {
    action_given(verdict_of(req, policy), req.method, target_authority(req.target), pool)
}

/// The status that the proxy itself answers with; `None` where the answer
/// is the origin's.
pub open spec fn status_of(action: ActionView) -> Option<u16> {
    match action {
        ActionView::RejectBadRequest => Some(400u16),
        ActionView::RequireBasicAuth => Some(407u16),
        ActionView::Tunnel { .. } => Some(200u16),
        ActionView::Forward { .. } => None,
    }
}

/// Whether any outbound connection follows from the action.
pub open spec fn opens_connection(action: ActionView) -> bool {
    action is Tunnel || action is Forward
}

impl Action {
    /// The status of the proxy's own answer, if the answer is its own.
    pub fn status(&self) -> (r: Option<u16>)
        ensures
            r == status_of(self@),
    {
        match self {
            Action::RejectBadRequest => Some(400),
            Action::RequireBasicAuth => Some(407),
            Action::Tunnel { .. } => Some(200),
            Action::Forward { .. } => None,
        }
    }

    /// Whether the answer carries the challenge `Proxy-Authenticate: Basic`.
    pub fn demands_basic_auth(&self) -> (r: bool)
        ensures
            r == (self@ is RequireBasicAuth),
    {
        match self {
            Action::RequireBasicAuth => true,
            _ => false,
        }
    }
}

/// The action for a verdict, given the request's method and the authority
/// of its target.
pub fn act_on(verdict: Verdict, method: Method, authority: Vec<u8>, pool: &OutboundAddressPool) -> (a:
    Action)
    requires
        pool.wf(),
    ensures
        a@ == action_given(verdict, method, authority@, pool@),
{
    match verdict {
        Verdict::RejectBadRequest => Action::RejectBadRequest,
        Verdict::RejectUnauthorized => Action::RequireBasicAuth,
        Verdict::Accept => match method {
            Method::Connect => Action::Tunnel { authority },
            Method::Other => Action::Forward { local: pool.current() },
        },
    }
}

/// Decides what is done with a request: the rejection that the verdict asks for, or the route.
pub fn dispatch(policy: &ProxyPolicy, pool: &OutboundAddressPool, req: &InboundRequest) -> (a: Action)
    requires
        pool.wf(),
    ensures
        a@ == action_of(req@, policy@, pool@),
{
    let verdict = policy.check(req);
    let authority = authority_of(req.target.as_slice());
    act_on(verdict, req.method, authority, pool)
}

} // verus!
