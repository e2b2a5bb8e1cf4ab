//! The access-control gate: host allowlist, secret token, proxy credentials,
//! checked in that order before anything is forwarded.

use vstd::prelude::*;
use vstd::slice::slice_subrange;
use crate::base64::{base64_of, encode};
use crate::digest::{hashed_token, token_proof};
use crate::request::{lookup, InboundRequest, RequestView};
use crate::target::{host_of, target_host};
use crate::text::{
    eq_ignore_case, equals, equals_ignore_case, is_space, is_space_byte, lower, lower_byte, trim,
    trimmed,
};

verus! {

/// One accepted login and password.
#[derive(Clone, Debug)]
pub struct Credential {
    pub login: Vec<u8>,
    pub password: Vec<u8>,
}

pub struct CredentialView {
    pub login: Seq<u8>,
    pub password: Seq<u8>,
}

impl View for Credential {
    type V = CredentialView;

    open spec fn view(&self) -> CredentialView {
        CredentialView { login: self.login@, password: self.password@ }
    }
}

/// The proxy's policy, fixed at startup. An empty list allows everything;
/// an empty secret token, or `enforce_token == false`, switches the token
/// check off.
#[derive(Clone, Debug)]
pub struct ProxyPolicy {
    pub allowed_credentials: Vec<Credential>,
    pub allowed_hosts: Vec<Vec<u8>>,
    pub secret_token: Vec<u8>,
    pub enforce_token: bool,
}

pub struct PolicyView {
    pub allowed_credentials: Seq<CredentialView>,
    pub allowed_hosts: Seq<Seq<u8>>,
    pub secret_token: Seq<u8>,
    pub enforce_token: bool,
}

impl View for ProxyPolicy {
    type V = PolicyView;

    open spec fn view(&self) -> PolicyView {
        PolicyView {
            allowed_credentials: credential_list(self.allowed_credentials@),
            allowed_hosts: host_list(self.allowed_hosts@),
            secret_token: self.secret_token@,
            enforce_token: self.enforce_token,
        }
    }
}

/// The byte strings that a list of hosts holds.
pub open spec fn host_list(hosts: Seq<Vec<u8>>) -> Seq<Seq<u8>> {
    Seq::new(hosts.len(), |i: int| hosts[i]@)
}

/// The entries that a list of credentials holds.
pub open spec fn credential_list(entries: Seq<Credential>) -> Seq<CredentialView> {
    Seq::new(entries.len(), |i: int| entries[i]@)
}

/// The outcome of the access check.
#[derive(Clone, Copy, Debug, PartialEq, Eq, Structural)]
pub enum Verdict {
    Accept,
    RejectBadRequest,
    RejectUnauthorized,
}

/// `x-http-secret-token`, the header that carries the hashed secret token.
pub open spec fn token_header() -> Seq<u8> {
    seq![
        120u8, 45u8, 104u8, 116u8, 116u8, 112u8, 45u8, 115u8, 101u8, 99u8, 114u8, 101u8, 116u8,
        45u8, 116u8, 111u8, 107u8, 101u8, 110u8,
    ]
}

/// `x-https-secret-token`, the header that vouches for a token already
/// validated on the secure transport.
pub open spec fn alternate_token_header() -> Seq<u8> {
    seq![
        120u8, 45u8, 104u8, 116u8, 116u8, 112u8, 115u8, 45u8, 115u8, 101u8, 99u8, 114u8, 101u8,
        116u8, 45u8, 116u8, 111u8, 107u8, 101u8, 110u8,
    ]
}

/// `proxy-authorization`.
pub open spec fn proxy_authorization_header() -> Seq<u8> {
    seq![
        112u8, 114u8, 111u8, 120u8, 121u8, 45u8, 97u8, 117u8, 116u8, 104u8, 111u8, 114u8, 105u8,
        122u8, 97u8, 116u8, 105u8, 111u8, 110u8,
    ]
}

/// A host is allowed when it is not empty and equals an entry of the
/// allowlist up to letter case.
pub open spec fn host_allowed(host: Seq<u8>, allowed: Seq<Seq<u8>>) -> bool {
    host.len() > 0 && exists|i: int|
        0 <= i < allowed.len() && eq_ignore_case(host, #[trigger] allowed[i])
}

/// Whether a trimmed header value starts with the scheme `Basic`, in any
/// letter case, followed by whitespace.
pub open spec fn has_basic_scheme(h: Seq<u8>) -> bool {
    h.len() >= 6 && lower(h[0]) == 98 && lower(h[1]) == 97 && lower(h[2]) == 115 && lower(h[3])
        == 105 && lower(h[4]) == 99 && is_space(h[5])
}

/// The credentials part of a `Basic` authorization value, if it is one.
pub open spec fn basic_payload(header: Seq<u8>) -> Option<Seq<u8>> {
    let h = trimmed(header);
    if has_basic_scheme(h) {
        Some(trimmed(h.skip(5)))
    } else {
        None
    }
}

/// `login:password`, the text that Basic authentication encodes.
pub open spec fn user_pass(c: CredentialView) -> Seq<u8> {
    c.login + seq![58u8] + c.password
}

/// A header value carries allowed credentials when it is a `Basic` value
/// whose payload is the base64 encoding of `login:password` for an entry.
pub open spec fn credentials_allowed(header: Seq<u8>, allowed: Seq<CredentialView>) -> bool {
    match basic_payload(header) {
        Some(p) => exists|i: int|
            0 <= i < allowed.len() && p == base64_of(user_pass(#[trigger] allowed[i])),
        None => false,
    }
}

/// First check: the host allowlist.
pub open spec fn passes_host_check(host: Seq<u8>, policy: PolicyView) -> bool {
    policy.allowed_hosts.len() == 0 || host_allowed(host, policy.allowed_hosts)
}

/// Whether the token check applies at all.
pub open spec fn token_required(policy: PolicyView) -> bool {
    policy.secret_token.len() > 0 && policy.enforce_token
}

/// Second check: the secret token, against the value `expected` that a
/// client has to present. A present token header must carry that value;
/// without one, the alternate header must be present.
pub open spec fn passes_token_check(req: RequestView, policy: PolicyView, expected: Seq<u8>) -> bool {
    !token_required(policy) || match lookup(req.headers, token_header()) {
        Some(v) => trimmed(v) == expected,
        None => lookup(req.headers, alternate_token_header()) is Some,
    }
}

/// Third check: the credential allowlist.
pub open spec fn passes_credential_check(req: RequestView, policy: PolicyView) -> bool {
    policy.allowed_credentials.len() == 0 || match lookup(
        req.headers,
        proxy_authorization_header(),
    ) {
        Some(v) => credentials_allowed(v, policy.allowed_credentials),
        None => false,
    }
}

/// The verdict when the target's host is `host` and the expected token
/// value is `expected`: the first failing check decides.
pub open spec fn verdict_given(
    req: RequestView,
    policy: PolicyView,
    host: Seq<u8>,
    expected: Seq<u8>,
) -> Verdict {
    if !passes_host_check(host, policy) {
        Verdict::RejectBadRequest
    } else if !passes_token_check(req, policy, expected) {
        Verdict::RejectBadRequest
    } else if !passes_credential_check(req, policy) {
        Verdict::RejectUnauthorized
    } else {
        Verdict::Accept
    }
}

/// The verdict on a request under a policy.
pub open spec fn verdict_of(req: RequestView, policy: PolicyView) -> Verdict {
    verdict_given(req, policy, target_host(req.target), token_proof(policy.secret_token))
}

fn token_header_name() -> (r: Vec<u8>)
    ensures
        r@ == token_header(),
{
    let r = vec![
        120u8, 45u8, 104u8, 116u8, 116u8, 112u8, 45u8, 115u8, 101u8, 99u8, 114u8, 101u8, 116u8,
        45u8, 116u8, 111u8, 107u8, 101u8, 110u8,
    ];
    proof {
        assert(r@ =~= token_header());
    }
    r
}

fn alternate_token_header_name() -> (r: Vec<u8>)
    ensures
        r@ == alternate_token_header(),
{
    let r = vec![
        120u8, 45u8, 104u8, 116u8, 116u8, 112u8, 115u8, 45u8, 115u8, 101u8, 99u8, 114u8, 101u8,
        116u8, 45u8, 116u8, 111u8, 107u8, 101u8, 110u8,
    ];
    proof {
        assert(r@ =~= alternate_token_header());
    }
    r
}

fn proxy_authorization_header_name() -> (r: Vec<u8>)
    ensures
        r@ == proxy_authorization_header(),
{
    let r = vec![
        112u8, 114u8, 111u8, 120u8, 121u8, 45u8, 97u8, 117u8, 116u8, 104u8, 111u8, 114u8, 105u8,
        122u8, 97u8, 116u8, 105u8, 111u8, 110u8,
    ];
    proof {
        assert(r@ =~= proxy_authorization_header());
    }
    r
}

/// Decides whether `host` is on the allowlist.
pub fn is_host_allowed(host: &[u8], allowed: &Vec<Vec<u8>>) -> (r: bool)
    ensures
        r == host_allowed(host@, host_list(allowed@)),
{
    let ghost list = host_list(allowed@);
    if host.len() == 0 {
        return false;
    }
    let mut i: usize = 0;
    while i < allowed.len()
        invariant
            i <= allowed@.len(),
            host@.len() > 0,
            list == host_list(allowed@),
            forall|j: int| 0 <= j < i ==> !eq_ignore_case(host@, #[trigger] list[j]),
        decreases allowed@.len() - i,
    {
        if equals_ignore_case(host, allowed[i].as_slice()) {
            proof {
                assert(eq_ignore_case(host@, list[i as int]));
            }
            return true;
        }
        i += 1;
    }
    false
}

/// Extracts the credentials part of a `Basic` authorization value.
pub fn parse_basic(header: &[u8]) -> (r: Option<Vec<u8>>)
    ensures
        match r {
            Some(p) => basic_payload(header@) == Some(p@),
            None => basic_payload(header@) is None,
        },
{
    let h = trim(header);
    if h.len() >= 6 && lower_byte(h[0]) == 98 && lower_byte(h[1]) == 97 && lower_byte(h[2]) == 115
        && lower_byte(h[3]) == 105 && lower_byte(h[4]) == 99 && is_space_byte(h[5]) {
        let rest = slice_subrange(h.as_slice(), 5, h.len());
        proof {
            assert(rest@ =~= h@.skip(5));
        }
        Some(trim(rest))
    } else {
        None
    }
}

impl Credential {
    /// `login:password` as bytes.
    pub fn to_user_pass(&self) -> (r: Vec<u8>)
        ensures
            r@ == user_pass(self@),
    {
        let mut out: Vec<u8> = Vec::new();
        let mut i: usize = 0;
        while i < self.login.len()
            invariant
                i <= self.login@.len(),
                out@ == self.login@.take(i as int),
            decreases self.login@.len() - i,
        {
            out.push(self.login[i]);
            proof {
                assert(out@ =~= self.login@.take(i + 1));
            }
            i += 1;
        }
        out.push(58);
        let mut k: usize = 0;
        proof {
            assert(self.login@.take(self.login@.len() as int) =~= self.login@);
            assert(out@ =~= self.login@ + seq![58u8] + self.password@.take(0));
        }
        while k < self.password.len()
            invariant
                k <= self.password@.len(),
                out@ == self.login@ + seq![58u8] + self.password@.take(k as int),
            decreases self.password@.len() - k,
        {
            out.push(self.password[k]);
            proof {
                assert(out@ =~= self.login@ + seq![58u8] + self.password@.take(k + 1));
            }
            k += 1;
        }
        proof {
            assert(self.password@.take(self.password@.len() as int) =~= self.password@);
        }
        out
    }
}

/// Decides whether a proxy-authorization value carries allowed credentials.
pub fn is_allowed_credentials(header: &[u8], allowed: &Vec<Credential>) -> (r: bool)
    ensures
        r == credentials_allowed(header@, credential_list(allowed@)),
{
    let ghost list = credential_list(allowed@);
    match parse_basic(header) {
        None => false,
        Some(payload) => {
            let mut i: usize = 0;
            while i < allowed.len()
                invariant
                    i <= allowed@.len(),
                    basic_payload(header@) == Some(payload@),
                    list == credential_list(allowed@),
                    forall|j: int|
                        0 <= j < i ==> payload@ != base64_of(user_pass(#[trigger] list[j])),
                decreases allowed@.len() - i,
            {
                let plain = allowed[i].to_user_pass();
                let encoded = encode(plain.as_slice());
                if equals(payload.as_slice(), encoded.as_slice()) {
                    proof {
                        assert(payload@ == base64_of(user_pass(list[i as int])));
                    }
                    return true;
                }
                i += 1;
            }
            false
        },
    }
}

impl ProxyPolicy {
    /// The access check, for a caller that already holds the target's host and the
    /// value a client has to present as token.
    pub fn check_given(&self, req: &InboundRequest, host: &[u8], expected: &[u8]) -> (v: Verdict)
        ensures
            v == verdict_given(req@, self@, host@, expected@),
    {
        if self.allowed_hosts.len() > 0 && !is_host_allowed(host, &self.allowed_hosts) {
            return Verdict::RejectBadRequest;
        }
        if self.secret_token.len() > 0 && self.enforce_token {
            let name = token_header_name();
            match req.header_position(name.as_slice()) {
                Some(i) => {
                    let presented = trim(req.headers[i].value.as_slice());
                    if !equals(presented.as_slice(), expected) {
                        return Verdict::RejectBadRequest;
                    }
                },
                None => {
                    let other = alternate_token_header_name();
                    if req.header_position(other.as_slice()).is_none() {
                        return Verdict::RejectBadRequest;
                    }
                },
            }
        }
        if self.allowed_credentials.len() > 0 {
            let name = proxy_authorization_header_name();
            match req.header_position(name.as_slice()) {
                Some(i) => {
                    if !is_allowed_credentials(
                        req.headers[i].value.as_slice(),
                        &self.allowed_credentials,
                    ) {
                        return Verdict::RejectUnauthorized;
                    }
                },
                None => {
                    return Verdict::RejectUnauthorized;
                },
            }
        }
        Verdict::Accept
    }

    /// The access check: the verdict on `req` under this policy.
    pub fn check(&self, req: &InboundRequest) -> (v: Verdict)
        ensures
            v == verdict_of(req@, self@),
    {
        let host = host_of(req.target.as_slice());
        if self.secret_token.len() > 0 && self.enforce_token {
            let expected = hashed_token(self.secret_token.as_slice());
            self.check_given(req, host.as_slice(), expected.as_slice())
        } else {
            let unused: Vec<u8> = Vec::new();
            self.check_given(req, host.as_slice(), unused.as_slice())
        }
    }
}

} // verus!
