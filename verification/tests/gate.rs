use forward_proxy::dispatch::{act_on, dispatch, Action};
use forward_proxy::egress::{LocalAddress, OutboundAddressPool};
use forward_proxy::gate::{
    is_allowed_credentials, is_host_allowed, parse_basic, Credential, ProxyPolicy, Verdict,
};
use forward_proxy::request::{Header, InboundRequest, Method};

const ABC_SHA256: &[u8] = b"ba7816bf8f01cfea414140de5dae2223b00361a396177a9cb410ff61f20015ad";

fn open_policy() -> ProxyPolicy {
    ProxyPolicy {
        allowed_credentials: Vec::new(),
        allowed_hosts: Vec::new(),
        secret_token: Vec::new(),
        enforce_token: true,
    }
}

fn request(method: Method, target: &[u8], headers: &[(&[u8], &[u8])]) -> InboundRequest {
    InboundRequest {
        method,
        target: target.to_vec(),
        headers: headers
            .iter()
            .map(|(n, v)| Header { name: n.to_vec(), value: v.to_vec() })
            .collect(),
    }
}

fn pool() -> OutboundAddressPool {
    OutboundAddressPool::new(vec![
        LocalAddress { bits: 0x0a00_0001 },
        LocalAddress { bits: 0x0a00_0002 },
        LocalAddress { bits: 0x0a00_0003 },
    ])
    .unwrap()
}

fn alice() -> Credential {
    Credential { login: b"alice".to_vec(), password: b"s3cret".to_vec() }
}

#[test]
fn open_policy_accepts_connect_and_acknowledges_the_tunnel() {
    let req = request(Method::Connect, b"example.org:443", &[]);
    assert_eq!(open_policy().check(&req), Verdict::Accept);
    let action = dispatch(&open_policy(), &pool(), &req);
    assert_eq!(action, Action::Tunnel { authority: b"example.org:443".to_vec() });
    assert_eq!(action.status(), Some(200));
    assert!(!action.demands_basic_auth());
}

#[test]
fn unlisted_host_is_a_bad_request_before_any_connection() {
    let mut policy = open_policy();
    policy.allowed_hosts = vec![b"example.org".to_vec()];
    let req = request(Method::Connect, b"evil.com:443", &[]);
    assert_eq!(policy.check(&req), Verdict::RejectBadRequest);
    let action = dispatch(&policy, &pool(), &req);
    assert_eq!(action, Action::RejectBadRequest);
    assert_eq!(action.status(), Some(400));
    assert!(!action.demands_basic_auth());
}

#[test]
fn unlisted_host_is_rejected_for_every_method() {
    let mut policy = open_policy();
    policy.allowed_hosts = vec![b"example.org".to_vec(), b"example.net".to_vec()];
    let get = request(Method::Other, b"http://evil.com/", &[]);
    assert_eq!(policy.check(&get), Verdict::RejectBadRequest);
    let connect = request(Method::Connect, b"evil.com:443", &[]);
    assert_eq!(policy.check(&connect), Verdict::RejectBadRequest);
}

#[test]
fn listed_host_matches_in_any_letter_case() {
    let mut policy = open_policy();
    policy.allowed_hosts = vec![b"Example.ORG".to_vec()];
    assert_eq!(policy.check(&request(Method::Connect, b"example.org:443", &[])), Verdict::Accept);
    assert_eq!(
        policy.check(&request(Method::Other, b"http://EXAMPLE.org/a", &[])),
        Verdict::Accept
    );
    assert_eq!(
        policy.check(&request(Method::Other, b"http://sub.example.org/a", &[])),
        Verdict::RejectBadRequest
    );
}

#[test]
fn target_without_host_matches_no_allowlist() {
    let mut policy = open_policy();
    policy.allowed_hosts = vec![b"example.org".to_vec(), Vec::new()];
    assert_eq!(policy.check(&request(Method::Other, b"/path", &[])), Verdict::RejectBadRequest);
    assert_eq!(policy.check(&request(Method::Other, b"", &[])), Verdict::RejectBadRequest);
    assert!(!is_host_allowed(b"", &policy.allowed_hosts));
    assert!(is_host_allowed(b"EXAMPLE.ORG", &policy.allowed_hosts));
    assert_eq!(open_policy().check(&request(Method::Other, b"/path", &[])), Verdict::Accept);
}

#[test]
fn hashed_token_is_accepted_and_plain_token_rejected() {
    let mut policy = open_policy();
    policy.secret_token = b"abc".to_vec();
    let hashed = request(Method::Connect, b"example.org:443", &[(b"x-http-secret-token", ABC_SHA256)]);
    assert_eq!(policy.check(&hashed), Verdict::Accept);
    let plain = request(Method::Connect, b"example.org:443", &[(b"x-http-secret-token", b"abc")]);
    assert_eq!(policy.check(&plain), Verdict::RejectBadRequest);
    assert_eq!(dispatch(&policy, &pool(), &plain).status(), Some(400));
}

#[test]
fn token_header_is_found_in_any_case_and_trimmed() {
    let mut policy = open_policy();
    policy.secret_token = b" abc ".to_vec();
    let value = b"  ba7816bf8f01cfea414140de5dae2223b00361a396177a9cb410ff61f20015ad ";
    let req = request(Method::Other, b"http://example.org/", &[(b"X-Http-Secret-Token", value)]);
    assert_eq!(policy.check(&req), Verdict::Accept);
    let upper = b"BA7816BF8F01CFEA414140DE5DAE2223B00361A396177A9CB410FF61F20015AD";
    let req = request(Method::Other, b"http://example.org/", &[(b"x-http-secret-token", upper)]);
    assert_eq!(policy.check(&req), Verdict::RejectBadRequest);
}

#[test]
fn missing_token_is_rejected_unless_the_alternate_header_is_there() {
    let mut policy = open_policy();
    policy.secret_token = b"abc".to_vec();
    let none = request(Method::Other, b"http://example.org/", &[(b"accept", b"*/*")]);
    assert_eq!(policy.check(&none), Verdict::RejectBadRequest);
    let alternate =
        request(Method::Other, b"http://example.org/", &[(b"X-HTTPS-Secret-Token", b"anything")]);
    assert_eq!(policy.check(&alternate), Verdict::Accept);
    let both = request(
        Method::Other,
        b"http://example.org/",
        &[(b"x-https-secret-token", b"anything"), (b"x-http-secret-token", b"wrong")],
    );
    assert_eq!(policy.check(&both), Verdict::RejectBadRequest);
}

#[test]
fn first_token_header_decides() {
    let mut policy = open_policy();
    policy.secret_token = b"abc".to_vec();
    let req = request(
        Method::Other,
        b"http://example.org/",
        &[(b"x-http-secret-token", b"wrong"), (b"x-http-secret-token", ABC_SHA256)],
    );
    assert_eq!(policy.check(&req), Verdict::RejectBadRequest);
    assert_eq!(req.header_position(b"X-HTTP-SECRET-TOKEN"), Some(0));
    assert_eq!(req.header_position(b"x-https-secret-token"), None);
}

#[test]
fn token_is_not_checked_when_enforcement_is_off_or_the_secret_empty() {
    let mut policy = open_policy();
    policy.secret_token = b"abc".to_vec();
    policy.enforce_token = false;
    let req = request(Method::Other, b"http://example.org/", &[]);
    assert_eq!(policy.check(&req), Verdict::Accept);
    policy.enforce_token = true;
    policy.secret_token = Vec::new();
    assert_eq!(policy.check(&req), Verdict::Accept);
}

#[test]
fn missing_credentials_get_the_basic_challenge() {
    let mut policy = open_policy();
    policy.allowed_credentials = vec![alice()];
    let req = request(Method::Connect, b"example.org:443", &[]);
    assert_eq!(policy.check(&req), Verdict::RejectUnauthorized);
    let action = dispatch(&policy, &pool(), &req);
    assert_eq!(action, Action::RequireBasicAuth);
    assert_eq!(action.status(), Some(407));
    assert!(action.demands_basic_auth());
}

#[test]
fn matching_credentials_pass() {
    let mut policy = open_policy();
    policy.allowed_credentials =
        vec![Credential { login: b"bob".to_vec(), password: b"pw".to_vec() }, alice()];
    let value = b"Basic YWxpY2U6czNjcmV0";
    let req = request(Method::Connect, b"example.org:443", &[(b"Proxy-Authorization", value)]);
    assert_eq!(policy.check(&req), Verdict::Accept);
    let req = request(
        Method::Connect,
        b"example.org:443",
        &[(b"proxy-authorization", b"  basic   YWxpY2U6czNjcmV0  ")],
    );
    assert_eq!(policy.check(&req), Verdict::Accept);
}

#[test]
fn wrong_or_malformed_credentials_are_challenged() {
    let mut policy = open_policy();
    policy.allowed_credentials = vec![alice()];
    for value in [
        &b"Basic YWxpY2U6d3Jvbmc="[..],
        &b"YWxpY2U6czNjcmV0"[..],
        &b"BasicYWxpY2U6czNjcmV0"[..],
        &b"Bearer YWxpY2U6czNjcmV0"[..],
        &b"Basic alice:s3cret"[..],
        &b"Basic"[..],
        &b""[..],
    ] {
        let req = request(Method::Other, b"http://example.org/", &[(b"proxy-authorization", value)]);
        assert_eq!(policy.check(&req), Verdict::RejectUnauthorized);
    }
}

#[test]
fn basic_values_are_parsed_and_compared() {
    assert_eq!(parse_basic(b"Basic QWxhZGRpbjpvcGVuIHNlc2FtZQ=="), Some(b"QWxhZGRpbjpvcGVuIHNlc2FtZQ==".to_vec()));
    assert_eq!(parse_basic(b" BASIC \t abc "), Some(b"abc".to_vec()));
    assert_eq!(parse_basic(b"Basic"), None);
    assert_eq!(parse_basic(b"Digest abc"), None);
    let allowed = vec![Credential { login: b"Aladdin".to_vec(), password: b"open sesame".to_vec() }];
    assert_eq!(allowed[0].to_user_pass(), b"Aladdin:open sesame".to_vec());
    assert!(is_allowed_credentials(b"Basic QWxhZGRpbjpvcGVuIHNlc2FtZQ==", &allowed));
    assert!(!is_allowed_credentials(b"Basic QWxhZGRpbjpvcGVuIHNlc2FtZQ", &allowed));
    assert!(!is_allowed_credentials(b"Basic QWxhZGRpbjpvcGVuIHNlc2FtZQ==", &Vec::new()));
}

#[test]
fn checks_run_in_order_host_token_credentials() {
    let mut policy = open_policy();
    policy.allowed_hosts = vec![b"example.org".to_vec()];
    policy.secret_token = b"abc".to_vec();
    policy.allowed_credentials = vec![alice()];
    let nothing = request(Method::Connect, b"evil.com:443", &[]);
    assert_eq!(policy.check(&nothing), Verdict::RejectBadRequest);
    let host_only = request(Method::Connect, b"example.org:443", &[]);
    assert_eq!(policy.check(&host_only), Verdict::RejectBadRequest);
    let with_token =
        request(Method::Connect, b"example.org:443", &[(b"x-http-secret-token", ABC_SHA256)]);
    assert_eq!(policy.check(&with_token), Verdict::RejectUnauthorized);
    let complete = request(
        Method::Connect,
        b"example.org:443",
        &[(b"x-http-secret-token", ABC_SHA256), (b"proxy-authorization", b"Basic YWxpY2U6czNjcmV0")],
    );
    assert_eq!(policy.check(&complete), Verdict::Accept);
}

#[test]
fn repeated_checks_give_the_same_verdict() {
    let mut policy = open_policy();
    policy.allowed_hosts = vec![b"example.org".to_vec()];
    policy.secret_token = b"abc".to_vec();
    for req in [
        request(Method::Connect, b"example.org:443", &[(b"x-http-secret-token", ABC_SHA256)]),
        request(Method::Connect, b"example.org:443", &[]),
        request(Method::Other, b"http://evil.com/", &[]),
    ] {
        let first = policy.check(&req);
        let second = policy.check(&req);
        assert_eq!(first, second);
    }
}

#[test]
fn check_given_takes_host_and_expected_token_as_they_come() {
    let mut policy = open_policy();
    policy.allowed_hosts = vec![b"example.org".to_vec()];
    policy.secret_token = b"abc".to_vec();
    let req = request(Method::Connect, b"ignored:1", &[(b"x-http-secret-token", b" 00ff ")]);
    assert_eq!(policy.check_given(&req, b"example.org", b"00ff"), Verdict::Accept);
    assert_eq!(policy.check_given(&req, b"example.org", b"00fe"), Verdict::RejectBadRequest);
    assert_eq!(policy.check_given(&req, b"evil.com", b"00ff"), Verdict::RejectBadRequest);
}

#[test]
fn other_methods_are_forwarded_from_the_current_address() {
    let req = request(Method::Other, b"http://example.org/index.html", &[]);
    let action = dispatch(&open_policy(), &pool(), &req);
    assert_eq!(action, Action::Forward { local: LocalAddress { bits: 0x0a00_0001 } });
    assert_eq!(action.status(), None);
    assert!(!action.demands_basic_auth());
}

#[test]
fn act_on_follows_the_verdict() {
    let p = pool();
    assert_eq!(act_on(Verdict::RejectBadRequest, Method::Connect, b"a:1".to_vec(), &p), Action::RejectBadRequest);
    assert_eq!(act_on(Verdict::RejectUnauthorized, Method::Other, b"a:1".to_vec(), &p), Action::RequireBasicAuth);
    assert_eq!(
        act_on(Verdict::Accept, Method::Connect, b"a:1".to_vec(), &p),
        Action::Tunnel { authority: b"a:1".to_vec() }
    );
    assert_eq!(
        act_on(Verdict::Accept, Method::Other, b"a:1".to_vec(), &p),
        Action::Forward { local: p.current() }
    );
}
