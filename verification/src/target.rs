//! The request target. Its grammar is that of `hyper::Uri`; this module
//! asks the parser for the two parts that the proxy's decisions read.

use hyper::Uri;
use vstd::prelude::*;

verus! {

/// The host that `hyper::Uri` finds in a request target: `None` when the
/// target is no valid URI or has no authority.
pub uninterp spec fn host_in(target: Seq<u8>) -> Option<Seq<u8>>;

/// The authority (`host:port`, with user information if any) that
/// `hyper::Uri` finds in a request target: `None` when the target is no
/// valid URI or has no authority.
pub uninterp spec fn authority_in(target: Seq<u8>) -> Option<Seq<u8>>;

/// Parses with `hyper::Uri::try_from` and reads `Uri::host`. Trusted: the
/// result is a function of the target's bytes alone. Nothing is claimed
/// about which targets have a host.
#[verifier::external_body]
fn uri_host(target: &[u8]) -> (r: Option<Vec<u8>>)
    ensures
        match r {
            Some(h) => host_in(target@) == Some(h@),
            None => host_in(target@) is None,
        },
{
    match Uri::try_from(target) {
        Ok(uri) => match uri.host() {
            Some(h) => Some(h.as_bytes().to_vec()),
            None => None,
        },
        Err(_) => None,
    }
}

/// Parses with `hyper::Uri::try_from` and reads `Uri::authority`. Trusted:
/// the result is a function of the target's bytes alone. Nothing is claimed
/// about which targets have an authority.
#[verifier::external_body]
fn uri_authority(target: &[u8]) -> (r: Option<Vec<u8>>)
    ensures
        match r {
            Some(a) => authority_in(target@) == Some(a@),
            None => authority_in(target@) is None,
        },
{
    match Uri::try_from(target) {
        Ok(uri) => match uri.authority() {
            Some(a) => Some(a.as_str().as_bytes().to_vec()),
            None => None,
        },
        Err(_) => None,
    }
}

/// The target's host, empty where it has none.
pub open spec fn target_host(target: Seq<u8>) -> Seq<u8> {
    match host_in(target) {
        Some(h) => h,
        None => Seq::<u8>::empty(),
    }
}

/// The target's authority, empty where it has none.
pub open spec fn target_authority(target: Seq<u8>) -> Seq<u8> {
    match authority_in(target) {
        Some(a) => a,
        None => Seq::<u8>::empty(),
    }
}

/// The host of a request target; empty when the target does not parse or
/// names no host.
pub fn host_of(target: &[u8]) -> (h: Vec<u8>)
    ensures
        h@ == target_host(target@),
{
    match uri_host(target) {
        Some(h) => h,
        None => Vec::new(),
    }
}

/// The authority of a request target; empty when the target does not parse
/// or has none.
pub fn authority_of(target: &[u8]) -> (a: Vec<u8>)
    ensures
        a@ == target_authority(target@),
{
    match uri_authority(target) {
        Some(a) => a,
        None => Vec::new(),
    }
}

} // verus!
