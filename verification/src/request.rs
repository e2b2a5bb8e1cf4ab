//! The part of an inbound request that the proxy's decisions read: method,
//! target and headers, all as plain bytes.

use vstd::prelude::*;
use crate::text::{eq_ignore_case, equals_ignore_case};

verus! {

/// The request method, as far as routing distinguishes it.
#[derive(Clone, Copy, Debug, PartialEq, Eq, Structural)]
pub enum Method {
    /// `CONNECT`: the client asks for an opaque tunnel.
    Connect,
    /// Every other method: the request is replayed against the origin.
    Other,
}

/// One header line.
#[derive(Clone, Debug)]
pub struct Header {
    pub name: Vec<u8>,
    pub value: Vec<u8>,
}

pub struct HeaderView {
    pub name: Seq<u8>,
    pub value: Seq<u8>,
}

impl View for Header {
    type V = HeaderView;

    open spec fn view(&self) -> HeaderView {
        HeaderView { name: self.name@, value: self.value@ }
    }
}

/// An inbound request: the method, the request target as it stands on the
/// request line, and the headers in the order received.
#[derive(Clone, Debug)]
pub struct InboundRequest {
    pub method: Method,
    pub target: Vec<u8>,
    pub headers: Vec<Header>,
}

pub struct RequestView {
    pub method: Method,
    pub target: Seq<u8>,
    pub headers: Seq<HeaderView>,
}

impl View for InboundRequest {
    type V = RequestView;

    open spec fn view(&self) -> RequestView {
        RequestView {
            method: self.method,
            target: self.target@,
            headers: Seq::new(self.headers@.len(), |i: int| self.headers@[i]@),
        }
    }
}

/// The value of the first header whose name equals `name` up to letter case.
pub open spec fn lookup(headers: Seq<HeaderView>, name: Seq<u8>) -> Option<Seq<u8>>
    decreases headers.len(),
{
    if headers.len() == 0 {
        None
    } else if eq_ignore_case(headers[0].name, name) {
        Some(headers[0].value)
    } else {
        lookup(headers.drop_first(), name)
    }
}

impl InboundRequest {
    /// The position of the first header named `name`, letter case ignored.
    pub fn header_position(&self, name: &[u8]) -> (r: Option<usize>)
        ensures
            match r {
                Some(i) => i < self.headers@.len() && lookup(self@.headers, name@) == Some(
                    self.headers@[i as int].value@,
                ),
                None => lookup(self@.headers, name@) is None,
            },
    {
        let ghost all = self@.headers;
        let mut i: usize = 0;
        proof {
            assert(all.skip(0) =~= all);
        }
        while i < self.headers.len()
            invariant
                i <= self.headers@.len(),
                all == self@.headers,
                lookup(all, name@) == lookup(all.skip(i as int), name@),
            decreases self.headers@.len() - i,
        {
            proof {
                assert(all.skip(i as int).drop_first() =~= all.skip(i + 1));
                assert(all.skip(i as int)[0] == self.headers@[i as int]@);
            }
            if equals_ignore_case(self.headers[i].name.as_slice(), name) {
                return Some(i);
            }
            i += 1;
        }
        None
    }
}

} // verus!
