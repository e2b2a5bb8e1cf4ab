//! The pool of local addresses from which outbound connections leave.

use vstd::prelude::*;

verus! {

/// A local IPv4 address as a 32-bit number, first octet in the high byte.
#[derive(Clone, Copy, Debug, PartialEq, Eq, Structural)]
pub struct LocalAddress {
    pub bits: u32,
}

/// Why a pool could not be built.
#[derive(Clone, Copy, Debug, PartialEq, Eq, Structural)]
pub enum ConfigurationError {
    /// No local address is available to bind.
    EmptyPool,
}

/// An ordered, non-empty list of local addresses, fixed at startup.
#[derive(Debug)]
pub struct OutboundAddressPool {
    addrs: Vec<LocalAddress>,
}

impl View for OutboundAddressPool {
    type V = Seq<LocalAddress>;

    closed spec fn view(&self) -> Seq<LocalAddress> {
        self.addrs@
    }
}

/// The address used for plainly forwarded requests: the first of the pool.
pub open spec fn current_of(pool: Seq<LocalAddress>) -> LocalAddress
    recommends
        pool.len() > 0,
{
    pool[0]
}

/// The address that a draw selects: the draw is reduced modulo the pool's
/// size, so equally likely draws give equally likely addresses whenever the
/// number of possible draws is a multiple of the size.
pub open spec fn drawn_of(pool: Seq<LocalAddress>, draw: u64) -> LocalAddress
    recommends
        pool.len() > 0,
{
    pool[draw as int % pool.len() as int]
}

impl OutboundAddressPool {
    /// A pool holds at least one address.
    pub open spec fn wf(&self) -> bool {
        self@.len() > 0
    }

    /// Builds the pool; an empty list is a configuration error.
    pub fn new(addrs: Vec<LocalAddress>) -> (r: Result<OutboundAddressPool, ConfigurationError>)
        ensures
            match r {
                Ok(pool) => addrs@.len() > 0 && pool@ == addrs@ && pool.wf(),
                Err(e) => addrs@.len() == 0 && e == ConfigurationError::EmptyPool,
            },
    {
        if addrs.len() == 0 {
            Err(ConfigurationError::EmptyPool)
        } else {
            Ok(OutboundAddressPool { addrs })
        }
    }

    /// The number of addresses.
    pub fn len(&self) -> (n: usize)
        ensures
            n == self@.len(),
    {
        self.addrs.len()
    }

    /// The address at a position.
    pub fn get(&self, i: usize) -> (a: LocalAddress)
        requires
            i < self@.len(),
        ensures
            a == self@[i as int],
    {
        self.addrs[i]
    }

    /// The stable choice: the same address on every call.
    pub fn current(&self) -> (a: LocalAddress)
        requires
            self.wf(),
        ensures
            a == current_of(self@),
            self@.contains(a),
    {
        self.addrs[0]
    }

    /// The address selected by a draw, which the caller takes afresh from a
    /// uniform source for every connection attempt.
    pub fn random(&self, draw: u64) -> (a: LocalAddress)
        requires
            self.wf(),
        ensures
            a == drawn_of(self@, draw),
            self@.contains(a),
    {
        let n: u64 = self.addrs.len() as u64;
        let k: u64 = draw % n;
        self.addrs[k as usize]
    }
}

} // verus!
