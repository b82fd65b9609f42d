//! Network endpoints and the addresses a program binds to and talks to.
use vstd::prelude::*;

use crate::relay::TICK_RATE;

verus! {

/// An IPv4 socket address: the address as a `u32` (first octet in the high
/// byte) and the port.
#[derive(Clone, Copy, Debug, PartialEq, Eq, Hash, Structural)]
pub struct Endpoint {
    pub ip: u32,
    pub port: u16,
}

/// `127.0.0.1` as a `u32`.
pub const LOCALHOST: u32 = 0x7f00_0001;

/// The port used when none is given.
pub const DEFAULT_PORT: u16 = 8080;

/// The address used for both ends when none is given: `127.0.0.1:8080`.
pub fn default_addr() -> (r: Endpoint)
    ensures
        r == (Endpoint { ip: LOCALHOST, port: DEFAULT_PORT }),
{
    Endpoint { ip: LOCALHOST, port: DEFAULT_PORT }
}

/// The local address to bind to, the remote address to talk to, and the
/// server's distribution rounds per second.
#[derive(Clone, Copy, Debug, PartialEq, Eq, Structural)]
pub struct Config {
    local_addr: Endpoint,
    remote_addr: Endpoint,
    tick_rate: u64,
}

impl Config {
    /// A server cannot distribute zero times per second.
    #[verifier::type_invariant]
    spec fn positive_rate(self) -> bool {
        self.tick_rate > 0
    }

    pub closed spec fn spec_tick_rate(&self) -> u64 {
        self.tick_rate
    }

    pub closed spec fn spec_local_addr(&self) -> Endpoint {
        self.local_addr
    }

    pub closed spec fn spec_remote_addr(&self) -> Endpoint {
        self.remote_addr
    }

    /// A configuration with the given addresses and the default tick rate.
    pub fn new(local_addr: Endpoint, remote_addr: Endpoint) -> (r: Config)
        ensures
            r.spec_local_addr() == local_addr,
            r.spec_remote_addr() == remote_addr,
            r.spec_tick_rate() == TICK_RATE,
    {
        Config { local_addr, remote_addr, tick_rate: TICK_RATE }
    }

    /// The same configuration with another tick rate, or `None` for a rate of
    /// zero.
    pub fn with_tick_rate(self, tick_rate: u64) -> (r: Option<Config>)
        ensures
            tick_rate == 0 ==> r is None,
            tick_rate > 0 ==> (r matches Some(c) && c.spec_local_addr() == self.spec_local_addr()
                && c.spec_remote_addr() == self.spec_remote_addr() && c.spec_tick_rate()
                == tick_rate),
    {
        if tick_rate == 0 {
            None
        } else {
            Some(Config { local_addr: self.local_addr, remote_addr: self.remote_addr, tick_rate })
        }
    }

    /// Distribution rounds per second; never zero.
    pub fn tick_rate(&self) -> (r: u64)
        ensures
            r == self.spec_tick_rate(),
            r > 0,
    {
        proof {
            use_type_invariant(self);
        }
        self.tick_rate
    }

    /// The address to bind to.
    pub fn local_addr(&self) -> (r: Endpoint)
        ensures
            r == self.spec_local_addr(),
    {
        self.local_addr
    }

    /// The address to talk to.
    pub fn remote_addr(&self) -> (r: Endpoint)
        ensures
            r == self.spec_remote_addr(),
    {
        self.remote_addr
    }
}

} // verus!
