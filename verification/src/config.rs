//! Process configuration as plain values; reading and writing the
//! configuration file is the boundary layer's concern.

use vstd::prelude::*;

verus! {

/// Service configuration: the per-client request budget and the port the
/// boundary layer listens on.
#[derive(Clone, Copy, Debug)]
pub struct Config {
    pub requests_per_minute: u32,
    pub port: u16,
}

impl Default for Config {
    fn default() -> (c: Self)
        ensures
            c.requests_per_minute == 100,
            c.port == 1111,
    {
        Config { requests_per_minute: 100, port: 1111 }
    }
}

} // verus!
