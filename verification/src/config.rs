//! Resolved process configuration: one immutable record created at startup
//! and shared read-only by every handler task.

use vstd::prelude::*;

verus! {

/// The default listen port.
pub const DEFAULT_PORT: u16 = 34567;

/// The default number of scheduler worker threads.
pub const DEFAULT_THREADS: usize = 1;

/// The default minimum byte count before an echo is triggered.
pub const DEFAULT_MIN_RESPONSE_LEN: usize = 1;

/// The resolved configuration of the echo service.
///
/// It is created once at startup and never mutated afterwards; every handler
/// reads it. `threads` is the worker-thread count of the scheduler and must
/// be positive.
#[derive(Clone, Copy, Debug)]
pub struct Config {
    /// TCP/UDP listen port.
    pub port: u16,
    /// Bind to the IPv6 wildcard address instead of the IPv4 one.
    pub ipv6: bool,
    /// Number of scheduler worker threads; always positive.
    pub threads: usize,
    /// Minimum byte count that must accumulate (TCP) or be present in a
    /// single datagram (UDP) before the server echoes data back.
    pub min_response_len: usize,
    /// Enables per-event logging.
    pub verbose: bool,
}

impl Config {
    /// A configuration is well formed when its worker-thread count is positive.
    pub open spec fn wf(self) -> bool {
        self.threads >= 1
    }

    /// Builds a configuration from resolved option values.
    pub fn new(port: u16, ipv6: bool, threads: usize, min_response_len: usize, verbose: bool) -> (c: Config)
        requires
            threads >= 1,
        ensures
            c == (Config { port, ipv6, threads, min_response_len, verbose }),
            c.wf(),
    {
        Config { port, ipv6, threads, min_response_len, verbose }
    }

    /// The configuration that holds every option's default value.
    pub fn default_config() -> (c: Config)
        ensures
            c == (Config {
                port: DEFAULT_PORT,
                ipv6: false,
                threads: DEFAULT_THREADS,
                min_response_len: DEFAULT_MIN_RESPONSE_LEN,
                verbose: false,
            }),
            c.wf(),
    {
        Config {
            port: DEFAULT_PORT,
            ipv6: false,
            threads: DEFAULT_THREADS,
            min_response_len: DEFAULT_MIN_RESPONSE_LEN,
            verbose: false,
        }
    }
}

} // verus!
