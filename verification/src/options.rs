//! Configuration that a backend holds for the protocol layers above it. It
//! is fixed when the backend is made; what a backend hands out is a
//! snapshot.

use crate::addr::MacAddress;
use crate::time::Duration;
use std::collections::HashMap;
use vstd::prelude::*;

verus! {

broadcast use vstd::std_specs::hash::group_hash_axioms;

/// How address resolution behaves.
#[derive(Debug)]
pub struct ArpOptions {
    /// How often a request is sent again before resolution gives up.
    pub retry_count: usize,
    /// How long a resolved mapping stays in the cache.
    pub cache_ttl: Duration,
    /// How long one request waits for its answer.
    pub request_timeout: Duration,
    /// Mappings known from the start, keyed by the IPv4 address as a number
    /// (see [`crate::addr::Ipv4Addr`]).
    pub initial_values: HashMap<u32, MacAddress>,
}

/// Address-resolution options as contracts see them.
pub struct ArpOptionsView {
    pub retry_count: usize,
    pub cache_ttl: Duration,
    pub request_timeout: Duration,
    pub initial_values: Map<u32, MacAddress>,
}

impl View for ArpOptions {
    type V = ArpOptionsView;

    open spec fn view(&self) -> ArpOptionsView {
        ArpOptionsView {
            retry_count: self.retry_count,
            cache_ttl: self.cache_ttl,
            request_timeout: self.request_timeout,
            initial_values: self.initial_values@,
        }
    }
}

impl ArpOptions {
    /// The default options: five retries, a cache lifetime of 15 s, a
    /// request timeout of 20 s, and no mapping known from the start.
    pub open spec fn default_view() -> ArpOptionsView {
        ArpOptionsView {
            retry_count: 5,
            cache_ttl: Duration { nanos: 15_000_000_000 },
            request_timeout: Duration { nanos: 20_000_000_000 },
            initial_values: Map::empty(),
        }
    }
}

impl Default for ArpOptions {
    fn default() -> (options: ArpOptions)
        ensures
            options@ == ArpOptions::default_view(),
    {
        ArpOptions {
            retry_count: 5,
            cache_ttl: Duration::from_secs(15),
            request_timeout: Duration::from_secs(20),
            initial_values: HashMap::new(),
        }
    }
}

impl Clone for ArpOptions {
    fn clone(&self) -> (copy: ArpOptions)
        ensures
            copy@ == self@,
    {
        ArpOptions {
            retry_count: self.retry_count,
            cache_ttl: self.cache_ttl,
            request_timeout: self.request_timeout,
            initial_values: self.initial_values.clone(),
        }
    }
}

/// The tunable parameters of the transport layer. This crate carries them
/// and never reads them.
#[derive(Clone, Copy, Debug, PartialEq, Eq, Structural)]
pub struct TcpOptions {
    /// The largest segment this endpoint offers to receive.
    pub advertised_mss: usize,
    /// How often a handshake segment is sent again.
    pub handshake_retries: usize,
    /// How long a handshake segment waits for its answer.
    pub handshake_timeout: Duration,
    /// The receive window this endpoint offers.
    pub receive_window_size: usize,
    /// How often a data segment is sent again.
    pub retries: usize,
    /// How long an acknowledgement may wait for data to ride on.
    pub trailing_ack_delay: Duration,
}

impl TcpOptions {
    /// The default options.
    pub open spec fn default_value() -> TcpOptions {
        TcpOptions {
            advertised_mss: 536,
            handshake_retries: 5,
            handshake_timeout: Duration { nanos: 3_000_000_000 },
            receive_window_size: 0xffff,
            retries: 5,
            trailing_ack_delay: Duration { nanos: 5_000 },
        }
    }
}

impl Default for TcpOptions {
    fn default() -> (options: TcpOptions)
        ensures
            options == TcpOptions::default_value(),
    {
        TcpOptions {
            advertised_mss: 536,
            handshake_retries: 5,
            handshake_timeout: Duration::from_secs(3),
            receive_window_size: 0xffff,
            retries: 5,
            trailing_ack_delay: Duration::from_nanos(5_000),
        }
    }
}

} // verus!
