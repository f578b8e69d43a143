//! The capability that protocol code programs against: a clock, futures
//! that wait on it, randomness, the local addresses and options, and a way
//! to send a frame.

use crate::addr::{Ipv4Addr, MacAddress};
use crate::error::RuntimeError;
use crate::options::{ArpOptions, ArpOptionsView, TcpOptions};
use crate::time::{Duration, Timestamp};
use crate::timer::{
    advance_clock_outcome, poll_outcome, wait_outcome, wait_until_outcome, TimerEntry, TimerView,
    WaitFuture, WaitState,
};
use vstd::prelude::*;

verus! {

/// What stays as it is for the whole life of a backend: its two addresses
/// and the options it was made with.
pub struct Identity {
    pub link_addr: MacAddress,
    pub ipv4_addr: Ipv4Addr,
    pub arp_options: ArpOptionsView,
    pub tcp_options: TcpOptions,
}

/// One backend, as protocol code sees it. A runtime has a single owner;
/// every operation that changes it takes it by `&mut`.
pub trait Runtime: Sized {
    /// The invariant of the backend.
    spec fn wf(&self) -> bool;

    /// The state of the backend's timer.
    spec fn clock(&self) -> TimerView;

    /// The backend's addresses and options.
    spec fn identity(&self) -> Identity;

    /// The timer of a well-formed backend is well formed.
    proof fn lemma_clock_wf(&self)
        requires
            self.wf(),
        ensures
            self.clock().wf(),
    ;

    /// Moves the clock to `now` and resolves the deadlines this reaches;
    /// see [`advance_clock_outcome`]. The embedding event loop calls this
    /// once per turn.
    fn advance_clock(&mut self, now: Timestamp) -> (r: Result<Vec<TimerEntry>, RuntimeError>)
        requires
            old(self).wf(),
        ensures
            final(self).wf(),
            advance_clock_outcome(old(self).clock(), now, r, final(self).clock()),
            final(self).identity() == old(self).identity(),
    ;

    /// Hands a complete link-layer frame to the backend for sending. The
    /// backend reads `buf` during the call and keeps no reference to it.
    fn transmit(&mut self, buf: &[u8]) -> (r: Result<(), RuntimeError>)
        requires
            old(self).wf(),
        ensures
            final(self).wf(),
            final(self).clock() == old(self).clock(),
            final(self).identity() == old(self).identity(),
    ;

    fn local_link_addr(&self) -> (addr: MacAddress)
        ensures
            addr == self.identity().link_addr,
    ;

    fn local_ipv4_addr(&self) -> (addr: Ipv4Addr)
        ensures
            addr == self.identity().ipv4_addr,
    ;

    /// A snapshot of the address-resolution options.
    fn arp_options(&self) -> (options: ArpOptions)
        ensures
            options@ == self.identity().arp_options,
    ;

    /// A snapshot of the transport options.
    fn tcp_options(&self) -> (options: TcpOptions)
        ensures
            options == self.identity().tcp_options,
    ;

    /// A future that resolves `duration` from now; see [`wait_outcome`].
    fn wait(&mut self, duration: Duration) -> (r: Result<WaitFuture, RuntimeError>)
        requires
            old(self).wf(),
        ensures
            final(self).wf(),
            wait_outcome(old(self).clock(), duration, r, final(self).clock()),
            final(self).identity() == old(self).identity(),
    ;

    /// A future that resolves at `when`; see [`wait_until_outcome`].
    fn wait_until(&mut self, when: Timestamp) -> (r: Result<WaitFuture, RuntimeError>)
        requires
            old(self).wf(),
        ensures
            final(self).wf(),
            wait_until_outcome(old(self).clock(), when, r, final(self).clock()),
            final(self).identity() == old(self).identity(),
    ;

    /// Asks a future for its completion; see [`poll_outcome`].
    fn poll(&self, fut: &mut WaitFuture) -> (s: WaitState)
        ensures
            poll_outcome(self.clock(), old(fut)@, s, final(fut)@),
    ;

    /// Discards a future: if it was pending, its entry leaves the queue.
    fn cancel(&mut self, fut: WaitFuture)
        requires
            old(self).wf(),
        ensures
            final(self).wf(),
            final(self).clock() == old(self).clock().cancel(fut@.id),
            final(self).identity() == old(self).identity(),
    ;

    /// What the clock reads.
    fn now(&self) -> (t: Timestamp)
        ensures
            t == self.clock().now,
    ;

    /// One value from the backend's source of randomness.
    fn rng_gen_u32(&mut self) -> (word: u32)
        requires
            old(self).wf(),
        ensures
            final(self).wf(),
            final(self).clock() == old(self).clock(),
            final(self).identity() == old(self).identity(),
    ;
}

} // verus!
