//! The simulated backend: a virtual clock, a random sequence that is the
//! same in every run, and an outgoing queue in memory. Several such
//! endpoints in one process can exchange frames without a network.

use crate::addr::{ipv4_from_octets, Ipv4Addr, MacAddress};
use crate::engine::Engine;
use crate::error::RuntimeError;
use crate::options::{ArpOptions, ArpOptionsView, TcpOptions};
use crate::rng::{
    draws, lemma_equal_seeds_equal_draws, SeededRng, SeededRngView, STREAM_WORDS,
};
use crate::runtime::{Identity, Runtime};
use crate::time::{Duration, Timestamp};
use crate::timer::{Timer, TimerEntry, TimerRc, TimerView, WaitFuture, WaitState};
use std::collections::VecDeque;
use vstd::prelude::*;
use vstd::slice::slice_to_vec;

verus! {

broadcast use vstd::std_specs::hash::group_hash_axioms;

/// The receive window that tests of the transport layer offer.
pub const RECEIVE_WINDOW_SIZE: usize = 1024;

/// The hardware address of the simulated host "alice".
pub const ALICE_MAC: [u8; 6] = [0x12, 0x23, 0x45, 0x67, 0x89, 0xab];

/// The octets of alice's IPv4 address.
pub const ALICE_IPV4: [u8; 4] = [192, 168, 1, 1];

/// The hardware address of the simulated host "bob".
pub const BOB_MAC: [u8; 6] = [0xab, 0x89, 0x67, 0x45, 0x23, 0x12];

/// The octets of bob's IPv4 address.
pub const BOB_IPV4: [u8; 4] = [192, 168, 1, 2];

/// The hardware address of the simulated host "carrie".
pub const CARRIE_MAC: [u8; 6] = [0xef, 0xcd, 0xab, 0x89, 0x67, 0x45];

/// The octets of carrie's IPv4 address.
pub const CARRIE_IPV4: [u8; 4] = [192, 168, 1, 3];

/// The seed of every simulated backend's random sequence.
pub const RNG_SEED: [u8; 32] = [
    0, 0, 0, 0, 0, 0, 0, 0, 0, 0, 0, 0, 0, 0, 0, 0, 0, 0, 0, 0, 0, 0, 0, 0, 0, 0, 0, 0, 0, 0, 0, 0,
];

/// The mappings that every simulated backend knows from the start, so
/// that simulated hosts find each other without a resolution exchange.
pub open spec fn known_hosts() -> Map<u32, MacAddress> {
    Map::empty().insert(ipv4_from_octets(ALICE_IPV4).bits, MacAddress { bytes: ALICE_MAC }).insert(
        ipv4_from_octets(BOB_IPV4).bits,
        MacAddress { bytes: BOB_MAC },
    ).insert(ipv4_from_octets(CARRIE_IPV4).bits, MacAddress { bytes: CARRIE_MAC })
}

/// The address-resolution options of every simulated backend.
pub open spec fn test_arp_options() -> ArpOptionsView {
    ArpOptionsView {
        retry_count: 2,
        cache_ttl: Duration { nanos: 600_000_000_000 },
        request_timeout: Duration { nanos: 1_000_000_000 },
        initial_values: known_hosts(),
    }
}

/// A simulated backend.
pub struct TestRuntime {
    name: &'static str,
    timer: TimerRc,
    rng: SeededRng,
    outgoing: VecDeque<Vec<u8>>,
    link_addr: MacAddress,
    ipv4_addr: Ipv4Addr,
    tcp_options: TcpOptions,
    arp_options: ArpOptions,
}

/// A simulated backend as contracts see it.
pub struct TestRuntimeView {
    pub name: Seq<char>,
    pub timer: TimerView,
    pub rng: SeededRngView,
    /// The frames sent and not yet popped, oldest first.
    pub outgoing: Seq<Seq<u8>>,
    pub identity: Identity,
}

impl TestRuntimeView {
    /// The backend after `frame` has been sent.
    pub open spec fn transmit(self, frame: Seq<u8>) -> TestRuntimeView {
        TestRuntimeView { outgoing: self.outgoing.push(frame), ..self }
    }

    /// The oldest frame that was sent and not yet popped, if there is one.
    pub open spec fn front(self) -> Option<Seq<u8>> {
        if self.outgoing.len() == 0 {
            None
        } else {
            Some(self.outgoing[0])
        }
    }

    /// The backend after its oldest frame has been popped.
    pub open spec fn pop_frame(self) -> TestRuntimeView {
        TestRuntimeView { outgoing: self.outgoing.skip(1), ..self }
    }
}

/// What popping a frame owes: where the queue is empty it fails and
/// changes nothing; otherwise it gives the oldest frame, which leaves the
/// queue.
pub open spec fn pop_frame_outcome(
    before: TestRuntimeView,
    r: Result<Vec<u8>, RuntimeError>,
    after: TestRuntimeView,
) -> bool {
    match before.front() {
        None => {
            &&& r matches Err(e)
            &&& e == RuntimeError::QueueEmpty
            &&& after == before
        },
        Some(oldest) => {
            &&& r matches Ok(frame)
            &&& frame@ == oldest
            &&& after == before.pop_frame()
        },
    }
}

/// A frame sent comes back as it was, once. Sent into an empty queue, the
/// frame is what the next pop gives, byte for byte; that pop leaves the
/// backend as it was before the frame was sent, so a second pop finds the
/// queue empty and fails.
pub proof fn lemma_loopback_round_trip(v: TestRuntimeView, frame: Seq<u8>)
    requires
        v.outgoing.len() == 0,
    ensures
        v.transmit(frame).front() == Some(frame),
        v.transmit(frame).pop_frame() == v,
        v.transmit(frame).pop_frame().front() == None::<Seq<u8>>,
{
    assert(v.transmit(frame).pop_frame().outgoing =~= v.outgoing);
}

/// Frames leave in the order in which they were sent: a frame sent into a
/// queue that holds others waits behind them.
pub proof fn lemma_frames_leave_in_order(v: TestRuntimeView, frame: Seq<u8>)
    requires
        v.outgoing.len() > 0,
    ensures
        v.transmit(frame).front() == v.front(),
        v.transmit(frame).pop_frame() == v.pop_frame().transmit(frame),
{
    assert(v.transmit(frame).pop_frame().outgoing =~= v.pop_frame().transmit(frame).outgoing);
}

/// Every simulated backend draws the same random sequence: whatever two
/// backends are called and wherever their clocks stand, the first `n`
/// words drawn from one are the first `n` drawn from the other.
pub proof fn lemma_random_sequence_reproducible(a: TestRuntimeView, b: TestRuntimeView, n: nat)
    requires
        a.rng.seed == b.rng.seed,
        a.rng.word_pos == b.rng.word_pos,
    ensures
        draws(a.rng, n) == draws(b.rng, n),
{
    lemma_equal_seeds_equal_draws(a.rng, b.rng, n);
}

impl View for TestRuntime {
    type V = TestRuntimeView;

    closed spec fn view(&self) -> TestRuntimeView {
        TestRuntimeView {
            name: self.name@,
            timer: self.timer@,
            rng: self.rng@,
            outgoing: self.outgoing@.map_values(|frame: Vec<u8>| frame@),
            identity: Identity {
                link_addr: self.link_addr,
                ipv4_addr: self.ipv4_addr,
                arp_options: self.arp_options@,
                tcp_options: self.tcp_options,
            },
        }
    }
}

impl TestRuntime {
    /// A backend named `name` whose clock reads `now`, with the given
    /// addresses, nothing registered, nothing sent, and its random
    /// sequence at the start.
    pub fn new(
        name: &'static str,
        now: Timestamp,
        link_addr: MacAddress,
        ipv4_addr: Ipv4Addr,
    ) -> (rt: TestRuntime)
        ensures
            rt.wf(),
            rt@ == fresh(name@, now, link_addr, ipv4_addr),
    {
        let mut arp_options = ArpOptions::default();
        arp_options.retry_count = 2;
        arp_options.cache_ttl = Duration::from_secs(600);
        arp_options.request_timeout = Duration::from_secs(1);
        arp_options.initial_values.insert(
            Ipv4Addr::from_octets(ALICE_IPV4).to_bits(),
            MacAddress::new(ALICE_MAC),
        );
        arp_options.initial_values.insert(
            Ipv4Addr::from_octets(BOB_IPV4).to_bits(),
            MacAddress::new(BOB_MAC),
        );
        arp_options.initial_values.insert(
            Ipv4Addr::from_octets(CARRIE_IPV4).to_bits(),
            MacAddress::new(CARRIE_MAC),
        );

        let rt = TestRuntime {
            name,
            timer: TimerRc(Timer::new(now)),
            rng: SeededRng::new(RNG_SEED),
            outgoing: VecDeque::new(),
            link_addr,
            ipv4_addr,
            tcp_options: TcpOptions::default(),
            arp_options,
        };
        assert(rt@.outgoing =~= Seq::empty());
        rt
    }

    /// Takes the oldest frame that was sent and not yet popped. Fails, and
    /// changes nothing, where there is none.
    pub fn pop_frame(&mut self) -> (r: Result<Vec<u8>, RuntimeError>)
        requires
            old(self).wf(),
        ensures
            final(self).wf(),
            pop_frame_outcome(old(self)@, r, final(self)@),
    {
        match self.outgoing.pop_front() {
            Some(frame) => {
                assert(self@.outgoing =~= old(self)@.outgoing.skip(1));
                Ok(frame)
            },
            None => Err(RuntimeError::QueueEmpty),
        }
    }
}

impl Runtime for TestRuntime {
    open spec fn wf(&self) -> bool {
        &&& self@.timer.wf()
        &&& self@.rng.seed.len() == 32
        &&& self@.rng.word_pos < STREAM_WORDS
    }

    open spec fn clock(&self) -> TimerView {
        self@.timer
    }

    open spec fn identity(&self) -> Identity {
        self@.identity
    }

    proof fn lemma_clock_wf(&self) {
    }

    fn transmit(&mut self, buf: &[u8]) -> (r: Result<(), RuntimeError>)
        ensures
            r.is_ok(),
            final(self)@ == old(self)@.transmit(buf@),
    {
        self.outgoing.push_back(slice_to_vec(buf));
        assert(self@.outgoing =~= old(self)@.outgoing.push(buf@));
        Ok(())
    }

    fn local_link_addr(&self) -> (addr: MacAddress) {
        self.link_addr
    }

    fn local_ipv4_addr(&self) -> (addr: Ipv4Addr) {
        self.ipv4_addr
    }

    fn tcp_options(&self) -> (options: TcpOptions) {
        self.tcp_options
    }

    fn arp_options(&self) -> (options: ArpOptions) {
        self.arp_options.clone()
    }

    fn advance_clock(&mut self, now: Timestamp) -> (r: Result<Vec<TimerEntry>, RuntimeError>)
        ensures
            final(self)@ == (TestRuntimeView { timer: final(self)@.timer, ..old(self)@ }),
    {
        self.timer.0.advance_clock(now)
    }

    fn wait(&mut self, duration: Duration) -> (r: Result<WaitFuture, RuntimeError>)
        ensures
            final(self)@ == (TestRuntimeView { timer: final(self)@.timer, ..old(self)@ }),
    {
        let now = self.timer.timer().now();
        match now.checked_add(duration) {
            Some(when) => self.timer.0.wait_until(when),
            None => Err(RuntimeError::DeadlineOverflow),
        }
    }

    fn wait_until(&mut self, when: Timestamp) -> (r: Result<WaitFuture, RuntimeError>)
        ensures
            final(self)@ == (TestRuntimeView { timer: final(self)@.timer, ..old(self)@ }),
    {
        self.timer.0.wait_until(when)
    }

    fn poll(&self, fut: &mut WaitFuture) -> (s: WaitState) {
        self.timer.timer().poll(fut)
    }

    fn cancel(&mut self, fut: WaitFuture)
        ensures
            final(self)@ == (TestRuntimeView { timer: final(self)@.timer, ..old(self)@ }),
    {
        self.timer.0.cancel(fut)
    }

    fn now(&self) -> (t: Timestamp) {
        self.timer.timer().now()
    }

    fn rng_gen_u32(&mut self) -> (word: u32)
        ensures
            word == old(self)@.rng.next_word(),
            final(self)@ == (TestRuntimeView { rng: old(self)@.rng.step(), ..old(self)@ }),
    {
        self.rng.gen_u32()
    }
}

/// The test type of protocol stack: one on a simulated backend.
pub type TestEngine = Engine<TestRuntime>;

/// What a simulated backend is when it has just been made.
pub open spec fn fresh(
    name: Seq<char>,
    now: Timestamp,
    link_addr: MacAddress,
    ipv4_addr: Ipv4Addr,
) -> TestRuntimeView {
    TestRuntimeView {
        name,
        timer: TimerView { now, next_id: 0, pending: Seq::empty() },
        rng: SeededRngView { seed: RNG_SEED@, word_pos: 0 },
        outgoing: Seq::empty(),
        identity: Identity {
            link_addr,
            ipv4_addr,
            arp_options: test_arp_options(),
            tcp_options: TcpOptions::default_value(),
        },
    }
}

/// A stack for the simulated host "alice", its clock at `now`.
pub fn new_alice(now: Timestamp) -> (engine: Engine<TestRuntime>)
    ensures
        engine.rt.wf(),
        engine.rt@ == fresh(
            "alice"@,
            now,
            MacAddress { bytes: ALICE_MAC },
            ipv4_from_octets(ALICE_IPV4),
        ),
{
    let rt = TestRuntime::new(
        "alice",
        now,
        MacAddress::new(ALICE_MAC),
        Ipv4Addr::from_octets(ALICE_IPV4),
    );
    Engine::new(rt)
}

/// A stack for the simulated host "bob", its clock at `now`.
pub fn new_bob(now: Timestamp) -> (engine: Engine<TestRuntime>)
    ensures
        engine.rt.wf(),
        engine.rt@ == fresh("bob"@, now, MacAddress { bytes: BOB_MAC }, ipv4_from_octets(BOB_IPV4)),
{
    let rt = TestRuntime::new(
        "bob",
        now,
        MacAddress::new(BOB_MAC),
        Ipv4Addr::from_octets(BOB_IPV4),
    );
    Engine::new(rt)
}

/// A stack for the simulated host "carrie", its clock at `now`.
pub fn new_carrie(now: Timestamp) -> (engine: Engine<TestRuntime>)
    ensures
        engine.rt.wf(),
        engine.rt@ == fresh(
            "carrie"@,
            now,
            MacAddress { bytes: CARRIE_MAC },
            ipv4_from_octets(CARRIE_IPV4),
        ),
{
    let rt = TestRuntime::new(
        "carrie",
        now,
        MacAddress::new(CARRIE_MAC),
        Ipv4Addr::from_octets(CARRIE_IPV4),
    );
    Engine::new(rt)
}

} // verus!
