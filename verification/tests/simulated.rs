use catnip_runtime::addr::{Ipv4Addr, MacAddress};
use catnip_runtime::error::RuntimeError;
use catnip_runtime::options::TcpOptions;
use catnip_runtime::runtime::Runtime;
use catnip_runtime::test_helpers::{
    new_alice, new_bob, new_carrie, TestRuntime, ALICE_IPV4, ALICE_MAC, BOB_IPV4, BOB_MAC,
    CARRIE_IPV4, CARRIE_MAC, RECEIVE_WINDOW_SIZE, RNG_SEED,
};
use catnip_runtime::time::{Duration, Timestamp};
use catnip_runtime::timer::{TimerEntry, WaitState};
use rand::{Rng, SeedableRng};
use rand_chacha::ChaChaRng;

fn at(nanos: u64) -> Timestamp {
    Timestamp::from_nanos(nanos)
}

fn alice(now: Timestamp) -> TestRuntime {
    TestRuntime::new("alice", now, MacAddress::new(ALICE_MAC), Ipv4Addr::from_octets(ALICE_IPV4))
}

fn bob(now: Timestamp) -> TestRuntime {
    TestRuntime::new("bob", now, MacAddress::new(BOB_MAC), Ipv4Addr::from_octets(BOB_IPV4))
}

#[test]
fn a_new_backend_has_its_clock_and_addresses() {
    let rt = alice(at(77));
    assert_eq!(rt.now(), at(77));
    assert_eq!(rt.local_link_addr(), MacAddress::new([0x12, 0x23, 0x45, 0x67, 0x89, 0xab]));
    assert_eq!(rt.local_ipv4_addr(), Ipv4Addr::new(192, 168, 1, 1));
}

#[test]
fn a_new_backend_knows_the_three_test_hosts() {
    let rt = bob(at(0));
    let arp = rt.arp_options();
    assert_eq!(arp.retry_count, 2);
    assert_eq!(arp.cache_ttl, Duration::from_secs(600));
    assert_eq!(arp.request_timeout, Duration::from_secs(1));
    assert_eq!(arp.initial_values.len(), 3);
    assert_eq!(
        arp.initial_values.get(&Ipv4Addr::new(192, 168, 1, 1).to_bits()),
        Some(&MacAddress::new(ALICE_MAC))
    );
    assert_eq!(
        arp.initial_values.get(&Ipv4Addr::new(192, 168, 1, 2).to_bits()),
        Some(&MacAddress::new(BOB_MAC))
    );
    assert_eq!(
        arp.initial_values.get(&Ipv4Addr::new(192, 168, 1, 3).to_bits()),
        Some(&MacAddress::new(CARRIE_MAC))
    );
}

#[test]
fn a_new_backend_has_the_default_transport_options() {
    let rt = alice(at(0));
    assert_eq!(rt.tcp_options(), TcpOptions::default());
}

#[test]
fn options_come_as_snapshots() {
    let rt = alice(at(0));
    let mut arp = rt.arp_options();
    arp.retry_count = 99;
    arp.initial_values.clear();
    let again = rt.arp_options();
    assert_eq!(again.retry_count, 2);
    assert_eq!(again.initial_values.len(), 3);
}

#[test]
fn the_receive_window_of_tests() {
    assert_eq!(RECEIVE_WINDOW_SIZE, 1024);
}

#[test]
fn a_frame_sent_comes_back_once() {
    let mut rt = alice(at(0));
    let frame = [1u8, 2, 3, 4, 5, 250, 0, 255];
    rt.transmit(&frame).unwrap();
    assert_eq!(rt.pop_frame().unwrap(), frame.to_vec());
    assert_eq!(rt.pop_frame(), Err(RuntimeError::QueueEmpty));
}

#[test]
fn pop_frame_on_a_new_backend_fails() {
    let mut rt = alice(at(0));
    assert_eq!(rt.pop_frame(), Err(RuntimeError::QueueEmpty));
}

#[test]
fn an_empty_frame_is_a_frame() {
    let mut rt = alice(at(0));
    rt.transmit(&[]).unwrap();
    assert_eq!(rt.pop_frame().unwrap(), Vec::<u8>::new());
    assert_eq!(rt.pop_frame(), Err(RuntimeError::QueueEmpty));
}

#[test]
fn frames_leave_in_the_order_sent() {
    let mut rt = alice(at(0));
    rt.transmit(&[1]).unwrap();
    rt.transmit(&[2, 2]).unwrap();
    assert_eq!(rt.pop_frame().unwrap(), vec![1]);
    rt.transmit(&[3, 3, 3]).unwrap();
    assert_eq!(rt.pop_frame().unwrap(), vec![2, 2]);
    assert_eq!(rt.pop_frame().unwrap(), vec![3, 3, 3]);
    assert_eq!(rt.pop_frame(), Err(RuntimeError::QueueEmpty));
}

#[test]
fn the_backend_keeps_its_own_copy_of_a_frame() {
    let mut rt = alice(at(0));
    let mut buf = vec![0xAA, 0xBB];
    rt.transmit(&buf).unwrap();
    buf[0] = 0;
    buf.push(7);
    assert_eq!(rt.pop_frame().unwrap(), vec![0xAA, 0xBB]);
}

#[test]
fn the_random_sequence_is_the_chacha_stream_of_the_zero_seed() {
    assert_eq!(RNG_SEED, [0u8; 32]);
    let mut rt = alice(at(0));
    let drawn: Vec<u32> = (0..4).map(|_| rt.rng_gen_u32()).collect();
    assert_eq!(drawn, vec![0xade0b876, 0x903df1a0, 0xe56a5d40, 0x28bd8653]);
}

#[test]
fn the_random_sequence_goes_on_past_the_first_blocks() {
    let mut rt = alice(at(0));
    let drawn: Vec<u32> = (0..80).map(|_| rt.rng_gen_u32()).collect();
    assert_eq!(drawn[15], 0x8665eeb2);
    assert_eq!(drawn[16], 0xbee7079f);
    assert_eq!(drawn[31], 0x6f4d794b);
    let mut other = bob(at(5));
    let again: Vec<u32> = (0..80).map(|_| other.rng_gen_u32()).collect();
    assert_eq!(drawn, again);
}

#[test]
fn the_random_sequence_is_what_one_generator_gives_in_a_row() {
    let mut generator = ChaChaRng::from_seed(RNG_SEED);
    let mut rt = alice(at(0));
    for _ in 0..300 {
        let expected: u32 = generator.gen();
        assert_eq!(rt.rng_gen_u32(), expected);
    }
}

#[test]
fn two_backends_draw_the_same_sequence() {
    let mut a = alice(at(0));
    let mut b = bob(at(1_000_000));
    for _ in 0..200 {
        assert_eq!(a.rng_gen_u32(), b.rng_gen_u32());
    }
}

#[test]
fn other_operations_do_not_disturb_the_random_sequence() {
    let mut plain = alice(at(0));
    let mut busy = alice(at(0));
    let expected: Vec<u32> = (0..6).map(|_| plain.rng_gen_u32()).collect();

    let mut drawn = Vec::new();
    drawn.push(busy.rng_gen_u32());
    let fut = busy.wait(Duration::from_secs(1)).unwrap();
    drawn.push(busy.rng_gen_u32());
    busy.transmit(&[1, 2, 3]).unwrap();
    drawn.push(busy.rng_gen_u32());
    busy.advance_clock(at(5)).unwrap();
    drawn.push(busy.rng_gen_u32());
    busy.cancel(fut);
    drawn.push(busy.rng_gen_u32());
    busy.pop_frame().unwrap();
    drawn.push(busy.rng_gen_u32());
    assert_eq!(drawn, expected);
}

#[test]
fn wait_counts_from_the_current_time() {
    let mut rt = alice(at(1_000));
    rt.advance_clock(at(4_000)).unwrap();
    let fut = rt.wait(Duration::from_nanos(500)).unwrap();
    assert_eq!(fut.deadline(), at(4_500));
    assert_eq!(rt.advance_clock(at(4_499)).unwrap(), vec![]);
    assert_eq!(
        rt.advance_clock(at(4_500)).unwrap(),
        vec![TimerEntry { deadline: at(4_500), id: fut.id() }]
    );
}

#[test]
fn wait_of_no_time_is_ready_at_once() {
    let mut rt = alice(at(1_000));
    let mut fut = rt.wait(Duration::from_nanos(0)).unwrap();
    assert_eq!(rt.poll(&mut fut), WaitState::Ready);
}

#[test]
fn wait_beyond_the_end_of_time_is_refused() {
    let mut rt = alice(at(u64::MAX - 10));
    assert_eq!(rt.wait(Duration::from_nanos(11)).err(), Some(RuntimeError::DeadlineOverflow));
    let fut = rt.wait(Duration::from_nanos(10)).unwrap();
    assert_eq!(fut.deadline(), at(u64::MAX));
    assert_eq!(fut.id(), 0);
}

#[test]
fn wait_until_in_the_past_is_ready_at_once() {
    let mut rt = alice(at(1_000));
    let mut fut = rt.wait_until(at(999)).unwrap();
    assert_eq!(rt.poll(&mut fut), WaitState::Ready);
    assert_eq!(rt.advance_clock(at(2_000)).unwrap(), vec![]);
}

#[test]
fn the_backend_refuses_to_turn_its_clock_back() {
    let mut rt = alice(at(1_000));
    assert_eq!(rt.advance_clock(at(999)), Err(RuntimeError::ClockRegression));
    assert_eq!(rt.now(), at(1_000));
}

#[test]
fn a_cancelled_wait_does_not_resolve() {
    let mut rt = alice(at(0));
    let doomed = rt.wait(Duration::from_secs(1)).unwrap();
    let mut kept = rt.wait(Duration::from_secs(2)).unwrap();
    rt.cancel(doomed);
    let fired = rt.advance_clock(at(3_000_000_000)).unwrap();
    assert_eq!(fired, vec![TimerEntry { deadline: at(2_000_000_000), id: kept.id() }]);
    assert_eq!(rt.poll(&mut kept), WaitState::Ready);
}

#[test]
fn two_hosts_exchange_a_frame() {
    let mut a = alice(at(0));
    let mut b = bob(at(0));
    a.transmit(&[0xde, 0xad]).unwrap();
    let frame = a.pop_frame().unwrap();
    b.transmit(&frame).unwrap();
    assert_eq!(b.pop_frame().unwrap(), vec![0xde, 0xad]);
    assert_eq!(a.pop_frame(), Err(RuntimeError::QueueEmpty));
}

#[test]
fn new_alice_is_alice() {
    let mut engine = new_alice(at(9));
    assert_eq!(engine.rt().now(), at(9));
    assert_eq!(engine.rt().local_link_addr(), MacAddress::new(ALICE_MAC));
    assert_eq!(engine.rt().local_ipv4_addr(), Ipv4Addr::from_octets(ALICE_IPV4));
    engine.rt.transmit(&[1]).unwrap();
    assert_eq!(engine.rt.pop_frame().unwrap(), vec![1]);
}

#[test]
fn new_bob_is_bob() {
    let engine = new_bob(at(9));
    assert_eq!(engine.rt().now(), at(9));
    assert_eq!(engine.rt().local_link_addr(), MacAddress::new(BOB_MAC));
    assert_eq!(engine.rt().local_ipv4_addr(), Ipv4Addr::new(192, 168, 1, 2));
}

#[test]
fn new_carrie_is_carrie() {
    let engine = new_carrie(at(9));
    assert_eq!(engine.rt().now(), at(9));
    assert_eq!(engine.rt().local_link_addr(), MacAddress::new(CARRIE_MAC));
    assert_eq!(engine.rt().local_ipv4_addr(), Ipv4Addr::from_octets(CARRIE_IPV4));
    assert_eq!(engine.rt().local_ipv4_addr().to_bits(), 0xc0a8_0103);
}
