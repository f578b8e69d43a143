use catnip_runtime::addr::{Ipv4Addr, MacAddress};
use catnip_runtime::runtime::Runtime;
use catnip_runtime::test_helpers::{TestRuntime, ALICE_IPV4, ALICE_MAC};
use catnip_runtime::time::{Duration, Timestamp};
use catnip_runtime::timer::WaitState;

#[test]
fn wait_five_seconds_then_loop_a_frame_back() {
    let t0 = Timestamp::from_nanos(1_000);
    let mut rt = TestRuntime::new(
        "alice",
        t0,
        MacAddress::new(ALICE_MAC),
        Ipv4Addr::from_octets(ALICE_IPV4),
    );
    let mut fut = rt.wait(Duration::from_secs(5)).unwrap();

    let fired = rt
        .advance_clock(t0.checked_add(Duration::from_secs(3)).unwrap())
        .unwrap();
    assert!(fired.is_empty());
    assert_eq!(rt.poll(&mut fut), WaitState::Pending);

    let fired = rt
        .advance_clock(t0.checked_add(Duration::from_secs(5)).unwrap())
        .unwrap();
    assert_eq!(fired.len(), 1);
    assert_eq!(fired[0].id, fut.id());
    assert_eq!(rt.poll(&mut fut), WaitState::Ready);
    assert_eq!(rt.poll(&mut fut), WaitState::Consumed);

    rt.transmit(&[0xAA, 0xBB]).unwrap();
    assert_eq!(rt.pop_frame().unwrap(), vec![0xAA, 0xBB]);
}
