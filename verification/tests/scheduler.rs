use phaselock::clock::ClockSync;
use phaselock::scheduler::{
    compute_dispatch_plan, host_target_to_local_instant, SchedulerError, SAFETY_MARGIN_NS,
};
use std::collections::HashMap;
use std::time::{Duration, Instant};

#[test]
fn test_dispatch_plan_three_peers() {
    let mut latencies = HashMap::new();
    latencies.insert(1, 5_000_000);
    latencies.insert(2, 20_000_000);
    latencies.insert(3, 50_000_000);

    let now = 1_000_000_000u64;
    let (target, plans) = compute_dispatch_plan(&latencies, now);

    let expected_target = now + 50_000_000 + 50_000_000;
    assert_eq!(target, expected_target);

    assert_eq!(plans.len(), 3);
    assert_eq!(plans[0].peer_id, 1);
    assert_eq!(plans[0].send_delay(), Duration::from_millis(45));
    assert_eq!(plans[1].peer_id, 2);
    assert_eq!(plans[1].send_delay(), Duration::from_millis(30));
    assert_eq!(plans[2].peer_id, 3);
    assert_eq!(plans[2].send_delay(), Duration::from_millis(0));
}

#[test]
fn test_dispatch_plan_single_peer() {
    let mut latencies = HashMap::new();
    latencies.insert(42, 10_000_000);

    let now = 500_000_000;
    let (target, plans) = compute_dispatch_plan(&latencies, now);

    assert_eq!(target, now + 10_000_000 + 50_000_000);
    assert_eq!(plans.len(), 1);
    assert_eq!(plans[0].peer_id, 42);
    assert_eq!(plans[0].send_delay(), Duration::ZERO);
}

#[test]
fn test_dispatch_plan_equal_latencies() {
    let mut latencies = HashMap::new();
    latencies.insert(1, 15_000_000);
    latencies.insert(2, 15_000_000);

    let now = 0;
    let (target, plans) = compute_dispatch_plan(&latencies, now);

    assert_eq!(target, 15_000_000 + 50_000_000);
    for plan in &plans {
        assert_eq!(plan.send_delay(), Duration::ZERO);
    }
}

#[test]
fn test_dispatch_plan_no_peers() {
    let latencies = HashMap::new();
    let now = 1_000_000_000;
    let (target, plans) = compute_dispatch_plan(&latencies, now);

    assert_eq!(target, now + 50_000_000);
    assert!(plans.is_empty());
}

#[test]
fn test_dispatch_plan_zero_latency() {
    let mut latencies = HashMap::new();
    latencies.insert(1, 0);
    latencies.insert(2, 0);

    let now = 1_000_000_000;
    let (target, plans) = compute_dispatch_plan(&latencies, now);

    assert_eq!(target, now + 50_000_000);
    for plan in &plans {
        assert_eq!(plan.send_delay(), Duration::ZERO);
    }
}

#[test]
fn test_host_to_local_zero_offset() {
    let cs = ClockSync::new();
    let host_ns = 1_000_000_000u64;
    let local_ns = cs.host_to_local(host_ns);
    assert_eq!(local_ns, host_ns);
}

#[test]
fn scheduler_test_host_to_local_positive_offset() {
    let mut cs = ClockSync::new();
    cs.current_offset_ns = 5_000_000;

    let host_ns = 100_000_000u64;
    let local_ns = cs.host_to_local(host_ns);
    assert_eq!(local_ns, 105_000_000);
}

#[test]
fn test_host_to_local_negative_offset() {
    let mut cs = ClockSync::new();
    cs.current_offset_ns = -3_000_000;

    let host_ns = 100_000_000u64;
    let local_ns = cs.host_to_local(host_ns);
    assert_eq!(local_ns, 97_000_000);
}

#[test]
fn test_host_target_to_local_instant() {
    let cs = ClockSync::new();
    let bi = Instant::now();
    let target_ns = 500_000_000u64;

    let instant = bi + Duration::from_nanos(host_target_to_local_instant(&cs, target_ns));
    let expected = bi + Duration::from_nanos(target_ns);
    let diff = if instant > expected {
        instant.duration_since(expected)
    } else {
        expected.duration_since(instant)
    };
    assert!(diff < Duration::from_millis(1), "Instant diff too large: {:?}", diff);
}

// ── Further cases ───────────────────────────────────────────────────────────

#[test]
fn dispatch_plan_sorted_by_peer_id() {
    let mut latencies = HashMap::new();
    for id in [9u32, 3, 7, 1, 5] {
        latencies.insert(id, (id as u64) * 1_000_000);
    }
    let (target, plans) = compute_dispatch_plan(&latencies, 10);
    assert_eq!(target, 10 + 9_000_000 + SAFETY_MARGIN_NS);
    let ids: Vec<u32> = plans.iter().map(|p| p.peer_id).collect();
    assert_eq!(ids, vec![1, 3, 5, 7, 9]);
    let delays: Vec<u64> = plans.iter().map(|p| p.send_delay_ns).collect();
    assert_eq!(delays, vec![8_000_000, 6_000_000, 4_000_000, 2_000_000, 0]);
}

#[test]
fn host_target_with_offset() {
    let mut cs = ClockSync::new();
    cs.current_offset_ns = 2_000_000;
    let bi = Instant::now();
    let instant = bi + Duration::from_nanos(host_target_to_local_instant(&cs, 8_000_000));
    assert_eq!(instant.duration_since(bi), Duration::from_nanos(10_000_000));
}

#[test]
fn scheduler_error_messages() {
    assert_eq!(SchedulerError::NoPeers.message(), "No peers in session");
    assert_eq!(
        SchedulerError::SendFailed("broken pipe".to_string()).message(),
        "Failed to send command: broken pipe"
    );
}
