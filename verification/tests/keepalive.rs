use afkttv::util::{
    get_rand_offset, jitter, keepalive_delay, plan_keepalive, KEEPALIVE_BASE_MS,
    KEEPALIVE_JITTER_MS,
};

#[test]
fn delay_is_the_base_time_and_the_offset() {
    assert_eq!(keepalive_delay(0), 240_000);
    assert_eq!(keepalive_delay(1), 240_001);
    assert_eq!(keepalive_delay(2_692), 242_692);
    assert_eq!(keepalive_delay(9_999), 249_999);
    for offset in 0..KEEPALIVE_JITTER_MS {
        assert_eq!(keepalive_delay(offset), 240_000 + offset);
    }
}

#[test]
fn plan_holds_the_delay_and_the_probe() {
    let plan = plan_keepalive(2_692);
    assert_eq!(plan.delay_ms, 242_692);
    assert_eq!(plan.probe, "PING");
}

#[test]
fn offsets_stay_below_the_bound() {
    assert_eq!(KEEPALIVE_BASE_MS, 240_000);
    assert_eq!(KEEPALIVE_JITTER_MS, 10_000);
    for _ in 0..2_000 {
        assert!(get_rand_offset() < 10_000);
    }
}

#[test]
fn jitter_plans_within_the_window() {
    for _ in 0..2_000 {
        let plan = jitter();
        assert!(240_000 <= plan.delay_ms && plan.delay_ms < 250_000);
        assert_eq!(plan.probe, "PING");
    }
}

#[test]
fn jitter_is_not_constant() {
    let first = jitter().delay_ms;
    let mut differs = false;
    for _ in 0..200 {
        if jitter().delay_ms != first {
            differs = true;
        }
    }
    assert!(differs);
}
