use meter_proxy::clock::StartTime;
use meter_proxy::link::{TimedOut, Tokens, TOKEN};
use meter_proxy::meters::{Reading, SharedCounter, SharedTimeVec};
use meter_proxy::text::{decimal_text, endpoint_text};

#[test]
fn counter_adds_up_and_resets() {
    let mut c = SharedCounter::new();
    assert_eq!(c.get(), 0);
    c.increment(1024);
    c.increment(0);
    c.increment(7);
    assert_eq!(c.get(), 1031);
    c.reset();
    assert_eq!(c.get(), 0);
    c.increment(usize::MAX);
    assert_eq!(c.get(), usize::MAX);
}

#[test]
fn time_table_averages() {
    let mut t = SharedTimeVec::new();
    t.insert(10);
    t.insert(20);
    t.insert(60);
    assert_eq!(t.checked_sum(), Some(90));
    let mean = t.get_avg_value();
    assert_eq!(mean, Reading { sum: 90, count: 3, unit: 1 });
    assert_eq!(mean.sum as f64 / mean.count as f64, 30.0);
}

#[test]
fn mean_lies_between_the_extremes() {
    let mut t = SharedTimeVec::new();
    for v in [5, 9, 7, 5] {
        t.insert(v);
    }
    let mean = t.get_avg_value();
    assert!(5 * mean.count <= mean.sum && mean.sum <= 9 * mean.count);
}

#[test]
fn mean_is_the_same_in_any_order() {
    let mut a = SharedTimeVec::new();
    let mut b = SharedTimeVec::new();
    for v in [3, 1, 2] {
        a.insert(v);
    }
    for v in [2, 3, 1] {
        b.insert(v);
    }
    assert_eq!(a.get_avg_value(), b.get_avg_value());
}

#[test]
fn empty_time_table_has_no_mean() {
    let t = SharedTimeVec::new();
    let mean = t.get_avg_value();
    assert_eq!(mean, Reading { sum: 0, count: 0, unit: 1 });
    assert!((mean.sum as f64 / mean.count as f64).is_nan());
}

#[test]
fn time_table_notices_overflow() {
    let mut t = SharedTimeVec::new();
    t.insert(u64::MAX);
    assert_eq!(t.checked_sum(), Some(u64::MAX));
    t.insert(0);
    assert_eq!(t.checked_sum(), Some(u64::MAX));
    t.insert(1);
    assert_eq!(t.checked_sum(), None);
    t.reset();
    assert_eq!(t.checked_sum(), Some(0));
}

#[test]
fn elapsed_counts_from_the_stamp() {
    let mut s = StartTime::new();
    assert_eq!(s.elapsed_at(17), 17);
    s.stamp_at(1_000);
    assert_eq!(s.elapsed_at(1_000), 0);
    assert_eq!(s.elapsed_at(4_500), 3_500);
}

#[test]
fn stamp_reads_the_clock() {
    let mut s = StartTime::new();
    let before = time::precise_time_ns();
    let now = s.stamp();
    let after = time::precise_time_ns();
    assert!(before <= now && now <= after);
    assert_eq!(s.elapsed_at(now), 0);
    let (elapsed, later) = s.elapsed();
    assert!(now <= later);
    assert_eq!(elapsed, Some(later - now));
    assert_eq!(elapsed, s.checked_elapsed_at(later));
}

#[test]
fn elapsed_is_none_before_the_stamp() {
    let mut s = StartTime::new();
    s.stamp_at(u64::MAX);
    assert_eq!(s.elapsed().0, None);
}

#[test]
fn flag_goes_up_and_down() {
    let mut f = TimedOut::new();
    assert!(!f.mark_failed());
    assert!(f.mark_failed());
    f.mark_alive();
    assert!(!f.mark_failed());
    f.mark_alive();
    f.mark_broken();
    assert!(f.mark_failed());
}

#[test]
fn tokens_come_out_once() {
    let mut t = Tokens::new();
    assert!(!t.take());
    assert_eq!(t.notify(), Ok(()));
    assert_eq!(t.notify(), Ok(()));
    assert!(t.take());
    assert!(t.take());
    assert!(!t.take());
}

#[test]
fn tokens_are_refused_without_a_receiver() {
    let mut t = Tokens::new();
    assert_eq!(t.notify(), Ok(()));
    t.disconnect();
    assert_eq!(t.notify(), Err(TOKEN));
    assert!(!t.take());
}

#[test]
fn decimal_is_as_usual() {
    for n in [0, 9, 10, 11, 99, 100, 4096, 65535, 1_000_000, u64::MAX] {
        assert_eq!(decimal_text(n), format!("{}", n));
        assert_eq!(decimal_text(n).parse::<u64>().unwrap(), n);
    }
}

#[test]
fn endpoint_joins_address_and_port() {
    assert_eq!(endpoint_text("127.0.0.1", 12349), "127.0.0.1:12349");
    assert_eq!(endpoint_text("", 0), ":0");
    assert_ne!(endpoint_text("10.0.0.1", 11), endpoint_text("10.0.0.11", 1));
}

#[test]
fn increments_add_up_in_any_order() {
    for row in [[1, 20, 300], [300, 1, 20], [20, 300, 1]] {
        let mut c = SharedCounter::new();
        c.increment(4000);
        for q in row {
            c.increment(q);
        }
        assert_eq!(c.get(), 4321);
    }
}

#[test]
fn checked_elapsed_is_none_only_before_the_stamp() {
    let mut s = StartTime::new();
    s.stamp_at(100);
    assert_eq!(s.checked_elapsed_at(99), None);
    assert_eq!(s.checked_elapsed_at(100), Some(0));
    assert_eq!(s.checked_elapsed_at(350), Some(250));
}

#[test]
fn missing_reading_is_zero() {
    let r = Reading { sum: 0, count: 0, unit: 1_000_000 }.or_zero();
    assert_eq!(r.sum as f64 / r.count as f64 / r.unit as f64, 0.0);
    let r = Reading { sum: 7, count: 2, unit: 1 };
    assert_eq!(r.or_zero(), r);
}
