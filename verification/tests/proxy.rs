use meter_proxy::meters::{Reading, SharedCounter, SharedTimeVec};
use meter_proxy::pipe::{RequestStep, ResponseStep};
use meter_proxy::proxy::{raise_limit, Incoming, MeterProxy, PipeStart, Turn};

fn proxy() -> MeterProxy {
    MeterProxy::new("127.0.0.1".to_string(), 12347, "127.0.0.2".to_string(), 12349)
}

#[test]
fn new_proxy_keeps_its_route() {
    let p = proxy();
    assert_eq!(p.back_address, "127.0.0.1");
    assert_eq!(p.back_port, 12347);
    assert_eq!(p.front_address, "127.0.0.2");
    assert_eq!(p.front_port, 12349);
    assert!(!p.reset_lock_flag);
}

#[test]
fn proxy_listens_on_the_front_side() {
    let l = proxy().start(1024);
    assert_eq!(l.fd_limit, 4096);
    assert_eq!(l.address, "127.0.0.2");
    assert_eq!(l.port, 12349);
}

#[test]
fn connection_is_served_at_the_back_side() {
    match proxy().accept(&Incoming::Accepted) {
        Turn::Serve { back_address, back_port } => {
            assert_eq!(back_address, "127.0.0.1");
            assert_eq!(back_port, 12347);
        }
        other => panic!("{:?}", other),
    }
}

#[test]
fn broken_connection_is_reported() {
    match proxy().accept(&Incoming::Broken("reset by peer".to_string())) {
        Turn::Report(text) => assert_eq!(text, "Strange connection broken: reset by peer"),
        other => panic!("{:?}", other),
    }
}

#[test]
fn stopped_proxy_stops_at_the_next_connection() {
    let mut p = proxy();
    let mut bytes = SharedCounter::new();
    let mut times = SharedTimeVec::new();
    bytes.increment(5);
    times.insert(5);
    let wake = p.stop_and_reset(&mut bytes, &mut times);
    assert_eq!(wake, ("127.0.0.2".to_string(), 12349));
    assert!(p.reset_lock_flag);
    assert_eq!(p.back_port, 12347);
    assert_eq!(p.get_num_bytes_rcvd(&bytes), 0);
    assert_eq!(p.get_latency_ms(&times).count, 0);
    assert!(matches!(p.accept(&Incoming::Accepted), Turn::Stop));
    assert!(matches!(p.accept(&Incoming::Broken("x".to_string())), Turn::Stop));
}

#[test]
fn bytes_and_latency_are_read_off_the_meters() {
    let p = proxy();
    let mut bytes = SharedCounter::new();
    let mut times = SharedTimeVec::new();
    bytes.increment(1500);
    times.insert(1_000_000);
    times.insert(4_000_000);
    assert_eq!(p.get_num_bytes_rcvd(&bytes), 1500);
    let l = p.get_latency_ms(&times);
    assert_eq!(l, Reading { sum: 5_000_000, count: 2, unit: 1_000_000 });
    assert_eq!(l.sum as f64 / l.count as f64 / l.unit as f64, 2.5);
}

#[test]
fn unreachable_server_is_reported_once() {
    let mut error = false;
    let first = MeterProxy::start_pipe(Err("refused".to_string()), &mut error);
    match first {
        PipeStart::Refuse { message } => assert_eq!(
            message,
            Some(
                "\u{1b}[31m*****ERROR***** --> \u{1b}[0m Unable to connect to the Target \
                 Application. Maybe a bad configuration: refused"
                    .to_string()
            )
        ),
        other => panic!("{:?}", other),
    }
    assert!(error);
    assert!(matches!(
        MeterProxy::start_pipe(Ok(()), &mut error),
        PipeStart::Run { .. }
    ));
    assert!(error);
    assert!(matches!(
        MeterProxy::start_pipe(Err("again".to_string()), &mut error),
        PipeStart::Refuse { message: None }
    ));
    assert!(error);
}

#[test]
fn pipe_begins_with_two_reads() {
    let mut error = false;
    match MeterProxy::start_pipe(Ok(()), &mut error) {
        PipeStart::Run { request, response, mut timed_out, start_time, mut tokens } => {
            assert_eq!(request, RequestStep::Read);
            assert_eq!(response, ResponseStep::Read);
            assert!(!timed_out.mark_failed());
            assert_eq!(start_time.elapsed_at(3), 3);
            assert!(!tokens.take());
            assert_eq!(tokens.notify(), Ok(()));
        }
        other => panic!("{:?}", other),
    }
    assert!(!error);
}

#[test]
fn connections_before_the_stop_are_all_served() {
    let mut p = proxy();
    for _ in 0..3 {
        assert!(matches!(
            p.accept(&Incoming::Accepted),
            Turn::Serve { back_address, back_port: 12347 } if back_address == "127.0.0.1"
        ));
        assert!(matches!(p.accept(&Incoming::Broken("x".to_string())), Turn::Report(_)));
    }
    p.stop_and_reset(&mut SharedCounter::new(), &mut SharedTimeVec::new());
    for _ in 0..3 {
        assert!(matches!(p.accept(&Incoming::Accepted), Turn::Stop));
    }
}

#[test]
fn open_file_limit_is_never_lowered() {
    assert_eq!(proxy().start(4096).fd_limit, 4096);
    assert_eq!(proxy().start(4097).fd_limit, 4097);
    assert_eq!(proxy().start(65536).fd_limit, 65536);
    assert_eq!(raise_limit(0), 4096);
    assert_eq!(raise_limit(u64::MAX), u64::MAX);
}

#[test]
fn separate_proxies_share_the_meters_only() {
    let mut p = proxy();
    let r = proxy();
    let mut bytes = SharedCounter::new();
    let mut times = SharedTimeVec::new();
    bytes.increment(3);
    p.stop();
    assert!(p.reset_lock_flag);
    assert_eq!(r.get_num_bytes_rcvd(&bytes), 3);
    p.stop_and_reset(&mut bytes, &mut times);
    assert!(!r.reset_lock_flag);
    assert_eq!(r.get_num_bytes_rcvd(&bytes), 0);
}
