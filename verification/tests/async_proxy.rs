use meter_proxy::async_proxy::{AsyncMeterProxy, Client};
use meter_proxy::io_error::{other, IoError, IoErrorKind};
use meter_proxy::meters::Reading;
use meter_proxy::transfer::{
    End, Progress, TransferBackFront, TransferFrontBack, TransferOutcome, TransferStep, BUFFER_LEN,
};

fn proxy() -> AsyncMeterProxy {
    AsyncMeterProxy::new("10.0.0.1".to_string(), 80, "127.0.0.1".to_string(), 8080)
}

fn would_block() -> IoError {
    IoError { kind: IoErrorKind::WouldBlock, os_code: Some(11), desc: "later".to_string() }
}

fn next(p: Progress) -> TransferStep {
    match p {
        Progress::Next(step) => step,
        p => panic!("{:?}", p),
    }
}

#[test]
fn new_async_proxy_is_at_zero() {
    let p = proxy();
    assert_eq!(p.back_address, "10.0.0.1");
    assert_eq!(p.back_port, 80);
    assert_eq!(p.front_address, "127.0.0.1");
    assert_eq!(p.front_port, 8080);
    assert_eq!(p.num_bytes, 0);
    assert_eq!(p.num_resp, 0);
}

#[test]
fn async_routes_are_socket_addresses() {
    assert_eq!(proxy().start(65536).fd_limit, 65536);
    let r = proxy().start(256);
    assert_eq!(r.fd_limit, 4096);
    assert_eq!(r.front_address, "127.0.0.1:8080");
    assert_eq!(r.back_address, "10.0.0.1:80");
}

#[test]
fn meters_count_and_reset() {
    let mut p = proxy();
    for n in [2048, 512] {
        p.perform_count(&TransferStep::CountBytes(n));
        p.perform_count(&TransferStep::CountResponse(n));
    }
    let kbytes = p.get_num_kbytes_rcvd();
    assert_eq!(kbytes, Reading { sum: 2560, count: 1, unit: 1024 });
    assert_eq!(kbytes.sum as f64 / kbytes.count as f64 / kbytes.unit as f64, 2.5);
    assert_eq!(p.num_resp, 2);
    p.perform_measure(&TransferStep::Measure(1), 1_000_000);
    p.perform_measure(&TransferStep::Measure(1), 4_000_000);
    let latency = p.get_latency();
    assert_eq!(latency, Reading { sum: 5_000_000, count: 2, unit: 1_000_000 });
    assert_eq!(latency.sum as f64 / latency.count as f64 / latency.unit as f64, 2.5);
    for _ in 0..2 {
        p.reset();
        assert_eq!(p.get_num_kbytes_rcvd(), Reading { sum: 0, count: 1, unit: 1024 });
        assert_eq!(p.num_resp, 0);
        assert_eq!(p.get_latency(), Reading { sum: 0, count: 1, unit: 1_000_000 });
        assert_eq!(p.back_port, 80);
    }
}

#[test]
fn latency_is_zero_before_the_first_measurement() {
    let latency = proxy().get_latency();
    assert_eq!(latency, Reading { sum: 0, count: 1, unit: 1_000_000 });
    assert_eq!(latency.sum as f64 / latency.count as f64 / latency.unit as f64, 0.0);
}

#[test]
fn slower_server_has_the_higher_latency() {
    let mean = |answered_after: u64| {
        let mut p = proxy();
        let mut c = Client::serve();
        let stamp = next(c.half2.poll(TransferStep::Read, TransferOutcome::Read(7)));
        stamp.perform_stamp_at(&mut c.start_time, 1_000);
        let write = next(c.half2.poll(stamp, TransferOutcome::Done));
        let notify = next(c.half2.poll(write, TransferOutcome::Written(7)));
        let outcome = notify.perform_tokens(&mut c.tokens).unwrap();
        assert_eq!(next(c.half2.poll(notify, outcome)), TransferStep::Await);

        let take = next(c.half1.poll(TransferStep::Read, TransferOutcome::Read(9)));
        let outcome = take.perform_tokens(&mut c.tokens).unwrap();
        let measure = next(c.half1.poll(take, outcome));
        assert_eq!(measure, TransferStep::Measure(9));
        p.perform_measure(&measure, c.start_time.elapsed_at(1_000 + answered_after));
        let l = p.get_latency();
        l.sum as f64 / l.count as f64 / l.unit as f64
    };
    assert_eq!(mean(2_000_000), 2.0);
    assert_eq!(mean(400_000_000), 400.0);
}

#[test]
fn separate_async_proxies_have_their_own_meters() {
    let mut p = proxy();
    let mut r = proxy();
    p.perform_count(&TransferStep::CountBytes(1));
    r.perform_count(&TransferStep::CountBytes(2));
    r.perform_measure(&TransferStep::Measure(2), 5);
    p.reset();
    assert_eq!(r.get_num_kbytes_rcvd().sum, 2);
    assert_eq!(r.get_latency().sum, 5);
}

#[test]
fn finished_connection_is_reported() {
    assert_eq!(
        AsyncMeterProxy::report(&Ok((120, 7)), "1.2.3.4:5"),
        Some("proxied 120/7 bytes for 1.2.3.4:5".to_string())
    );
    assert_eq!(AsyncMeterProxy::report(&Err(other("gone")), "1.2.3.4:5"), None);
}

#[test]
fn other_has_no_particular_kind() {
    let e = other("desc");
    assert_eq!(e.kind, IoErrorKind::Other);
    assert_eq!(e.os_code, None);
    assert_eq!(e.desc, "desc");
}

#[test]
fn client_has_a_half_for_each_direction() {
    let c = Client::serve();
    assert_eq!((c.half1.reader, c.half1.writer, c.half1.amt), (End::Back, End::Front, 0));
    assert_eq!((c.half2.reader, c.half2.writer, c.half2.amt), (End::Front, End::Back, 0));
    assert_eq!(c.start_time.elapsed_at(5), 5);
}

#[test]
fn half_waits_for_both_ends() {
    let mut t = TransferBackFront::new(End::Front, End::Back);
    for (read, write) in [(false, false), (false, true), (true, false)] {
        let p = t.poll(TransferStep::Await, TransferOutcome::Ready { read, write });
        assert!(matches!(p, Progress::NotReady));
    }
    let p = t.poll(TransferStep::Await, TransferOutcome::Ready { read: true, write: true });
    assert_eq!(next(p), TransferStep::Read);
}

#[test]
fn half_waits_when_the_read_would_block() {
    let mut t = TransferFrontBack::new(End::Back, End::Front);
    let p = t.poll(TransferStep::Read, TransferOutcome::ReadFailed(would_block()));
    assert!(matches!(p, Progress::NotReady));
    assert_eq!(t.amt, 0);
}

#[test]
fn half_fails_with_the_failure_it_met() {
    let mut t = TransferFrontBack::new(End::Back, End::Front);
    match t.poll(TransferStep::Read, TransferOutcome::ReadFailed(other("a"))) {
        Progress::Failed(e) => assert_eq!(e.desc, "a"),
        p => panic!("{:?}", p),
    }
    match t.poll(TransferStep::ShutDown, TransferOutcome::ShutDownFailed(other("b"))) {
        Progress::Failed(e) => assert_eq!(e.desc, "b"),
        p => panic!("{:?}", p),
    }
    // A write that would block is a failure like any other.
    match t.poll(TransferStep::Write(3), TransferOutcome::WriteFailed(would_block())) {
        Progress::Failed(e) => assert_eq!(e.kind, IoErrorKind::WouldBlock),
        p => panic!("{:?}", p),
    }
}

#[test]
fn unmetered_half_stamps_writes_and_notifies() {
    let mut t = TransferBackFront::new(End::Front, End::Back);
    assert_eq!(next(t.poll(TransferStep::Read, TransferOutcome::Read(9))), TransferStep::Stamp(9));
    assert_eq!(next(t.poll(TransferStep::Stamp(9), TransferOutcome::Done)), TransferStep::Write(9));
    assert_eq!(t.amt, 0);
    assert_eq!(
        next(t.poll(TransferStep::Write(9), TransferOutcome::Written(9))),
        TransferStep::Notify
    );
    assert_eq!(t.amt, 9);
    assert_eq!(next(t.poll(TransferStep::Notify, TransferOutcome::Done)), TransferStep::Await);
}

#[test]
fn metered_half_reports_before_it_writes() {
    let mut t = TransferFrontBack::new(End::Back, End::Front);
    let step = next(t.poll(TransferStep::Read, TransferOutcome::Read(9)));
    assert_eq!(step, TransferStep::TakeToken(9));
    assert_eq!(next(t.poll(step, TransferOutcome::TokenTaken)), TransferStep::Measure(9));
    assert_eq!(
        next(t.poll(TransferStep::Measure(9), TransferOutcome::Done)),
        TransferStep::CountBytes(9)
    );
    let step = next(t.poll(step, TransferOutcome::NoToken));
    assert_eq!(step, TransferStep::CountBytes(9));
    let step = next(t.poll(step, TransferOutcome::Done));
    assert_eq!(step, TransferStep::CountResponse(9));
    let step = next(t.poll(step, TransferOutcome::Done));
    assert_eq!(step, TransferStep::Write(9));
    assert_eq!(t.amt, 0);
    assert_eq!(next(t.poll(step, TransferOutcome::Written(9))), TransferStep::Await);
    assert_eq!(t.amt, 9);
}

#[test]
fn amount_is_what_was_written() {
    let mut t = TransferBackFront::new(End::Front, End::Back);
    let stamp = next(t.poll(TransferStep::Read, TransferOutcome::Read(3)));
    let write = next(t.poll(stamp, TransferOutcome::Done));
    let broken =
        IoError { kind: IoErrorKind::BrokenPipe, os_code: Some(32), desc: "pipe".to_string() };
    match t.poll(write, TransferOutcome::WriteFailed(broken)) {
        Progress::Failed(e) => {
            assert_eq!(e.kind, IoErrorKind::BrokenPipe);
            assert_eq!(e.os_code, Some(32));
        }
        p => panic!("{:?}", p),
    }
    assert_eq!(t.amt, 0);
}

/// Performs the steps that need no socket.
fn perform(step: TransferStep, proxy: &mut AsyncMeterProxy, client: &mut Client) -> TransferOutcome {
    match step {
        TransferStep::Stamp(_) => step.perform_stamp(&mut client.start_time).0,
        TransferStep::Notify | TransferStep::TakeToken(_) => {
            step.perform_tokens(&mut client.tokens).unwrap()
        }
        TransferStep::Measure(_) => {
            let ns = client.start_time.elapsed().0.unwrap();
            proxy.perform_measure(&step, ns)
        }
        TransferStep::CountBytes(_) | TransferStep::CountResponse(_) => proxy.perform_count(&step),
        step => panic!("{:?}", step),
    }
}

#[test]
fn half_moves_everything_and_counts_it() {
    let mut proxy = proxy();
    let mut client = Client::serve();
    assert_eq!(client.tokens.notify(), Ok(()));
    let mut input = vec![b"hello ".to_vec(), b"world".to_vec()];
    let mut output: Vec<u8> = vec![];
    let mut buffer: Vec<u8> = vec![];
    let mut step = TransferStep::Await;
    let amt = loop {
        let outcome = match step {
            TransferStep::Await => TransferOutcome::Ready { read: true, write: true },
            TransferStep::Read => {
                buffer = if input.is_empty() { vec![] } else { input.remove(0) };
                TransferOutcome::Read(buffer.len())
            }
            TransferStep::ShutDown => TransferOutcome::Done,
            TransferStep::Write(n) => {
                output.extend_from_slice(&buffer[..n]);
                TransferOutcome::Written(n)
            }
            step => perform(step, &mut proxy, &mut client),
        };
        assert!(step.expects(&outcome));
        match client.half1.poll(step, outcome) {
            Progress::Next(s) => step = s,
            Progress::Finished(amt) => break amt,
            p => panic!("{:?}", p),
        }
    };
    assert_eq!(output, b"hello world".to_vec());
    assert_eq!(amt, 11);
    assert_eq!(proxy.num_bytes, 11);
    assert_eq!(proxy.num_resp, 2);
    // One request was handed on, so one of the two responses has a latency.
    assert_eq!(proxy.get_latency().count, 1);
}

#[test]
fn transfer_steps_know_their_outcomes() {
    assert!(!TransferStep::Await.expects(&TransferOutcome::Done));
    assert!(!TransferStep::Read.expects(&TransferOutcome::Read(BUFFER_LEN + 1)));
    assert!(TransferStep::Read.expects(&TransferOutcome::Read(64 * 1024)));
    assert!(!TransferStep::Write(3).expects(&TransferOutcome::Written(2)));
    assert!(!TransferStep::CountBytes(1).expects(&TransferOutcome::Read(1)));
    assert!(TransferStep::ShutDown.expects(&TransferOutcome::ShutDownFailed(other("x"))));
}

#[test]
fn meters_add_up_over_connections() {
    let mut proxy = proxy();
    for n in [3, 5] {
        let mut c = Client::serve();
        // What the client sends is not metered, but it leaves a token.
        let mut step = next(c.half2.poll(TransferStep::Read, TransferOutcome::Read(100)));
        while step != TransferStep::Await {
            let outcome = match step {
                TransferStep::Write(m) => TransferOutcome::Written(m),
                step => perform(step, &mut proxy, &mut c),
            };
            step = next(c.half2.poll(step, outcome));
        }
        assert_eq!(c.half2.amt, 100);
        let mut step = next(c.half1.poll(TransferStep::Read, TransferOutcome::Read(n)));
        while step != TransferStep::Write(n) {
            let outcome = perform(step, &mut proxy, &mut c);
            step = next(c.half1.poll(step, outcome));
        }
    }
    assert_eq!(proxy.num_bytes, 8);
    assert_eq!(proxy.num_resp, 2);
    assert_eq!(proxy.get_latency().count, 2);
}

#[test]
fn half_is_finished_only_at_the_end_of_the_stream() {
    let mut t = TransferBackFront::new(End::Front, End::Back);
    assert_eq!(next(t.poll(TransferStep::Read, TransferOutcome::Read(4))), TransferStep::Stamp(4));
    assert_eq!(
        next(t.poll(TransferStep::Write(4), TransferOutcome::Written(4))),
        TransferStep::Notify
    );
    assert_eq!(next(t.poll(TransferStep::Read, TransferOutcome::Read(0))), TransferStep::ShutDown);
    assert!(matches!(
        t.poll(TransferStep::ShutDown, TransferOutcome::Done),
        Progress::Finished(4)
    ));
}

#[test]
fn token_steps_know_a_closed_channel() {
    let mut c = Client::serve();
    assert!(matches!(
        TransferStep::TakeToken(1).perform_tokens(&mut c.tokens),
        Some(TransferOutcome::NoToken)
    ));
    assert!(matches!(
        TransferStep::Notify.perform_tokens(&mut c.tokens),
        Some(TransferOutcome::Done)
    ));
    assert!(matches!(
        TransferStep::TakeToken(1).perform_tokens(&mut c.tokens),
        Some(TransferOutcome::TokenTaken)
    ));
    c.tokens.disconnect();
    assert!(TransferStep::Notify.perform_tokens(&mut c.tokens).is_none());
}
