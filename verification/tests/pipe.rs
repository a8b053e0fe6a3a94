use meter_proxy::clock::StartTime;
use meter_proxy::link::{TimedOut, Tokens};
use meter_proxy::meters::{SharedCounter, SharedTimeVec};
use meter_proxy::pipe::{
    keep_copying_bench_2_targ, keep_copying_targ_2_bench, Outcome, RequestStep, ResponseStep,
    BUFFER_LEN,
};

fn request(step: RequestStep, outcome: Outcome) -> RequestStep {
    assert!(step.expects(&outcome));
    keep_copying_bench_2_targ(step, outcome)
}

fn response(step: ResponseStep, outcome: Outcome) -> ResponseStep {
    assert!(step.expects(&outcome));
    keep_copying_targ_2_bench(step, outcome)
}

#[test]
fn request_goes_from_read_to_notify() {
    let mut at = RequestStep::Read;
    at = request(at, Outcome::Read(100));
    assert_eq!(at, RequestStep::Stamp(100));
    at = request(at, Outcome::Done);
    assert_eq!(at, RequestStep::MarkAlive(100));
    at = request(at, Outcome::Done);
    assert_eq!(at, RequestStep::Write { from: 0, to: 100 });
    at = request(at, Outcome::Written(100));
    assert_eq!(at, RequestStep::Notify);
    at = request(at, Outcome::Done);
    assert_eq!(at, RequestStep::Read);
}

#[test]
fn short_write_is_followed_by_the_rest() {
    let at = RequestStep::Write { from: 0, to: 6 };
    let at = request(at, Outcome::Written(4));
    assert_eq!(at, RequestStep::Write { from: 4, to: 6 });
    let at = request(at, Outcome::Written(1));
    assert_eq!(at, RequestStep::Write { from: 5, to: 6 });
    assert_eq!(request(at, Outcome::Written(1)), RequestStep::Notify);

    let at = response(ResponseStep::Write { from: 0, to: 6 }, Outcome::Written(4));
    assert_eq!(at, ResponseStep::Write { from: 4, to: 6 });
    assert_eq!(response(at, Outcome::Written(2)), ResponseStep::Read);
}

#[test]
fn write_that_takes_nothing_has_failed() {
    let at = RequestStep::Write { from: 0, to: 6 };
    assert_eq!(request(at, Outcome::Written(0)), RequestStep::MarkBroken);
    let at = RequestStep::Write { from: 5, to: 6 };
    assert_eq!(request(at, Outcome::Written(0)), RequestStep::MarkBroken);
    let at = ResponseStep::Write { from: 0, to: 6 };
    assert_eq!(response(at, Outcome::Written(0)), ResponseStep::MarkBroken);
    let at = ResponseStep::Write { from: 4, to: 6 };
    assert_eq!(response(at, Outcome::Written(0)), ResponseStep::MarkBroken);
}

#[test]
fn nothing_to_write_is_written_at_once() {
    let at = request(RequestStep::MarkAlive(0), Outcome::Done);
    assert_eq!(at, RequestStep::Write { from: 0, to: 0 });
    assert_eq!(request(at, Outcome::Written(0)), RequestStep::Notify);
    let at = response(ResponseStep::MarkAlive(0), Outcome::Done);
    assert_eq!(at, ResponseStep::Write { from: 0, to: 0 });
    assert_eq!(response(at, Outcome::Written(0)), ResponseStep::Read);
}

#[test]
fn end_of_stream_does_not_stop_a_loop() {
    assert_eq!(request(RequestStep::Read, Outcome::Read(0)), RequestStep::Stamp(0));
    assert_eq!(response(ResponseStep::Read, Outcome::Read(0)), ResponseStep::TakeToken(0));
}

#[test]
fn failed_request_read_shuts_down_unless_flag_is_up() {
    assert_eq!(request(RequestStep::Read, Outcome::ReadFailed), RequestStep::MarkFailed);
    assert_eq!(
        request(RequestStep::MarkFailed, Outcome::WasRaised(false)),
        RequestStep::ShutDown
    );
    assert_eq!(request(RequestStep::MarkFailed, Outcome::WasRaised(true)), RequestStep::LetGo);
}

#[test]
fn failed_request_write_shuts_down() {
    assert_eq!(request(RequestStep::Write { from: 0, to: 9 }, Outcome::WriteFailed), RequestStep::MarkBroken);
    assert_eq!(request(RequestStep::MarkBroken, Outcome::Done), RequestStep::ShutDown);
}

#[test]
fn response_without_token_is_counted_only() {
    let mut at = ResponseStep::Read;
    at = response(at, Outcome::Read(BUFFER_LEN));
    assert_eq!(at, ResponseStep::TakeToken(1024));
    at = response(at, Outcome::NoToken);
    assert_eq!(at, ResponseStep::Count(1024));
    at = response(at, Outcome::Done);
    assert_eq!(at, ResponseStep::MarkAlive(1024));
    at = response(at, Outcome::Done);
    assert_eq!(at, ResponseStep::Write { from: 0, to: 1024 });
    at = response(at, Outcome::Written(1024));
    assert_eq!(at, ResponseStep::Read);
}

#[test]
fn response_with_token_is_measured_first() {
    assert_eq!(
        response(ResponseStep::TakeToken(5), Outcome::TokenTaken),
        ResponseStep::Measure(5)
    );
    assert_eq!(response(ResponseStep::Measure(5), Outcome::Done), ResponseStep::Count(5));
}

#[test]
fn failed_response_ends_the_loop() {
    assert_eq!(response(ResponseStep::Read, Outcome::ReadFailed), ResponseStep::MarkFailed);
    assert_eq!(
        response(ResponseStep::MarkFailed, Outcome::WasRaised(false)),
        ResponseStep::ShutDown
    );
    assert_eq!(response(ResponseStep::MarkFailed, Outcome::WasRaised(true)), ResponseStep::LetGo);
    assert_eq!(response(ResponseStep::Write { from: 0, to: 9 }, Outcome::WriteFailed), ResponseStep::MarkBroken);
    assert_eq!(response(ResponseStep::MarkBroken, Outcome::Done), ResponseStep::ShutDown);
}

#[test]
fn steps_know_their_outcomes() {
    assert!(!RequestStep::Read.expects(&Outcome::Read(BUFFER_LEN + 1)));
    assert!(!RequestStep::Read.expects(&Outcome::Done));
    assert!(!RequestStep::Write { from: 0, to: 3 }.expects(&Outcome::Written(4)));
    assert!(!RequestStep::ShutDown.expects(&Outcome::Done));
    assert!(!RequestStep::LetGo.expects(&Outcome::Done));
    assert!(!ResponseStep::Read.expects(&Outcome::Read(BUFFER_LEN + 1)));
    assert!(!ResponseStep::TakeToken(1).expects(&Outcome::Done));
    assert!(!ResponseStep::Write { from: 0, to: 3 }.expects(&Outcome::Written(4)));
    assert!(!ResponseStep::ShutDown.expects(&Outcome::Done));
    assert!(!ResponseStep::LetGo.expects(&Outcome::Done));
}

/// A connection whose sockets are lists of chunks, with the clock at hand.
struct Pipe {
    request: RequestStep,
    response: ResponseStep,
    timed_out: TimedOut,
    start_time: StartTime,
    tokens: Tokens,
    now: u64,
    write_at_most: usize,
    request_buf: Vec<u8>,
    response_buf: Vec<u8>,
    from_front: Vec<Vec<u8>>,
    to_back: Vec<u8>,
    from_back: Vec<Vec<u8>>,
    to_front: Vec<u8>,
}

impl Pipe {
    fn new(from_front: Vec<Vec<u8>>, from_back: Vec<Vec<u8>>) -> Pipe {
        Pipe {
            request: RequestStep::Read,
            response: ResponseStep::Read,
            timed_out: TimedOut::new(),
            start_time: StartTime::new(),
            tokens: Tokens::new(),
            now: 1_000,
            write_at_most: usize::MAX,
            request_buf: vec![],
            response_buf: vec![],
            from_front,
            to_back: vec![],
            from_back,
            to_front: vec![],
        }
    }

    fn request_turn(&mut self) {
        self.now += 10;
        let outcome = match self.request {
            RequestStep::Read => {
                if self.from_front.is_empty() {
                    Outcome::ReadFailed
                } else {
                    self.request_buf = self.from_front.remove(0);
                    Outcome::Read(self.request_buf.len())
                }
            }
            RequestStep::MarkFailed | RequestStep::MarkAlive(_) | RequestStep::MarkBroken => {
                self.request.perform_flag(&mut self.timed_out)
            }
            RequestStep::Stamp(_) => {
                self.request.perform_stamp_at(&mut self.start_time, self.now)
            }
            RequestStep::Write { from, to } => {
                let m = (to - from).min(self.write_at_most);
                self.to_back.extend_from_slice(&self.request_buf[from..from + m]);
                Outcome::Written(m)
            }
            RequestStep::Notify => self.request.perform_notify(&mut self.tokens).unwrap(),
            RequestStep::ShutDown | RequestStep::LetGo => return,
        };
        self.request = request(self.request, outcome);
    }

    fn response_turn(&mut self, num_bytes: &mut SharedCounter, time_table: &mut SharedTimeVec) {
        self.now += 10;
        let outcome = match self.response {
            ResponseStep::Read => {
                if self.from_back.is_empty() {
                    Outcome::ReadFailed
                } else {
                    self.response_buf = self.from_back.remove(0);
                    Outcome::Read(self.response_buf.len())
                }
            }
            ResponseStep::MarkFailed | ResponseStep::MarkAlive(_) | ResponseStep::MarkBroken => {
                self.response.perform_flag(&mut self.timed_out)
            }
            ResponseStep::TakeToken(_) => self.response.perform_take(&mut self.tokens),
            ResponseStep::Measure(_) => {
                let ns = self.start_time.elapsed_at(self.now);
                self.response.perform_measure(ns, time_table)
            }
            ResponseStep::Count(_) => self.response.perform_count(num_bytes),
            ResponseStep::Write { from, to } => {
                let m = (to - from).min(self.write_at_most);
                self.to_front.extend_from_slice(&self.response_buf[from..from + m]);
                Outcome::Written(m)
            }
            ResponseStep::ShutDown | ResponseStep::LetGo => return,
        };
        self.response = response(self.response, outcome);
    }
}

#[test]
fn pipe_is_transparent_and_metered() {
    let mut bytes = SharedCounter::new();
    let mut times = SharedTimeVec::new();
    let mut p = Pipe::new(
        vec![b"GET /".to_vec(), b" HTTP".to_vec()],
        vec![b"200".to_vec(), b" OK".to_vec(), b"!".to_vec()],
    );
    while p.to_back.len() < 10 || p.request != RequestStep::Read {
        p.request_turn();
    }
    while p.response != ResponseStep::ShutDown {
        p.response_turn(&mut bytes, &mut times);
    }
    while p.request != RequestStep::LetGo {
        p.request_turn();
    }
    assert_eq!(p.to_back, b"GET / HTTP".to_vec());
    assert_eq!(p.to_front, b"200 OK!".to_vec());
    assert_eq!(bytes.get(), 7);
    // Two requests went out, so two of the three responses have a latency.
    assert_eq!(times.get_avg_value().count, 2);
}

#[test]
fn latency_is_the_time_since_the_last_stamp() {
    let mut bytes = SharedCounter::new();
    let mut times = SharedTimeVec::new();
    let mut p = Pipe::new(vec![b"a".to_vec()], vec![b"b".to_vec()]);
    // Read, Stamp (at 1020), MarkAlive, Write, Notify: the clock shows 1050.
    for _ in 0..5 {
        p.request_turn();
    }
    // Read, TakeToken, Measure: the clock shows 1080.
    for _ in 0..3 {
        p.response_turn(&mut bytes, &mut times);
    }
    assert_eq!(p.response, ResponseStep::Count(1));
    assert_eq!(times.checked_sum(), Some(60));
}

#[test]
fn some_loop_always_shuts_down() {
    let mut bytes = SharedCounter::new();
    let mut times = SharedTimeVec::new();
    for turns in 0..256u32 {
        let mut p = Pipe::new(vec![], vec![b"x".to_vec()]);
        for k in 0..64 {
            if (turns >> (k % 8)) & 1 == 0 {
                p.request_turn();
            } else {
                p.response_turn(&mut bytes, &mut times);
            }
            if p.request == RequestStep::LetGo {
                assert_eq!(p.response, ResponseStep::ShutDown);
            }
            if p.response == ResponseStep::LetGo {
                assert_eq!(p.request, RequestStep::ShutDown);
            }
        }
        assert!(p.request == RequestStep::ShutDown || p.response == ResponseStep::ShutDown);
    }
}

#[test]
fn throughput_and_latency_add_up_over_connections() {
    let mut bytes = SharedCounter::new();
    let mut times = SharedTimeVec::new();
    let mut p = Pipe::new(vec![b"a".to_vec()], vec![b"12345".to_vec()]);
    let mut q = Pipe::new(vec![b"b".to_vec()], vec![b"678".to_vec(), b"90".to_vec()]);
    for _ in 0..5 {
        p.request_turn();
        q.request_turn();
    }
    for _ in 0..12 {
        p.response_turn(&mut bytes, &mut times);
        q.response_turn(&mut bytes, &mut times);
    }
    assert_eq!(bytes.get(), 10);
    assert_eq!(times.get_avg_value().count, 2);
    bytes.reset();
    times.reset();
    p.from_back.push(b"!!".to_vec());
    p.response = ResponseStep::Read;
    for _ in 0..5 {
        p.response_turn(&mut bytes, &mut times);
    }
    assert_eq!(bytes.get(), 2);
    assert_eq!(times.get_avg_value().count, 0);
}

#[test]
fn meters_never_go_back() {
    let mut bytes = SharedCounter::new();
    let mut times = SharedTimeVec::new();
    let mut p = Pipe::new(
        vec![b"a".to_vec(), b"b".to_vec()],
        vec![b"1".to_vec(), b"22".to_vec(), b"333".to_vec()],
    );
    let mut last = (0, 0, 0, 0);
    for k in 0..40 {
        if k % 3 == 0 {
            p.request_turn();
        } else {
            p.response_turn(&mut bytes, &mut times);
        }
        let now =
            (bytes.get(), times.get_avg_value().count, p.to_back.len(), p.to_front.len());
        assert!(now.0 >= last.0 && now.1 >= last.1 && now.2 >= last.2 && now.3 >= last.3);
        assert!(p.to_front.len() <= bytes.get());
        last = now;
    }
}

#[test]
fn requests_are_forwarded_whole_by_short_writes() {
    let mut bytes = SharedCounter::new();
    let mut times = SharedTimeVec::new();
    let mut p = Pipe::new(vec![b"abcdef".to_vec()], vec![b"0123456789".to_vec()]);
    p.write_at_most = 4;
    while p.request != RequestStep::ShutDown {
        p.request_turn();
    }
    while p.response != ResponseStep::LetGo && p.response != ResponseStep::ShutDown {
        p.response_turn(&mut bytes, &mut times);
    }
    assert_eq!(p.to_back, b"abcdef".to_vec());
    assert_eq!(p.to_front, b"0123456789".to_vec());
    assert_eq!(bytes.get(), 10);
    assert_eq!(times.get_avg_value().count, 1);
}

#[test]
fn request_gets_no_further_without_a_receiver() {
    let mut tokens = Tokens::new();
    assert_eq!(RequestStep::Notify.perform_notify(&mut tokens), Some(Outcome::Done));
    tokens.disconnect();
    assert_eq!(RequestStep::Notify.perform_notify(&mut tokens), None);
}

#[test]
fn stamp_step_shows_the_clock() {
    let mut start_time = StartTime::new();
    let before = time::precise_time_ns();
    let (outcome, now) = RequestStep::Stamp(3).perform_stamp(&mut start_time);
    assert_eq!(outcome, Outcome::Done);
    assert!(before <= now);
    assert_eq!(start_time.elapsed_at(now), 0);
}
