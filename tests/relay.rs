use std::cell::RefCell;
use std::rc::Rc;

use io_chain::{IoFailure, Lambda, LambdaFilter, Relay, Signal};

/// Records into a log that outlives the handler.
struct Shared(Rc<RefCell<Vec<u8>>>);

impl Lambda for Shared {
    type FinishResult = ();

    fn handle(&mut self, buf: &[u8]) {
        self.0.borrow_mut().extend_from_slice(buf);
    }

    fn finish(self) {}
}

/// Records every buffer it is handed.
struct Recorder {
    seen: Vec<u8>,
    calls: usize,
}

impl Lambda for Recorder {
    type FinishResult = (Vec<u8>, usize);

    fn handle(&mut self, buf: &[u8]) {
        self.seen.extend_from_slice(buf);
        self.calls += 1;
    }

    fn finish(self) -> (Vec<u8>, usize) {
        (self.seen, self.calls)
    }
}

/// Counts bytes only.
struct Counter(u64);

impl Lambda for Counter {
    type FinishResult = u64;

    fn handle(&mut self, buf: &[u8]) {
        self.0 += buf.len() as u64;
    }

    fn finish(self) -> u64 {
        self.0
    }
}

struct NoOp;

impl Lambda for NoOp {
    type FinishResult = ();

    fn handle(&mut self, _buf: &[u8]) {}

    fn finish(self) {}
}

/// Drives a relay over an in-memory source read `read_chunk` bytes at a time,
/// into a sink that accepts at most `write_cap` bytes per write and fails once
/// it holds `fail_after` bytes.
fn drive<F: Lambda>(
    handler: F,
    src: &[u8],
    read_chunk: usize,
    write_cap: usize,
    fail_after: Option<usize>,
) -> (Result<F::FinishResult, IoFailure>, Vec<u8>) {
    let mut handler = LambdaFilter::new(handler).into_handler();
    let mut relay = Relay::new();
    let mut sink: Vec<u8> = Vec::new();
    let mut pos = 0;
    let mut signal = Signal::Read;
    loop {
        signal = match signal {
            Signal::Read => {
                let end = usize::min(pos + read_chunk, src.len());
                let got = src[pos..end].to_vec();
                pos = end;
                relay.on_read(Ok(got))
            }
            Signal::Write => {
                let buf = relay.unwritten_bytes();
                let mut n = usize::min(buf.len(), write_cap);
                let put = match fail_after {
                    Some(limit) if sink.len() >= limit => Err(IoFailure::Os("broken pipe".to_string())),
                    Some(limit) => {
                        n = usize::min(n, limit - sink.len());
                        if n == 0 {
                            Err(IoFailure::Os("broken pipe".to_string()))
                        } else {
                            Ok(n)
                        }
                    }
                    None => Ok(n),
                };
                if let Ok(n) = put {
                    sink.extend_from_slice(&buf[..n]);
                }
                relay.on_write(put)
            }
            Signal::Observe => {
                handler.handle(relay.observed_bytes());
                relay.resume()
            }
            Signal::Ended => return (Ok(handler.finish()), sink),
            Signal::Failed(e) => return (Err(e), sink),
        };
    }
}

fn pattern(n: usize) -> Vec<u8> {
    (0..n).map(|i| if i % 2 == 0 { b'y' } else { b'\n' }).collect()
}

#[test]
fn copy_is_byte_exact_for_every_chunk_size() {
    let src: Vec<u8> = (0..1000u32).map(|i| (i * 7 % 251) as u8).collect();
    for read_chunk in [1, 2, 3, 7, 64, 999, 1000, 4096] {
        for write_cap in [1, 5, 100, 8192] {
            let (r, sink) = drive(NoOp, &src, read_chunk, write_cap, None);
            assert!(r.is_ok());
            assert_eq!(sink, src);
        }
    }
}

#[test]
fn handler_sees_what_the_sink_accepted() {
    let src = pattern(300);
    let (r, sink) = drive(Recorder { seen: vec![], calls: 0 }, &src, 50, 7, None);
    let (seen, calls) = r.unwrap();
    assert_eq!(seen, src);
    assert_eq!(sink, src);
    // 300 bytes in 50-byte reads, each written 7 bytes at a time: 8 writes per read.
    assert_eq!(calls, 6 * 8);
}

#[test]
fn handler_never_sees_bytes_that_failed_to_write() {
    let src = pattern(100);
    let mut relay = Relay::new();
    assert_eq!(relay.on_read(Ok(src[..10].to_vec())), Signal::Write);
    // The sink accepts 4 of the 10 bytes: exactly those are handed out.
    assert_eq!(relay.on_write(Ok(4)), Signal::Observe);
    assert_eq!(relay.observed_bytes(), &src[..4]);
    assert_eq!(relay.resume(), Signal::Write);
    assert_eq!(relay.unwritten_bytes(), &src[4..10]);
    // Then it fails: nothing more is handed out.
    let s = relay.on_write(Err(IoFailure::Os("broken pipe".to_string())));
    assert_eq!(s, Signal::Failed(IoFailure::Os("broken pipe".to_string())));
    // A whole copy that stops partway: the handler saw exactly what the sink holds.
    let log = Rc::new(RefCell::new(Vec::new()));
    let (r, sink) = drive(Shared(Rc::clone(&log)), &src, 10, 3, Some(25));
    assert_eq!(r, Err(IoFailure::Os("broken pipe".to_string())));
    assert_eq!(sink, src[..25].to_vec());
    assert_eq!(*log.borrow(), sink);
}

#[test]
fn partial_writes_hand_out_each_accepted_run() {
    let mut relay = Relay::new();
    relay.on_read(Ok(vec![1, 2, 3, 4, 5]));
    assert_eq!(relay.on_write(Ok(3)), Signal::Observe);
    assert_eq!(relay.observed_bytes(), &[1, 2, 3]);
    assert_eq!(relay.resume(), Signal::Write);
    assert_eq!(relay.on_write(Ok(2)), Signal::Observe);
    assert_eq!(relay.observed_bytes(), &[4, 5]);
    assert_eq!(relay.resume(), Signal::Read);
    assert_eq!(relay.on_read(Ok(vec![])), Signal::Ended);
}

#[test]
fn empty_source_ends_at_once() {
    let mut relay = Relay::new();
    assert_eq!(relay.on_read(Ok(vec![])), Signal::Ended);
}

#[test]
fn write_of_zero_bytes_fails() {
    let mut relay = Relay::new();
    relay.on_read(Ok(vec![9; 4]));
    assert_eq!(relay.on_write(Ok(0)), Signal::Failed(IoFailure::WriteZero));
}

#[test]
fn interrupted_calls_are_retried() {
    let mut relay = Relay::new();
    assert_eq!(relay.on_read(Err(IoFailure::Interrupted)), Signal::Read);
    assert_eq!(relay.on_read(Ok(vec![1, 2])), Signal::Write);
    assert_eq!(relay.on_write(Err(IoFailure::Interrupted)), Signal::Write);
    assert_eq!(relay.unwritten_bytes(), &[1, 2]);
    assert_eq!(relay.on_write(Ok(2)), Signal::Observe);
    assert_eq!(relay.observed_bytes(), &[1, 2]);
    assert_eq!(relay.resume(), Signal::Read);
    assert_eq!(relay.on_read(Ok(vec![])), Signal::Ended);
}

#[test]
fn read_failure_is_reported() {
    let mut relay = Relay::new();
    let s = relay.on_read(Err(IoFailure::Os("input gone".to_string())));
    assert_eq!(s, Signal::Failed(IoFailure::Os("input gone".to_string())));
}

#[test]
fn counting_stage_observes_every_byte_of_a_long_stream() {
    let n = 1024 * 512;
    let src = pattern(n);
    let (r, sink) = drive(Counter(0), &src, 8192, 65536, None);
    assert_eq!(r, Ok(n as u64));
    assert_eq!(sink.len(), n);
    assert!(sink.chunks(2).all(|c| c == b"y\n"));
}

#[test]
fn null_input_never_calls_the_handler() {
    let log = Rc::new(RefCell::new(Vec::new()));
    let (r, sink) = drive(Recorder { seen: vec![], calls: 0 }, &[], 16, 16, None);
    assert_eq!(r, Ok((vec![], 0)));
    assert!(sink.is_empty());
    let (r, _) = drive(Shared(Rc::clone(&log)), &[], 16, 16, None);
    assert_eq!(r, Ok(()));
    assert!(log.borrow().is_empty());
}

#[test]
fn result_is_the_finish_hook_value() {
    let src = pattern(37);
    let (r, _) = drive(Recorder { seen: vec![], calls: 0 }, &src, 10, 100, None);
    assert_eq!(r, Ok((src.clone(), 4)));
}
