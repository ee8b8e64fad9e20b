use io_chain::{adds_sink, EndpointKind, Fanout, IoFailure, TeeStep};

/// Runs a fan-out over `src`, read `read_chunk` bytes at a time, with `sinks`
/// sinks; `refuse(round, sink)` says whether a hand-off fails. Returns what
/// each sink was handed, chunk by chunk, and how the reader ended.
fn run(
    src: &[u8],
    chunk_size: usize,
    read_chunk: usize,
    sinks: usize,
    refuse: impl Fn(usize, usize) -> bool,
) -> (Vec<Vec<Vec<u8>>>, TeeStep) {
    let mut f = Fanout::new(chunk_size);
    for i in 0..sinks {
        assert_eq!(f.register(), i);
    }
    let mut got: Vec<Vec<Vec<u8>>> = vec![Vec::new(); sinks];
    let mut pos = 0;
    let mut round = 0;
    let mut step = TeeStep::Read(f.read_limit());
    loop {
        step = match step {
            TeeStep::Read(limit) => {
                let end = usize::min(pos + usize::min(limit, read_chunk), src.len());
                let b = src[pos..end].to_vec();
                pos = end;
                f.on_read(Ok(b))
            }
            TeeStep::Deliver => {
                let chunk = f.chunk().to_vec();
                let mut sent = Vec::new();
                for &i in f.live_sinks() {
                    let ok = !refuse(round, i);
                    if ok {
                        got[i].push(chunk.clone());
                    }
                    sent.push(ok);
                }
                let awaited = f.on_delivered(sent);
                if awaited > 0 {
                    assert!(f.on_acked(awaited - 1).is_none());
                }
                round += 1;
                f.on_acked(awaited).unwrap()
            }
            end => return (got, end),
        };
    }
}

#[test]
fn every_sink_gets_identical_chunks() {
    let src: Vec<u8> = (0..10u8).collect();
    let (got, end) = run(&src, 4, 3, 3, |_, _| false);
    assert_eq!(end, TeeStep::Done);
    let want = vec![vec![0, 1, 2, 3], vec![4, 5, 6, 7], vec![8, 9]];
    for g in &got {
        assert_eq!(g, &want);
    }
}

#[test]
fn chunks_fill_before_delivery() {
    let src: Vec<u8> = (0..100u8).collect();
    let (got, _) = run(&src, 32, 5, 1, |_, _| false);
    let sizes: Vec<usize> = got[0].iter().map(|c| c.len()).collect();
    assert_eq!(sizes, vec![32, 32, 32, 4]);
    assert_eq!(got[0].concat(), src);
}

#[test]
fn dead_sink_is_retired_and_others_continue() {
    let src: Vec<u8> = (0..20u8).collect();
    let (got, end) = run(&src, 5, 5, 3, |round, sink| sink == 1 && round >= 1);
    assert_eq!(end, TeeStep::Done);
    assert_eq!(got[0].len(), 4);
    assert_eq!(got[2], got[0]);
    assert_eq!(got[1], got[0][..1].to_vec());
}

#[test]
fn retired_sink_is_not_offered_later_chunks() {
    let mut f = Fanout::new(2);
    f.register();
    f.register();
    assert_eq!(f.on_read(Ok(vec![1, 2])), TeeStep::Deliver);
    assert_eq!(f.on_delivered(vec![false, true]), 1);
    assert_eq!(f.live_sinks(), &vec![1]);
    assert_eq!(f.on_acked(0), None);
    assert_eq!(f.on_acked(1), Some(TeeStep::Read(2)));
    assert_eq!(f.chunk(), &[] as &[u8]);
}

#[test]
fn no_sinks_still_reads_to_the_end() {
    let src = vec![7u8; 9];
    let (got, end) = run(&src, 4, 4, 0, |_, _| false);
    assert!(got.is_empty());
    assert_eq!(end, TeeStep::Done);
}

#[test]
fn empty_chunk_size_ends_at_once() {
    let mut f = Fanout::new(0);
    f.register();
    assert_eq!(f.read_limit(), 0);
    assert_eq!(f.on_read(Ok(vec![])), TeeStep::Done);
}

#[test]
fn short_final_read_delivers_partial_chunk() {
    let mut f = Fanout::new(8);
    f.register();
    assert_eq!(f.on_read(Ok(vec![1, 2, 3])), TeeStep::Read(5));
    assert_eq!(f.on_read(Ok(vec![])), TeeStep::Deliver);
    assert_eq!(f.chunk(), &[1, 2, 3]);
}

#[test]
fn read_failure_ends_the_fanout() {
    let mut f = Fanout::new(8);
    f.register();
    f.on_read(Ok(vec![1]));
    let s = f.on_read(Err(IoFailure::Os("input gone".to_string())));
    assert_eq!(s, TeeStep::Failed(IoFailure::Os("input gone".to_string())));
}

#[test]
fn only_null_output_adds_no_sink() {
    assert!(!adds_sink(EndpointKind::Null));
    assert!(adds_sink(EndpointKind::Fd));
    assert!(adds_sink(EndpointKind::Stream));
    assert!(adds_sink(EndpointKind::PipeRequested));
}
