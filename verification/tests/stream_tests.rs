use snowflake_driver::stream::{decompress_chunk, ChunkScheduler};

fn gzip(data: &[u8]) -> Vec<u8> {
    let mut enc = flate2::write::GzEncoder::new(Vec::new(), flate2::Compression::default());
    std::io::Write::write_all(&mut enc, data).unwrap();
    enc.finish().unwrap()
}

#[test]
fn gzip_chunks_are_inflated_before_parsing() {
    let compressed = gzip(b"[[\"1\"]]");
    assert_eq!(compressed[0], 0x1f);
    assert_eq!(compressed[1], 0x8b);
    let out = decompress_chunk(compressed).unwrap();
    assert_eq!(out, b"[[\"1\"]]");
}

#[test]
fn plain_chunks_pass_through_unchanged() {
    let out = decompress_chunk(b"[[\"1\"]]".to_vec()).unwrap();
    assert_eq!(out, b"[[\"1\"]]");
}

#[test]
fn truncated_gzip_chunks_fail() {
    let mut compressed = gzip(b"hello chunk");
    compressed.truncate(6);
    assert!(decompress_chunk(compressed).is_err());
}

/// Ordered mode with five chunks whose fetches complete in reverse
/// order still hands them over in listed order.
#[test]
fn ordered_mode_yields_in_listed_order() {
    let mut s = ChunkScheduler::new(5, 5, true);
    let mut started = Vec::new();
    while let Some(i) = s.start_next() {
        started.push(i);
    }
    assert_eq!(started, vec![0, 1, 2, 3, 4]);
    // completions arrive in reverse order
    for i in [4usize, 3, 2, 1, 0] {
        assert!(s.complete(i, vec![i as u8]));
    }
    let mut yielded = Vec::new();
    while let Some((i, bytes)) = s.pop_ready() {
        assert_eq!(bytes, vec![i as u8]);
        yielded.push(i);
    }
    assert_eq!(yielded, vec![0, 1, 2, 3, 4]);
    assert!(s.is_done());
}

/// Unordered mode hands the same set of chunks over, in completion
/// order.
#[test]
fn unordered_mode_yields_same_set_in_completion_order() {
    let mut s = ChunkScheduler::new(5, 5, false);
    while s.start_next().is_some() {}
    let mut yielded = Vec::new();
    for i in [4usize, 3, 2, 1, 0] {
        assert!(s.complete(i, Vec::new()));
        if let Some((j, _)) = s.pop_ready() {
            yielded.push(j);
        }
    }
    assert_eq!(yielded, vec![4, 3, 2, 1, 0]);
    let mut sorted = yielded.clone();
    sorted.sort();
    assert_eq!(sorted, vec![0, 1, 2, 3, 4]);
    assert!(s.is_done());
}

/// The window never exceeds the parallelism bound, and a slot must free
/// up before the next fetch is dispatched.
#[test]
fn window_respects_the_parallelism_bound() {
    let mut s = ChunkScheduler::new(4, 2, true);
    assert_eq!(s.start_next(), Some(0));
    assert_eq!(s.start_next(), Some(1));
    assert_eq!(s.start_next(), None);
    assert!(s.complete(0, Vec::new()));
    assert_eq!(s.start_next(), Some(2));
    assert_eq!(s.start_next(), None);
    // an unknown or duplicate completion is refused
    assert!(!s.complete(0, Vec::new()));
    assert!(!s.complete(7, Vec::new()));
}

/// Ordered mode buffers an early-arriving later chunk until its
/// predecessors are handed over.
#[test]
fn ordered_mode_buffers_early_completions() {
    let mut s = ChunkScheduler::new(2, 2, true);
    assert_eq!(s.start_next(), Some(0));
    assert_eq!(s.start_next(), Some(1));
    assert!(s.complete(1, vec![1]));
    assert_eq!(s.pop_ready(), None);
    assert!(s.complete(0, vec![0]));
    assert_eq!(s.pop_ready(), Some((0, vec![0])));
    assert_eq!(s.pop_ready(), Some((1, vec![1])));
    assert_eq!(s.pop_ready(), None);
}

/// The default parallelism of one is fully sequential.
#[test]
fn sequential_default_fetches_one_at_a_time() {
    let mut s = ChunkScheduler::new(3, 1, true);
    assert_eq!(s.start_next(), Some(0));
    assert_eq!(s.start_next(), None);
    assert!(s.complete(0, Vec::new()));
    assert_eq!(s.start_next(), Some(1));
}
