use wasm_capnp_async::harness::{
    batch_message, batch_seed, bytes_equal, seed_from_bytes, EchoBatch, ReplyMismatch,
    BATCH_SEED_STRIDE, FALLBACK_SEED,
};
use wasm_capnp_async::pool::Echoer;

#[test]
fn batch_message_text() {
    assert_eq!(batch_message(0), b"Hello from WASI! #0".to_vec());
    assert_eq!(batch_message(4), b"Hello from WASI! #4".to_vec());
    assert_eq!(batch_message(42), b"Hello from WASI! #42".to_vec());
    assert_eq!(batch_message(1000), b"Hello from WASI! #1000".to_vec());
    assert_eq!(
        batch_message(usize::MAX),
        format!("Hello from WASI! #{}", usize::MAX).into_bytes()
    );
}

#[test]
fn bytes_equal_compares_contents() {
    assert!(bytes_equal(b"", b""));
    assert!(bytes_equal(b"abc", b"abc"));
    assert!(!bytes_equal(b"abc", b"abd"));
    assert!(!bytes_equal(b"abc", b"ab"));
}

#[test]
fn seed_from_eight_bytes_is_little_endian() {
    assert_eq!(seed_from_bytes(&[1, 2, 3, 4, 5, 6, 7, 8]), 578437695752307201);
    assert_eq!(seed_from_bytes(&[1, 0, 0, 0, 0, 0, 0, 0]), 1);
    assert_eq!(seed_from_bytes(&[0xff; 8]), u64::MAX);
}

#[test]
fn seed_from_other_lengths_is_the_fallback() {
    assert_eq!(seed_from_bytes(&[]), FALLBACK_SEED);
    assert_eq!(seed_from_bytes(&[1, 2, 3]), FALLBACK_SEED);
    assert_eq!(seed_from_bytes(&[0; 9]), FALLBACK_SEED);
}

#[test]
fn batch_seeds() {
    assert_eq!(batch_seed(5, 0), 5);
    assert_eq!(batch_seed(0, 1), BATCH_SEED_STRIDE);
    assert_eq!(batch_seed(7, 3), 15755400384260043832);
}

fn run_echoed(batch: &mut EchoBatch) -> Vec<usize> {
    let echoer = Echoer;
    let mut read = Vec::new();
    while let Some(idx) = batch.next_index() {
        let reply = echoer.echo(batch.payload(idx));
        assert_eq!(batch.check_reply(&reply), Ok(idx));
        read.push(idx);
    }
    assert!(batch.is_complete());
    read
}

#[test]
fn single_ping_round_trip() {
    let echoer = Echoer;
    let reply = echoer.echo(b"ping");
    assert_eq!(std::str::from_utf8(&reply).unwrap(), "ping");
}

#[test]
fn five_requests_read_in_given_order() {
    let mut batch = EchoBatch::with_order(5, vec![3, 1, 4, 0, 2]).unwrap();
    assert_eq!(batch.len(), 5);
    let echoer = Echoer;
    for (idx, text) in [
        (3usize, "Hello from WASI! #3"),
        (1, "Hello from WASI! #1"),
        (4, "Hello from WASI! #4"),
        (0, "Hello from WASI! #0"),
        (2, "Hello from WASI! #2"),
    ] {
        assert_eq!(batch.next_index(), Some(idx));
        let reply = echoer.echo(batch.payload(idx));
        assert_eq!(std::str::from_utf8(&reply).unwrap(), text);
        assert_eq!(batch.check_reply(&reply), Ok(idx));
    }
    assert_eq!(batch.next_index(), None);
    assert!(batch.is_complete());
}

#[test]
fn with_order_rejects_non_permutations() {
    assert!(EchoBatch::with_order(3, vec![0, 1]).is_none());
    assert!(EchoBatch::with_order(3, vec![0, 1, 3]).is_none());
    assert!(EchoBatch::with_order(3, vec![0, 1, 1]).is_none());
    assert!(EchoBatch::with_order(0, vec![]).is_some());
}

#[test]
fn several_seeded_batches_all_pass() {
    for b in 0..4usize {
        let mut batch = EchoBatch::new(200, batch_seed(12345, b));
        let mut read = run_echoed(&mut batch);
        read.sort();
        assert_eq!(read, (0..200).collect::<Vec<usize>>());
    }
}

#[test]
fn empty_batch_is_complete_at_once() {
    let batch = EchoBatch::new(0, 9);
    assert!(batch.is_complete());
    assert_eq!(batch.next_index(), None);
}

#[test]
fn mismatched_reply_names_the_request() {
    let mut batch = EchoBatch::with_order(3, vec![2, 0, 1]).unwrap();
    assert_eq!(batch.check_reply(b"Hello from WASI! #0"), Err(ReplyMismatch { index: 2 }));
    assert_eq!(batch.next_index(), Some(2));
    assert_eq!(batch.check_reply(b"Hello from WASI! #2"), Ok(2));
    assert_eq!(batch.check_reply(b"Hello from WASI! #1"), Err(ReplyMismatch { index: 0 }));
}
