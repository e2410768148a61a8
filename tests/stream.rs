use wasm_capnp_async::stream::{chunk_end, complete_read, ReadPoll, StreamFault, MAX_BLOCKING_WRITE};

#[test]
fn read_with_bytes_fills_the_front_of_the_buffer() {
    let mut buf = [9u8; 4];
    let r = complete_read(Ok(vec![1, 2]), &mut buf);
    assert!(matches!(r, ReadPoll::Ready(2)));
    assert_eq!(buf, [1, 2, 9, 9]);
}

#[test]
fn read_filling_the_whole_buffer() {
    let mut buf = [0u8; 3];
    let r = complete_read(Ok(vec![7, 8, 9]), &mut buf);
    assert!(matches!(r, ReadPoll::Ready(3)));
    assert_eq!(buf, [7, 8, 9]);
}

#[test]
fn empty_read_on_open_stream_is_pending() {
    let mut buf = [5u8; 4];
    let r = complete_read(Ok(vec![]), &mut buf);
    assert!(matches!(r, ReadPoll::Pending));
    assert_eq!(buf, [5u8; 4]);
}

#[test]
fn closed_stream_is_end_of_stream() {
    let mut buf = [5u8; 4];
    let r = complete_read(Err(StreamFault::Closed), &mut buf);
    assert!(matches!(r, ReadPoll::Eof));
    assert_eq!(buf, [5u8; 4]);
}

#[test]
fn write_spans_never_exceed_the_blocking_limit() {
    assert_eq!(MAX_BLOCKING_WRITE, 4096);
    assert_eq!(chunk_end(0, 0), 0);
    assert_eq!(chunk_end(0, 10), 10);
    assert_eq!(chunk_end(0, 4096), 4096);
    assert_eq!(chunk_end(0, 10000), 4096);
    assert_eq!(chunk_end(4096, 10000), 8192);
    assert_eq!(chunk_end(8192, 10000), 10000);
}

#[test]
fn write_spans_cover_a_large_frame_in_order() {
    let len = 32 * 1024 * 1024 + 17;
    let mut pos = 0usize;
    let mut spans = 0usize;
    while pos < len {
        let end = chunk_end(pos, len);
        assert!(end > pos && end - pos <= MAX_BLOCKING_WRITE);
        pos = end;
        spans += 1;
    }
    assert_eq!(pos, len);
    assert_eq!(spans, (len + MAX_BLOCKING_WRITE - 1) / MAX_BLOCKING_WRITE);
}
