use component_channels::error::{ErrorContext, Violation};
use component_channels::future::{FutureRead, FutureTable};
use component_channels::stream::{StreamRead, StreamTable, WriteStatus};

fn strings(items: &[&str]) -> Vec<String> {
    items.iter().map(|s| s.to_string()).collect()
}

fn read_items(streams: &mut StreamTable<String>, r: &component_channels::stream::StreamReader) -> Vec<String> {
    match streams.read(r) {
        Ok(StreamRead::Items(items)) => items,
        _ => panic!("expected items"),
    }
}

#[test]
fn future_hello_round_trip() {
    let mut futures: FutureTable<String> = FutureTable::new();
    let (tx, rx) = futures.new_future();
    assert_eq!(futures.write(tx, "hello".to_string()), Ok(()));
    match futures.read(&rx) {
        Ok(FutureRead::Value(v)) => assert_eq!(v, "hello"),
        _ => panic!("expected the value"),
    }
    assert!(matches!(futures.read(&rx), Ok(FutureRead::Finished)));
    assert!(matches!(futures.read(&rx), Ok(FutureRead::Finished)));
}

#[test]
fn future_read_before_write_is_pending() {
    let mut futures: FutureTable<u32> = FutureTable::new();
    let (tx, rx) = futures.new_future();
    assert!(matches!(futures.read(&rx), Ok(FutureRead::Pending)));
    futures.write(tx, 7).unwrap();
    assert!(matches!(futures.read(&rx), Ok(FutureRead::Value(7))));
}

#[test]
fn future_write_after_reader_drop_delivers_nothing() {
    let mut futures: FutureTable<String> = FutureTable::new();
    let (tx, rx) = futures.new_future();
    let index = rx.index();
    assert_eq!(futures.drop_reader(rx), Ok(()));
    assert_eq!(futures.write(tx, "lost".to_string()), Ok(()));
    assert!(!futures.has_value(index));
}

#[test]
fn future_reader_drop_releases_written_value() {
    let mut futures: FutureTable<u8> = FutureTable::new();
    let (tx, rx) = futures.new_future();
    let index = rx.index();
    futures.write(tx, 1).unwrap();
    assert!(futures.has_value(index));
    futures.drop_reader(rx).unwrap();
    assert!(!futures.has_value(index));
}

#[test]
fn future_writer_drop_cancels() {
    let mut futures: FutureTable<u8> = FutureTable::new();
    let (tx, rx) = futures.new_future();
    futures.drop_writer(tx).unwrap();
    assert!(matches!(futures.read(&rx), Ok(FutureRead::Cancelled)));
    assert!(matches!(futures.read(&rx), Ok(FutureRead::Cancelled)));
}

#[test]
fn future_error_is_delivered_once() {
    let mut futures: FutureTable<u8> = FutureTable::new();
    let (tx, rx) = futures.new_future();
    let e = ErrorContext { code: 5, from_host: true };
    futures.fail(tx, e).unwrap();
    assert!(matches!(futures.read(&rx), Ok(FutureRead::Errored(x)) if x == e));
    assert!(matches!(futures.read(&rx), Ok(FutureRead::Finished)));
}

#[test]
fn future_handle_with_unknown_index_is_refused() {
    let mut first: FutureTable<u8> = FutureTable::new();
    let mut second: FutureTable<u8> = FutureTable::new();
    let (tx, rx) = first.new_future();
    assert!(matches!(second.read(&rx), Err(Violation::StaleHandle)));
    assert_eq!(second.write(tx, 3), Err(Violation::StaleHandle));
    assert!(matches!(first.read(&rx), Ok(FutureRead::Pending)));
}

#[test]
fn stream_chunks_drain_in_order_then_end() {
    let mut streams: StreamTable<String> = StreamTable::new();
    let (tx, rx) = streams.new_stream(8);
    let w = streams.write(&tx, strings(&["a", "b"])).unwrap();
    assert_eq!(w.status, WriteStatus::Accepted);
    assert!(w.remainder.is_empty());
    let w = streams.write(&tx, strings(&["c"])).unwrap();
    assert_eq!(w.status, WriteStatus::Accepted);
    assert!(w.remainder.is_empty());
    streams.close(&tx).unwrap();
    assert_eq!(read_items(&mut streams, &rx), strings(&["a", "b", "c"]));
    assert!(matches!(streams.read(&rx), Ok(StreamRead::End)));
}

#[test]
fn stream_write_after_reader_drop_reports_cancellation() {
    let mut streams: StreamTable<String> = StreamTable::new();
    let (tx, rx) = streams.new_stream(4);
    streams.write(&tx, strings(&["a"])).unwrap();
    assert_eq!(read_items(&mut streams, &rx), strings(&["a"]));
    streams.drop_reader(rx).unwrap();
    let w = streams.write(&tx, strings(&["b", "c"])).unwrap();
    assert_eq!(w.status, WriteStatus::Cancelled);
    assert_eq!(w.remainder, strings(&["b", "c"]));
}

#[test]
fn stream_backpressure_returns_remainder() {
    let mut streams: StreamTable<u32> = StreamTable::new();
    let (tx, rx) = streams.new_stream(2);
    let w = streams.write(&tx, vec![1, 2, 3]).unwrap();
    assert_eq!(w.status, WriteStatus::Accepted);
    assert_eq!(w.remainder, vec![3]);
    assert_eq!(streams.buffered_len(rx.index()), Some(2));
    let w = streams.write(&tx, vec![3]).unwrap();
    assert_eq!(w.status, WriteStatus::Blocked);
    assert_eq!(w.remainder, vec![3]);
    assert_eq!(streams.buffered_len(rx.index()), Some(2));
    assert!(matches!(streams.read(&rx), Ok(StreamRead::Items(v)) if v == vec![1, 2]));
    let w = streams.write(&tx, vec![3, 4]).unwrap();
    assert_eq!(w.status, WriteStatus::Accepted);
    assert!(w.remainder.is_empty());
    assert!(matches!(streams.read(&rx), Ok(StreamRead::Items(v)) if v == vec![3, 4]));
    assert!(matches!(streams.read(&rx), Ok(StreamRead::Pending)));
}

#[test]
fn stream_partial_acceptance_fills_the_window() {
    let mut streams: StreamTable<u32> = StreamTable::new();
    let (tx, rx) = streams.new_stream(3);
    streams.write(&tx, vec![10]).unwrap();
    let w = streams.write(&tx, vec![11, 12, 13, 14]).unwrap();
    assert_eq!(w.status, WriteStatus::Accepted);
    assert_eq!(w.remainder, vec![13, 14]);
    assert_eq!(streams.buffered_len(rx.index()), Some(3));
}

#[test]
fn stream_zero_window_blocks() {
    let mut streams: StreamTable<u32> = StreamTable::new();
    let (tx, _rx) = streams.new_stream(0);
    let w = streams.write(&tx, vec![1]).unwrap();
    assert_eq!(w.status, WriteStatus::Blocked);
    assert_eq!(w.remainder, vec![1]);
}

#[test]
fn stream_close_twice_changes_nothing() {
    let mut streams: StreamTable<String> = StreamTable::new();
    let (tx, rx) = streams.new_stream(4);
    streams.write(&tx, strings(&["x", "y"])).unwrap();
    assert_eq!(streams.close(&tx), Ok(()));
    assert_eq!(streams.close(&tx), Ok(()));
    assert_eq!(streams.buffered_len(rx.index()), Some(2));
    assert_eq!(read_items(&mut streams, &rx), strings(&["x", "y"]));
    assert!(matches!(streams.read(&rx), Ok(StreamRead::End)));
}

#[test]
fn stream_write_after_close_hands_chunk_back() {
    let mut streams: StreamTable<u32> = StreamTable::new();
    let (tx, _rx) = streams.new_stream(4);
    streams.close(&tx).unwrap();
    let w = streams.write(&tx, vec![5, 6]).unwrap();
    assert_eq!(w.status, WriteStatus::Closed);
    assert_eq!(w.remainder, vec![5, 6]);
}

#[test]
fn stream_error_follows_buffered_items() {
    let mut streams: StreamTable<u32> = StreamTable::new();
    let (tx, rx) = streams.new_stream(4);
    streams.write(&tx, vec![1]).unwrap();
    let e = ErrorContext { code: 9, from_host: false };
    streams.fail(&tx, e).unwrap();
    streams.close(&tx).unwrap();
    assert!(matches!(streams.read(&rx), Ok(StreamRead::Items(v)) if v == vec![1]));
    assert!(matches!(streams.read(&rx), Ok(StreamRead::Errored(x)) if x == e));
}

#[test]
fn stream_writer_drop_ends_stream() {
    let mut streams: StreamTable<u32> = StreamTable::new();
    let (tx, rx) = streams.new_stream(4);
    streams.write(&tx, vec![1, 2]).unwrap();
    streams.drop_writer(tx).unwrap();
    assert!(matches!(streams.read(&rx), Ok(StreamRead::Items(v)) if v == vec![1, 2]));
    assert!(matches!(streams.read(&rx), Ok(StreamRead::End)));
}

#[test]
fn stream_read_while_open_is_pending() {
    let mut streams: StreamTable<u32> = StreamTable::new();
    let (_tx, rx) = streams.new_stream(4);
    assert!(matches!(streams.read(&rx), Ok(StreamRead::Pending)));
}

#[test]
fn stream_handle_with_unknown_index_is_refused() {
    let mut first: StreamTable<u32> = StreamTable::new();
    let mut second: StreamTable<u32> = StreamTable::new();
    let (tx, rx) = first.new_stream(1);
    assert!(matches!(second.write(&tx, vec![1]), Err(Violation::StaleHandle)));
    assert!(matches!(second.read(&rx), Err(Violation::StaleHandle)));
    assert_eq!(second.close(&tx), Err(Violation::StaleHandle));
    assert_eq!(second.buffered_len(0), None);
}
