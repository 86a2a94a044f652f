use query_result::infile::is_last_chunk;
use query_result::{Conn, Effect, Error, LocalInfileHandler, Protocol, QueryResult, CHUNK_SIZE};

const DEPRECATE_EOF: u32 = 0x0100_0000;

fn request(file_name: &[u8]) -> Vec<u8> {
    let mut p = vec![0xFB];
    p.extend_from_slice(file_name);
    p
}

fn ok_packet() -> Vec<u8> {
    vec![0x00, 0x00, 0x00, 0x02, 0x00, 0x00, 0x00]
}

fn file_of(len: usize) -> Vec<u8> {
    (0..len).map(|i| (i % 251) as u8).collect()
}

fn conn_offering(name: &[u8], contents: Vec<u8>) -> Conn {
    let mut handler = LocalInfileHandler::new();
    handler.register(name.to_vec(), contents);
    let mut conn = Conn::new(DEPRECATE_EOF);
    conn.set_local_infile_handler(Some(handler));
    conn
}

/// Uploads a file of `len` bytes and returns the packets that were written.
fn uploaded(len: usize) -> Vec<Vec<u8>> {
    let contents = file_of(len);
    let mut conn = conn_offering(b"data.csv", contents.clone());
    conn.feed(request(b"data.csv"), 0);
    conn.feed(ok_packet(), 0);
    conn.feed(ok_packet(), 0);
    conn.read_result_set(Protocol::Text).unwrap();
    assert!(conn.get_pending_result().is_none());
    assert_eq!(conn.unread_packets(), 1);
    let packets: Vec<Vec<u8>> = conn
        .take_effects()
        .into_iter()
        .map(|effect| match effect {
            Effect::Packet(payload) => payload,
            Effect::SyncSeqId => panic!("an upload does not touch the sequence id"),
        })
        .collect();
    assert_eq!(packets.concat(), contents);

    let result = QueryResult::new(conn, Protocol::Text);
    assert!(result.is_empty());
    let mut conn = result.into_conn();
    conn.read_result_set(Protocol::Text).unwrap();
    assert_eq!(conn.unread_packets(), 0);
    packets
}

fn lengths(packets: &[Vec<u8>]) -> Vec<usize> {
    packets.iter().map(|p| p.len()).collect()
}

#[test]
fn chunk_size_is_4096() {
    assert_eq!(CHUNK_SIZE, 4096);
    assert!(is_last_chunk(0));
    assert!(is_last_chunk(4095));
    assert!(!is_last_chunk(4096));
    assert!(!is_last_chunk(5000));
}

#[test]
fn empty_file_is_one_empty_chunk() {
    assert_eq!(uploaded(0), vec![Vec::<u8>::new()]);
}

#[test]
fn short_file_is_one_chunk() {
    assert_eq!(lengths(&uploaded(1)), vec![1]);
    assert_eq!(lengths(&uploaded(4095)), vec![4095]);
}

#[test]
fn long_file_is_cut_at_the_chunk_size() {
    assert_eq!(lengths(&uploaded(4097)), vec![4096, 1]);
    assert_eq!(lengths(&uploaded(5000)), vec![4096, 904]);
    assert_eq!(lengths(&uploaded(3 * 4096 + 17)), vec![4096, 4096, 4096, 17]);
}

#[test]
fn chunk_count_is_length_over_chunk_size_rounded_up() {
    for len in [1usize, 100, 4095, 4097, 8191, 8193, 20000] {
        let expected = (len + CHUNK_SIZE - 1) / CHUNK_SIZE;
        assert_eq!(uploaded(len).len(), expected, "length {}", len);
    }
}

#[test]
fn file_of_whole_chunks_ends_with_an_empty_chunk() {
    assert_eq!(lengths(&uploaded(4096)), vec![4096, 0]);
    assert_eq!(lengths(&uploaded(8192)), vec![4096, 4096, 0]);
}

#[test]
fn request_without_handler_fails() {
    let mut conn = Conn::new(DEPRECATE_EOF);
    conn.feed(request(b"data.csv"), 0);
    conn.feed(ok_packet(), 0);
    assert_eq!(conn.read_result_set(Protocol::Text).unwrap_err(), Error::NoLocalInfileHandler);
    assert!(conn.take_effects().is_empty());
}

#[test]
fn request_for_unknown_file_fails() {
    let mut conn = conn_offering(b"data.csv", file_of(10));
    conn.feed(request(b"other.csv"), 0);
    conn.feed(ok_packet(), 0);
    assert_eq!(conn.read_result_set(Protocol::Text).unwrap_err(), Error::LocalInfileNotFound);
    assert!(conn.take_effects().is_empty());
}

#[test]
fn missing_acknowledgement_fails() {
    let mut conn = conn_offering(b"data.csv", file_of(10));
    conn.feed(request(b"data.csv"), 0);
    assert_eq!(conn.read_result_set(Protocol::Text).unwrap_err(), Error::ConnectionClosed);
}

#[test]
fn handler_offers_the_first_file_registered_under_a_name() {
    let mut handler = LocalInfileHandler::new();
    assert_eq!(handler.handle(b"a").unwrap_err(), Error::LocalInfileNotFound);
    handler.register(b"a".to_vec(), vec![1, 2, 3]);
    handler.register(b"b".to_vec(), vec![4]);
    handler.register(b"a".to_vec(), vec![9, 9]);
    assert_eq!(handler.handle(b"a").unwrap(), &[1, 2, 3]);
    assert_eq!(handler.handle(b"b").unwrap(), &[4]);
    assert_eq!(handler.handle(b"ab").unwrap_err(), Error::LocalInfileNotFound);
    assert_eq!(handler.handle(b"").unwrap_err(), Error::LocalInfileNotFound);
}

#[test]
fn handler_stays_registered_after_an_upload() {
    let mut conn = conn_offering(b"f", vec![1, 2]);
    for _ in 0..2 {
        conn.feed(request(b"f"), 0);
        conn.feed(ok_packet(), 0);
        conn.read_result_set(Protocol::Text).unwrap();
        assert_eq!(conn.take_effects(), vec![Effect::Packet(vec![1, 2])]);
    }
}

#[test]
fn upload_in_the_middle_of_a_batch() {
    let mut conn = conn_offering(b"f", file_of(3));
    conn.feed(vec![0x01], 0);
    let mut column = vec![3, b'd', b'e', b'f', 0, 0, 0, 1, b'n', 1, b'n', 0x0c];
    column.extend_from_slice(&[0x21, 0, 3, 0, 0, 0, 0xfd, 0, 0, 0, 0, 0]);
    conn.feed(column, 0);
    conn.feed(vec![0xFE, 0, 0, 0x08, 0], 0x0008);
    conn.feed(request(b"f"), 0x0008);
    conn.feed(ok_packet(), 0);
    conn.read_result_set(Protocol::Text).unwrap();
    let mut result = QueryResult::new(conn, Protocol::Text);
    assert!(!result.is_empty());
    assert!(result.get_row().unwrap().is_none());
    assert!(result.is_empty());
    let mut conn = result.into_conn();
    assert_eq!(conn.unread_packets(), 0);
    assert_eq!(conn.take_effects(), vec![Effect::SyncSeqId, Effect::Packet(vec![0, 1, 2])]);
}

#[test]
fn steps_of_an_upload_can_be_taken_one_by_one() {
    let mut conn = Conn::new(DEPRECATE_EOF);
    conn.write_chunks(&file_of(4096));
    let written = conn.take_effects();
    assert_eq!(written.len(), 2);
    assert_eq!(written[1], Effect::Packet(vec![]));
    assert_eq!(conn.read_acknowledgement().unwrap_err(), Error::ConnectionClosed);
    conn.feed(ok_packet(), 0x0002);
    conn.read_acknowledgement().unwrap();
    assert_eq!(conn.status(), 0x0002);
    assert!(conn.get_pending_result().is_none());

    conn.feed(ok_packet(), 0);
    conn.upload(&[7, 8]).unwrap();
    assert_eq!(conn.take_effects(), vec![Effect::Packet(vec![7, 8])]);
}
