use query_result::wire::{
    classify_response, column_def_is_complete, parse_column, parse_column_count,
    parse_requested_file, ResponseKind,
};
use query_result::{Conn, Effect, Error, Protocol, RowPacket};

const DEPRECATE_EOF: u32 = 0x0100_0000;

fn named(out: &mut Vec<u8>, s: &[u8]) {
    assert!(s.len() < 251);
    out.push(s.len() as u8);
    out.extend_from_slice(s);
}

fn definition(name: &[u8], column_type: u8) -> Vec<u8> {
    let mut p = Vec::new();
    named(&mut p, b"def");
    named(&mut p, b"db");
    named(&mut p, b"t");
    named(&mut p, b"t_org");
    named(&mut p, name);
    named(&mut p, b"name_org");
    p.push(0x0c);
    p.extend_from_slice(&[0x21, 0x00]);
    p.extend_from_slice(&[0x40, 0x01, 0x00, 0x00]);
    p.push(column_type);
    p.extend_from_slice(&[0x20, 0x00]);
    p.push(0x05);
    p
}

#[test]
fn responses_are_classified_by_their_first_byte() {
    assert_eq!(classify_response(&[0x00, 0x00, 0x00]), ResponseKind::NoResultSet);
    assert_eq!(classify_response(&[0x00]), ResponseKind::NoResultSet);
    assert_eq!(classify_response(&[0xFB, b'f']), ResponseKind::LocalInfile);
    assert_eq!(classify_response(&[0x01]), ResponseKind::ResultSet);
    assert_eq!(classify_response(&[0xFC, 0x00, 0x01]), ResponseKind::ResultSet);
    assert_eq!(classify_response(&[0xFF, 0x10, 0x04]), ResponseKind::ResultSet);
    assert_eq!(classify_response(&[]), ResponseKind::ResultSet);
}

#[test]
fn column_count_is_a_length_encoded_integer() {
    assert_eq!(parse_column_count(&[0x00]).unwrap(), 0);
    assert_eq!(parse_column_count(&[0x07]).unwrap(), 7);
    assert_eq!(parse_column_count(&[0xFA, 0xAA]).unwrap(), 250);
    assert_eq!(parse_column_count(&[0xFB]).unwrap(), 251);
    assert_eq!(parse_column_count(&[0xFC, 0x34, 0x12]).unwrap(), 0x1234);
    assert_eq!(parse_column_count(&[0xFC, 0x34, 0x12, 0x99]).unwrap(), 0x1234);
    assert_eq!(parse_column_count(&[0xFD, 0x56, 0x34, 0x12]).unwrap(), 0x123456);
    assert_eq!(
        parse_column_count(&[0xFE, 0x08, 0x07, 0x06, 0x05, 0x04, 0x03, 0x02, 0x01]).unwrap(),
        0x0102030405060708
    );
    assert_eq!(parse_column_count(&[0xFE, 0xFF, 0xFF, 0xFF, 0xFF, 0xFF, 0xFF, 0xFF, 0xFF]).unwrap(), u64::MAX);
}

#[test]
fn column_count_rejects_what_is_no_integer() {
    assert_eq!(parse_column_count(&[]).unwrap_err(), Error::MalformedPacket);
    assert_eq!(parse_column_count(&[0xFF]).unwrap_err(), Error::MalformedPacket);
    assert_eq!(parse_column_count(&[0xFF, 0x01, 0x02]).unwrap_err(), Error::MalformedPacket);
    assert_eq!(parse_column_count(&[0xFC, 0x01]).unwrap_err(), Error::MalformedPacket);
    assert_eq!(parse_column_count(&[0xFD, 0x01, 0x02]).unwrap_err(), Error::MalformedPacket);
    assert_eq!(
        parse_column_count(&[0xFE, 0x01, 0x02, 0x03, 0x04, 0x05, 0x06, 0x07]).unwrap_err(),
        Error::MalformedPacket
    );
}

#[test]
fn requested_file_is_what_follows_the_header() {
    assert_eq!(parse_requested_file(&[0xFB, b'a', b'/', b'b']).unwrap(), b"a/b".to_vec());
    assert_eq!(parse_requested_file(&[0xFB]).unwrap(), Vec::<u8>::new());
    assert_eq!(parse_requested_file(&[0xFB, 0xFB]).unwrap(), vec![0xFB]);
    assert_eq!(parse_requested_file(&[]).unwrap_err(), Error::MalformedPacket);
    assert_eq!(parse_requested_file(&[0x00, b'a']).unwrap_err(), Error::MalformedPacket);
    assert_eq!(parse_requested_file(&[0xFA, b'a']).unwrap_err(), Error::MalformedPacket);
}

#[test]
fn terminator_is_recognised_by_header_and_length() {
    for protocol in [Protocol::Text, Protocol::Binary] {
        for capabilities in [0, DEPRECATE_EOF] {
            let last = |packet: &[u8]| protocol.is_last_result_set_packet(capabilities, packet);
            assert!(last(&[0xFE, 0, 0, 0, 0]));
            assert!(last(&[0xFE, 1, 0, 8, 0, 0]));
            assert!(last(&[0xFE, 0, 0, 0, 0, 0, 0, 0]));
            assert!(!last(&[0xFE, 0, 0, 0, 0, 0, 0, 0, 0]));
            assert!(!last(&[0xFE, 0, 0, 0]));
            assert!(!last(&[0xFE]));
            assert!(!last(&[]));
            assert!(!last(&[0x00, 0, 0, 0, 0]));
            assert!(!last(&[0xFD, 0, 0, 0, 0]));
            assert!(!last(&[0x01, b'x', 0x01, b'y', 0xfb]));
        }
    }
}

#[test]
fn row_packets_are_classified_against_the_status_flags() {
    let mut conn = Conn::new(DEPRECATE_EOF);
    conn.feed(vec![0x01], 0);
    conn.feed(definition(b"n", 0xfd), 0);
    conn.read_result_set(Protocol::Text).unwrap();

    assert_eq!(conn.classify_row_packet(Protocol::Text, &[0x01, b'x']), RowPacket::Row);
    assert!(conn.get_pending_result().is_some());
    assert!(conn.take_effects().is_empty());

    conn.set_status(0x0008);
    assert_eq!(
        conn.classify_row_packet(Protocol::Text, &[0xFE, 0, 0, 8, 0]),
        RowPacket::NextResultSet
    );
    assert!(conn.get_pending_result().is_some());
    assert_eq!(conn.take_effects(), vec![Effect::SyncSeqId]);

    conn.set_status(0x0002);
    assert_eq!(conn.classify_row_packet(Protocol::Text, &[0xFE, 0, 0, 2, 0]), RowPacket::End);
    assert!(conn.get_pending_result().is_none());
    assert!(conn.take_effects().is_empty());
}

#[test]
fn more_results_is_one_bit_of_the_status() {
    let mut conn = Conn::new(0);
    assert!(!conn.more_results_exists());
    conn.set_status(0x0008);
    assert!(conn.more_results_exists());
    conn.set_status(0xFFF7);
    assert!(!conn.more_results_exists());
    conn.set_status(0x000A);
    assert!(conn.more_results_exists());
    assert_eq!(conn.status(), 0x000A);
}

#[test]
fn capabilities_decide_on_the_end_of_file_packet() {
    assert!(Conn::new(0).expects_eof());
    assert!(Conn::new(0x00FF_FFFF).expects_eof());
    assert!(!Conn::new(DEPRECATE_EOF).expects_eof());
    assert!(!Conn::new(0xFFFF_FFFF).expects_eof());
    assert_eq!(Conn::new(0x0123_4567).capabilities(), 0x0123_4567);
}

#[test]
fn column_definition_is_parsed() {
    let column = parse_column(definition(b"total", 0x08)).unwrap();
    assert_eq!(column.name_str(), "total");
    assert_eq!(column.org_name_str(), "name_org");
    assert_eq!(column.schema_str(), "db");
    assert_eq!(column.table_str(), "t");
    assert_eq!(column.org_table_str(), "t_org");
    assert_eq!(column.column_length(), 0x140);
    assert_eq!(column.character_set(), 0x21);
    assert_eq!(column.decimals(), 5);
    assert_eq!(column.column_type() as u8, 0x08);
}

#[test]
fn column_definition_must_be_complete() {
    let whole = definition(b"total", 0x08);
    assert!(column_def_is_complete(&whole));
    for cut in 0..whole.len() {
        assert!(!column_def_is_complete(&whole[..cut]), "cut at {}", cut);
        assert_eq!(parse_column(whole[..cut].to_vec()).unwrap_err(), Error::MalformedPacket);
    }
    let mut longer = whole.clone();
    longer.extend_from_slice(&[0x00, 0x00]);
    assert!(column_def_is_complete(&longer));
    assert!(parse_column(longer).is_ok());
}

#[test]
fn column_definition_with_unknown_type_is_malformed() {
    for code in [0x0Eu8, 0x14, 0x80, 0xF4] {
        assert!(!column_def_is_complete(&definition(b"c", code)));
        assert_eq!(parse_column(definition(b"c", code)).unwrap_err(), Error::MalformedPacket);
    }
    for code in [0x00u8, 0x0D, 0x0F, 0x13, 0xF5, 0xFF] {
        assert!(column_def_is_complete(&definition(b"c", code)));
        assert_eq!(parse_column(definition(b"c", code)).unwrap().column_type() as u8, code);
    }
}

#[test]
fn column_definition_with_bad_name_length_is_malformed() {
    let mut bad = definition(b"total", 0x08);
    bad[4] = 0xFF;
    assert!(!column_def_is_complete(&bad));
    assert_eq!(parse_column(bad).unwrap_err(), Error::MalformedPacket);

    let mut long_name = vec![3, b'd', b'e', b'f', 0xFC, 0x00, 0x01];
    long_name.extend_from_slice(&[b's'; 256]);
    for _ in 0..4 {
        long_name.push(0);
    }
    long_name.extend_from_slice(&[0x0c, 0x21, 0, 1, 0, 0, 0, 0xfd, 0, 0, 0]);
    assert!(column_def_is_complete(&long_name));
    assert_eq!(parse_column(long_name).unwrap().schema_ref().len(), 256);
}

#[test]
fn header_that_is_no_integer_is_malformed() {
    let mut conn = Conn::new(DEPRECATE_EOF);
    conn.feed(vec![0xFF, 0x15, 0x04], 0);
    assert_eq!(conn.read_result_set(Protocol::Text).unwrap_err(), Error::MalformedPacket);

    let mut empty = Conn::new(DEPRECATE_EOF);
    empty.feed(vec![], 0);
    assert_eq!(empty.read_result_set(Protocol::Text).unwrap_err(), Error::MalformedPacket);
}

#[test]
fn missing_column_definitions_close_the_connection() {
    let mut conn = Conn::new(DEPRECATE_EOF);
    conn.feed(vec![0x02], 0);
    conn.feed(definition(b"a", 0xfd), 0);
    assert_eq!(conn.read_result_set(Protocol::Text).unwrap_err(), Error::ConnectionClosed);

    let mut nothing = Conn::new(DEPRECATE_EOF);
    assert_eq!(nothing.read_result_set(Protocol::Text).unwrap_err(), Error::ConnectionClosed);
    assert_eq!(nothing.read_packet().unwrap_err(), Error::ConnectionClosed);

    let mut no_eof = Conn::new(0);
    no_eof.feed(vec![0x01], 0);
    no_eof.feed(definition(b"a", 0xfd), 0);
    assert_eq!(no_eof.read_result_set(Protocol::Text).unwrap_err(), Error::ConnectionClosed);
}

#[test]
fn bad_column_definition_is_malformed() {
    let mut conn = Conn::new(DEPRECATE_EOF);
    conn.feed(vec![0x02], 0);
    conn.feed(definition(b"a", 0xfd), 0);
    conn.feed(vec![0x03, b'd', b'e', b'f'], 0);
    assert_eq!(conn.read_result_set(Protocol::Text).unwrap_err(), Error::MalformedPacket);
}

#[test]
fn column_definitions_are_read_in_order() {
    let mut conn = Conn::new(DEPRECATE_EOF);
    conn.feed(definition(b"x", 0xfd), 1);
    conn.feed(definition(b"y", 0x08), 2);
    conn.feed(definition(b"z", 0x01), 3);
    let columns = conn.read_column_defs(2).unwrap();
    assert_eq!(columns.len(), 2);
    assert_eq!(columns[0].name_str(), "x");
    assert_eq!(columns[1].name_str(), "y");
    assert_eq!(conn.status(), 2);
    assert_eq!(conn.unread_packets(), 1);
    conn.set_result_set(Protocol::Binary, 2, columns);
    assert_eq!(conn.get_pending_result().unwrap().protocol(), Protocol::Binary);
    conn.set_result_set(Protocol::Binary, 0, Vec::new());
    assert!(conn.get_pending_result().is_none());
}

#[test]
fn packets_are_read_in_the_order_of_arrival() {
    let mut conn = Conn::new(0);
    conn.feed(vec![1], 10);
    conn.feed(vec![2, 2], 20);
    assert_eq!(conn.unread_packets(), 2);
    assert_eq!(conn.read_packet().unwrap(), vec![1]);
    assert_eq!(conn.status(), 10);
    conn.feed(vec![3], 30);
    assert_eq!(conn.read_packet().unwrap(), vec![2, 2]);
    assert_eq!(conn.read_packet().unwrap(), vec![3]);
    assert_eq!(conn.status(), 30);
    assert_eq!(conn.read_packet().unwrap_err(), Error::ConnectionClosed);
    assert_eq!(conn.status(), 30);
}

#[test]
fn effects_are_recorded_in_order_and_taken_once() {
    let mut conn = Conn::new(0);
    conn.write_packet(vec![1, 2]);
    conn.sync_seq_id();
    conn.write_packet(vec![]);
    assert_eq!(
        conn.take_effects(),
        vec![Effect::Packet(vec![1, 2]), Effect::SyncSeqId, Effect::Packet(vec![])]
    );
    assert!(conn.take_effects().is_empty());
}

#[test]
fn every_error_has_its_message() {
    assert_eq!(Error::ConnectionClosed.message(), "connection closed");
    assert_eq!(Error::MalformedPacket.message(), "malformed packet");
    assert_eq!(Error::UnsupportedColumnType.message(), "unsupported column type");
    assert_eq!(Error::NoLocalInfileHandler.message(), "no local infile handler");
    assert_eq!(Error::LocalInfileNotFound.message(), "local infile not found");
}
