//! The packet layouts that the engine reads, and the calls into `mysql_common`
//! that decode them.
//!
//! The functions marked `external_body` hand a packet to `mysql_common`; their
//! contracts are taken from that crate's source and are not proved here.
//! Everything else in this module is verified.

use vstd::prelude::*;
use vstd::slice::slice_subrange;
use std::sync::Arc;
use mysql_common::packets::Column;
use mysql_common::row::Row;
use mysql_common::value::Value;
use crate::error::Error;

verus! {

/// `mysql_common`'s column definition. Its fields are not visible here.
#[verifier::external_type_specification]
#[verifier::external_body]
pub struct ExColumn(mysql_common::packets::Column);

/// `mysql_common`'s row. Its fields are not visible here.
#[verifier::external_type_specification]
#[verifier::external_body]
pub struct ExRow(mysql_common::row::Row);

/// `mysql_common`'s value of a column. Its variants are not visible here.
#[verifier::external_type_specification]
#[verifier::external_body]
pub struct ExValue(mysql_common::value::Value);

/// The error of a row that could not be converted; it holds the row.
#[verifier::external_type_specification]
#[verifier::external_body]
pub struct ExFromRowError(mysql_common::row::convert::FromRowError);

/// The error that `mysql_common`'s decoders return.
#[verifier::external_type_specification]
#[verifier::external_body]
pub struct ExIoError(std::io::Error);

/// First byte of a response that carries no result set.
pub const OK_HEADER: u8 = 0x00;

/// First byte of a request for a local file.
pub const LOCAL_INFILE_HEADER: u8 = 0xFB;

/// First byte of the packet that ends a result set.
pub const TERMINATOR_HEADER: u8 = 0xFE;

/// Status flag: another result set follows the current one.
pub const SERVER_MORE_RESULTS_EXISTS: u16 = 0x0008;

/// Capability flag: column definitions are not followed by an end-of-file packet.
pub const CLIENT_DEPRECATE_EOF: u32 = 0x0100_0000;

/// The value of `bytes` read as a little-endian number.
pub open spec fn le_uint(bytes: Seq<u8>) -> nat
    decreases bytes.len(),
{
    if bytes.len() == 0 {
        0
    } else {
        bytes[0] as nat + 256 * le_uint(bytes.skip(1))
    }
}

/// How many bytes a length-encoded integer occupies, given its first byte.
pub open spec fn lenenc_size(first: u8) -> nat {
    if first < 0xFC {
        1
    } else if first == 0xFC {
        3
    } else if first == 0xFD {
        4
    } else {
        9
    }
}

/// The length-encoded integer at the start of `s`, if there is one.
///
/// A first byte below `0xFC` is the value itself; `0xFC`, `0xFD` and `0xFE`
/// announce a little-endian value of two, three and eight bytes; `0xFF` starts
/// no integer.
pub open spec fn lenenc_int(s: Seq<u8>) -> Option<nat> {
    if s.len() == 0 || s[0] == 0xFF || s.len() < lenenc_size(s[0]) {
        None
    } else if s[0] < 0xFC {
        Some(s[0] as nat)
    } else {
        Some(le_uint(s.subrange(1, lenenc_size(s[0]) as int)))
    }
}

/// How many bytes the length-encoded string at the start of `s` occupies,
/// its length prefix included, if `s` holds all of it.
pub open spec fn lenenc_str_size(s: Seq<u8>) -> Option<nat> {
    match lenenc_int(s) {
        Some(n) if lenenc_size(s[0]) + n <= s.len() => Some(lenenc_size(s[0]) + n),
        _ => None,
    }
}

/// What is left of `s` after `count` length-encoded strings.
pub open spec fn skip_lenenc_strs(s: Seq<u8>, count: nat) -> Option<Seq<u8>>
    decreases count,
{
    if count == 0 {
        Some(s)
    } else {
        match lenenc_str_size(s) {
            Some(k) => skip_lenenc_strs(s.skip(k as int), (count - 1) as nat),
            None => None,
        }
    }
}

/// Whether `code` is a column type of the protocol.
pub open spec fn known_column_type(code: u8) -> bool {
    (code <= 0x13 && code != 0x0E) || code >= 0xF5
}

/// Whether a column of type `code` can stand in a binary row.
pub open spec fn binary_column_type(code: u8) -> bool {
    (code <= 0x10 && code != 0x0E) || code >= 0xF5
}

/// Number of fixed bytes that follow the five names of a column definition.
pub const COLUMN_FIXED_LEN: usize = 11;

/// Offset of the type code within the fixed part of a column definition.
pub const COLUMN_TYPE_OFFSET: usize = 7;

/// Whether `payload` has the frame of a column definition: a four-byte
/// catalog, five length-encoded names, and the fixed part with a known
/// column type.
pub open spec fn column_def_complete(payload: Seq<u8>) -> bool {
    payload.len() >= 4 && match skip_lenenc_strs(payload.skip(4), 5) {
        Some(rest) => rest.len() >= COLUMN_FIXED_LEN && known_column_type(
            rest[COLUMN_TYPE_OFFSET as int],
        ),
        None => false,
    }
}

/// The file name in a request for a local file: what follows the header
/// `0xFB`.
pub open spec fn local_infile_file_name(packet: Seq<u8>) -> Option<Seq<u8>> {
    if packet.len() >= 1 && packet[0] == LOCAL_INFILE_HEADER {
        Some(packet.skip(1))
    } else {
        None
    }
}

/// Whether `packet` ends a result set: the header `0xFE`, then the warning
/// count and the status flags, and at most three bytes more.
pub open spec fn is_terminator(packet: Seq<u8>) -> bool {
    5 <= packet.len() <= 8 && packet[0] == TERMINATOR_HEADER
}

/// The least length of a binary row of `columns` columns: the header byte and
/// the null bitmap, which starts at bit 2.
pub open spec fn binary_row_min_len(columns: nat) -> nat {
    1 + (columns + 9) / 8
}

/// The column that `mysql_common::packets::column_from_payload` makes of a
/// payload, where it makes one.
pub uninterp spec fn column_of(payload: Seq<u8>) -> Option<Column>;

/// The type code that `Column::column_type` reports.
pub uninterp spec fn column_type_of(column: Column) -> u8;

/// The values that `mysql_common::value::read_text_values` reads from a
/// text-protocol packet that is to hold `count` of them, where it reads any.
pub uninterp spec fn text_values_of(packet: Seq<u8>, count: nat) -> Option<Seq<Value>>;

/// The values that `mysql_common::value::read_bin_values` reads from a
/// binary-protocol packet sent by a server, where it reads any.
pub uninterp spec fn binary_values_of(packet: Seq<u8>, columns: Seq<Column>) -> Option<
    Seq<Value>,
>;

/// The row that `mysql_common::row::new_row` makes of values and columns.
pub uninterp spec fn row_of(values: Seq<Value>, columns: Seq<Column>) -> Row;

/// Calls `ReadMysqlExt::read_lenenc_int` on a byte slice.
///
/// The contract restates that function: it fails on an empty input, on a
/// first byte `0xFF` and on an input shorter than the announced width, and
/// otherwise yields the encoded value.
#[verifier::external_body]
pub(crate) fn read_lenenc_int(input: &[u8]) -> (r: Result<u64, std::io::Error>)
    ensures
        match r {
            Ok(v) => lenenc_int(input@) == Some(v as nat),
            Err(_) => lenenc_int(input@) is None,
        },
{
    let mut reader = input;
    mysql_common::io::ReadMysqlExt::read_lenenc_int(&mut reader)
}

/// Calls `mysql_common::packets::parse_local_infile_packet` and copies the
/// file name out.
///
/// The contract restates that function: the packet is accepted when it starts
/// with `0xFB`, and the file name is everything after that byte.
#[verifier::external_body]
pub(crate) fn parse_local_infile(packet: &[u8]) -> (r: Result<Vec<u8>, std::io::Error>)
    ensures
        match r {
            Ok(name) => local_infile_file_name(packet@) == Some(name@),
            Err(_) => local_infile_file_name(packet@) is None,
        },
{
    mysql_common::packets::parse_local_infile_packet(packet).map(|p| p.file_name_ref().to_vec())
}

/// Asks `mysql_common::packets::parse_ok_packet` whether it accepts `packet`
/// as the terminator of a result set.
///
/// The contract restates that function for this kind of packet: it wants the
/// header `0xFE`, fewer than eight bytes after it, and among them the two
/// bytes of the warning count and the two of the status flags.
#[verifier::external_body]
pub(crate) fn parses_as_terminator(packet: &[u8], capabilities: u32) -> (r: bool)
    ensures
        r == is_terminator(packet@),
{
    mysql_common::packets::parse_ok_packet(
        packet,
        mysql_common::constants::CapabilityFlags::from_bits_truncate(capabilities),
        mysql_common::packets::OkPacketKind::ResultSetTerminator,
    ).is_ok()
}

/// Calls `mysql_common::packets::column_from_payload`.
///
/// That function panics on a payload shorter than the catalog, on one that
/// ends right after the five names and on an unknown type code; `requires`
/// leaves those out. The contract only names the result.
#[verifier::external_body]
pub(crate) fn column_from_payload(payload: Vec<u8>) -> (r: Result<Column, std::io::Error>)
    requires
        column_def_complete(payload@),
    ensures
        match r {
            Ok(column) => column_of(payload@) == Some(column),
            Err(_) => column_of(payload@) is None,
        },
{
    mysql_common::packets::column_from_payload(payload)
}

/// Calls `Column::column_type` and gives the type's code.
#[verifier::external_body]
pub(crate) fn column_type_code(column: &Column) -> (code: u8)
    ensures
        code == column_type_of(*column),
{
    column.column_type() as u8
}

/// Calls `mysql_common::value::read_text_values`.
///
/// That function reads values until the packet ends and fails unless it
/// has then read exactly `count` of them. The contract says so and names
/// the values.
#[verifier::external_body]
pub(crate) fn read_text_values(packet: &[u8], count: usize) -> (r: Result<
    Vec<Value>,
    std::io::Error,
>)
    ensures
        match r {
            Ok(values) => text_values_of(packet@, count as nat) == Some(values@)
                && values@.len() == count,
            Err(_) => text_values_of(packet@, count as nat) is None,
        },
{
    mysql_common::value::read_text_values(packet, count)
}

/// Calls `mysql_common::value::read_bin_values` for a packet that a server
/// sent.
///
/// That function panics on a packet that is too short for its null bitmap
/// and on a column type without a binary decoding; `requires` leaves those
/// out. It yields one value per column. The contract says so and names the
/// values.
#[verifier::external_body]
pub(crate) fn read_bin_values(packet: &[u8], columns: &[Column]) -> (r: Result<
    Vec<Value>,
    std::io::Error,
>)
    requires
        packet@.len() >= binary_row_min_len(columns@.len()),
        forall|i: int|
            0 <= i < columns@.len() ==> binary_column_type(
                #[trigger] column_type_of(columns@[i]),
            ),
    ensures
        match r {
            Ok(values) => binary_values_of(packet@, columns@) == Some(values@) && values@.len()
                == columns@.len(),
            Err(_) => binary_values_of(packet@, columns@) is None,
        },
{
    mysql_common::value::read_bin_values::<mysql_common::value::ServerSide>(packet, columns)
}

/// Calls `mysql_common::row::new_row`.
///
/// That function panics unless there is one value per column; `requires`
/// says so. The contract only names the result.
#[verifier::external_body]
pub(crate) fn new_row(values: Vec<Value>, columns: Arc<[Column]>) -> (row: Row)
    requires
        values@.len() == (*columns)@.len(),
    ensures
        row == row_of(values@, (*columns)@),
{
    mysql_common::row::new_row(values, columns)
}

/// Turns a vector of columns into the shared slice that rows refer to,
/// with `Arc::from`.
#[verifier::external_body]
pub(crate) fn share_columns(columns: Vec<Column>) -> (shared: Arc<[Column]>)
    ensures
        (*shared)@ == columns@,
{
    Arc::from(columns)
}

/// How the first packet of a response is to be read.
#[derive(Debug, Clone, Copy, PartialEq, Eq, Structural)]
pub enum ResponseKind {
    /// The statement produced no result set.
    NoResultSet,
    /// The server asks for a local file.
    LocalInfile,
    /// A result set follows: the packet holds its column count.
    ResultSet,
}

/// The kind of response that starts with `packet`, by its first byte.
pub open spec fn response_kind(packet: Seq<u8>) -> ResponseKind {
    if packet.len() >= 1 && packet[0] == OK_HEADER {
        ResponseKind::NoResultSet
    } else if packet.len() >= 1 && packet[0] == LOCAL_INFILE_HEADER {
        ResponseKind::LocalInfile
    } else {
        ResponseKind::ResultSet
    }
}

/// The column count that a result-set header announces.
pub open spec fn column_count(packet: Seq<u8>) -> Result<nat, Error> {
    match lenenc_int(packet) {
        Some(n) => Ok(n),
        None => Err(Error::MalformedPacket),
    }
}

/// The column that a column-definition packet describes.
pub open spec fn column_def(payload: Seq<u8>) -> Result<Column, Error> {
    if column_def_complete(payload) {
        match column_of(payload) {
            Some(column) => Ok(column),
            None => Err(Error::MalformedPacket),
        }
    } else {
        Err(Error::MalformedPacket)
    }
}

/// The file that a local-infile request names.
pub open spec fn requested_file(packet: Seq<u8>) -> Result<Seq<u8>, Error> {
    match local_infile_file_name(packet) {
        Some(name) => Ok(name),
        None => Err(Error::MalformedPacket),
    }
}

/// Classifies the first packet of a response.
pub fn classify_response(packet: &[u8]) -> (kind: ResponseKind)
    ensures
        kind == response_kind(packet@),
{
    if packet.len() >= 1 && packet[0] == OK_HEADER {
        ResponseKind::NoResultSet
    } else if packet.len() >= 1 && packet[0] == LOCAL_INFILE_HEADER {
        ResponseKind::LocalInfile
    } else {
        ResponseKind::ResultSet
    }
}

/// Reads the column count from a result-set header.
pub fn parse_column_count(packet: &[u8]) -> (r: Result<u64, Error>)
    ensures
        match r {
            Ok(n) => column_count(packet@) == Ok::<nat, Error>(n as nat),
            Err(e) => column_count(packet@) == Err::<nat, Error>(e),
        },
{
    match read_lenenc_int(packet) {
        Ok(n) => Ok(n),
        Err(_) => Err(Error::MalformedPacket),
    }
}

/// Reads the name of the requested file from a local-infile request.
pub fn parse_requested_file(packet: &[u8]) -> (r: Result<Vec<u8>, Error>)
    ensures
        match r {
            Ok(name) => requested_file(packet@) == Ok::<Seq<u8>, Error>(name@),
            Err(e) => requested_file(packet@) == Err::<Seq<u8>, Error>(e),
        },
{
    match parse_local_infile(packet) {
        Ok(name) => Ok(name),
        Err(_) => Err(Error::MalformedPacket),
    }
}

/// Measures the length-encoded string at the start of `input`.
fn measure_lenenc_str(input: &[u8]) -> (r: Option<usize>)
    ensures
        match r {
            Some(k) => lenenc_str_size(input@) == Some(k as nat),
            None => lenenc_str_size(input@) is None,
        },
{
    match read_lenenc_int(input) {
        Err(_) => None,
        Ok(n) => {
            let first: u8 = input[0];
            let size: usize = if first < 0xFC {
                1
            } else if first == 0xFC {
                3
            } else if first == 0xFD {
                4
            } else {
                9
            };
            let room: usize = input.len() - size;
            if n <= room as u64 {
                Some(size + n as usize)
            } else {
                None
            }
        },
    }
}

/// Checks that `payload` has the frame of a column definition.
pub fn column_def_is_complete(payload: &[u8]) -> (r: bool)
    ensures
        r == column_def_complete(payload@),
{
    if payload.len() < 4 {
        return false;
    }
    let mut pos: usize = 4;
    let mut left: usize = 5;
    while left > 0
        invariant
            4 <= pos <= payload.len(),
            left <= 5,
            skip_lenenc_strs(payload@.skip(4), 5) == skip_lenenc_strs(
                payload@.skip(pos as int),
                left as nat,
            ),
        decreases left,
    {
        let rest = slice_subrange(payload, pos, payload.len());
        match measure_lenenc_str(rest) {
            None => {
                return false;
            },
            Some(k) => {
                assert(payload@.skip(pos as int).skip(k as int) =~= payload@.skip(pos + k));
                pos = pos + k;
                left = left - 1;
            },
        }
    }
    if payload.len() - pos < COLUMN_FIXED_LEN {
        return false;
    }
    let code: u8 = payload[pos + COLUMN_TYPE_OFFSET];
    (code <= 0x13 && code != 0x0E) || code >= 0xF5
}

/// Reads a column definition.
pub fn parse_column(payload: Vec<u8>) -> (r: Result<Column, Error>)
    ensures
        r == column_def(payload@),
{
    if !column_def_is_complete(payload.as_slice()) {
        return Err(Error::MalformedPacket);
    }
    match column_from_payload(payload) {
        Ok(column) => Ok(column),
        Err(_) => Err(Error::MalformedPacket),
    }
}

} // verus!
