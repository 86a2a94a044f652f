//! The two row encodings and the metadata of a result set.

use vstd::prelude::*;
use std::sync::Arc;
use mysql_common::packets::Column;
use mysql_common::row::Row;
use crate::error::Error;
use crate::wire::{
    binary_column_type, binary_row_min_len, binary_values_of, column_type_code, column_type_of,
    is_terminator, new_row, parses_as_terminator, read_bin_values, read_text_values, row_of,
    text_values_of,
};

verus! {

/// The encoding of the rows of a result set.
///
/// A query sent as text is answered with text rows; the execution of a
/// prepared statement is answered with binary rows.
#[derive(Debug, Clone, Copy, PartialEq, Eq, Structural)]
pub enum Protocol {
    /// Every value is a length-encoded string.
    Text,
    /// Every value is encoded by its column's type, after a null bitmap.
    Binary,
}

/// Metadata of a result set: its columns, tagged with the encoding of its rows.
#[derive(Debug, Eq, PartialEq)]
pub enum ResultSetMeta {
    /// Text result set, that may contain rows.
    Text(Arc<[Column]>),
    /// Binary result set, that may contain rows.
    Binary(Arc<[Column]>),
}

/// A result set's metadata as plain values.
pub struct MetaView {
    pub protocol: Protocol,
    pub columns: Seq<Column>,
}

impl View for ResultSetMeta {
    type V = MetaView;

    open spec fn view(&self) -> MetaView {
        match self {
            ResultSetMeta::Text(columns) => MetaView {
                protocol: Protocol::Text,
                columns: (**columns)@,
            },
            ResultSetMeta::Binary(columns) => MetaView {
                protocol: Protocol::Binary,
                columns: (**columns)@,
            },
        }
    }
}

impl Clone for ResultSetMeta {
    fn clone(&self) -> (copy: Self)
        ensures
            copy@ == self@,
    {
        match self {
            ResultSetMeta::Text(columns) => ResultSetMeta::Text(columns.clone()),
            ResultSetMeta::Binary(columns) => ResultSetMeta::Binary(columns.clone()),
        }
    }
}

impl ResultSetMeta {
    /// The columns of the result set.
    pub fn columns(&self) -> (columns: &Arc<[Column]>)
        ensures
            (**columns)@ == self@.columns,
    {
        match self {
            ResultSetMeta::Text(columns) => columns,
            ResultSetMeta::Binary(columns) => columns,
        }
    }

    /// The encoding of the result set's rows.
    pub fn protocol(&self) -> (protocol: Protocol)
        ensures
            protocol == self@.protocol,
    {
        match self {
            ResultSetMeta::Text(_) => Protocol::Text,
            ResultSetMeta::Binary(_) => Protocol::Binary,
        }
    }
}

/// Whether every column has a type that a binary row can hold.
pub open spec fn binary_columns(columns: Seq<Column>) -> bool {
    forall|i: int|
        0 <= i < columns.len() ==> binary_column_type(#[trigger] column_type_of(columns[i]))
}

/// The row that a packet holds under `protocol`, for the given columns.
///
/// A text packet is a row when it holds exactly one value per column. A
/// binary packet needs columns with binary decodings and room for its null
/// bitmap before its values are read. The values and the columns make the
/// row.
pub open spec fn decode_row(protocol: Protocol, packet: Seq<u8>, columns: Seq<Column>) -> Result<
    Row,
    Error,
> {
    match protocol {
        Protocol::Text => match text_values_of(packet, columns.len()) {
            Some(values) => Ok(row_of(values, columns)),
            None => Err(Error::MalformedPacket),
        },
        Protocol::Binary => if !binary_columns(columns) {
            Err(Error::UnsupportedColumnType)
        } else if packet.len() < binary_row_min_len(columns.len()) {
            Err(Error::MalformedPacket)
        } else {
            match binary_values_of(packet, columns) {
                Some(values) => Ok(row_of(values, columns)),
                None => Err(Error::MalformedPacket),
            }
        },
    }
}

/// Checks that every column has a type that a binary row can hold.
fn all_binary_columns(columns: &[Column]) -> (r: bool)
    ensures
        r == binary_columns(columns@),
{
    let mut i: usize = 0;
    while i < columns.len()
        invariant
            i <= columns.len(),
            forall|j: int|
                0 <= j < i ==> binary_column_type(#[trigger] column_type_of(columns@[j])),
        decreases columns.len() - i,
    {
        let code: u8 = column_type_code(&columns[i]);
        if !((code <= 0x10 && code != 0x0E) || code >= 0xF5) {
            return false;
        }
        i = i + 1;
    }
    true
}

impl Protocol {
    /// Whether `packet` ends the current result set.
    ///
    /// Both encodings end a result set with the same packet; the
    /// capabilities do not change its layout.
    pub open spec fn is_last_packet(self, capabilities: u32, packet: Seq<u8>) -> bool {
        is_terminator(packet)
    }

    /// The metadata of a result set of this encoding.
    pub fn result_set_meta(&self, columns: Arc<[Column]>) -> (meta: ResultSetMeta)
        ensures
            meta@ == (MetaView { protocol: *self, columns: (*columns)@ }),
    {
        match self {
            Protocol::Text => ResultSetMeta::Text(columns),
            Protocol::Binary => ResultSetMeta::Binary(columns),
        }
    }

    /// Decodes a row packet against the columns of its result set.
    pub fn read_result_set_row(&self, packet: &[u8], columns: Arc<[Column]>) -> (r: Result<
        Row,
        Error,
    >)
        ensures
            r == decode_row(*self, packet@, (*columns)@),
    {
        match self {
            Protocol::Text => match read_text_values(packet, columns.len()) {
                Ok(values) => Ok(new_row(values, columns)),
                Err(_) => Err(Error::MalformedPacket),
            },
            Protocol::Binary => {
                if !all_binary_columns(&*columns) {
                    return Err(Error::UnsupportedColumnType);
                }
                let count: u128 = columns.len() as u128;
                if (packet.len() as u128) < 1 + (count + 9) / 8 {
                    return Err(Error::MalformedPacket);
                }
                match read_bin_values(packet, &*columns) {
                    Ok(values) => Ok(new_row(values, columns)),
                    Err(_) => Err(Error::MalformedPacket),
                }
            },
        }
    }

    /// Whether `packet` ends the current result set, given the capabilities
    /// that client and server agreed on.
    pub fn is_last_result_set_packet(&self, capabilities: u32, packet: &[u8]) -> (r: bool)
        ensures
            r == self.is_last_packet(capabilities, packet@),
    {
        parses_as_terminator(packet, capabilities)
    }
}

} // verus!
