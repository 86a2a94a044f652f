//! The connection and its readers as mathematics.
//!
//! A [`ConnView`] is the state of a connection in plain values. Each
//! operation of the engine is a function from the state before to the state
//! after and the operation's result; a failure leaves no state behind, since
//! the connection is then unusable.

use vstd::prelude::*;
use mysql_common::packets::Column;
use mysql_common::row::Row;
use crate::error::Error;
use crate::infile::{chunks, offered};
use crate::meta::{decode_row, MetaView, Protocol};
use crate::wire::{
    column_count, column_def, requested_file, response_kind, ResponseKind, CLIENT_DEPRECATE_EOF,
    SERVER_MORE_RESULTS_EXISTS,
};

verus! {

/// Something that the engine did to the connection, as plain values.
pub enum EffectView {
    /// A packet was written.
    Packet(Seq<u8>),
    /// The sequence id was resynchronised.
    SyncSeqId,
}

/// The state of a connection.
pub struct ConnView {
    /// The result set that is being streamed, if any.
    pub pending: Option<MetaView>,
    /// The capabilities that client and server agreed on.
    pub capabilities: u32,
    /// The status flags that came with the last packet read.
    pub status: u16,
    /// The last insert id that the server reported, if any.
    pub last_insert_id: Option<u64>,
    /// The number of affected rows that the server reported.
    pub affected_rows: u64,
    /// The text that the server reported.
    pub info: Seq<char>,
    /// The number of warnings that the server reported.
    pub warnings: u16,
    /// The files that the local-infile handler offers, if one is registered.
    pub handler: Option<Seq<(Seq<u8>, Seq<u8>)>>,
    /// The packets that have arrived and are not read yet, oldest first,
    /// each with the status flags that the connection shows once it is read.
    pub incoming: Seq<(Seq<u8>, u16)>,
    /// What the engine did to the connection, oldest first.
    pub effects: Seq<EffectView>,
}

/// The result `rest` with `prefix` put in front of the items it yields.
pub open spec fn with_prefix<T>(prefix: Seq<T>, rest: Result<(ConnView, Seq<T>), Error>) -> Result<
    (ConnView, Seq<T>),
    Error,
> {
    match rest {
        Ok((conn, items)) => Ok((conn, prefix + items)),
        Err(e) => Err(e),
    }
}

/// Putting two prefixes in front one after the other is putting their
/// concatenation in front.
pub proof fn lemma_with_prefix_twice<T>(
    first: Seq<T>,
    second: Seq<T>,
    rest: Result<(ConnView, Seq<T>), Error>,
)
    ensures
        with_prefix(first, with_prefix(second, rest)) == with_prefix(first + second, rest),
{
    match rest {
        Ok((conn, items)) => {
            assert(first + (second + items) =~= (first + second) + items);
        },
        Err(_) => {},
    }
}

/// Putting nothing in front changes nothing.
pub proof fn lemma_with_empty_prefix<T>(rest: Result<(ConnView, Seq<T>), Error>)
    ensures
        with_prefix(Seq::<T>::empty(), rest) == rest,
{
    match rest {
        Ok((conn, items)) => {
            assert(Seq::<T>::empty() + items =~= items);
        },
        Err(_) => {},
    }
}

impl ConnView {
    /// Whether the status flags announce another result set.
    pub open spec fn more_results_exists(self) -> bool {
        self.status & SERVER_MORE_RESULTS_EXISTS != 0
    }

    /// Whether column definitions are followed by an end-of-file packet.
    pub open spec fn expects_eof(self) -> bool {
        self.capabilities & CLIENT_DEPRECATE_EOF == 0
    }

    /// The columns of the pending result set; none if nothing is pending.
    pub open spec fn columns(self) -> Seq<Column> {
        match self.pending {
            Some(meta) => meta.columns,
            None => Seq::empty(),
        }
    }

    /// The state with another pending result.
    pub open spec fn with_pending(self, pending: Option<MetaView>) -> ConnView {
        ConnView { pending, ..self }
    }

    /// The state after a packet has arrived.
    pub open spec fn feed(self, payload: Seq<u8>, status: u16) -> ConnView {
        ConnView { incoming: self.incoming.push((payload, status)), ..self }
    }

    /// Reading a packet: the oldest unread packet and the state without it,
    /// showing that packet's status flags.
    pub open spec fn read_packet(self) -> Result<(ConnView, Seq<u8>), Error> {
        if self.incoming.len() == 0 {
            Err(Error::ConnectionClosed)
        } else {
            Ok(
                (
                    ConnView {
                        incoming: self.incoming.skip(1),
                        status: self.incoming[0].1,
                        ..self
                    },
                    self.incoming[0].0,
                ),
            )
        }
    }

    /// The state after a packet has been written.
    pub open spec fn write_packet(self, payload: Seq<u8>) -> ConnView {
        ConnView { effects: self.effects.push(EffectView::Packet(payload)), ..self }
    }

    /// The state after several packets have been written.
    pub open spec fn write_packets(self, payloads: Seq<Seq<u8>>) -> ConnView {
        ConnView {
            effects: self.effects + payloads.map_values(|p: Seq<u8>| EffectView::Packet(p)),
            ..self
        }
    }

    /// The state after the sequence id has been resynchronised.
    pub open spec fn sync_seq_id(self) -> ConnView {
        ConnView { effects: self.effects.push(EffectView::SyncSeqId), ..self }
    }

    /// Reading `count` column definitions, one packet each.
    pub open spec fn read_columns(self, count: nat) -> Result<(ConnView, Seq<Column>), Error>
        decreases count,
    {
        if count == 0 {
            Ok((self, Seq::empty()))
        } else {
            match self.read_packet() {
                Err(e) => Err(e),
                Ok((conn, payload)) => match column_def(payload) {
                    Err(e) => Err(e),
                    Ok(column) => with_prefix(seq![column], conn.read_columns((count - 1) as nat)),
                },
            }
        }
    }

    /// Reading the column definitions of a result set: `count` definitions
    /// and, unless the capabilities say otherwise, the end-of-file packet
    /// after them.
    pub open spec fn read_column_defs(self, count: nat) -> Result<(ConnView, Seq<Column>), Error> {
        match self.read_columns(count) {
            Err(e) => Err(e),
            Ok((conn, columns)) => if conn.expects_eof() {
                match conn.read_packet() {
                    Err(e) => Err(e),
                    Ok((after, _)) => Ok((after, columns)),
                }
            } else {
                Ok((conn, columns))
            },
        }
    }

    /// Reading a result set whose header is `packet`: the columns become the
    /// pending result, unless there are none.
    pub open spec fn handle_result_set(self, protocol: Protocol, packet: Seq<u8>) -> Result<
        ConnView,
        Error,
    > {
        match column_count(packet) {
            Err(e) => Err(e),
            Ok(count) => match self.read_column_defs(count) {
                Err(e) => Err(e),
                Ok((conn, columns)) => if count > 0 {
                    Ok(conn.with_pending(Some(MetaView { protocol, columns })))
                } else {
                    Ok(conn.with_pending(None))
                },
            },
        }
    }

    /// Uploading `data`: its chunks are written, one acknowledgement is read
    /// and nothing is pending afterwards.
    pub open spec fn upload(self, data: Seq<u8>) -> Result<ConnView, Error> {
        match self.write_packets(chunks(data)).read_packet() {
            Err(e) => Err(e),
            Ok((conn, _)) => Ok(conn.with_pending(None)),
        }
    }

    /// Answering the request for a local file that `packet` holds.
    pub open spec fn handle_local_infile(self, packet: Seq<u8>) -> Result<ConnView, Error> {
        match requested_file(packet) {
            Err(e) => Err(e),
            Ok(name) => match self.handler {
                None => Err(Error::NoLocalInfileHandler),
                Some(files) => match offered(files, name) {
                    None => Err(Error::LocalInfileNotFound),
                    Some(data) => self.upload(data),
                },
            },
        }
    }

    /// Reading the start of a response: one packet, and what its kind asks
    /// for.
    pub open spec fn read_result_set(self, protocol: Protocol) -> Result<ConnView, Error> {
        match self.read_packet() {
            Err(e) => Err(e),
            Ok((conn, packet)) => match response_kind(packet) {
                ResponseKind::NoResultSet => Ok(conn.with_pending(None)),
                ResponseKind::LocalInfile => conn.handle_local_infile(packet),
                ResponseKind::ResultSet => conn.handle_result_set(protocol, packet),
            },
        }
    }

    /// What follows the packet that ends a result set: the next result set
    /// is read if the status flags announce one, else nothing is pending.
    pub open spec fn end_result_set(self, protocol: Protocol) -> Result<ConnView, Error> {
        if self.more_results_exists() {
            self.sync_seq_id().read_result_set(protocol)
        } else {
            Ok(self.with_pending(None))
        }
    }

    /// Pulling one row packet. Nothing is read where nothing is pending. The
    /// packet that ends the result set yields no row.
    pub open spec fn get_row_raw(self, protocol: Protocol) -> Result<
        (ConnView, Option<Seq<u8>>),
        Error,
    > {
        if self.pending is None {
            Ok((self, None))
        } else {
            match self.read_packet() {
                Err(e) => Err(e),
                Ok((conn, packet)) => if protocol.is_last_packet(conn.capabilities, packet) {
                    match conn.end_result_set(protocol) {
                        Err(e) => Err(e),
                        Ok(next) => Ok((next, None)),
                    }
                } else {
                    Ok((conn, Some(packet)))
                },
            }
        }
    }

    /// Pulling one row.
    pub open spec fn get_row(self, protocol: Protocol) -> Result<(ConnView, Option<Row>), Error> {
        match self.get_row_raw(protocol) {
            Err(e) => Err(e),
            Ok((conn, None)) => Ok((conn, None)),
            Ok((conn, Some(packet))) => match decode_row(protocol, packet, conn.columns()) {
                Err(e) => Err(e),
                Ok(row) => Ok((conn, Some(row))),
            },
        }
    }

    /// Pulling rows up to the end of the current result set.
    pub open spec fn rows(self, protocol: Protocol) -> Result<(ConnView, Seq<Row>), Error>
        decreases self.incoming.len(),
    {
        match self.get_row(protocol) {
            Err(e) => Err(e),
            Ok((conn, None)) => Ok((conn, Seq::empty())),
            Ok((conn, Some(row))) => with_prefix(seq![row], conn.rows(protocol)),
        }
    }

    /// Discarding what is left of a response: the rows of the pending result
    /// set, and every result set that the server announces after it.
    pub open spec fn drop_result(self, protocol: Protocol) -> Result<ConnView, Error>
        decreases self.incoming.len(),
        via Self::drop_result_decreases
    {
        if self.pending is None {
            if self.more_results_exists() {
                match self.read_result_set(protocol) {
                    Err(e) => Err(e),
                    Ok(conn) => conn.drop_result(protocol),
                }
            } else {
                Ok(self)
            }
        } else {
            match self.get_row_raw(protocol) {
                Err(e) => Err(e),
                Ok((conn, _)) => conn.drop_result(protocol),
            }
        }
    }

    #[via_fn]
    proof fn drop_result_decreases(self, protocol: Protocol) {
        self.lemma_read_result_set_consumes(protocol);
        self.lemma_get_row_raw_consumes(protocol);
    }

    /// Reading `count` column definitions takes exactly `count` packets and
    /// yields `count` columns. It fails only where a packet is missing or
    /// malformed.
    pub proof fn lemma_read_columns_consumes(self, count: nat)
        ensures
            match self.read_columns(count) {
                Ok((conn, columns)) => {
                    &&& columns.len() == count
                    &&& count <= self.incoming.len()
                    &&& conn.incoming == self.incoming.skip(count as int)
                    &&& conn.effects == self.effects
                    &&& conn.pending == self.pending
                    &&& conn.capabilities == self.capabilities
                },
                Err(e) => e == Error::ConnectionClosed || e == Error::MalformedPacket,
            },
        decreases count,
    {
        if count == 0 {
            assert(self.incoming.skip(0) =~= self.incoming);
        } else {
            match self.read_packet() {
                Err(_) => {},
                Ok((conn, payload)) => {
                    conn.lemma_read_columns_consumes((count - 1) as nat);
                    if conn.read_columns((count - 1) as nat) is Ok {
                        assert(self.incoming.skip(1).skip(count - 1) =~= self.incoming.skip(
                            count as int,
                        ));
                    }
                },
            }
        }
    }

    /// Reading the start of a response takes at least one packet.
    pub proof fn lemma_read_result_set_consumes(self, protocol: Protocol)
        ensures
            match self.read_result_set(protocol) {
                Ok(conn) => conn.incoming.len() < self.incoming.len(),
                Err(_) => true,
            },
    {
        match self.read_packet() {
            Err(_) => {},
            Ok((conn, packet)) => {
                match column_count(packet) {
                    Ok(count) => {
                        conn.lemma_read_columns_consumes(count);
                    },
                    Err(_) => {},
                }
            },
        }
    }

    /// Pulling a row packet from a pending result set takes at least one
    /// packet.
    pub proof fn lemma_get_row_raw_consumes(self, protocol: Protocol)
        ensures
            match self.get_row_raw(protocol) {
                Ok((conn, _)) => self.pending is Some ==> conn.incoming.len()
                    < self.incoming.len(),
                Err(_) => true,
            },
    {
        if self.pending is Some {
            match self.read_packet() {
                Err(_) => {},
                Ok((conn, packet)) => {
                    conn.sync_seq_id().lemma_read_result_set_consumes(protocol);
                },
            }
        }
    }
}

} // verus!
