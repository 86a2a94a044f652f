//! The connection as the engine sees it.
//!
//! A [`Conn`] keeps what the engine reads of a connection (the pending
//! result, the capabilities, the status flags, the metadata of the last
//! response, the local-infile handler) together with the packets that have
//! arrived and a record of what the engine did in return. Whoever owns the
//! socket feeds packets in with [`Conn::feed`] and carries out what
//! [`Conn::take_effects`] hands back.

use vstd::prelude::*;
use vstd::slice::{slice_subrange, slice_to_vec};
use std::collections::VecDeque;
use mysql_common::packets::Column;
use crate::error::Error;
use crate::infile::{chunks, is_last_chunk, LocalInfileHandler, CHUNK_SIZE};
use crate::meta::{MetaView, Protocol, ResultSetMeta};
use crate::model::{
    lemma_with_empty_prefix, lemma_with_prefix_twice, with_prefix, ConnView, EffectView,
};
use crate::wire::{
    classify_response, column_count, parse_column, parse_column_count, parse_requested_file,
    share_columns, ResponseKind, CLIENT_DEPRECATE_EOF, SERVER_MORE_RESULTS_EXISTS,
};

verus! {

/// A packet that has arrived, with the status flags that the connection
/// shows once the packet is read.
#[derive(Debug)]
struct Incoming {
    payload: Vec<u8>,
    status: u16,
}

impl View for Incoming {
    type V = (Seq<u8>, u16);

    closed spec fn view(&self) -> (Seq<u8>, u16) {
        (self.payload@, self.status)
    }
}

/// Something that the engine did to the connection.
#[derive(Debug, PartialEq, Eq)]
pub enum Effect {
    /// Write this packet.
    Packet(Vec<u8>),
    /// Resynchronise the sequence id.
    SyncSeqId,
}

impl View for Effect {
    type V = EffectView;

    open spec fn view(&self) -> EffectView {
        match self {
            Effect::Packet(payload) => EffectView::Packet(payload@),
            Effect::SyncSeqId => EffectView::SyncSeqId,
        }
    }
}

/// What a packet means to the reader of a pending result set.
#[derive(Debug, Clone, Copy, PartialEq, Eq, Structural)]
pub enum RowPacket {
    /// The packet holds a row.
    Row,
    /// The packet ends the result set and another result set follows: its
    /// header is to be read next.
    NextResultSet,
    /// The packet ends the last result set of the response.
    End,
}

/// The state of a connection while responses are read from it.
#[derive(Debug)]
pub struct Conn {
    pending_result: Option<ResultSetMeta>,
    capabilities: u32,
    status: u16,
    last_insert_id: Option<u64>,
    affected_rows: u64,
    info: String,
    warnings: u16,
    local_infile_handler: Option<LocalInfileHandler>,
    incoming: VecDeque<Incoming>,
    effects: Vec<Effect>,
}

impl View for Conn {
    type V = ConnView;

    closed spec fn view(&self) -> ConnView {
        ConnView {
            pending: match self.pending_result {
                Some(meta) => Some(meta@),
                None => None,
            },
            capabilities: self.capabilities,
            status: self.status,
            last_insert_id: self.last_insert_id,
            affected_rows: self.affected_rows,
            info: self.info@,
            warnings: self.warnings,
            handler: match self.local_infile_handler {
                Some(handler) => Some(handler@),
                None => None,
            },
            incoming: self.incoming@.map_values(|p: Incoming| p@),
            effects: self.effects@.map_values(|e: Effect| e@),
        }
    }
}

/// Writing a chunk and then the chunks of what follows is writing the
/// chunks of both.
proof fn lemma_write_packets_step(conn: ConnView, first: Seq<u8>, rest: Seq<Seq<u8>>)
    ensures
        conn.write_packets(seq![first] + rest) == conn.write_packet(first).write_packets(rest),
        conn.write_packets(seq![first]) == conn.write_packet(first),
{
    let f = |p: Seq<u8>| EffectView::Packet(p);
    assert(conn.effects + (seq![first] + rest).map_values(f) =~= conn.effects.push(
        EffectView::Packet(first),
    ) + rest.map_values(f));
    assert(conn.effects + seq![first].map_values(f) =~= conn.effects.push(
        EffectView::Packet(first),
    ));
}

impl Conn {
    /// A connection with the given capabilities, on which nothing has
    /// arrived and nothing is pending.
    pub fn new(capabilities: u32) -> (conn: Conn)
        ensures
            conn@ == (ConnView {
                pending: None,
                capabilities,
                status: 0,
                last_insert_id: None,
                affected_rows: 0,
                info: Seq::empty(),
                warnings: 0,
                handler: None,
                incoming: Seq::empty(),
                effects: Seq::empty(),
            }),
    {
        let conn = Conn {
            pending_result: None,
            capabilities,
            status: 0,
            last_insert_id: None,
            affected_rows: 0,
            info: String::new(),
            warnings: 0,
            local_infile_handler: None,
            incoming: VecDeque::new(),
            effects: Vec::new(),
        };
        assert(conn@.incoming =~= Seq::empty());
        assert(conn@.effects =~= Seq::empty());
        assert(conn@.info =~= Seq::empty());
        conn
    }

    /// The result set that is being streamed, if any.
    pub fn get_pending_result(&self) -> (pending: Option<&ResultSetMeta>)
        ensures
            match pending {
                Some(meta) => self@.pending == Some(meta@),
                None => self@.pending is None,
            },
    {
        self.pending_result.as_ref()
    }

    /// Replaces the pending result.
    pub fn set_pending_result(&mut self, pending: Option<ResultSetMeta>)
        ensures
            final(self)@ == old(self)@.with_pending(
                match pending {
                    Some(meta) => Some(meta@),
                    None => None,
                },
            ),
    {
        self.pending_result = pending;
    }

    /// The capabilities that client and server agreed on.
    pub fn capabilities(&self) -> (capabilities: u32)
        ensures
            capabilities == self@.capabilities,
    {
        self.capabilities
    }

    /// The status flags that came with the last packet read.
    pub fn status(&self) -> (status: u16)
        ensures
            status == self@.status,
    {
        self.status
    }

    /// Whether the status flags announce another result set.
    pub fn more_results_exists(&self) -> (more: bool)
        ensures
            more == self@.more_results_exists(),
    {
        self.status & SERVER_MORE_RESULTS_EXISTS != 0
    }

    /// Last insert id, if any.
    pub fn last_insert_id(&self) -> (id: Option<u64>)
        ensures
            id == self@.last_insert_id,
    {
        self.last_insert_id
    }

    /// Number of affected rows, as reported by the server, or `0`.
    pub fn affected_rows(&self) -> (rows: u64)
        ensures
            rows == self@.affected_rows,
    {
        self.affected_rows
    }

    /// Text information, as reported by the server, or an empty string.
    pub fn info(&self) -> (info: &str)
        ensures
            info@ == self@.info,
    {
        self.info.as_str()
    }

    /// Number of warnings, as reported by the server, or `0`.
    pub fn get_warnings(&self) -> (warnings: u16)
        ensures
            warnings == self@.warnings,
    {
        self.warnings
    }

    /// Sets the status flags, as the server reported them before the
    /// response that is about to be read.
    pub fn set_status(&mut self, status: u16)
        ensures
            final(self)@ == (ConnView { status, ..old(self)@ }),
    {
        self.status = status;
    }

    /// Records the metadata of the last response.
    pub fn set_response_info(
        &mut self,
        last_insert_id: Option<u64>,
        affected_rows: u64,
        info: String,
        warnings: u16,
    )
        ensures
            final(self)@ == (ConnView {
                last_insert_id,
                affected_rows,
                info: info@,
                warnings,
                ..old(self)@
            }),
    {
        self.last_insert_id = last_insert_id;
        self.affected_rows = affected_rows;
        self.info = info;
        self.warnings = warnings;
    }

    /// Registers the handler that answers requests for local files, or
    /// removes it.
    pub fn set_local_infile_handler(&mut self, handler: Option<LocalInfileHandler>)
        ensures
            final(self)@ == (ConnView {
                handler: match handler {
                    Some(h) => Some(h@),
                    None => None,
                },
                ..old(self)@
            }),
    {
        self.local_infile_handler = handler;
    }

    /// Number of packets that have arrived and are not read yet.
    pub fn unread_packets(&self) -> (count: usize)
        ensures
            count == self@.incoming.len(),
    {
        self.incoming.len()
    }

    /// Hands over what the engine did to the connection since the last
    /// call, oldest first, and forgets it.
    pub fn take_effects(&mut self) -> (effects: Vec<Effect>)
        ensures
            effects@.map_values(|e: Effect| e@) == old(self)@.effects,
            final(self)@ == (ConnView { effects: Seq::empty(), ..old(self)@ }),
    {
        let mut effects: Vec<Effect> = Vec::new();
        std::mem::swap(&mut self.effects, &mut effects);
        assert(self@.effects =~= Seq::empty());
        effects
    }

    /// Takes in a packet that has arrived.
    pub fn feed(&mut self, payload: Vec<u8>, status: u16)
        ensures
            final(self)@ == old(self)@.feed(payload@, status),
    {
        self.incoming.push_back(Incoming { payload, status });
        assert(self@.incoming =~= old(self)@.incoming.push((payload@, status)));
    }

    /// Reads the oldest packet that has arrived.
    pub fn read_packet(&mut self) -> (r: Result<Vec<u8>, Error>)
        ensures
            match r {
                Ok(payload) => old(self)@.read_packet() == Ok::<_, Error>((final(self)@, payload@)),
                Err(e) => old(self)@.read_packet() == Err::<(ConnView, Seq<u8>), _>(e),
            },
    {
        match self.incoming.pop_front() {
            Some(packet) => {
                self.status = packet.status;
                assert(self@.incoming =~= old(self)@.incoming.skip(1));
                Ok(packet.payload)
            },
            None => Err(Error::ConnectionClosed),
        }
    }

    /// Records a packet to write.
    pub fn write_packet(&mut self, payload: Vec<u8>)
        ensures
            final(self)@ == old(self)@.write_packet(payload@),
    {
        self.effects.push(Effect::Packet(payload));
        assert(self@.effects =~= old(self)@.effects.push(EffectView::Packet(payload@)));
    }

    /// Records that the sequence id is to be resynchronised.
    pub fn sync_seq_id(&mut self)
        ensures
            final(self)@ == old(self)@.sync_seq_id(),
    {
        self.effects.push(Effect::SyncSeqId);
        assert(self@.effects =~= old(self)@.effects.push(EffectView::SyncSeqId));
    }

    /// Whether column definitions are followed by an end-of-file packet.
    pub fn expects_eof(&self) -> (eof: bool)
        ensures
            eof == self@.expects_eof(),
    {
        self.capabilities & CLIENT_DEPRECATE_EOF == 0
    }

    /// Decides what a packet that was read for a pending result set means.
    ///
    /// A packet that does not end the result set is a row, and nothing
    /// changes. After the packet that ends it, either another result set was
    /// announced, and the sequence id is resynchronised for its header, or
    /// nothing is pending any more.
    pub fn classify_row_packet(&mut self, protocol: Protocol, packet: &[u8]) -> (kind: RowPacket)
        ensures
            match kind {
                RowPacket::Row => {
                    &&& !protocol.is_last_packet(old(self)@.capabilities, packet@)
                    &&& final(self)@ == old(self)@
                },
                RowPacket::NextResultSet => {
                    &&& protocol.is_last_packet(old(self)@.capabilities, packet@)
                    &&& old(self)@.more_results_exists()
                    &&& final(self)@ == old(self)@.sync_seq_id()
                },
                RowPacket::End => {
                    &&& protocol.is_last_packet(old(self)@.capabilities, packet@)
                    &&& !old(self)@.more_results_exists()
                    &&& final(self)@ == old(self)@.with_pending(None)
                },
            },
    {
        if protocol.is_last_result_set_packet(self.capabilities, packet) {
            if self.more_results_exists() {
                self.sync_seq_id();
                RowPacket::NextResultSet
            } else {
                self.set_pending_result(None);
                RowPacket::End
            }
        } else {
            RowPacket::Row
        }
    }

    /// Makes the result set with the given columns the pending one. A result
    /// set whose header announced no column holds no rows: nothing is
    /// pending after it.
    pub fn set_result_set(&mut self, protocol: Protocol, column_count: u64, columns: Vec<Column>)
        ensures
            final(self)@ == old(self)@.with_pending(
                if column_count > 0 {
                    Some(MetaView { protocol, columns: columns@ })
                } else {
                    None
                },
            ),
    {
        if column_count > 0 {
            let meta = protocol.result_set_meta(share_columns(columns));
            self.set_pending_result(Some(meta));
        } else {
            self.set_pending_result(None);
        }
    }

    /// Reads `count` column definitions and the end-of-file packet that
    /// follows them unless the capabilities say that none is sent.
    pub fn read_column_defs(&mut self, count: u64) -> (r: Result<Vec<Column>, Error>)
        ensures
            match r {
                Ok(columns) => old(self)@.read_column_defs(count as nat) == Ok::<_, Error>(
                    (final(self)@, columns@),
                ),
                Err(e) => old(self)@.read_column_defs(count as nat) == Err::<
                    (ConnView, Seq<Column>),
                    _,
                >(e),
            },
    {
        let mut columns: Vec<Column> = Vec::new();
        let mut left: u64 = count;
        proof {
            lemma_with_empty_prefix(self@.read_columns(count as nat));
        }
        while left > 0
            invariant
                old(self)@.read_columns(count as nat) == with_prefix(
                    columns@,
                    self@.read_columns(left as nat),
                ),
            decreases left,
        {
            let ghost seen = columns@;
            let payload = match self.read_packet() {
                Ok(payload) => payload,
                Err(e) => {
                    return Err(e);
                },
            };
            let column = match parse_column(payload) {
                Ok(column) => column,
                Err(e) => {
                    return Err(e);
                },
            };
            columns.push(column);
            left = left - 1;
            proof {
                lemma_with_prefix_twice(seen, seq![column], self@.read_columns(left as nat));
                assert(seen + seq![column] =~= columns@);
            }
        }
        if self.expects_eof() {
            match self.read_packet() {
                Ok(_) => {},
                Err(e) => {
                    return Err(e);
                },
            }
        }
        proof {
            assert(columns@ + Seq::<Column>::empty() =~= columns@);
        }
        Ok(columns)
    }

    /// Reads the result set whose header is `packet` and makes it the
    /// pending result. A header that announces no column leaves nothing
    /// pending.
    pub fn handle_result_set(&mut self, protocol: Protocol, packet: &[u8]) -> (r: Result<
        (),
        Error,
    >)
        ensures
            match r {
                Ok(()) => old(self)@.handle_result_set(protocol, packet@) == Ok::<_, Error>(
                    final(self)@,
                ),
                Err(e) => old(self)@.handle_result_set(protocol, packet@) == Err::<ConnView, _>(e),
            },
    {
        let column_count = match parse_column_count(packet) {
            Ok(count) => count,
            Err(e) => {
                return Err(e);
            },
        };
        let columns = match self.read_column_defs(column_count) {
            Ok(columns) => columns,
            Err(e) => {
                return Err(e);
            },
        };
        self.set_result_set(protocol, column_count, columns);
        Ok(())
    }

    /// Records the packets that carry `data` to the server, one per chunk.
    pub fn write_chunks(&mut self, data: &[u8])
        ensures
            final(self)@ == old(self)@.write_packets(chunks(data@)),
    {
        let mut pos: usize = 0;
        assert(data@.skip(0) =~= data@);
        loop
            invariant
                pos <= data.len(),
                old(self)@.write_packets(chunks(data@)) == self@.write_packets(
                    chunks(data@.skip(pos as int)),
                ),
            decreases data.len() - pos,
        {
            let ghost rest = data@.skip(pos as int);
            if is_last_chunk(data.len() - pos) {
                let chunk = slice_to_vec(slice_subrange(data, pos, data.len()));
                proof {
                    lemma_write_packets_step(self@, rest, Seq::empty());
                }
                self.write_packet(chunk);
                return ;
            }
            let chunk = slice_to_vec(slice_subrange(data, pos, pos + CHUNK_SIZE));
            proof {
                assert(chunk@ == rest.take(CHUNK_SIZE as int));
                assert(rest.skip(CHUNK_SIZE as int) =~= data@.skip(pos + CHUNK_SIZE));
                lemma_write_packets_step(self@, chunk@, chunks(rest.skip(CHUNK_SIZE as int)));
            }
            self.write_packet(chunk);
            pos = pos + CHUNK_SIZE;
        }
    }

    /// Uploads a file: writes its chunks, reads the server's
    /// acknowledgement and leaves nothing pending.
    pub fn upload(&mut self, data: &[u8]) -> (r: Result<(), Error>)
        ensures
            match r {
                Ok(()) => old(self)@.upload(data@) == Ok::<_, Error>(final(self)@),
                Err(e) => old(self)@.upload(data@) == Err::<ConnView, _>(e),
            },
    {
        self.write_chunks(data);
        self.read_acknowledgement()
    }

    /// Reads the packet with which the server acknowledges an upload, and
    /// leaves nothing pending.
    pub fn read_acknowledgement(&mut self) -> (r: Result<(), Error>)
        ensures
            match (r, old(self)@.read_packet()) {
                (Ok(()), Ok((conn, _))) => final(self)@ == conn.with_pending(None),
                (Err(e), Err(expected)) => e == expected,
                _ => false,
            },
    {
        match self.read_packet() {
            Ok(_) => {},
            Err(e) => {
                return Err(e);
            },
        }
        self.set_pending_result(None);
        Ok(())
    }

    /// Answers the request for a local file that `packet` holds: asks the
    /// registered handler for the file and uploads it.
    ///
    /// Where the request cannot be read, no handler is registered or the
    /// handler does not offer the file, nothing is written and nothing is
    /// read.
    pub fn handle_local_infile(&mut self, packet: &[u8]) -> (r: Result<(), Error>)
        ensures
            match r {
                Ok(()) => old(self)@.handle_local_infile(packet@) == Ok::<_, Error>(final(self)@),
                Err(e) => old(self)@.handle_local_infile(packet@) == Err::<ConnView, _>(e),
            },
            r matches Err(e) && e != Error::ConnectionClosed ==> final(self)@ == old(self)@,
    {
        let file_name = match parse_requested_file(packet) {
            Ok(name) => name,
            Err(e) => {
                return Err(e);
            },
        };
        let handler = match self.local_infile_handler.take() {
            Some(handler) => handler,
            None => {
                return Err(Error::NoLocalInfileHandler);
            },
        };
        let ghost without = self@;
        assert(without == (ConnView { handler: None, ..old(self)@ }));
        let uploaded = match handler.handle(file_name.as_slice()) {
            Ok(data) => self.upload(data),
            Err(e) => Err(e),
        };
        self.local_infile_handler = Some(handler);
        uploaded
    }

    /// Reads the start of a response and records what is pending after it.
    ///
    /// A packet that starts with `0x00` announces no result set. One that
    /// starts with `0xFB` asks for a local file, which is uploaded. Any other
    /// packet is the header of a result set, whose column definitions are
    /// read.
    ///
    /// Where the server asks for a file and no handler is registered, or the
    /// handler does not offer the file, no upload is attempted.
    pub fn read_result_set(&mut self, protocol: Protocol) -> (r: Result<(), Error>)
        ensures
            match r {
                Ok(()) => old(self)@.read_result_set(protocol) == Ok::<_, Error>(final(self)@),
                Err(e) => old(self)@.read_result_set(protocol) == Err::<ConnView, _>(e),
            },
            r matches Err(e) && (e == Error::NoLocalInfileHandler || e
                == Error::LocalInfileNotFound) ==> final(self)@.effects == old(self)@.effects,
    {
        let packet = match self.read_packet() {
            Ok(packet) => packet,
            Err(e) => {
                return Err(e);
            },
        };
        proof {
            if let Ok(count) = column_count(packet@) {
                self@.lemma_read_columns_consumes(count);
            }
        }
        match classify_response(packet.as_slice()) {
            ResponseKind::NoResultSet => {
                self.set_pending_result(None);
                Ok(())
            },
            ResponseKind::LocalInfile => self.handle_local_infile(packet.as_slice()),
            ResponseKind::ResultSet => self.handle_result_set(protocol, packet.as_slice()),
        }
    }
}

} // verus!
