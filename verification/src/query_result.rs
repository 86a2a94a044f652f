//! Reading the rows of a response.

use vstd::prelude::*;
use std::sync::Arc;
use mysql_common::packets::Column;
use mysql_common::row::convert::FromRowError;
use mysql_common::row::Row;
use crate::conn::{Conn, RowPacket};
use crate::error::Error;
use crate::meta::Protocol;
use crate::model::{lemma_with_empty_prefix, lemma_with_prefix_twice, with_prefix, ConnView};

verus! {

/// Result of a query or statement execution.
///
/// The reader holds the connection for as long as it lives, so that no
/// second reader and no new query can read packets meanwhile. Its encoding
/// is fixed when it is made.
#[derive(Debug)]
pub struct QueryResult {
    conn: Conn,
    protocol: Protocol,
}

impl View for QueryResult {
    type V = ConnView;

    /// The state of the connection that the reader holds.
    closed spec fn view(&self) -> ConnView {
        self.conn@
    }
}

/// Whether `out` holds, item by item, what `fun` made of `rows`.
pub open spec fn mapped<F: FnMut(Row) -> U, U>(fun: F, rows: Seq<Row>, out: Seq<U>) -> bool {
    &&& out.len() == rows.len()
    &&& forall|i: int| 0 <= i < rows.len() ==> call_ensures(fun, (rows[i],), #[trigger] out[i])
}

/// Whether `steps` are the accumulators that `fun` goes through on `rows`,
/// starting from `steps[0]`.
pub open spec fn fold_steps<F: FnMut(U, Row) -> U, U>(
    fun: F,
    rows: Seq<Row>,
    steps: Seq<U>,
) -> bool {
    &&& steps.len() == rows.len() + 1
    &&& forall|i: int|
        0 <= i < rows.len() ==> call_ensures(fun, (steps[i], rows[i]), #[trigger] steps[i + 1])
}

/// Whether `fun` can turn `init` into `result` by taking in `rows` one after
/// the other.
pub open spec fn folded<F: FnMut(U, Row) -> U, U>(
    fun: F,
    init: U,
    rows: Seq<Row>,
    result: U,
) -> bool {
    exists|steps: Seq<U>|
        #![auto]
        fold_steps(fun, rows, steps) && steps[0] == init && steps[rows.len() as int] == result
}

impl QueryResult {
    /// The encoding of the rows that this reader decodes.
    pub closed spec fn protocol(&self) -> Protocol {
        self.protocol
    }

    /// A reader of the response that is arriving on `conn`.
    pub fn new(conn: Conn, protocol: Protocol) -> (reader: Self)
        ensures
            reader@ == conn@,
            reader.protocol() == protocol,
    {
        QueryResult { conn, protocol }
    }

    /// Gives the connection back as it stands, without reading anything.
    pub fn into_conn(self) -> (conn: Conn)
        ensures
            conn@ == self@,
    {
        self.conn
    }

    /// Returns `true` if this query result may contain rows.
    ///
    /// If `false` then there is no rows possible (e.g. result of an UPDATE query).
    fn has_rows(&self) -> (rows: bool)
        ensures
            rows == (self@.pending is Some),
    {
        self.conn.get_pending_result().is_some()
    }

    /// `true` if there is no more rows nor result sets in this query.
    ///
    /// One could use it to check if there is more than one result set in
    /// this query result. It reads nothing and changes nothing, however
    /// often it is called.
    pub fn is_empty(&self) -> (empty: bool)
        ensures
            empty == (self@.pending is None),
    {
        !self.has_rows()
    }

    fn make_empty(&mut self)
        ensures
            final(self)@ == old(self)@.with_pending(None),
            final(self).protocol() == old(self).protocol(),
    {
        self.conn.set_pending_result(None);
    }

    /// Pulls the next row packet of the current result set.
    ///
    /// Nothing is read where no result set is pending. Otherwise one packet
    /// is read. If it ends the result set, no packet is returned: the next
    /// result set is read if the server announced one, else nothing is
    /// pending any more.
    pub fn get_row_raw(&mut self) -> (r: Result<Option<Vec<u8>>, Error>)
        ensures
            final(self).protocol() == old(self).protocol(),
            match r {
                Ok(Some(packet)) => old(self)@.get_row_raw(old(self).protocol()) == Ok::<_, Error>(
                    (final(self)@, Some(packet@)),
                ),
                Ok(None) => old(self)@.get_row_raw(old(self).protocol()) == Ok::<_, Error>(
                    (final(self)@, None::<Seq<u8>>),
                ),
                Err(e) => old(self)@.get_row_raw(old(self).protocol()) == Err::<
                    (ConnView, Option<Seq<u8>>),
                    _,
                >(e),
            },
    {
        if self.is_empty() {
            return Ok(None);
        }
        let packet = match self.conn.read_packet() {
            Ok(packet) => packet,
            Err(e) => {
                return Err(e);
            },
        };
        match self.conn.classify_row_packet(self.protocol, packet.as_slice()) {
            RowPacket::Row => Ok(Some(packet)),
            RowPacket::NextResultSet => match self.conn.read_result_set(self.protocol) {
                Ok(()) => Ok(None),
                Err(e) => Err(e),
            },
            RowPacket::End => Ok(None),
        }
    }

    /// Returns next row, if any.
    ///
    /// No row is returned where nothing is pending, and none for the packet
    /// that ends the current result set.
    pub fn get_row(&mut self) -> (r: Result<Option<Row>, Error>)
        ensures
            final(self).protocol() == old(self).protocol(),
            match r {
                Ok(row) => old(self)@.get_row(old(self).protocol()) == Ok::<_, Error>(
                    (final(self)@, row),
                ),
                Err(e) => old(self)@.get_row(old(self).protocol()) == Err::<
                    (ConnView, Option<Row>),
                    _,
                >(e),
            },
    {
        let packet = match self.get_row_raw() {
            Ok(packet) => packet,
            Err(e) => {
                return Err(e);
            },
        };
        match packet {
            Some(packet) => {
                let columns = self.conn.get_pending_result().unwrap().columns().clone();
                match self.protocol.read_result_set_row(packet.as_slice(), columns) {
                    Ok(row) => Ok(Some(row)),
                    Err(e) => Err(e),
                }
            },
            None => Ok(None),
        }
    }

    /// Last insert id, if any.
    pub fn last_insert_id(&self) -> (id: Option<u64>)
        ensures
            id == self@.last_insert_id,
    {
        self.conn.last_insert_id()
    }

    /// Number of affected rows, as reported by the server, or `0`.
    pub fn affected_rows(&self) -> (rows: u64)
        ensures
            rows == self@.affected_rows,
    {
        self.conn.affected_rows()
    }

    /// Text information, as reported by the server, or an empty string.
    pub fn info(&self) -> (info: &str)
        ensures
            info@ == self@.info,
    {
        self.conn.info()
    }

    /// Number of warnings, as reported by the server, or `0`.
    pub fn warnings(&self) -> (warnings: u16)
        ensures
            warnings == self@.warnings,
    {
        self.conn.get_warnings()
    }

    /// Returns `true` if the `SERVER_MORE_RESULTS_EXISTS` flag is contained
    /// in status flags of the connection.
    fn more_results_exists(&self) -> (more: bool)
        ensures
            more == self@.more_results_exists(),
    {
        self.conn.more_results_exists()
    }

    /// Collects the current result set, turning each row into an `R` with
    /// `convert`.
    ///
    /// It collects rows up to the nearest result set boundary: to read a
    /// response with several result sets, call it once per result set, until
    /// [`QueryResult::is_empty`] holds.
    ///
    /// `convert` must accept every row. For rows of unknown shape use
    /// [`QueryResult::try_collect`].
    pub fn collect<R, F>(&mut self, convert: F) -> (r: Result<Vec<R>, Error>) where
        F: FnMut(Row) -> R,

        requires
            forall|row: Row| call_requires(convert, (row,)),
        ensures
            final(self).protocol() == old(self).protocol(),
            match (r, old(self)@.rows(old(self).protocol())) {
                (Ok(out), Ok((conn, rows))) => final(self)@ == conn && mapped(convert, rows, out@),
                (Err(e), Err(expected)) => e == expected,
                _ => false,
            },
    {
        self.map(convert)
    }

    /// Collects the current result set like [`QueryResult::collect`], with a
    /// conversion that may fail: a row that cannot be converted yields the
    /// failure in its place and the rows after it are still read.
    pub fn try_collect<R, F>(&mut self, convert: F) -> (r: Result<
        Vec<Result<R, FromRowError>>,
        Error,
    >) where F: FnMut(Row) -> Result<R, FromRowError>
        requires
            forall|row: Row| call_requires(convert, (row,)),
        ensures
            final(self).protocol() == old(self).protocol(),
            match (r, old(self)@.rows(old(self).protocol())) {
                (Ok(out), Ok((conn, rows))) => final(self)@ == conn && mapped(convert, rows, out@),
                (Err(e), Err(expected)) => e == expected,
                _ => false,
            },
    {
        self.map(convert)
    }

    /// Collects the current result set and drops everything else. The
    /// connection comes back ready for the next query.
    pub fn collect_and_drop<R, F>(self, convert: F) -> (r: Result<(Vec<R>, Conn), Error>) where
        F: FnMut(Row) -> R,

        requires
            forall|row: Row| call_requires(convert, (row,)),
        ensures
            match (r, self@.rows(self.protocol())) {
                (Ok((out, conn)), Ok((mid, rows))) => {
                    &&& mapped(convert, rows, out@)
                    &&& mid.drop_result(self.protocol()) == Ok::<_, Error>(conn@)
                    &&& conn@.pending is None
                    &&& !conn@.more_results_exists()
                },
                (Err(e), Ok((mid, _))) => mid.drop_result(self.protocol()) == Err::<ConnView, _>(e),
                (Err(e), Err(expected)) => e == expected,
                _ => false,
            },
    {
        let mut reader = self;
        let output = match reader.collect(convert) {
            Ok(output) => output,
            Err(e) => {
                return Err(e);
            },
        };
        match reader.drop_result() {
            Ok(conn) => Ok((output, conn)),
            Err(e) => Err(e),
        }
    }

    /// Collects the current result set like
    /// [`QueryResult::try_collect`] and drops everything else.
    pub fn try_collect_and_drop<R, F>(self, convert: F) -> (r: Result<
        (Vec<Result<R, FromRowError>>, Conn),
        Error,
    >) where F: FnMut(Row) -> Result<R, FromRowError>
        requires
            forall|row: Row| call_requires(convert, (row,)),
        ensures
            match (r, self@.rows(self.protocol())) {
                (Ok((out, conn)), Ok((mid, rows))) => {
                    &&& mapped(convert, rows, out@)
                    &&& mid.drop_result(self.protocol()) == Ok::<_, Error>(conn@)
                    &&& conn@.pending is None
                    &&& !conn@.more_results_exists()
                },
                (Err(e), Ok((mid, _))) => mid.drop_result(self.protocol()) == Err::<ConnView, _>(e),
                (Err(e), Err(expected)) => e == expected,
                _ => false,
            },
    {
        let mut reader = self;
        let output = match reader.try_collect(convert) {
            Ok(output) => output,
            Err(e) => {
                return Err(e);
            },
        };
        match reader.drop_result() {
            Ok(conn) => Ok((output, conn)),
            Err(e) => Err(e),
        }
    }

    /// Executes `fun` on every row of the current result set.
    ///
    /// It stops on the nearest result set boundary.
    pub fn for_each<F>(&mut self, fun: F) -> (r: Result<(), Error>) where F: FnMut(Row)
        requires
            forall|row: Row| call_requires(fun, (row,)),
        ensures
            final(self).protocol() == old(self).protocol(),
            match (r, old(self)@.rows(old(self).protocol())) {
                (Ok(()), Ok((conn, _))) => final(self)@ == conn,
                (Err(e), Err(expected)) => e == expected,
                _ => false,
            },
    {
        let mut apply = fun;
        let ghost start = self@;
        let ghost protocol = self.protocol();
        let ghost mut seen: Seq<Row> = Seq::empty();
        proof {
            lemma_with_empty_prefix(start.rows(protocol));
        }
        if self.is_empty() {
            Ok(())
        } else {
            loop
                invariant
                    start == old(self)@,
                    protocol == old(self).protocol(),
                    self.protocol() == protocol,
                    start.rows(protocol) == with_prefix(seen, self@.rows(protocol)),
                    forall|row: Row| call_requires(apply, (row,)),
                decreases self@.incoming.len(),
            {
                let row = match self.get_row() {
                    Ok(row) => row,
                    Err(e) => {
                        return Err(e);
                    },
                };
                if let Some(row) = row {
                    proof {
                        lemma_with_prefix_twice(seen, seq![row], self@.rows(protocol));
                        seen = seen + seq![row];
                    }
                    apply(row);
                } else {
                    return Ok(());
                }
            }
        }
    }

    /// Executes `fun` on every row of the current result set and drops
    /// everything else.
    pub fn for_each_and_drop<F>(self, fun: F) -> (r: Result<Conn, Error>) where F: FnMut(Row)
        requires
            forall|row: Row| call_requires(fun, (row,)),
        ensures
            match (r, self@.rows(self.protocol())) {
                (Ok(conn), Ok((mid, _))) => {
                    &&& mid.drop_result(self.protocol()) == Ok::<_, Error>(conn@)
                    &&& conn@.pending is None
                    &&& !conn@.more_results_exists()
                },
                (Err(e), Ok((mid, _))) => mid.drop_result(self.protocol()) == Err::<ConnView, _>(e),
                (Err(e), Err(expected)) => e == expected,
                _ => false,
            },
    {
        let mut reader = self;
        match reader.for_each(fun) {
            Ok(()) => {},
            Err(e) => {
                return Err(e);
            },
        }
        reader.drop_result()
    }

    /// Maps every row of the current result set to `U` using `fun`.
    ///
    /// It stops on the nearest result set boundary.
    pub fn map<F, U>(&mut self, fun: F) -> (r: Result<Vec<U>, Error>) where F: FnMut(Row) -> U
        requires
            forall|row: Row| call_requires(fun, (row,)),
        ensures
            final(self).protocol() == old(self).protocol(),
            match (r, old(self)@.rows(old(self).protocol())) {
                (Ok(out), Ok((conn, rows))) => final(self)@ == conn && mapped(fun, rows, out@),
                (Err(e), Err(expected)) => e == expected,
                _ => false,
            },
    {
        let mut apply = fun;
        let ghost start = self@;
        let ghost protocol = self.protocol();
        let ghost mut seen: Seq<Row> = Seq::empty();
        proof {
            lemma_with_empty_prefix(start.rows(protocol));
        }
        if self.is_empty() {
            Ok(Vec::new())
        } else {
            let mut rows: Vec<U> = Vec::new();
            loop
                invariant
                    start == old(self)@,
                    protocol == old(self).protocol(),
                    self.protocol() == protocol,
                    start.rows(protocol) == with_prefix(seen, self@.rows(protocol)),
                    apply == fun,
                    forall|row: Row| call_requires(apply, (row,)),
                    mapped(fun, seen, rows@),
                decreases self@.incoming.len(),
            {
                let row = match self.get_row() {
                    Ok(row) => row,
                    Err(e) => {
                        return Err(e);
                    },
                };
                if let Some(row) = row {
                    proof {
                        lemma_with_prefix_twice(seen, seq![row], self@.rows(protocol));
                        seen = seen + seq![row];
                    }
                    let item = apply(row);
                    rows.push(item);
                } else {
                    proof {
                        assert(seen + Seq::<Row>::empty() =~= seen);
                    }
                    return Ok(rows);
                }
            }
        }
    }

    /// Maps every row of the current result set to `U` using `fun` and drops
    /// everything else.
    pub fn map_and_drop<F, U>(self, fun: F) -> (r: Result<(Vec<U>, Conn), Error>) where
        F: FnMut(Row) -> U,

        requires
            forall|row: Row| call_requires(fun, (row,)),
        ensures
            match (r, self@.rows(self.protocol())) {
                (Ok((out, conn)), Ok((mid, rows))) => {
                    &&& mapped(fun, rows, out@)
                    &&& mid.drop_result(self.protocol()) == Ok::<_, Error>(conn@)
                    &&& conn@.pending is None
                    &&& !conn@.more_results_exists()
                },
                (Err(e), Ok((mid, _))) => mid.drop_result(self.protocol()) == Err::<ConnView, _>(e),
                (Err(e), Err(expected)) => e == expected,
                _ => false,
            },
    {
        let mut reader = self;
        let rows = match reader.map(fun) {
            Ok(rows) => rows,
            Err(e) => {
                return Err(e);
            },
        };
        match reader.drop_result() {
            Ok(conn) => Ok((rows, conn)),
            Err(e) => Err(e),
        }
    }

    /// Reduces the rows of the current result set to `U` using `fun`.
    ///
    /// It stops on the nearest result set boundary.
    pub fn reduce<F, U>(&mut self, init: U, fun: F) -> (r: Result<U, Error>) where
        F: FnMut(U, Row) -> U,

        requires
            forall|acc: U, row: Row| call_requires(fun, (acc, row)),
        ensures
            final(self).protocol() == old(self).protocol(),
            match (r, old(self)@.rows(old(self).protocol())) {
                (Ok(out), Ok((conn, rows))) => final(self)@ == conn && folded(fun, init, rows, out),
                (Err(e), Err(expected)) => e == expected,
                _ => false,
            },
    {
        let mut apply = fun;
        let ghost start = self@;
        let ghost protocol = self.protocol();
        let ghost mut seen: Seq<Row> = Seq::empty();
        let ghost mut steps: Seq<U> = seq![init];
        proof {
            lemma_with_empty_prefix(start.rows(protocol));
        }
        if self.is_empty() {
            proof {
                assert(fold_steps(fun, Seq::<Row>::empty(), steps));
                assert(steps[0] == init);
                assert(folded(fun, init, Seq::<Row>::empty(), init));
            }
            Ok(init)
        } else {
            let mut acc = init;
            loop
                invariant
                    start == old(self)@,
                    protocol == old(self).protocol(),
                    self.protocol() == protocol,
                    start.rows(protocol) == with_prefix(seen, self@.rows(protocol)),
                    apply == fun,
                    forall|acc: U, row: Row| call_requires(apply, (acc, row)),
                    fold_steps(fun, seen, steps),
                    steps[0] == init,
                    steps[seen.len() as int] == acc,
                decreases self@.incoming.len(),
            {
                let row = match self.get_row() {
                    Ok(row) => row,
                    Err(e) => {
                        return Err(e);
                    },
                };
                if let Some(row) = row {
                    proof {
                        lemma_with_prefix_twice(seen, seq![row], self@.rows(protocol));
                    }
                    acc = apply(acc, row);
                    proof {
                        let ghost longer = steps.push(acc);
                        assert forall|i: int| 0 <= i < seen.len() + 1 implies call_ensures(
                            fun,
                            (longer[i], (seen + seq![row])[i]),
                            #[trigger] longer[i + 1],
                        ) by {
                            if i < seen.len() {
                                assert(longer[i + 1] == steps[i + 1]);
                            }
                        }
                        seen = seen + seq![row];
                        steps = longer;
                    }
                } else {
                    proof {
                        assert(seen + Seq::<Row>::empty() =~= seen);
                    }
                    return Ok(acc);
                }
            }
        }
    }

    /// Reduces the rows of the current result set to `U` using `fun` and
    /// drops everything else.
    pub fn reduce_and_drop<F, U>(self, init: U, fun: F) -> (r: Result<(U, Conn), Error>) where
        F: FnMut(U, Row) -> U,

        requires
            forall|acc: U, row: Row| call_requires(fun, (acc, row)),
        ensures
            match (r, self@.rows(self.protocol())) {
                (Ok((out, conn)), Ok((mid, rows))) => {
                    &&& folded(fun, init, rows, out)
                    &&& mid.drop_result(self.protocol()) == Ok::<_, Error>(conn@)
                    &&& conn@.pending is None
                    &&& !conn@.more_results_exists()
                },
                (Err(e), Ok((mid, _))) => mid.drop_result(self.protocol()) == Err::<ConnView, _>(e),
                (Err(e), Err(expected)) => e == expected,
                _ => false,
            },
    {
        let mut reader = self;
        let acc = match reader.reduce(init, fun) {
            Ok(acc) => acc,
            Err(e) => {
                return Err(e);
            },
        };
        match reader.drop_result() {
            Ok(conn) => Ok((acc, conn)),
            Err(e) => Err(e),
        }
    }

    /// Drops this query result: reads and discards what is left of the
    /// pending result set and every result set after it, and gives the
    /// connection back with nothing pending and nothing announced.
    pub fn drop_result(self) -> (r: Result<Conn, Error>)
        ensures
            match r {
                Ok(conn) => {
                    &&& self@.drop_result(self.protocol()) == Ok::<_, Error>(conn@)
                    &&& conn@.pending is None
                    &&& !conn@.more_results_exists()
                },
                Err(e) => self@.drop_result(self.protocol()) == Err::<ConnView, _>(e),
            },
    {
        let mut reader = self;
        loop
            invariant
                reader.protocol() == self.protocol(),
                self@.drop_result(self.protocol()) == reader@.drop_result(self.protocol()),
            decreases reader@.incoming.len(),
        {
            proof {
                reader@.lemma_read_result_set_consumes(reader.protocol());
                reader@.lemma_get_row_raw_consumes(reader.protocol());
            }
            if !reader.has_rows() {
                reader.make_empty();
                if reader.more_results_exists() {
                    match reader.conn.read_result_set(reader.protocol) {
                        Ok(()) => {},
                        Err(e) => {
                            return Err(e);
                        },
                    }
                } else {
                    return Ok(reader.conn);
                }
            } else {
                match reader.get_row_raw() {
                    Ok(_) => {},
                    Err(e) => {
                        return Err(e);
                    },
                }
            }
        }
    }

    /// Returns a reference to a columns list of this query result.
    ///
    /// Empty list means, that this result set was never meant to contain rows.
    /// It reads nothing and changes nothing, however often it is called.
    pub fn columns_ref(&self) -> (columns: &[Column])
        ensures
            columns@ == self@.columns(),
    {
        match self.conn.get_pending_result() {
            Some(meta) => &**meta.columns(),
            None => &[],
        }
    }

    /// Returns a copy of a columns list of this query result.
    pub fn columns(&self) -> (columns: Option<Arc<[Column]>>)
        ensures
            match columns {
                Some(shared) => self@.pending is Some && (*shared)@ == self@.columns(),
                None => self@.pending is None,
            },
    {
        match self.conn.get_pending_result() {
            Some(meta) => Some(meta.columns().clone()),
            None => None,
        }
    }
}

} // verus!
