//! What holds of every response, proved over the model of the connection.

use vstd::prelude::*;
use mysql_common::row::Row;
use crate::error::Error;
use crate::infile::{chunks, offered, CHUNK_SIZE};
use crate::meta::{decode_row, Protocol};
use crate::model::{with_prefix, ConnView, EffectView};
use crate::wire::{requested_file, response_kind, ResponseKind, SERVER_MORE_RESULTS_EXISTS};

verus! {

/// The state after `count` packets have been read and nothing else was done.
pub open spec fn after_packets(conn: ConnView, count: nat) -> ConnView {
    if count == 0 {
        conn
    } else {
        ConnView {
            incoming: conn.incoming.skip(count as int),
            status: conn.incoming[count - 1].1,
            ..conn
        }
    }
}

/// The row that the packet at `index` holds for the pending result set.
pub open spec fn row_at(conn: ConnView, protocol: Protocol, index: int) -> Row {
    match decode_row(protocol, conn.incoming[index].0, conn.columns()) {
        Ok(row) => row,
        Err(_) => arbitrary(),
    }
}

/// The rows that the first `count` packets hold for the pending result set.
pub open spec fn first_rows(conn: ConnView, protocol: Protocol, count: nat) -> Seq<Row> {
    Seq::new(count, |i: int| row_at(conn, protocol, i))
}

/// Whether a result set is pending of which exactly `count` rows are left:
/// the next `count` packets are rows, and the packet after them ends the
/// result set.
pub open spec fn rows_left(conn: ConnView, protocol: Protocol, count: nat) -> bool {
    &&& conn.pending is Some
    &&& conn.incoming.len() > count
    &&& forall|i: int|
        0 <= i < count ==> {
            &&& !protocol.is_last_packet(conn.capabilities, #[trigger] conn.incoming[i].0)
            &&& decode_row(protocol, conn.incoming[i].0, conn.columns()) is Ok
        }
    &&& protocol.is_last_packet(conn.capabilities, conn.incoming[count as int].0)
}

/// Whether the packet at `index` comes with the announcement of another
/// result set.
pub open spec fn announces_more(conn: ConnView, index: int) -> bool {
    conn.incoming[index].1 & SERVER_MORE_RESULTS_EXISTS != 0
}

/// What `count` pulls of a single row yield, one after the other.
pub open spec fn pulls(conn: ConnView, protocol: Protocol, count: nat) -> Result<
    (ConnView, Seq<Option<Row>>),
    Error,
>
    decreases count,
{
    if count == 0 {
        Ok((conn, Seq::empty()))
    } else {
        match conn.get_row(protocol) {
            Err(e) => Err(e),
            Ok((next, row)) => with_prefix(seq![row], pulls(next, protocol, (count - 1) as nat)),
        }
    }
}

/// With one row less to read, the rest of the result set is still a result
/// set, and its rows are the same.
proof fn lemma_rows_left_step(conn: ConnView, protocol: Protocol, count: nat)
    requires
        rows_left(conn, protocol, count),
        count > 0,
    ensures
        conn.get_row(protocol) == Ok::<_, Error>(
            (after_packets(conn, 1), Some(row_at(conn, protocol, 0))),
        ),
        rows_left(after_packets(conn, 1), protocol, (count - 1) as nat),
        after_packets(after_packets(conn, 1), count) == after_packets(conn, count + 1),
        first_rows(conn, protocol, count) == seq![row_at(conn, protocol, 0)] + first_rows(
            after_packets(conn, 1),
            protocol,
            (count - 1) as nat,
        ),
        forall|i: int|
            0 <= i < count - 1 ==> row_at(after_packets(conn, 1), protocol, i) == row_at(
                conn,
                protocol,
                i + 1,
            ),
{
    let next = after_packets(conn, 1);
    assert(conn.incoming[0].0 == conn.incoming[0].0);
    assert(!protocol.is_last_packet(conn.capabilities, conn.incoming[0].0));
    assert forall|i: int| 0 <= i < count - 1 implies {
        &&& !protocol.is_last_packet(next.capabilities, #[trigger] next.incoming[i].0)
        &&& decode_row(protocol, next.incoming[i].0, next.columns()) is Ok
    } by {
        assert(next.incoming[i] == conn.incoming[i + 1]);
        assert(!protocol.is_last_packet(conn.capabilities, conn.incoming[i + 1].0));
    }
    assert(next.incoming[count - 1] == conn.incoming[count as int]);
    assert(conn.incoming.skip(1).skip(count as int) =~= conn.incoming.skip(count as int + 1));
    assert(first_rows(conn, protocol, count) =~= seq![row_at(conn, protocol, 0)] + first_rows(
        next,
        protocol,
        (count - 1) as nat,
    ));
}

/// A result set with N rows left yields them to N single-row pulls, in the
/// order in which the server sent them. Where no further result set is
/// announced, the pull after them yields no row and leaves nothing pending,
/// and exactly the rows and the packet that ends them have been read.
pub proof fn lemma_pulls_yield_rows_in_order(conn: ConnView, protocol: Protocol, count: nat)
    requires
        rows_left(conn, protocol, count),
        !announces_more(conn, count as int),
    ensures
        pulls(conn, protocol, count) == Ok::<_, Error>(
            (
                after_packets(conn, count),
                Seq::new(count, |i: int| Some(row_at(conn, protocol, i))),
            ),
        ),
        pulls(conn, protocol, count + 1) == Ok::<_, Error>(
            (
                after_packets(conn, count + 1).with_pending(None),
                Seq::new(count, |i: int| Some(row_at(conn, protocol, i))).push(None),
            ),
        ),
    decreases count,
{
    let yielded = Seq::new(count, |i: int| Some(row_at(conn, protocol, i)));
    if count == 0 {
        assert(yielded =~= Seq::empty());
        let end = after_packets(conn, 1);
        assert(conn.get_row(protocol) == Ok::<_, Error>((end.with_pending(None), None::<Row>)));
        assert(pulls(end.with_pending(None), protocol, 0) == Ok::<_, Error>(
            (end.with_pending(None), Seq::<Option<Row>>::empty()),
        ));
        assert(seq![None::<Row>] + Seq::<Option<Row>>::empty() =~= yielded.push(None));
    } else {
        let next = after_packets(conn, 1);
        let rest = (count - 1) as nat;
        lemma_rows_left_step(conn, protocol, count);
        assert(next.incoming[rest as int] == conn.incoming[count as int]);
        lemma_pulls_yield_rows_in_order(next, protocol, rest);
        let later = Seq::new(rest, |i: int| Some(row_at(next, protocol, i)));
        assert(seq![Some(row_at(conn, protocol, 0))] + later =~= yielded);
        assert(seq![Some(row_at(conn, protocol, 0))] + later.push(None) =~= yielded.push(None));
        assert(after_packets(next, rest) == after_packets(conn, count)) by {
            if rest > 0 {
                assert(conn.incoming.skip(1).skip(rest as int) =~= conn.incoming.skip(
                    count as int,
                ));
                assert(next.incoming[rest - 1] == conn.incoming[count - 1]);
            }
        }
    }
}

/// Collecting a result set with N rows left yields those rows, in order,
/// and stops at the packet that ends them: what follows that packet is
/// decided there, and no row of a later result set is read.
pub proof fn lemma_rows_stop_at_boundary(conn: ConnView, protocol: Protocol, count: nat)
    requires
        rows_left(conn, protocol, count),
    ensures
        conn.rows(protocol) == (match after_packets(conn, count + 1).end_result_set(protocol) {
            Ok(next) => Ok((next, first_rows(conn, protocol, count))),
            Err(e) => Err(e),
        }),
    decreases count,
{
    if count == 0 {
        assert(first_rows(conn, protocol, 0) =~= Seq::empty());
    } else {
        let next = after_packets(conn, 1);
        lemma_rows_left_step(conn, protocol, count);
        lemma_rows_stop_at_boundary(next, protocol, (count - 1) as nat);
    }
}

/// Dropping a result set with N rows left reads those rows without decoding
/// them and goes on with what follows the packet that ends them.
pub proof fn lemma_drop_skips_rows(conn: ConnView, protocol: Protocol, count: nat)
    requires
        conn.pending is Some,
        conn.incoming.len() > count,
        forall|i: int|
            0 <= i < count ==> !protocol.is_last_packet(
                conn.capabilities,
                #[trigger] conn.incoming[i].0,
            ),
        protocol.is_last_packet(conn.capabilities, conn.incoming[count as int].0),
    ensures
        conn.drop_result(protocol) == (match after_packets(conn, count + 1).end_result_set(
            protocol,
        ) {
            Ok(next) => next.drop_result(protocol),
            Err(e) => Err(e),
        }),
    decreases count,
{
    if count > 0 {
        let next = after_packets(conn, 1);
        assert(!protocol.is_last_packet(conn.capabilities, conn.incoming[0].0));
        assert forall|i: int| 0 <= i < count - 1 implies !protocol.is_last_packet(
            next.capabilities,
            #[trigger] next.incoming[i].0,
        ) by {
            assert(next.incoming[i] == conn.incoming[i + 1]);
            assert(!protocol.is_last_packet(conn.capabilities, conn.incoming[i + 1].0));
        }
        assert(next.incoming[count - 1] == conn.incoming[count as int]);
        assert(conn.incoming.skip(1).skip(count as int) =~= conn.incoming.skip(count as int + 1));
        lemma_drop_skips_rows(next, protocol, (count - 1) as nat);
    }
}

/// A connection that comes back from a drop has nothing pending and no
/// result set announced: the next query can start at once.
pub proof fn lemma_drop_leaves_clean(conn: ConnView, protocol: Protocol)
    ensures
        match conn.drop_result(protocol) {
            Ok(after) => after.pending is None && !after.more_results_exists(),
            Err(_) => true,
        },
    decreases conn.incoming.len(),
{
    conn.lemma_read_result_set_consumes(protocol);
    conn.lemma_get_row_raw_consumes(protocol);
    if conn.pending is None {
        if conn.more_results_exists() {
            match conn.read_result_set(protocol) {
                Ok(next) => lemma_drop_leaves_clean(next, protocol),
                Err(_) => {},
            }
        }
    } else {
        match conn.get_row_raw(protocol) {
            Ok((next, _)) => lemma_drop_leaves_clean(next, protocol),
            Err(_) => {},
        }
    }
}

/// Dropping a connection that has nothing pending and nothing announced
/// reads nothing and changes nothing.
pub proof fn lemma_drop_of_clean_is_identity(conn: ConnView, protocol: Protocol)
    requires
        conn.pending is None,
        !conn.more_results_exists(),
    ensures
        conn.drop_result(protocol) == Ok::<_, Error>(conn),
{
}

/// A response with two result sets, of N and M rows: the first collect
/// yields the N rows of the first and leaves the second pending; the
/// second collect yields the M rows of the second and leaves nothing
/// pending. Together they yield N + M rows.
pub proof fn lemma_two_result_sets(
    conn: ConnView,
    protocol: Protocol,
    first: nat,
    second: nat,
    middle: ConnView,
)
    requires
        rows_left(conn, protocol, first),
        announces_more(conn, first as int),
        after_packets(conn, first + 1).sync_seq_id().read_result_set(protocol) == Ok::<_, Error>(
            middle,
        ),
        rows_left(middle, protocol, second),
        !announces_more(middle, second as int),
    ensures
        conn.rows(protocol) == Ok::<_, Error>((middle, first_rows(conn, protocol, first))),
        middle.rows(protocol) == Ok::<_, Error>(
            (
                after_packets(middle, second + 1).with_pending(None),
                first_rows(middle, protocol, second),
            ),
        ),
        first_rows(conn, protocol, first).len() + first_rows(middle, protocol, second).len()
            == first + second,
        middle.drop_result(protocol) == Ok::<_, Error>(
            after_packets(middle, second + 1).with_pending(None),
        ),
{
    lemma_rows_stop_at_boundary(conn, protocol, first);
    lemma_rows_stop_at_boundary(middle, protocol, second);
    lemma_drop_skips_rows(middle, protocol, second);
    let end = after_packets(middle, second + 1);
    assert(end.status == middle.incoming[second as int].1);
    lemma_drop_of_clean_is_identity(end.with_pending(None), protocol);
}

/// A response that starts with the marker of no result set leaves nothing
/// pending, and so no columns.
pub proof fn lemma_no_result_set(conn: ConnView, protocol: Protocol)
    requires
        conn.incoming.len() > 0,
        response_kind(conn.incoming[0].0) == ResponseKind::NoResultSet,
    ensures
        conn.read_result_set(protocol) == Ok::<_, Error>(
            after_packets(conn, 1).with_pending(None),
        ),
        after_packets(conn, 1).with_pending(None).columns() == Seq::<
            mysql_common::packets::Column,
        >::empty(),
{
}

/// The chunks of an upload are the file cut at every `CHUNK_SIZE` bytes:
/// there are `len / CHUNK_SIZE + 1` of them, every one but the last is full,
/// the last one is shorter, and together they are the file.
pub proof fn lemma_chunks(data: Seq<u8>)
    ensures
        chunks(data).len() == data.len() / (CHUNK_SIZE as nat) + 1,
        forall|i: int|
            0 <= i < chunks(data).len() - 1 ==> (#[trigger] chunks(data)[i]).len() == CHUNK_SIZE,
        chunks(data).last().len() == data.len() % (CHUNK_SIZE as nat),
        chunks(data).flatten() == data,
    decreases data.len(),
{
    if data.len() < CHUNK_SIZE {
        assert(seq![data].flatten() =~= data) by {
            seq![data].lemma_flatten_one_element();
        }
    } else {
        let head = data.take(CHUNK_SIZE as int);
        let tail = data.skip(CHUNK_SIZE as int);
        lemma_chunks(tail);
        let all = chunks(data);
        assert(all == seq![head] + chunks(tail));
        assert forall|i: int| 0 <= i < all.len() - 1 implies (#[trigger] all[i]).len()
            == CHUNK_SIZE by {
            if i > 0 {
                assert(all[i] == chunks(tail)[i - 1]);
            }
        }
        assert(all.last() == chunks(tail).last());
        assert(all.flatten() =~= data) by {
            vstd::seq_lib::lemma_flatten_concat(seq![head], chunks(tail));
            seq![head].lemma_flatten_one_element();
            assert(head + tail =~= data);
        }
    }
}

/// The least number of chunks of `CHUNK_SIZE` bytes that hold `len` bytes.
pub open spec fn chunks_needed(len: nat) -> nat {
    (len + CHUNK_SIZE - 1) as nat / (CHUNK_SIZE as nat)
}

/// An empty file is uploaded as one empty chunk. A file whose length is no
/// multiple of `CHUNK_SIZE` is uploaded in as many chunks as its bytes need.
/// A file whose length is a positive multiple of `CHUNK_SIZE` takes one
/// chunk more, the empty chunk that ends it.
pub proof fn lemma_chunk_count(data: Seq<u8>)
    ensures
        data.len() == 0 ==> chunks(data) == seq![Seq::<u8>::empty()],
        data.len() % (CHUNK_SIZE as nat) != 0 ==> chunks(data).len() == chunks_needed(data.len()),
        data.len() > 0 && data.len() % (CHUNK_SIZE as nat) == 0 ==> chunks(data).len()
            == chunks_needed(data.len()) + 1,
        chunks(data).len() >= 1,
{
    lemma_chunks(data);
    if data.len() == 0 {
        assert(data =~= Seq::<u8>::empty());
    }
}

/// An upload writes the chunks of the file and nothing else, reads exactly
/// one packet, the acknowledgement, and leaves nothing pending.
pub proof fn lemma_upload(conn: ConnView, data: Seq<u8>)
    requires
        conn.incoming.len() > 0,
    ensures
        conn.upload(data) matches Ok(after) && {
            &&& after.pending is None
            &&& after.incoming == conn.incoming.skip(1)
            &&& after.effects == conn.effects + chunks(data).map_values(
                |p: Seq<u8>| EffectView::Packet(p),
            )
            &&& after.effects.len() == conn.effects.len() + data.len() / (CHUNK_SIZE as nat) + 1
        },
{
    lemma_chunks(data);
}

/// A request for a local file that the registered handler offers is
/// answered with the upload of that file.
pub proof fn lemma_local_infile_round_trip(
    conn: ConnView,
    protocol: Protocol,
    name: Seq<u8>,
    data: Seq<u8>,
)
    requires
        conn.incoming.len() >= 2,
        response_kind(conn.incoming[0].0) == ResponseKind::LocalInfile,
        requested_file(conn.incoming[0].0) == Ok::<_, Error>(name),
        conn.handler matches Some(files) && offered(files, name) == Some(data),
    ensures
        conn.read_result_set(protocol) matches Ok(after) && {
            &&& after.pending is None
            &&& after.incoming == conn.incoming.skip(2)
            &&& after.effects == conn.effects + chunks(data).map_values(
                |p: Seq<u8>| EffectView::Packet(p),
            )
        },
{
    let read = after_packets(conn, 1);
    assert(conn.read_packet() == Ok::<_, Error>((read, conn.incoming[0].0)));
    lemma_upload(read, data);
    assert(conn.incoming.skip(1).skip(1) =~= conn.incoming.skip(2));
}

} // verus!
