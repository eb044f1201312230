//! Encoders for the wire format: change records and replication frames.
//! Their output is what the decoder and the session consume, which lets a
//! caller build synthetic streams and tests exercise full round trips.

use vstd::prelude::*;
use vstd::utf8::encode_utf8;

use crate::decoder::{
    ColumnInfo, ColumnModel, Tuple, TupleModel, columns_model, spec_decode_cells, TAG_BEGIN,
    TAG_COMMIT, TAG_DELETE, TAG_INSERT, TAG_RELATION, TAG_UPDATE, TUPLE_KEY, TUPLE_NEW, TUPLE_OLD,
    VALUE_NULL, VALUE_TEXT,
};
use crate::replication::{FRAME_KEEPALIVE, FRAME_LOG_DATA};
use crate::wire::{push_be16, push_be32, push_be64, spec_be16_bytes, spec_be32_bytes, spec_be64_bytes};

verus! {

/// The replica-identity byte written into encoded relation records: the
/// source's default setting (key columns only).
pub const REPLICA_IDENTITY_DEFAULT: u8 = 100;

// ---------------------------------------------------------------------------
// Byte-sequence models
// ---------------------------------------------------------------------------

/// The bytes of one per-column value cell.  An absent value is written as
/// SQL NULL; a present value as length-prefixed UTF-8 text.
pub open spec fn spec_encode_cell(v: Option<Seq<char>>) -> Seq<u8> {
    match v {
        None => seq![VALUE_NULL],
        Some(s) => seq![VALUE_TEXT] + spec_be32_bytes(encode_utf8(s).len() as u32) + encode_utf8(s),
    }
}

/// The bytes of the first `k` cells of a tuple.
pub open spec fn spec_encode_cells(t: TupleModel, k: int) -> Seq<u8>
    decreases k,
{
    if k <= 0 {
        Seq::empty()
    } else {
        spec_encode_cells(t, k - 1) + spec_encode_cell(t[k - 1].1)
    }
}

/// The bytes of a column-count-prefixed tuple.
pub open spec fn spec_encode_tuple(t: TupleModel) -> Seq<u8> {
    spec_be16_bytes(t.len() as u16) + spec_encode_cells(t, t.len() as int)
}

/// The bytes of one column descriptor: flags, null-terminated name, type
/// id, and a type modifier of minus one.
pub open spec fn spec_encode_column(c: ColumnModel) -> Seq<u8> {
    seq![c.flags] + encode_utf8(c.name) + seq![0u8] + spec_be32_bytes(c.type_id) + spec_be32_bytes(
        0xFFFF_FFFFu32,
    )
}

/// The bytes of the first `k` column descriptors.
pub open spec fn spec_encode_columns(cols: Seq<ColumnModel>, k: int) -> Seq<u8>
    decreases k,
{
    if k <= 0 {
        Seq::empty()
    } else {
        spec_encode_columns(cols, k - 1) + spec_encode_column(cols[k - 1])
    }
}

/// The bytes of a transaction-begin record.
pub open spec fn spec_encode_begin(final_position: u64, wire_timestamp: u64, xid: u32) -> Seq<u8> {
    seq![TAG_BEGIN] + spec_be64_bytes(final_position) + spec_be64_bytes(wire_timestamp)
        + spec_be32_bytes(xid)
}

/// The bytes of a transaction-commit record.
pub open spec fn spec_encode_commit(
    commit_position: u64,
    end_position: u64,
    wire_timestamp: u64,
) -> Seq<u8> {
    seq![TAG_COMMIT, 0u8] + spec_be64_bytes(commit_position) + spec_be64_bytes(end_position)
        + spec_be64_bytes(wire_timestamp)
}

/// The bytes of a relation-metadata record.
pub open spec fn spec_encode_relation(
    relation_id: u32,
    schema: Seq<char>,
    table: Seq<char>,
    cols: Seq<ColumnModel>,
) -> Seq<u8> {
    seq![TAG_RELATION] + spec_be32_bytes(relation_id) + encode_utf8(schema) + seq![0u8]
        + encode_utf8(table) + seq![0u8] + seq![REPLICA_IDENTITY_DEFAULT] + spec_be16_bytes(
        cols.len() as u16,
    ) + spec_encode_columns(cols, cols.len() as int)
}

/// The bytes of an insert record.
pub open spec fn spec_encode_insert(relation_id: u32, new_tuple: TupleModel) -> Seq<u8> {
    seq![TAG_INSERT] + spec_be32_bytes(relation_id) + seq![TUPLE_NEW] + spec_encode_tuple(new_tuple)
}

/// The bytes of an update record, with the old row image present only
/// when one is given.
pub open spec fn spec_encode_update(
    relation_id: u32,
    old_tuple: Option<TupleModel>,
    old_is_key_only: bool,
    new_tuple: TupleModel,
) -> Seq<u8> {
    seq![TAG_UPDATE] + spec_be32_bytes(relation_id) + match old_tuple {
        Some(t) => seq![if old_is_key_only { TUPLE_KEY } else { TUPLE_OLD }] + spec_encode_tuple(t),
        None => Seq::empty(),
    } + seq![TUPLE_NEW] + spec_encode_tuple(new_tuple)
}

/// The bytes of a delete record.
pub open spec fn spec_encode_delete(
    relation_id: u32,
    old_tuple: TupleModel,
    key_only: bool,
) -> Seq<u8> {
    seq![TAG_DELETE] + spec_be32_bytes(relation_id) + seq![if key_only { TUPLE_KEY } else { TUPLE_OLD }]
        + spec_encode_tuple(old_tuple)
}

/// The bytes of a log-data frame wrapping one change record.
pub open spec fn spec_encode_log_data_frame(
    start_position: u64,
    end_position: u64,
    send_time: u64,
    record: Seq<u8>,
) -> Seq<u8> {
    seq![FRAME_LOG_DATA] + spec_be64_bytes(start_position) + spec_be64_bytes(end_position)
        + spec_be64_bytes(send_time) + record
}

/// The bytes of a primary-keepalive frame.
pub open spec fn spec_encode_keepalive_frame(
    end_position: u64,
    send_time: u64,
    reply_requested: bool,
) -> Seq<u8> {
    seq![FRAME_KEEPALIVE] + spec_be64_bytes(end_position) + spec_be64_bytes(send_time) + seq![
        if reply_requested {
            1u8
        } else {
            0u8
        },
    ]
}

// ---------------------------------------------------------------------------
// Laws: decoding an encoded record gives the record back
// ---------------------------------------------------------------------------

/// Whether a cell's text is small enough for its length field.
pub open spec fn cell_fits(c: (Seq<char>, Option<Seq<char>>)) -> bool {
    match c.1 {
        Some(s) => encode_utf8(s).len() < 0x1_0000_0000,
        None => true,
    }
}

/// The bytes of the cells from index `j` to the end.
pub open spec fn spec_encode_cells_from(t: TupleModel, j: int) -> Seq<u8>
    decreases t.len() - j,
{
    if j < 0 || j >= t.len() {
        Seq::empty()
    } else {
        spec_encode_cell(t[j].1) + spec_encode_cells_from(t, j + 1)
    }
}

/// A byte inside a slice known to hold `w` is the corresponding byte of
/// `w`.
proof fn lemma_byte_at(d: Seq<u8>, i: int, w: Seq<u8>, a: int)
    requires
        0 <= i,
        i + w.len() <= d.len(),
        d.subrange(i, i + w.len() as int) == w,
        0 <= a < w.len(),
    ensures
        d[i + a] == w[a],
{
    assert(d.subrange(i, i + w.len() as int)[a] == d[i + a]);
}

/// A sub-slice of a slice known to hold `w` holds the corresponding part
/// of `w`.
proof fn lemma_slice_at(d: Seq<u8>, i: int, w: Seq<u8>, a: int, b: int)
    requires
        0 <= i,
        i + w.len() <= d.len(),
        d.subrange(i, i + w.len() as int) == w,
        0 <= a <= b <= w.len(),
    ensures
        d.subrange(i + a, i + b) =~= w.subrange(a, b),
{
    assert forall|q: int| 0 <= q < b - a implies d.subrange(i + a, i + b)[q] == w.subrange(
        a,
        b,
    )[q] by {
        assert(d.subrange(i, i + w.len() as int)[a + q] == d[i + a + q]);
    }
}

/// The first `k` cells and the cells from `k` together encode the whole
/// tuple body.
proof fn lemma_cells_prefix_suffix(t: TupleModel, k: int)
    requires
        0 <= k <= t.len(),
    ensures
        spec_encode_cells(t, t.len() as int) == spec_encode_cells(t, k) + spec_encode_cells_from(
            t,
            k,
        ),
    decreases t.len() - k,
{
    if k == t.len() {
        assert(spec_encode_cells(t, k) + spec_encode_cells_from(t, k) =~= spec_encode_cells(t, k));
    } else {
        lemma_cells_prefix_suffix(t, k + 1);
        assert(spec_encode_cells(t, k + 1) == spec_encode_cells(t, k) + spec_encode_cell(t[k].1));
        assert(spec_encode_cells(t, k) + spec_encode_cell(t[k].1) + spec_encode_cells_from(
            t,
            k + 1,
        ) =~= spec_encode_cells(t, k) + (spec_encode_cell(t[k].1) + spec_encode_cells_from(
            t,
            k + 1,
        )));
    }
}

/// Decoding the encoded cells from index `j` onward appends exactly the
/// tuple's remaining values and stops just past them.
proof fn lemma_decode_encoded_cells(
    d: Seq<u8>,
    i: int,
    t: TupleModel,
    j: int,
    acc: Seq<Option<Seq<char>>>,
)
    requires
        0 <= j <= t.len(),
        forall|m: int| j <= m < t.len() ==> cell_fits(#[trigger] t[m]),
        0 <= i,
        i + spec_encode_cells_from(t, j).len() <= d.len(),
        d.subrange(i, i + spec_encode_cells_from(t, j).len()) == spec_encode_cells_from(t, j),
    ensures
        spec_decode_cells(d, i, t.len() - j, acc) == Ok::<_, crate::decoder::DecodeError>(
            (acc + crate::decoder::tuple_values(t).skip(j), i + spec_encode_cells_from(
                t,
                j,
            ).len()),
        ),
    decreases t.len() - j,
{
    broadcast use vstd::utf8::encode_utf8_valid_utf8, vstd::utf8::encode_utf8_decode_utf8;

    let vals = crate::decoder::tuple_values(t);
    let whole = spec_encode_cells_from(t, j);
    if j == t.len() {
        assert(acc + vals.skip(j) =~= acc);
        assert(whole.len() == 0);
    } else {
        let cell = spec_encode_cell(t[j].1);
        let rest = spec_encode_cells_from(t, j + 1);
        assert(whole == cell + rest);
        lemma_slice_at(d, i, whole, cell.len() as int, whole.len() as int);
        assert(whole.subrange(cell.len() as int, whole.len() as int) =~= rest);
        assert(d.subrange(i + cell.len(), i + cell.len() + rest.len()) =~= rest);
        match t[j].1 {
            None => {
                lemma_byte_at(d, i, whole, 0);
                assert(d[i] == VALUE_NULL);
                lemma_decode_encoded_cells(d, i + 1, t, j + 1, acc.push(None));
                assert(spec_decode_cells(d, i, t.len() - j, acc) == spec_decode_cells(
                    d,
                    i + 1,
                    t.len() - j - 1,
                    acc.push(None),
                ));
                assert(acc.push(None) + vals.skip(j + 1) =~= acc + vals.skip(j));
            },
            Some(s) => {
                let bytes = encode_utf8(s);
                let len = bytes.len() as int;
                assert(cell == seq![VALUE_TEXT] + spec_be32_bytes(len as u32) + bytes);
                lemma_byte_at(d, i, whole, 0);
                assert(d[i] == VALUE_TEXT);
                assert(cell.subrange(1, 5) =~= spec_be32_bytes(len as u32));
                lemma_slice_at(d, i, whole, 0, cell.len() as int);
                assert(whole.subrange(0, cell.len() as int) =~= cell);
                lemma_slice_at(d, i, cell, 1, 5);
                assert(d.subrange(i + 1, i + 5) =~= spec_be32_bytes(len as u32));
                crate::wire::lemma_be32_roundtrip(len as u32);
                lemma_byte_at(d, i + 1, spec_be32_bytes(len as u32), 0);
                lemma_byte_at(d, i + 1, spec_be32_bytes(len as u32), 1);
                lemma_byte_at(d, i + 1, spec_be32_bytes(len as u32), 2);
                lemma_byte_at(d, i + 1, spec_be32_bytes(len as u32), 3);
                assert(crate::wire::spec_be32(d, i + 1) == crate::wire::spec_be32(
                    spec_be32_bytes(len as u32),
                    0,
                ));
                assert(crate::wire::spec_be32(d, i + 1) == len);
                assert(cell.subrange(5, cell.len() as int) =~= bytes);
                lemma_slice_at(d, i, cell, 5, cell.len() as int);
                assert(d.subrange(i + 5, i + 5 + len) =~= bytes);
                assert(vstd::utf8::valid_utf8(bytes));
                assert(crate::wire::text_at(d, i + 5, i + 5 + len) == s);
                lemma_decode_encoded_cells(d, i + 5 + len, t, j + 1, acc.push(Some(s)));
                assert(spec_decode_cells(d, i, t.len() - j, acc) == spec_decode_cells(
                    d,
                    i + 5 + len,
                    t.len() - j - 1,
                    acc.push(Some(s)),
                ));
                assert(acc.push(Some(s)) + vals.skip(j + 1) =~= acc + vals.skip(j));
            },
        }
    }
}

/// Decoding an encoded tuple against a column list of matching width
/// gives back the tuple's values, paired with the columns' names, and
/// stops just past the encoding.
pub proof fn lemma_decode_encoded_tuple(d: Seq<u8>, i: int, cols: Seq<ColumnModel>, t: TupleModel)
    requires
        t.len() == cols.len(),
        t.len() < 0x1_0000,
        forall|m: int| 0 <= m < t.len() ==> cell_fits(#[trigger] t[m]),
        0 <= i,
        i + spec_encode_tuple(t).len() <= d.len(),
        d.subrange(i, i + spec_encode_tuple(t).len()) == spec_encode_tuple(t),
    ensures
        crate::decoder::spec_decode_tuple(cols, d, i) == Ok::<_, crate::decoder::DecodeError>(
            (
                crate::decoder::spec_tuple_from_cells(cols, crate::decoder::tuple_values(t)),
                i + spec_encode_tuple(t).len(),
            ),
        ),
{
    let whole = spec_encode_tuple(t);
    let n = t.len() as int;
    assert(whole.subrange(0, 2) =~= spec_be16_bytes(t.len() as u16));
    lemma_slice_at(d, i, whole, 0, 2);
    assert(d.subrange(i, i + 2) =~= spec_be16_bytes(t.len() as u16));
    crate::wire::lemma_be16_roundtrip(t.len() as u16);
    lemma_byte_at(d, i, spec_be16_bytes(t.len() as u16), 0);
    lemma_byte_at(d, i, spec_be16_bytes(t.len() as u16), 1);
    assert(crate::wire::spec_be16(d, i) == crate::wire::spec_be16(
        spec_be16_bytes(t.len() as u16),
        0,
    ));
    assert(crate::wire::spec_be16(d, i) == n);
    lemma_cells_prefix_suffix(t, 0);
    assert(Seq::<u8>::empty() + spec_encode_cells_from(t, 0) =~= spec_encode_cells_from(t, 0));
    assert(spec_encode_cells(t, 0) =~= Seq::<u8>::empty());
    assert(spec_encode_cells_from(t, 0) == spec_encode_cells(t, n));
    assert(whole.subrange(2, whole.len() as int) =~= spec_encode_cells_from(t, 0));
    lemma_slice_at(d, i, whole, 2, whole.len() as int);
    assert(d.subrange(i + 2, i + 2 + spec_encode_cells_from(t, 0).len() as int)
        =~= spec_encode_cells_from(t, 0));
    lemma_decode_encoded_cells(d, i + 2, t, 0, Seq::empty());
    assert(Seq::<Option<Seq<char>>>::empty() + crate::decoder::tuple_values(t).skip(0)
        =~= crate::decoder::tuple_values(t));
}

/// Decoding an encoded insert record against a cache that knows the
/// relation gives back an insert for that relation: the cached schema
/// and table names, and the encoded row's values under the cached column
/// names.  The cache is untouched.
pub proof fn lemma_decode_encoded_insert(
    cache: Map<u32, crate::decoder::RelationModel>,
    relation_id: u32,
    t: TupleModel,
)
    requires
        cache.contains_key(relation_id),
        t.len() == cache[relation_id].columns.len(),
        t.len() < 0x1_0000,
        forall|m: int| 0 <= m < t.len() ==> cell_fits(#[trigger] t[m]),
    ensures
        ({
            let d = spec_encode_insert(relation_id, t);
            let rel = cache[relation_id];
            let out = crate::decoder::spec_decode_message(cache, d);
            &&& out.cache == cache
            &&& out.result == Ok::<Option<crate::decoder::ChangeModel>,
            crate::decoder::DecodeError>(
                Some(
                    crate::decoder::ChangeModel::Insert {
                        relation_id,
                        schema: rel.schema_name,
                        table: rel.table_name,
                        new_tuple: crate::decoder::spec_tuple_from_cells(
                            rel.columns,
                            crate::decoder::tuple_values(t),
                        ),
                    },
                ),
            )
        }),
{
    let d = spec_encode_insert(relation_id, t);
    assert(d[0] == TAG_INSERT);
    assert(d.subrange(1, 5) =~= spec_be32_bytes(relation_id));
    crate::wire::lemma_be32_roundtrip(relation_id);
    lemma_byte_at(d, 1, spec_be32_bytes(relation_id), 0);
    lemma_byte_at(d, 1, spec_be32_bytes(relation_id), 1);
    lemma_byte_at(d, 1, spec_be32_bytes(relation_id), 2);
    lemma_byte_at(d, 1, spec_be32_bytes(relation_id), 3);
    assert(crate::wire::spec_be32(d, 1) == crate::wire::spec_be32(
        spec_be32_bytes(relation_id),
        0,
    ));
    assert(d[5] == TUPLE_NEW);
    assert(d.subrange(6, 6 + spec_encode_tuple(t).len() as int) =~= spec_encode_tuple(t));
    lemma_decode_encoded_tuple(d, 6, cache[relation_id].columns, t);
}

/// When the encoded row's names already are the cached column names, an
/// encoded insert decodes to exactly the row it was built from.
pub proof fn lemma_insert_round_trip(
    cache: Map<u32, crate::decoder::RelationModel>,
    relation_id: u32,
    t: TupleModel,
)
    requires
        cache.contains_key(relation_id),
        crate::decoder::tuple_keys_match(t, cache[relation_id].columns),
        t.len() < 0x1_0000,
        forall|m: int| 0 <= m < t.len() ==> cell_fits(#[trigger] t[m]),
    ensures
        ({
            let out = crate::decoder::spec_decode_message(cache, spec_encode_insert(relation_id, t));
            let rel = cache[relation_id];
            &&& out.cache == cache
            &&& out.result == Ok::<Option<crate::decoder::ChangeModel>,
            crate::decoder::DecodeError>(
                Some(
                    crate::decoder::ChangeModel::Insert {
                        relation_id,
                        schema: rel.schema_name,
                        table: rel.table_name,
                        new_tuple: t,
                    },
                ),
            )
        }),
{
    lemma_decode_encoded_insert(cache, relation_id, t);
    assert(crate::decoder::spec_tuple_from_cells(
        cache[relation_id].columns,
        crate::decoder::tuple_values(t),
    ) =~= t);
}

/// An encoded transaction-begin record decodes to a begin change carrying
/// the formatted final position, the timestamp moved to the Unix epoch,
/// and the transaction id; the cache is untouched.
pub proof fn lemma_begin_round_trip(
    cache: Map<u32, crate::decoder::RelationModel>,
    final_position: u64,
    wire_timestamp: u64,
    xid: u32,
)
    ensures
        ({
            let out = crate::decoder::spec_decode_message(
                cache,
                spec_encode_begin(final_position, wire_timestamp, xid),
            );
            &&& out.cache == cache
            &&& out.result == Ok::<Option<crate::decoder::ChangeModel>,
            crate::decoder::DecodeError>(
                Some(
                    crate::decoder::ChangeModel::Begin {
                        lsn: crate::lsn::lsn_text(final_position),
                        timestamp: crate::wire::spec_pg_time_to_unix_micros(wire_timestamp) as i64,
                        xid,
                    },
                ),
            )
        }),
{
    let d = spec_encode_begin(final_position, wire_timestamp, xid);
    assert(d[0] == TAG_BEGIN);
    assert(d.subrange(1, 9) =~= spec_be64_bytes(final_position));
    assert(d.subrange(9, 17) =~= spec_be64_bytes(wire_timestamp));
    assert(d.subrange(17, 21) =~= spec_be32_bytes(xid));
    crate::wire::lemma_be64_roundtrip(final_position);
    crate::wire::lemma_be64_roundtrip(wire_timestamp);
    crate::wire::lemma_be32_roundtrip(xid);
    assert(crate::wire::spec_be64(d, 1) == crate::wire::spec_be64(
        spec_be64_bytes(final_position),
        0,
    )) by {
        assert(forall|q: int| 0 <= q < 8 ==> #[trigger] d.subrange(1, 9)[q] == d[1 + q]);
    }
    assert(crate::wire::spec_be64(d, 9) == crate::wire::spec_be64(
        spec_be64_bytes(wire_timestamp),
        0,
    )) by {
        assert(forall|q: int| 0 <= q < 8 ==> #[trigger] d.subrange(9, 17)[q] == d[9 + q]);
    }
    assert(crate::wire::spec_be32(d, 17) == crate::wire::spec_be32(spec_be32_bytes(xid), 0)) by {
        assert(forall|q: int| 0 <= q < 4 ==> #[trigger] d.subrange(17, 21)[q] == d[17 + q]);
    }
}

/// An encoded transaction-commit record decodes to a commit change
/// carrying the formatted commit position and the timestamp moved to the
/// Unix epoch; the end position is consumed but not surfaced.
pub proof fn lemma_commit_round_trip(
    cache: Map<u32, crate::decoder::RelationModel>,
    commit_position: u64,
    end_position: u64,
    wire_timestamp: u64,
)
    ensures
        ({
            let out = crate::decoder::spec_decode_message(
                cache,
                spec_encode_commit(commit_position, end_position, wire_timestamp),
            );
            &&& out.cache == cache
            &&& out.result == Ok::<Option<crate::decoder::ChangeModel>,
            crate::decoder::DecodeError>(
                Some(
                    crate::decoder::ChangeModel::Commit {
                        lsn: crate::lsn::lsn_text(commit_position),
                        timestamp: crate::wire::spec_pg_time_to_unix_micros(wire_timestamp) as i64,
                    },
                ),
            )
        }),
{
    let d = spec_encode_commit(commit_position, end_position, wire_timestamp);
    assert(d[0] == TAG_COMMIT);
    assert(d.subrange(2, 10) =~= spec_be64_bytes(commit_position));
    assert(d.subrange(18, 26) =~= spec_be64_bytes(wire_timestamp));
    crate::wire::lemma_be64_roundtrip(commit_position);
    crate::wire::lemma_be64_roundtrip(wire_timestamp);
    assert(crate::wire::spec_be64(d, 2) == crate::wire::spec_be64(
        spec_be64_bytes(commit_position),
        0,
    )) by {
        assert(forall|q: int| 0 <= q < 8 ==> #[trigger] d.subrange(2, 10)[q] == d[2 + q]);
    }
    assert(crate::wire::spec_be64(d, 18) == crate::wire::spec_be64(
        spec_be64_bytes(wire_timestamp),
        0,
    )) by {
        assert(forall|q: int| 0 <= q < 8 ==> #[trigger] d.subrange(18, 26)[q] == d[18 + q]);
    }
}

/// Whether a byte sequence holds no zero byte, so that it can stand
/// null-terminated on the wire.
pub open spec fn no_nul(b: Seq<u8>) -> bool {
    forall|q: int| 0 <= q < b.len() ==> b[q] != 0
}

/// A null-terminated field holding zero-free bytes `w` ends exactly at
/// its terminator.
proof fn lemma_cstr_of_bytes(d: Seq<u8>, i: int, w: Seq<u8>)
    requires
        0 <= i,
        i + w.len() < d.len(),
        d.subrange(i, i + w.len() as int) == w,
        no_nul(w),
        d[i + w.len()] == 0,
    ensures
        crate::wire::cstr_end(d, i) == Some(i + w.len()),
    decreases w.len(),
{
    if w.len() == 0 {
        assert(d[i] == 0);
    } else {
        lemma_byte_at(d, i, w, 0);
        assert(d[i] == w[0]);
        assert(w[0] != 0);
        lemma_slice_at(d, i, w, 1, w.len() as int);
        assert(w.subrange(1, w.len() as int) =~= w.drop_first());
        assert(no_nul(w.drop_first())) by {
            assert(forall|q: int|
                0 <= q < w.len() - 1 ==> #[trigger] w.drop_first()[q] == w[q + 1]);
        }
        lemma_cstr_of_bytes(d, i + 1, w.drop_first());
    }
}

/// Whether a column descriptor can be encoded faithfully: its name's
/// bytes are zero-free.
pub open spec fn column_fits(c: ColumnModel) -> bool {
    no_nul(encode_utf8(c.name))
}

/// The bytes of the column descriptors from index `j` to the end.
pub open spec fn spec_encode_columns_from(cols: Seq<ColumnModel>, j: int) -> Seq<u8>
    decreases cols.len() - j,
{
    if j < 0 || j >= cols.len() {
        Seq::empty()
    } else {
        spec_encode_column(cols[j]) + spec_encode_columns_from(cols, j + 1)
    }
}

/// The first `k` descriptors and the descriptors from `k` together
/// encode the whole column list.
proof fn lemma_columns_prefix_suffix(cols: Seq<ColumnModel>, k: int)
    requires
        0 <= k <= cols.len(),
    ensures
        spec_encode_columns(cols, cols.len() as int) == spec_encode_columns(cols, k)
            + spec_encode_columns_from(cols, k),
    decreases cols.len() - k,
{
    if k == cols.len() {
        assert(spec_encode_columns(cols, k) + spec_encode_columns_from(cols, k)
            =~= spec_encode_columns(cols, k));
    } else {
        lemma_columns_prefix_suffix(cols, k + 1);
        assert(spec_encode_columns(cols, k + 1) == spec_encode_columns(cols, k)
            + spec_encode_column(cols[k]));
        assert(spec_encode_columns(cols, k) + spec_encode_column(cols[k])
            + spec_encode_columns_from(cols, k + 1) =~= spec_encode_columns(cols, k) + (
        spec_encode_column(cols[k]) + spec_encode_columns_from(cols, k + 1)));
    }
}

/// Decoding the encoded column descriptors from index `j` onward appends
/// exactly the remaining columns and stops just past them.
proof fn lemma_decode_encoded_columns(d: Seq<u8>, i: int, cols: Seq<ColumnModel>, j: int, acc: Seq<
    ColumnModel,
>)
    requires
        0 <= j <= cols.len(),
        forall|m: int| j <= m < cols.len() ==> column_fits(#[trigger] cols[m]),
        0 <= i,
        i + spec_encode_columns_from(cols, j).len() <= d.len(),
        d.subrange(i, i + spec_encode_columns_from(cols, j).len() as int)
            == spec_encode_columns_from(cols, j),
    ensures
        crate::decoder::spec_decode_columns(d, i, cols.len() - j, acc) == Ok::<
            _,
            crate::decoder::DecodeError,
        >((acc + cols.skip(j), i + spec_encode_columns_from(cols, j).len())),
    decreases cols.len() - j,
{
    broadcast use vstd::utf8::encode_utf8_valid_utf8, vstd::utf8::encode_utf8_decode_utf8;

    let whole = spec_encode_columns_from(cols, j);
    if j == cols.len() {
        assert(acc + cols.skip(j) =~= acc);
        assert(whole.len() == 0);
    } else {
        let c = cols[j];
        let one = spec_encode_column(c);
        let rest = spec_encode_columns_from(cols, j + 1);
        let name_bytes = encode_utf8(c.name);
        let nl = name_bytes.len() as int;
        assert(whole == one + rest);
        lemma_byte_at(d, i, whole, 0);
        assert(d[i] == c.flags);
        // the name bytes and their terminator
        assert(one.subrange(1, 1 + nl) =~= name_bytes);
        lemma_slice_at(d, i, whole, 0, one.len() as int);
        assert(whole.subrange(0, one.len() as int) =~= one);
        lemma_slice_at(d, i, one, 1, 1 + nl);
        lemma_byte_at(d, i, one, 1 + nl);
        assert(d[i + 1 + nl] == 0);
        lemma_cstr_of_bytes(d, i + 1, name_bytes);
        assert(crate::wire::cstr_end(d, i + 1) == Some(i + 1 + nl));
        // the name's text
        assert(vstd::utf8::valid_utf8(name_bytes));
        assert(crate::wire::text_at(d, i + 1, i + 1 + nl) == c.name);
        // the type id
        assert(one.subrange(2 + nl, 6 + nl) =~= spec_be32_bytes(c.type_id));
        lemma_slice_at(d, i, one, 2 + nl, 6 + nl);
        crate::wire::lemma_be32_roundtrip(c.type_id);
        lemma_byte_at(d, i + 2 + nl, spec_be32_bytes(c.type_id), 0);
        lemma_byte_at(d, i + 2 + nl, spec_be32_bytes(c.type_id), 1);
        lemma_byte_at(d, i + 2 + nl, spec_be32_bytes(c.type_id), 2);
        lemma_byte_at(d, i + 2 + nl, spec_be32_bytes(c.type_id), 3);
        assert(crate::wire::spec_be32(d, i + 2 + nl) == crate::wire::spec_be32(
            spec_be32_bytes(c.type_id),
            0,
        ));
        assert(crate::wire::spec_be32(d, i + 2 + nl) == c.type_id);
        // step into the remaining descriptors
        lemma_slice_at(d, i, whole, one.len() as int, whole.len() as int);
        assert(whole.subrange(one.len() as int, whole.len() as int) =~= rest);
        lemma_decode_encoded_columns(
            d,
            i + one.len() as int,
            cols,
            j + 1,
            acc.push(ColumnModel { name: c.name, type_id: c.type_id, flags: c.flags }),
        );
        assert(ColumnModel { name: c.name, type_id: c.type_id, flags: c.flags } == c);
        assert(acc.push(c) + cols.skip(j + 1) =~= acc + cols.skip(j));
        assert(i + one.len() as int == i + 1 + nl + 9);
        assert(crate::decoder::spec_decode_columns(d, i, cols.len() - j, acc)
            == crate::decoder::spec_decode_columns(d, i + 1 + nl + 9, cols.len() - j - 1, acc.push(
            c,
        )));
    }
}

/// An encoded relation-metadata record decodes to exactly the schema it
/// was built from, surfaced as a relation change, and caches it under
/// the relation id, replacing any prior entry wholesale.
/// The parsed fields of an encoded relation-metadata record: where its
/// null-terminated names end, and what its fixed fields and column
/// descriptors read back as.
#[verifier::rlimit(100)]
proof fn lemma_relation_record_fields(
    relation_id: u32,
    schema: Seq<char>,
    table: Seq<char>,
    cols: Seq<ColumnModel>,
)
    requires
        no_nul(encode_utf8(schema)),
        no_nul(encode_utf8(table)),
        cols.len() < 0x1_0000,
        forall|m: int| 0 <= m < cols.len() ==> column_fits(#[trigger] cols[m]),
    ensures
        ({
            let d = spec_encode_relation(relation_id, schema, table, cols);
            let j1 = 5 + encode_utf8(schema).len() as int;
            let j2 = j1 + 1 + encode_utf8(table).len() as int;
            &&& d.len() >= 5
            &&& d[0] == TAG_RELATION
            &&& crate::wire::spec_be32(d, 1) == relation_id
            &&& crate::wire::cstr_end(d, 5) == Some(j1)
            &&& crate::wire::text_at(d, 5, j1) == schema
            &&& crate::wire::cstr_end(d, j1 + 1) == Some(j2)
            &&& crate::wire::text_at(d, j1 + 1, j2) == table
            &&& j2 + 4 <= d.len()
            &&& crate::wire::spec_be16(d, j2 + 2) == cols.len()
            &&& crate::decoder::spec_decode_columns(d, j2 + 4, cols.len() as int, Seq::empty())
                == Ok::<_, crate::decoder::DecodeError>((cols, d.len() as int))
        }),
{
    broadcast use vstd::utf8::encode_utf8_valid_utf8, vstd::utf8::encode_utf8_decode_utf8;

    let d = spec_encode_relation(relation_id, schema, table, cols);
    let sb = encode_utf8(schema);
    let tb = encode_utf8(table);
    let sl = sb.len() as int;
    let tl = tb.len() as int;
    let j1 = 5 + sl;
    let j2 = j1 + 1 + tl;
    assert(d[0] == TAG_RELATION);
    assert(d.subrange(1, 5) =~= spec_be32_bytes(relation_id));
    crate::wire::lemma_be32_roundtrip(relation_id);
    lemma_byte_at(d, 1, spec_be32_bytes(relation_id), 0);
    lemma_byte_at(d, 1, spec_be32_bytes(relation_id), 1);
    lemma_byte_at(d, 1, spec_be32_bytes(relation_id), 2);
    lemma_byte_at(d, 1, spec_be32_bytes(relation_id), 3);
    assert(crate::wire::spec_be32(d, 1) == crate::wire::spec_be32(
        spec_be32_bytes(relation_id),
        0,
    ));
    // the schema name and its terminator
    assert(d.subrange(5, j1) =~= sb);
    assert(d[j1] == 0);
    lemma_cstr_of_bytes(d, 5, sb);
    assert(crate::wire::text_at(d, 5, j1) == schema);
    // the table name and its terminator
    assert(d.subrange(j1 + 1, j2) =~= tb);
    assert(d[j2] == 0);
    lemma_cstr_of_bytes(d, j1 + 1, tb);
    assert(crate::wire::text_at(d, j1 + 1, j2) == table);
    // the column count
    assert(d.subrange(j2 + 2, j2 + 4) =~= spec_be16_bytes(cols.len() as u16));
    crate::wire::lemma_be16_roundtrip(cols.len() as u16);
    lemma_byte_at(d, j2 + 2, spec_be16_bytes(cols.len() as u16), 0);
    lemma_byte_at(d, j2 + 2, spec_be16_bytes(cols.len() as u16), 1);
    assert(crate::wire::spec_be16(d, j2 + 2) == crate::wire::spec_be16(
        spec_be16_bytes(cols.len() as u16),
        0,
    ));
    assert(crate::wire::spec_be16(d, j2 + 2) == cols.len());
    // the column descriptors
    lemma_columns_prefix_suffix(cols, 0);
    assert(Seq::<u8>::empty() + spec_encode_columns_from(cols, 0) =~= spec_encode_columns_from(
        cols,
        0,
    ));
    assert(spec_encode_columns(cols, 0) =~= Seq::<u8>::empty());
    assert(spec_encode_columns_from(cols, 0) == spec_encode_columns(cols, cols.len() as int));
    assert(d.subrange(j2 + 4, j2 + 4 + spec_encode_columns_from(cols, 0).len() as int)
        =~= spec_encode_columns_from(cols, 0));
    lemma_decode_encoded_columns(d, j2 + 4, cols, 0, Seq::empty());
    assert(Seq::<ColumnModel>::empty() + cols.skip(0) =~= cols);
    assert(j2 + 4 + spec_encode_columns_from(cols, 0).len() as int == d.len() as int);
}

/// An encoded relation-metadata record decodes to exactly the schema it
/// was built from, surfaced as a relation change, and caches it under
/// the relation id, replacing any prior entry wholesale.
pub proof fn lemma_relation_round_trip(
    cache: Map<u32, crate::decoder::RelationModel>,
    relation_id: u32,
    schema: Seq<char>,
    table: Seq<char>,
    cols: Seq<ColumnModel>,
)
    requires
        no_nul(encode_utf8(schema)),
        no_nul(encode_utf8(table)),
        cols.len() < 0x1_0000,
        forall|m: int| 0 <= m < cols.len() ==> column_fits(#[trigger] cols[m]),
    ensures
        ({
            let out = crate::decoder::spec_decode_message(
                cache,
                spec_encode_relation(relation_id, schema, table, cols),
            );
            let rel = crate::decoder::RelationModel {
                relation_id,
                schema_name: schema,
                table_name: table,
                columns: cols,
            };
            &&& out.cache == cache.insert(relation_id, rel)
            &&& out.result == Ok::<Option<crate::decoder::ChangeModel>,
            crate::decoder::DecodeError>(
                Some(
                    crate::decoder::ChangeModel::Relation {
                        relation_id,
                        schema,
                        table,
                        columns: cols,
                    },
                ),
            )
        }),
{
    lemma_relation_record_fields(relation_id, schema, table, cols);
}

/// When the encoded row's names already are the cached column names, an
/// encoded delete decodes to exactly the row it was built from.
pub proof fn lemma_delete_round_trip(
    cache: Map<u32, crate::decoder::RelationModel>,
    relation_id: u32,
    t: TupleModel,
    key_only: bool,
)
    requires
        cache.contains_key(relation_id),
        crate::decoder::tuple_keys_match(t, cache[relation_id].columns),
        t.len() < 0x1_0000,
        forall|m: int| 0 <= m < t.len() ==> cell_fits(#[trigger] t[m]),
    ensures
        ({
            let out = crate::decoder::spec_decode_message(
                cache,
                spec_encode_delete(relation_id, t, key_only),
            );
            let rel = cache[relation_id];
            &&& out.cache == cache
            &&& out.result == Ok::<Option<crate::decoder::ChangeModel>,
            crate::decoder::DecodeError>(
                Some(
                    crate::decoder::ChangeModel::Delete {
                        relation_id,
                        schema: rel.schema_name,
                        table: rel.table_name,
                        old_tuple: t,
                    },
                ),
            )
        }),
{
    let d = spec_encode_delete(relation_id, t, key_only);
    assert(d[0] == TAG_DELETE);
    assert(d.subrange(1, 5) =~= spec_be32_bytes(relation_id));
    crate::wire::lemma_be32_roundtrip(relation_id);
    lemma_byte_at(d, 1, spec_be32_bytes(relation_id), 0);
    lemma_byte_at(d, 1, spec_be32_bytes(relation_id), 1);
    lemma_byte_at(d, 1, spec_be32_bytes(relation_id), 2);
    lemma_byte_at(d, 1, spec_be32_bytes(relation_id), 3);
    assert(crate::wire::spec_be32(d, 1) == crate::wire::spec_be32(
        spec_be32_bytes(relation_id),
        0,
    ));
    assert(d[5] == if key_only { TUPLE_KEY } else { TUPLE_OLD });
    assert(d.subrange(6, 6 + spec_encode_tuple(t).len() as int) =~= spec_encode_tuple(t));
    lemma_decode_encoded_tuple(d, 6, cache[relation_id].columns, t);
    assert(crate::decoder::spec_tuple_from_cells(
        cache[relation_id].columns,
        crate::decoder::tuple_values(t),
    ) =~= t);
}

/// When the encoded rows' names already are the cached column names, an
/// encoded update decodes to exactly the rows it was built from,
/// carrying the old row only when one was encoded.
pub proof fn lemma_update_round_trip(
    cache: Map<u32, crate::decoder::RelationModel>,
    relation_id: u32,
    old_tuple: Option<TupleModel>,
    old_is_key_only: bool,
    new_tuple: TupleModel,
)
    requires
        cache.contains_key(relation_id),
        crate::decoder::tuple_keys_match(new_tuple, cache[relation_id].columns),
        new_tuple.len() < 0x1_0000,
        forall|m: int| 0 <= m < new_tuple.len() ==> cell_fits(#[trigger] new_tuple[m]),
        old_tuple matches Some(t) ==> crate::decoder::tuple_keys_match(
            t,
            cache[relation_id].columns,
        ) && t.len() < 0x1_0000 && forall|m: int| 0 <= m < t.len() ==> cell_fits(#[trigger] t[m]),
    ensures
        ({
            let out = crate::decoder::spec_decode_message(
                cache,
                spec_encode_update(relation_id, old_tuple, old_is_key_only, new_tuple),
            );
            let rel = cache[relation_id];
            &&& out.cache == cache
            &&& out.result == Ok::<Option<crate::decoder::ChangeModel>,
            crate::decoder::DecodeError>(
                Some(
                    crate::decoder::ChangeModel::Update {
                        relation_id,
                        schema: rel.schema_name,
                        table: rel.table_name,
                        old_tuple,
                        new_tuple,
                    },
                ),
            )
        }),
{
    let d = spec_encode_update(relation_id, old_tuple, old_is_key_only, new_tuple);
    let cols = cache[relation_id].columns;
    assert(d[0] == TAG_UPDATE);
    assert(d.subrange(1, 5) =~= spec_be32_bytes(relation_id));
    crate::wire::lemma_be32_roundtrip(relation_id);
    lemma_byte_at(d, 1, spec_be32_bytes(relation_id), 0);
    lemma_byte_at(d, 1, spec_be32_bytes(relation_id), 1);
    lemma_byte_at(d, 1, spec_be32_bytes(relation_id), 2);
    lemma_byte_at(d, 1, spec_be32_bytes(relation_id), 3);
    assert(crate::wire::spec_be32(d, 1) == crate::wire::spec_be32(
        spec_be32_bytes(relation_id),
        0,
    ));
    match old_tuple {
        None => {
            assert(d[5] == TUPLE_NEW);
            assert(d.subrange(6, 6 + spec_encode_tuple(new_tuple).len() as int)
                =~= spec_encode_tuple(new_tuple));
            lemma_decode_encoded_tuple(d, 6, cols, new_tuple);
            assert(crate::decoder::spec_tuple_from_cells(
                cols,
                crate::decoder::tuple_values(new_tuple),
            ) =~= new_tuple);
        },
        Some(t) => {
            let old_enc = spec_encode_tuple(t);
            let new_enc = spec_encode_tuple(new_tuple);
            let j = 6 + old_enc.len() as int;
            assert(d[5] == if old_is_key_only { TUPLE_KEY } else { TUPLE_OLD });
            assert(d.subrange(6, j) =~= old_enc);
            lemma_decode_encoded_tuple(d, 6, cols, t);
            assert(crate::decoder::spec_tuple_from_cells(cols, crate::decoder::tuple_values(t))
                =~= t);
            assert(d[j] == TUPLE_NEW);
            assert(d.subrange(j + 1, j + 1 + new_enc.len() as int) =~= new_enc);
            lemma_decode_encoded_tuple(d, j + 1, cols, new_tuple);
            assert(crate::decoder::spec_tuple_from_cells(
                cols,
                crate::decoder::tuple_values(new_tuple),
            ) =~= new_tuple);
        },
    }
}

// ---------------------------------------------------------------------------
// Executable encoders
// ---------------------------------------------------------------------------

/// Appends a slice of bytes.
fn push_bytes(out: &mut Vec<u8>, b: &[u8])
    ensures
        final(out)@ =~= old(out)@ + b@,
{
    let mut k: usize = 0;
    while k < b.len()
        invariant
            k <= b@.len(),
            out@ =~= old(out)@ + b@.take(k as int),
        decreases b@.len() - k,
    {
        out.push(b[k]);
        proof {
            assert(old(out)@ + b@.take(k as int) + seq![b@[k as int]] =~= old(out)@ + b@.take(
                k + 1,
            ));
        }
        k += 1;
    }
    proof {
        assert(b@.take(b@.len() as int) =~= b@);
    }
}

/// Appends a string's UTF-8 bytes.
fn push_str_bytes(out: &mut Vec<u8>, s: &str)
    ensures
        final(out)@ =~= old(out)@ + encode_utf8(s@),
{
    push_bytes(out, s.as_bytes());
}

/// Appends the encoding of one tuple.
fn push_tuple(out: &mut Vec<u8>, t: &Tuple)
    ensures
        final(out)@ =~= old(out)@ + spec_encode_tuple(t@),
{
    let n = t.len();
    push_be16(out, #[verifier::truncate] (n as u16));
    let mut k: usize = 0;
    while k < n
        invariant
            k <= n,
            n == t@.len(),
            out@ =~= old(out)@ + spec_be16_bytes(t@.len() as u16) + spec_encode_cells(t@, k as int),
        decreases n - k,
    {
        let ghost pre = out@;
        match &t.entries[k].1 {
            None => {
                out.push(VALUE_NULL);
                proof {
                    assert(t@[k as int].1 is None);
                    assert(out@ =~= pre + spec_encode_cell(t@[k as int].1));
                }
            },
            Some(s) => {
                out.push(VALUE_TEXT);
                let b = s.as_str().as_bytes();
                push_be32(out, #[verifier::truncate] (b.len() as u32));
                push_bytes(out, b);
                proof {
                    assert(t@[k as int].1 == Some(s@));
                    assert(out@ =~= pre + spec_encode_cell(t@[k as int].1));
                }
            },
        }
        proof {
            assert(out@ =~= old(out)@ + spec_be16_bytes(t@.len() as u16) + spec_encode_cells(
                t@,
                k + 1,
            ));
        }
        k += 1;
    }
}

/// Encodes a transaction-begin record.
pub fn encode_begin(final_position: u64, wire_timestamp: u64, xid: u32) -> (r: Vec<u8>)
    ensures
        r@ =~= spec_encode_begin(final_position, wire_timestamp, xid),
{
    let mut out: Vec<u8> = Vec::new();
    out.push(TAG_BEGIN);
    push_be64(&mut out, final_position);
    push_be64(&mut out, wire_timestamp);
    push_be32(&mut out, xid);
    out
}

/// Encodes a transaction-commit record with a zero flags byte.
pub fn encode_commit(commit_position: u64, end_position: u64, wire_timestamp: u64) -> (r: Vec<u8>)
    ensures
        r@ =~= spec_encode_commit(commit_position, end_position, wire_timestamp),
{
    let mut out: Vec<u8> = Vec::new();
    out.push(TAG_COMMIT);
    out.push(0);
    push_be64(&mut out, commit_position);
    push_be64(&mut out, end_position);
    push_be64(&mut out, wire_timestamp);
    out
}

/// Encodes a relation-metadata record.
pub fn encode_relation(relation_id: u32, schema: &str, table: &str, columns: &Vec<ColumnInfo>) -> (r:
    Vec<u8>)
    ensures
        r@ =~= spec_encode_relation(relation_id, schema@, table@, columns_model(columns@)),
{
    let ghost colsm = columns_model(columns@);
    let mut out: Vec<u8> = Vec::new();
    out.push(TAG_RELATION);
    push_be32(&mut out, relation_id);
    push_str_bytes(&mut out, schema);
    out.push(0);
    push_str_bytes(&mut out, table);
    out.push(0);
    out.push(REPLICA_IDENTITY_DEFAULT);
    let n = columns.len();
    push_be16(&mut out, #[verifier::truncate] (n as u16));
    let ghost header = out@;
    let mut k: usize = 0;
    while k < n
        invariant
            k <= n,
            n == columns@.len(),
            colsm == columns_model(columns@),
            out@ =~= header + spec_encode_columns(colsm, k as int),
        decreases n - k,
    {
        let ghost pre = out@;
        let col = &columns[k];
        out.push(col.flags);
        push_str_bytes(&mut out, col.name.as_str());
        out.push(0);
        push_be32(&mut out, col.type_id);
        push_be32(&mut out, 0xFFFF_FFFF);
        proof {
            assert(out@ =~= pre + spec_encode_column(colsm[k as int]));
            assert(out@ =~= header + spec_encode_columns(colsm, k + 1));
        }
        k += 1;
    }
    proof {
        assert(out@ =~= spec_encode_relation(relation_id, schema@, table@, colsm));
    }
    out
}

/// Encodes an insert record.
pub fn encode_insert(relation_id: u32, new_tuple: &Tuple) -> (r: Vec<u8>)
    ensures
        r@ =~= spec_encode_insert(relation_id, new_tuple@),
{
    let mut out: Vec<u8> = Vec::new();
    out.push(TAG_INSERT);
    push_be32(&mut out, relation_id);
    out.push(TUPLE_NEW);
    push_tuple(&mut out, new_tuple);
    out
}

/// Encodes an update record; the old row image is written only when one
/// is given, tagged as key-only or full.
pub fn encode_update(
    relation_id: u32,
    old_tuple: Option<&Tuple>,
    old_is_key_only: bool,
    new_tuple: &Tuple,
) -> (r: Vec<u8>)
    ensures
        r@ =~= spec_encode_update(
            relation_id,
            match old_tuple {
                Some(t) => Some(t@),
                None => None,
            },
            old_is_key_only,
            new_tuple@,
        ),
{
    let mut out: Vec<u8> = Vec::new();
    out.push(TAG_UPDATE);
    push_be32(&mut out, relation_id);
    match old_tuple {
        Some(t) => {
            if old_is_key_only {
                out.push(TUPLE_KEY);
            } else {
                out.push(TUPLE_OLD);
            }
            push_tuple(&mut out, t);
        },
        None => {},
    }
    out.push(TUPLE_NEW);
    push_tuple(&mut out, new_tuple);
    out
}

/// Encodes a delete record, its old row image tagged as key-only or full.
pub fn encode_delete(relation_id: u32, old_tuple: &Tuple, key_only: bool) -> (r: Vec<u8>)
    ensures
        r@ =~= spec_encode_delete(relation_id, old_tuple@, key_only),
{
    let mut out: Vec<u8> = Vec::new();
    out.push(TAG_DELETE);
    push_be32(&mut out, relation_id);
    if key_only {
        out.push(TUPLE_KEY);
    } else {
        out.push(TUPLE_OLD);
    }
    push_tuple(&mut out, old_tuple);
    out
}

/// Wraps one change record in a log-data frame.
pub fn encode_log_data_frame(
    start_position: u64,
    end_position: u64,
    send_time: u64,
    record: &[u8],
) -> (r: Vec<u8>)
    ensures
        r@ =~= spec_encode_log_data_frame(start_position, end_position, send_time, record@),
{
    let mut out: Vec<u8> = Vec::new();
    out.push(FRAME_LOG_DATA);
    push_be64(&mut out, start_position);
    push_be64(&mut out, end_position);
    push_be64(&mut out, send_time);
    push_bytes(&mut out, record);
    out
}

/// Encodes a primary-keepalive frame.
pub fn encode_keepalive_frame(end_position: u64, send_time: u64, reply_requested: bool) -> (r: Vec<
    u8,
>)
    ensures
        r@ =~= spec_encode_keepalive_frame(end_position, send_time, reply_requested),
{
    let mut out: Vec<u8> = Vec::new();
    out.push(FRAME_KEEPALIVE);
    push_be64(&mut out, end_position);
    push_be64(&mut out, send_time);
    if reply_requested {
        out.push(1);
    } else {
        out.push(0);
    }
    out
}

} // verus!
