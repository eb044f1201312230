//! Structured change events, the relation metadata cache, and the
//! decoder for the `pgoutput` binary change-record format.
//!
//! A change record arrives as one tagged binary frame.  Decoding a data
//! record (insert, update, delete) needs the column names of the relation
//! it references, which an earlier relation-metadata record put into the
//! [`RelationCache`]; the cache is therefore threaded through
//! [`decode_message`] explicitly.

use vstd::prelude::*;

use crate::wire::{
    be16_at, be32_at, be64_at, cstr_end, find_cstr_end, pg_time_to_unix_micros, spec_be16, spec_be32, spec_be64,
    spec_pg_time_to_unix_micros, string_at, text_at,
};
use crate::lsn::{format_lsn, lsn_text};

verus! {

// ---------------------------------------------------------------------------
// Mathematical models
// ---------------------------------------------------------------------------

/// Model of one column: its name, type identifier and flags.
pub struct ColumnModel {
    pub name: Seq<char>,
    pub type_id: u32,
    pub flags: u8,
}

/// Model of a cached relation schema.
pub struct RelationModel {
    pub relation_id: u32,
    pub schema_name: Seq<char>,
    pub table_name: Seq<char>,
    pub columns: Seq<ColumnModel>,
}

/// Model of a decoded tuple: column names paired with optional text
/// values, in schema order.
pub type TupleModel = Seq<(Seq<char>, Option<Seq<char>>)>;

/// Model of a decoded change event.
pub enum ChangeModel {
    Begin { lsn: Seq<char>, timestamp: i64, xid: u32 },
    Commit { lsn: Seq<char>, timestamp: i64 },
    Relation { relation_id: u32, schema: Seq<char>, table: Seq<char>, columns: Seq<ColumnModel> },
    Insert { relation_id: u32, schema: Seq<char>, table: Seq<char>, new_tuple: TupleModel },
    Update {
        relation_id: u32,
        schema: Seq<char>,
        table: Seq<char>,
        old_tuple: Option<TupleModel>,
        new_tuple: TupleModel,
    },
    Delete { relation_id: u32, schema: Seq<char>, table: Seq<char>, old_tuple: TupleModel },
}

// ---------------------------------------------------------------------------
// Executable types
// ---------------------------------------------------------------------------

/// One column of a relation's schema.  Bit 0 of `flags` marks the column
/// as part of the table's identity key.
#[derive(Debug, PartialEq)]
pub struct ColumnInfo {
    pub name: String,
    pub type_id: u32,
    pub flags: u8,
}

impl View for ColumnInfo {
    type V = ColumnModel;

    open spec fn view(&self) -> ColumnModel {
        ColumnModel { name: self.name@, type_id: self.type_id, flags: self.flags }
    }
}

/// The model of a column list.
pub open spec fn columns_model(cols: Seq<ColumnInfo>) -> Seq<ColumnModel> {
    Seq::new(cols.len(), |i: int| cols[i]@)
}

impl Clone for ColumnInfo {
    fn clone(&self) -> (r: Self)
        ensures
            r@ == self@,
    {
        ColumnInfo { name: self.name.clone(), type_id: self.type_id, flags: self.flags }
    }
}

impl ColumnInfo {
    /// Whether the column belongs to the table's identity key.
    pub fn is_key(&self) -> (r: bool)
        ensures
            r == (self@.flags & 1 == 1),
    {
        self.flags & 1 == 1
    }
}

/// A relation's current schema, owned by the [`RelationCache`].
pub struct RelationSchema {
    pub relation_id: u32,
    pub schema_name: String,
    pub table_name: String,
    pub columns: Vec<ColumnInfo>,
}

impl View for RelationSchema {
    type V = RelationModel;

    open spec fn view(&self) -> RelationModel {
        RelationModel {
            relation_id: self.relation_id,
            schema_name: self.schema_name@,
            table_name: self.table_name@,
            columns: columns_model(self.columns@),
        }
    }
}

/// Copies a column list element for element.
pub fn clone_columns(cols: &Vec<ColumnInfo>) -> (r: Vec<ColumnInfo>)
    ensures
        r@.len() == cols@.len(),
        forall|i: int| 0 <= i < cols@.len() ==> r@[i]@ == cols@[i]@,
        columns_model(r@) == columns_model(cols@),
{
    let mut out: Vec<ColumnInfo> = Vec::new();
    let mut k: usize = 0;
    while k < cols.len()
        invariant
            k <= cols@.len(),
            out@.len() == k,
            forall|i: int| 0 <= i < k ==> out@[i]@ == cols@[i]@,
        decreases cols@.len() - k,
    {
        out.push(cols[k].clone());
        k += 1;
    }
    proof {
        assert(columns_model(out@) =~= columns_model(cols@));
    }
    out
}

/// A decoded tuple: column names paired with optional text values, in
/// the cached schema's column order.  `None` stands for SQL NULL or for
/// an unchanged out-of-line value that the record omitted.
#[derive(Debug, PartialEq)]
pub struct Tuple {
    pub entries: Vec<(String, Option<String>)>,
}

impl View for Tuple {
    type V = TupleModel;

    open spec fn view(&self) -> TupleModel {
        Seq::new(
            self.entries@.len(),
            |i: int|
                (
                    self.entries@[i].0@,
                    match self.entries@[i].1 {
                        Some(s) => Some(s@),
                        None => None,
                    },
                ),
        )
    }
}

impl Tuple {
    /// An empty tuple.
    pub fn new() -> (r: Tuple)
        ensures
            r@ =~= Seq::<(Seq<char>, Option<Seq<char>>)>::empty(),
    {
        Tuple { entries: Vec::new() }
    }

    /// Appends one column entry.
    pub fn push(&mut self, name: String, value: Option<String>)
        ensures
            final(self)@ =~= old(self)@.push(
                (
                    name@,
                    match value {
                        Some(s) => Some(s@),
                        None => None,
                    },
                ),
            ),
    {
        self.entries.push((name, value));
    }

    /// Number of columns in the tuple.
    pub fn len(&self) -> (r: usize)
        ensures
            r == self@.len(),
    {
        self.entries.len()
    }

    /// The value of the first entry named `name`, if any.
    pub fn get(&self, name: &str) -> (r: Option<&Option<String>>)
        ensures
            match r {
                Some(v) => tuple_lookup(self@, name@) == Some(opt_str_view(*v)),
                None => tuple_lookup(self@, name@) is None,
            },
    {
        let mut k: usize = 0;
        proof {
            assert(self@.skip(0) =~= self@);
        }
        while k < self.entries.len()
            invariant
                k <= self.entries@.len(),
                tuple_lookup(self@, name@) == tuple_lookup(self@.skip(k as int), name@),
            decreases self.entries@.len() - k,
        {
            let rest = Ghost(self@.skip(k as int));
            proof {
                assert(rest@.len() > 0);
                assert(rest@[0] == self@[k as int]);
            }
            if crate::text::str_eq(self.entries[k].0.as_str(), name) {
                let v = &self.entries[k].1;
                proof {
                    assert(tuple_lookup(rest@, name@) == Some(self@[k as int].1));
                }
                return Some(v);
            }
            proof {
                assert(rest@.drop_first() =~= self@.skip(k + 1));
            }
            k += 1;
        }
        proof {
            assert(self@.skip(self@.len() as int) =~= Seq::<(Seq<char>, Option<Seq<char>>)>::empty());
        }
        None
    }
}

/// The value of the first tuple entry with the given name.
pub open spec fn tuple_lookup(t: TupleModel, name: Seq<char>) -> Option<Option<Seq<char>>>
    decreases t.len(),
{
    if t.len() == 0 {
        None
    } else if t[0].0 == name {
        Some(t[0].1)
    } else {
        tuple_lookup(t.drop_first(), name)
    }
}

/// A decoded change event.  Each variant is a self-contained snapshot:
/// data records carry the schema and table names copied out of the cache,
/// so the event stays meaningful after the cache entry is replaced.
#[derive(Debug, PartialEq)]
pub enum Change {
    Begin { lsn: String, timestamp: i64, xid: u32 },
    Commit { lsn: String, timestamp: i64 },
    Relation { relation_id: u32, schema: String, table: String, columns: Vec<ColumnInfo> },
    Insert { relation_id: u32, schema: String, table: String, new_tuple: Tuple },
    Update {
        relation_id: u32,
        schema: String,
        table: String,
        old_tuple: Option<Tuple>,
        new_tuple: Tuple,
    },
    Delete { relation_id: u32, schema: String, table: String, old_tuple: Tuple },
}

impl View for Change {
    type V = ChangeModel;

    open spec fn view(&self) -> ChangeModel {
        match self {
            Change::Begin { lsn, timestamp, xid } => ChangeModel::Begin {
                lsn: lsn@,
                timestamp: *timestamp,
                xid: *xid,
            },
            Change::Commit { lsn, timestamp } => ChangeModel::Commit {
                lsn: lsn@,
                timestamp: *timestamp,
            },
            Change::Relation { relation_id, schema, table, columns } => ChangeModel::Relation {
                relation_id: *relation_id,
                schema: schema@,
                table: table@,
                columns: columns_model(columns@),
            },
            Change::Insert { relation_id, schema, table, new_tuple } => ChangeModel::Insert {
                relation_id: *relation_id,
                schema: schema@,
                table: table@,
                new_tuple: new_tuple@,
            },
            Change::Update { relation_id, schema, table, old_tuple, new_tuple } => ChangeModel::Update {
                relation_id: *relation_id,
                schema: schema@,
                table: table@,
                old_tuple: match old_tuple {
                    Some(t) => Some(t@),
                    None => None,
                },
                new_tuple: new_tuple@,
            },
            Change::Delete { relation_id, schema, table, old_tuple } => ChangeModel::Delete {
                relation_id: *relation_id,
                schema: schema@,
                table: table@,
                old_tuple: old_tuple@,
            },
        }
    }
}

// ---------------------------------------------------------------------------
// Errors
// ---------------------------------------------------------------------------

/// Why a change record could not be decoded.  All of these are fatal to
/// the session: a malformed record leaves the byte stream desynchronized,
/// and a data record without cached schema cannot be interpreted.
#[derive(Clone, Copy, Debug, PartialEq, Eq, Structural)]
pub enum DecodeError {
    /// The record is truncated or carries an impossible tag at `offset`.
    Malformed { offset: usize },
    /// A tuple's wire column count differs from the cached schema's.
    ColumnCountMismatch { expected: u16, found: u16 },
    /// A data record references a relation id with no cached schema.
    UnknownRelation { relation_id: u32 },
}

impl DecodeError {
    /// A description naming the error's kind and, where applicable, the
    /// offending byte offset or relation id.
    pub fn describe(&self) -> (r: String)
        ensures
            r@ == match *self {
                DecodeError::Malformed { offset } => "malformed change record at byte offset "@
                    + crate::text::dec_text(offset as int),
                DecodeError::ColumnCountMismatch { expected, found } => "column count mismatch: expected "@
                    + crate::text::dec_text(expected as int) + ", found "@ + crate::text::dec_text(
                    found as int,
                ),
                DecodeError::UnknownRelation { relation_id } => "unknown relation "@
                    + crate::text::dec_text(relation_id as int),
            },
    {
        match self {
            DecodeError::Malformed { offset } => {
                let mut s = "malformed change record at byte offset ".to_owned();
                s.append(crate::text::u64_dec_string(*offset as u64).as_str());
                s
            },
            DecodeError::ColumnCountMismatch { expected, found } => {
                let mut s = "column count mismatch: expected ".to_owned();
                s.append(crate::text::u64_dec_string(*expected as u64).as_str());
                s.append(", found ");
                s.append(crate::text::u64_dec_string(*found as u64).as_str());
                s
            },
            DecodeError::UnknownRelation { relation_id } => {
                let mut s = "unknown relation ".to_owned();
                s.append(crate::text::u64_dec_string(*relation_id as u64).as_str());
                s
            },
        }
    }
}

// ---------------------------------------------------------------------------
// Relation cache
// ---------------------------------------------------------------------------

/// Process-lifetime mapping from relation id to its current schema.
/// Entries are replaced wholesale by relation-metadata records and are
/// never evicted.
pub struct RelationCache {
    map: std::collections::HashMap<u32, RelationSchema>,
}

impl View for RelationCache {
    type V = Map<u32, RelationModel>;

    closed spec fn view(&self) -> Map<u32, RelationModel> {
        Map::new(|id: u32| self.map@.contains_key(id), |id: u32| self.map@[id]@)
    }
}

impl RelationCache {
    /// An empty cache.
    pub fn new() -> (r: RelationCache)
        ensures
            r@ =~= Map::<u32, RelationModel>::empty(),
    {
        broadcast use vstd::std_specs::hash::group_hash_axioms;

        RelationCache { map: std::collections::HashMap::new() }
    }

    /// Stores a schema, replacing in full any prior entry for the same
    /// relation id.
    pub fn store(&mut self, schema: RelationSchema)
        ensures
            final(self)@ =~= old(self)@.insert(schema.relation_id, schema@),
    {
        broadcast use vstd::std_specs::hash::group_hash_axioms;

        let id = schema.relation_id;
        self.map.insert(id, schema);
    }

    /// The cached schema for a relation id, if one has been seen.
    pub fn lookup(&self, relation_id: u32) -> (r: Option<&RelationSchema>)
        ensures
            match r {
                Some(s) => self@.contains_key(relation_id) && s@ == self@[relation_id],
                None => !self@.contains_key(relation_id),
            },
    {
        broadcast use vstd::std_specs::hash::group_hash_axioms;

        self.map.get(&relation_id)
    }

    /// Whether a schema is cached for `relation_id`.
    pub fn contains(&self, relation_id: u32) -> (r: bool)
        ensures
            r == self@.contains_key(relation_id),
    {
        broadcast use vstd::std_specs::hash::group_hash_axioms;

        self.map.contains_key(&relation_id)
    }

    /// Read-only accessor for downstream converters: the current column
    /// list of a relation, or `None` for a relation not yet seen.
    pub fn get_relation_columns(&self, relation_id: u32) -> (r: Option<Vec<ColumnInfo>>)
        ensures
            match r {
                Some(cols) => self@.contains_key(relation_id) && cols@.len()
                    == self@[relation_id].columns.len() && forall|i: int|
                    0 <= i < cols@.len() ==> cols@[i]@ == self@[relation_id].columns[i],
                None => !self@.contains_key(relation_id),
            },
    {
        match self.lookup(relation_id) {
            Some(schema) => Some(clone_columns(&schema.columns)),
            None => None,
        }
    }
}

// ---------------------------------------------------------------------------
// Record type and tuple kind tags
// ---------------------------------------------------------------------------

/// Record type tag of a transaction-begin record.
pub const TAG_BEGIN: u8 = 66;

/// Record type tag of a transaction-commit record.
pub const TAG_COMMIT: u8 = 67;

/// Record type tag of a relation-metadata record.
pub const TAG_RELATION: u8 = 82;

/// Record type tag of an insert record.
pub const TAG_INSERT: u8 = 73;

/// Record type tag of an update record.
pub const TAG_UPDATE: u8 = 85;

/// Record type tag of a delete record.
pub const TAG_DELETE: u8 = 68;

/// Tuple kind tag: the new row image.
pub const TUPLE_NEW: u8 = 78;

/// Tuple kind tag: the old row image restricted to key columns.
pub const TUPLE_KEY: u8 = 75;

/// Tuple kind tag: the full old row image.
pub const TUPLE_OLD: u8 = 79;

/// Column value tag: SQL NULL.
pub const VALUE_NULL: u8 = 110;

/// Column value tag: unchanged out-of-line value, not carried in the record.
pub const VALUE_UNCHANGED: u8 = 117;

/// Column value tag: a length-prefixed text value.
pub const VALUE_TEXT: u8 = 116;

// ---------------------------------------------------------------------------
// The decoder's mathematical model
// ---------------------------------------------------------------------------

/// The model of an optional text value.
pub open spec fn opt_str_view(o: Option<String>) -> Option<Seq<char>> {
    match o {
        Some(s) => Some(s@),
        None => None,
    }
}

/// Decodes `n` per-column value cells starting at offset `i`,
/// accumulating onto `acc`; yields the cell values and the offset just
/// past the last cell.
pub open spec fn spec_decode_cells(
    d: Seq<u8>,
    i: int,
    n: int,
    acc: Seq<Option<Seq<char>>>,
) -> Result<(Seq<Option<Seq<char>>>, int), DecodeError>
    decreases n,
{
    if n <= 0 {
        Ok((acc, i))
    } else if i + 1 > d.len() {
        Err(DecodeError::Malformed { offset: i as usize })
    } else if d[i] == VALUE_NULL || d[i] == VALUE_UNCHANGED {
        spec_decode_cells(d, i + 1, n - 1, acc.push(None))
    } else if d[i] == VALUE_TEXT {
        if i + 5 > d.len() {
            Err(DecodeError::Malformed { offset: (i + 1) as usize })
        } else {
            let len = spec_be32(d, i + 1);
            if i + 5 + len > d.len() {
                Err(DecodeError::Malformed { offset: (i + 5) as usize })
            } else {
                spec_decode_cells(d, i + 5 + len, n - 1, acc.push(Some(text_at(d, i + 5, i + 5 + len))))
            }
        }
    } else {
        Err(DecodeError::Malformed { offset: i as usize })
    }
}

/// Pairs each schema column name with its decoded cell, in schema order.
pub open spec fn spec_tuple_from_cells(
    cols: Seq<ColumnModel>,
    cells: Seq<Option<Seq<char>>>,
) -> TupleModel {
    Seq::new(cols.len(), |k: int| (cols[k].name, cells[k]))
}

/// Decodes one column-count-prefixed tuple at offset `i` against the
/// cached column list; the wire count must equal the schema's.
pub open spec fn spec_decode_tuple(cols: Seq<ColumnModel>, d: Seq<u8>, i: int) -> Result<
    (TupleModel, int),
    DecodeError,
> {
    if i + 2 > d.len() {
        Err(DecodeError::Malformed { offset: i as usize })
    } else {
        let n = spec_be16(d, i);
        if n != cols.len() {
            Err(
                DecodeError::ColumnCountMismatch {
                    expected: cols.len() as u16,
                    found: n as u16,
                },
            )
        } else {
            match spec_decode_cells(d, i + 2, n, Seq::empty()) {
                Ok((cells, j)) => Ok((spec_tuple_from_cells(cols, cells), j)),
                Err(e) => Err(e),
            }
        }
    }
}

/// Decodes `n` column descriptors of a relation-metadata record starting
/// at offset `i`: a flags byte, a null-terminated name, a type id, and a
/// type modifier that is not retained.
pub open spec fn spec_decode_columns(
    d: Seq<u8>,
    i: int,
    n: int,
    acc: Seq<ColumnModel>,
) -> Result<(Seq<ColumnModel>, int), DecodeError>
    decreases n,
{
    if n <= 0 {
        Ok((acc, i))
    } else if i + 1 > d.len() {
        Err(DecodeError::Malformed { offset: i as usize })
    } else {
        let flags = d[i];
        match cstr_end(d, i + 1) {
            None => Err(DecodeError::Malformed { offset: (i + 1) as usize }),
            Some(j) => if j + 9 > d.len() {
                Err(DecodeError::Malformed { offset: (j + 1) as usize })
            } else {
                spec_decode_columns(
                    d,
                    j + 9,
                    n - 1,
                    acc.push(
                        ColumnModel {
                            name: text_at(d, i + 1, j),
                            type_id: spec_be32(d, j + 1) as u32,
                            flags,
                        },
                    ),
                )
            },
        }
    }
}

/// What decoding one change record yields: the decoder's result and the
/// relation cache as the record leaves it.
pub struct DecodeOutcome {
    pub result: Result<Option<ChangeModel>, DecodeError>,
    pub cache: Map<u32, RelationModel>,
}

/// Model of a transaction-begin record body.
pub open spec fn spec_decode_begin(d: Seq<u8>) -> Result<ChangeModel, DecodeError> {
    if d.len() < 21 {
        Err(DecodeError::Malformed { offset: 1 })
    } else {
        Ok(
            ChangeModel::Begin {
                lsn: lsn_text(spec_be64(d, 1) as u64),
                timestamp: spec_pg_time_to_unix_micros(spec_be64(d, 9) as u64) as i64,
                xid: spec_be32(d, 17) as u32,
            },
        )
    }
}

/// Model of a transaction-commit record body: a reserved flags byte,
/// the commit position, the end position, and the commit timestamp; only
/// the commit position and timestamp are surfaced.
pub open spec fn spec_decode_commit(d: Seq<u8>) -> Result<ChangeModel, DecodeError> {
    if d.len() < 26 {
        Err(DecodeError::Malformed { offset: 1 })
    } else {
        Ok(
            ChangeModel::Commit {
                lsn: lsn_text(spec_be64(d, 2) as u64),
                timestamp: spec_pg_time_to_unix_micros(spec_be64(d, 18) as u64) as i64,
            },
        )
    }
}

/// Model of a relation-metadata record: on success the cache gains the
/// relation wholesale and the schema is surfaced as a change as well.
pub open spec fn spec_decode_relation(cache: Map<u32, RelationModel>, d: Seq<u8>) -> DecodeOutcome {
    if d.len() < 5 {
        DecodeOutcome { result: Err(DecodeError::Malformed { offset: 1 }), cache }
    } else {
        let relation_id = spec_be32(d, 1) as u32;
        match cstr_end(d, 5) {
            None => DecodeOutcome { result: Err(DecodeError::Malformed { offset: 5 }), cache },
            Some(j1) => match cstr_end(d, j1 + 1) {
                None => DecodeOutcome {
                    result: Err(DecodeError::Malformed { offset: (j1 + 1) as usize }),
                    cache,
                },
                Some(j2) => if j2 + 4 > d.len() {
                    DecodeOutcome {
                        result: Err(DecodeError::Malformed { offset: (j2 + 1) as usize }),
                        cache,
                    }
                } else {
                    let n = spec_be16(d, j2 + 2);
                    match spec_decode_columns(d, j2 + 4, n, Seq::empty()) {
                        Err(e) => DecodeOutcome { result: Err(e), cache },
                        Ok((cols, _end)) => {
                            let rel = RelationModel {
                                relation_id,
                                schema_name: text_at(d, 5, j1),
                                table_name: text_at(d, j1 + 1, j2),
                                columns: cols,
                            };
                            DecodeOutcome {
                                result: Ok(
                                    Some(
                                        ChangeModel::Relation {
                                            relation_id,
                                            schema: rel.schema_name,
                                            table: rel.table_name,
                                            columns: cols,
                                        },
                                    ),
                                ),
                                cache: cache.insert(relation_id, rel),
                            }
                        },
                    }
                },
            },
        }
    }
}

/// Model of an insert record: the relation id, then the new row image.
pub open spec fn spec_decode_insert(cache: Map<u32, RelationModel>, d: Seq<u8>) -> Result<
    ChangeModel,
    DecodeError,
> {
    if d.len() < 5 {
        Err(DecodeError::Malformed { offset: 1 })
    } else {
        let relation_id = spec_be32(d, 1) as u32;
        if !cache.contains_key(relation_id) {
            Err(DecodeError::UnknownRelation { relation_id })
        } else if d.len() < 6 {
            Err(DecodeError::Malformed { offset: 5 })
        } else if d[5] != TUPLE_NEW {
            Err(DecodeError::Malformed { offset: 5 })
        } else {
            let rel = cache[relation_id];
            match spec_decode_tuple(rel.columns, d, 6) {
                Err(e) => Err(e),
                Ok((t, _end)) => Ok(
                    ChangeModel::Insert {
                        relation_id,
                        schema: rel.schema_name,
                        table: rel.table_name,
                        new_tuple: t,
                    },
                ),
            }
        }
    }
}

/// Model of an update record: the relation id, an old row image present
/// only under full-row identity tracking, then the new row image.
pub open spec fn spec_decode_update(cache: Map<u32, RelationModel>, d: Seq<u8>) -> Result<
    ChangeModel,
    DecodeError,
> {
    if d.len() < 5 {
        Err(DecodeError::Malformed { offset: 1 })
    } else {
        let relation_id = spec_be32(d, 1) as u32;
        if !cache.contains_key(relation_id) {
            Err(DecodeError::UnknownRelation { relation_id })
        } else if d.len() < 6 {
            Err(DecodeError::Malformed { offset: 5 })
        } else {
            let rel = cache[relation_id];
            if d[5] == TUPLE_KEY || d[5] == TUPLE_OLD {
                match spec_decode_tuple(rel.columns, d, 6) {
                    Err(e) => Err(e),
                    Ok((old_t, j)) => if j + 1 > d.len() || d[j] != TUPLE_NEW {
                        Err(DecodeError::Malformed { offset: j as usize })
                    } else {
                        match spec_decode_tuple(rel.columns, d, j + 1) {
                            Err(e) => Err(e),
                            Ok((new_t, _end)) => Ok(
                                ChangeModel::Update {
                                    relation_id,
                                    schema: rel.schema_name,
                                    table: rel.table_name,
                                    old_tuple: Some(old_t),
                                    new_tuple: new_t,
                                },
                            ),
                        }
                    },
                }
            } else if d[5] == TUPLE_NEW {
                match spec_decode_tuple(rel.columns, d, 6) {
                    Err(e) => Err(e),
                    Ok((new_t, _end)) => Ok(
                        ChangeModel::Update {
                            relation_id,
                            schema: rel.schema_name,
                            table: rel.table_name,
                            old_tuple: None,
                            new_tuple: new_t,
                        },
                    ),
                }
            } else {
                Err(DecodeError::Malformed { offset: 5 })
            }
        }
    }
}

/// Model of a delete record: the relation id, then the old row image
/// (key columns only, or the full row under full identity tracking).
pub open spec fn spec_decode_delete(cache: Map<u32, RelationModel>, d: Seq<u8>) -> Result<
    ChangeModel,
    DecodeError,
> {
    if d.len() < 5 {
        Err(DecodeError::Malformed { offset: 1 })
    } else {
        let relation_id = spec_be32(d, 1) as u32;
        if !cache.contains_key(relation_id) {
            Err(DecodeError::UnknownRelation { relation_id })
        } else if d.len() < 6 {
            Err(DecodeError::Malformed { offset: 5 })
        } else if d[5] != TUPLE_KEY && d[5] != TUPLE_OLD {
            Err(DecodeError::Malformed { offset: 5 })
        } else {
            let rel = cache[relation_id];
            match spec_decode_tuple(rel.columns, d, 6) {
                Err(e) => Err(e),
                Ok((t, _end)) => Ok(
                    ChangeModel::Delete {
                        relation_id,
                        schema: rel.schema_name,
                        table: rel.table_name,
                        old_tuple: t,
                    },
                ),
            }
        }
    }
}

/// What decoding one change record against a cache state yields.  A
/// record type outside the known set decodes to no change and leaves the
/// cache untouched; only a relation-metadata record alters the cache.
pub open spec fn spec_decode_message(cache: Map<u32, RelationModel>, d: Seq<u8>) -> DecodeOutcome {
    if d.len() < 1 {
        DecodeOutcome { result: Err(DecodeError::Malformed { offset: 0 }), cache }
    } else if d[0] == TAG_BEGIN {
        DecodeOutcome {
            result: match spec_decode_begin(d) {
                Ok(c) => Ok(Some(c)),
                Err(e) => Err(e),
            },
            cache,
        }
    } else if d[0] == TAG_COMMIT {
        DecodeOutcome {
            result: match spec_decode_commit(d) {
                Ok(c) => Ok(Some(c)),
                Err(e) => Err(e),
            },
            cache,
        }
    } else if d[0] == TAG_RELATION {
        spec_decode_relation(cache, d)
    } else if d[0] == TAG_INSERT {
        DecodeOutcome {
            result: match spec_decode_insert(cache, d) {
                Ok(c) => Ok(Some(c)),
                Err(e) => Err(e),
            },
            cache,
        }
    } else if d[0] == TAG_UPDATE {
        DecodeOutcome {
            result: match spec_decode_update(cache, d) {
                Ok(c) => Ok(Some(c)),
                Err(e) => Err(e),
            },
            cache,
        }
    } else if d[0] == TAG_DELETE {
        DecodeOutcome {
            result: match spec_decode_delete(cache, d) {
                Ok(c) => Ok(Some(c)),
                Err(e) => Err(e),
            },
            cache,
        }
    } else {
        DecodeOutcome { result: Ok(None), cache }
    }
}

/// The model of a decoder result.
pub open spec fn result_model(r: Result<Option<Change>, DecodeError>) -> Result<
    Option<ChangeModel>,
    DecodeError,
> {
    match r {
        Ok(Some(c)) => Ok(Some(c@)),
        Ok(None) => Ok(None),
        Err(e) => Err(e),
    }
}

/// The cell values of a tuple, without the names.
pub open spec fn tuple_values(t: TupleModel) -> Seq<Option<Seq<char>>> {
    Seq::new(t.len(), |i: int| t[i].1)
}

// ---------------------------------------------------------------------------
// Laws
// ---------------------------------------------------------------------------

/// Whether a tuple's keys are exactly the column names, in column order.
pub open spec fn tuple_keys_match(t: TupleModel, cols: Seq<ColumnModel>) -> bool {
    t.len() == cols.len() && forall|k: int| 0 <= k < cols.len() ==> t[k].0 == cols[k].name
}

/// Decoding is deterministic: the same record bytes against the same
/// cache state always yield the identical outcome.
pub proof fn lemma_decode_deterministic(
    c1: Map<u32, RelationModel>,
    c2: Map<u32, RelationModel>,
    d1: Seq<u8>,
    d2: Seq<u8>,
)
    requires
        c1 == c2,
        d1 == d2,
    ensures
        spec_decode_message(c1, d1) == spec_decode_message(c2, d2),
{
}

/// A relation-metadata record that decodes caches exactly the schema it
/// surfaces, under the relation id it names, replacing any prior entry
/// wholesale and touching no other entry.
pub proof fn lemma_relation_caches_schema(cache: Map<u32, RelationModel>, d: Seq<u8>)
    requires
        spec_decode_message(cache, d).result matches Ok(Some(ChangeModel::Relation { .. })),
    ensures
        match spec_decode_message(cache, d).result {
            Ok(Some(ChangeModel::Relation { relation_id, schema, table, columns })) => {
                let cache2 = spec_decode_message(cache, d).cache;
                &&& cache2.contains_key(relation_id)
                &&& cache2[relation_id].columns == columns
                &&& cache2[relation_id].schema_name == schema
                &&& cache2[relation_id].table_name == table
                &&& cache2 == cache.insert(relation_id, cache2[relation_id])
            },
            _ => false,
        },
{
}

/// A data record only decodes against a cached schema, and its tuples
/// then carry exactly that schema's column names as keys, in the
/// schema's column order.
pub proof fn lemma_data_tuple_keys(cache: Map<u32, RelationModel>, d: Seq<u8>)
    ensures
        match spec_decode_message(cache, d).result {
            Ok(Some(ChangeModel::Insert { relation_id, new_tuple, .. })) => cache.contains_key(
                relation_id,
            ) && tuple_keys_match(new_tuple, cache[relation_id].columns),
            Ok(Some(ChangeModel::Update { relation_id, old_tuple, new_tuple, .. })) => {
                &&& cache.contains_key(relation_id)
                &&& tuple_keys_match(new_tuple, cache[relation_id].columns)
                &&& (old_tuple matches Some(t) ==> tuple_keys_match(
                    t,
                    cache[relation_id].columns,
                ))
            },
            Ok(Some(ChangeModel::Delete { relation_id, old_tuple, .. })) => cache.contains_key(
                relation_id,
            ) && tuple_keys_match(old_tuple, cache[relation_id].columns),
            _ => true,
        },
{
}

/// A valid relation-metadata record followed by a data record for the
/// same relation id: the data record's tuples carry exactly the column
/// names the relation record announced, in announced order.
pub proof fn lemma_relation_then_data(
    cache: Map<u32, RelationModel>,
    rel_bytes: Seq<u8>,
    data_bytes: Seq<u8>,
)
    requires
        spec_decode_message(cache, rel_bytes).result matches Ok(
            Some(ChangeModel::Relation { .. }),
        ),
    ensures
        ({
            let rel_out = spec_decode_message(cache, rel_bytes);
            let data_out = spec_decode_message(rel_out.cache, data_bytes);
            match (rel_out.result, data_out.result) {
                (
                    Ok(Some(ChangeModel::Relation { relation_id: rid, columns, .. })),
                    Ok(Some(ChangeModel::Insert { relation_id, new_tuple, .. })),
                ) => relation_id == rid ==> tuple_keys_match(new_tuple, columns),
                (
                    Ok(Some(ChangeModel::Relation { relation_id: rid, columns, .. })),
                    Ok(Some(ChangeModel::Update { relation_id, old_tuple, new_tuple, .. })),
                ) => relation_id == rid ==> tuple_keys_match(new_tuple, columns) && (
                old_tuple matches Some(t) ==> tuple_keys_match(t, columns)),
                (
                    Ok(Some(ChangeModel::Relation { relation_id: rid, columns, .. })),
                    Ok(Some(ChangeModel::Delete { relation_id, old_tuple, .. })),
                ) => relation_id == rid ==> tuple_keys_match(old_tuple, columns),
                _ => true,
            }
        }),
{
    lemma_relation_caches_schema(cache, rel_bytes);
    lemma_data_tuple_keys(spec_decode_message(cache, rel_bytes).cache, data_bytes);
}

/// A data record referencing a relation id with no cached schema fails
/// with the unknown-relation error naming that id, and the cache is
/// untouched — never a silently empty tuple.
pub proof fn lemma_unknown_relation_fails(cache: Map<u32, RelationModel>, d: Seq<u8>)
    requires
        d.len() >= 5,
        d[0] == TAG_INSERT || d[0] == TAG_UPDATE || d[0] == TAG_DELETE,
        !cache.contains_key(spec_be32(d, 1) as u32),
    ensures
        spec_decode_message(cache, d).result == Err::<Option<ChangeModel>, DecodeError>(
            DecodeError::UnknownRelation { relation_id: spec_be32(d, 1) as u32 },
        ),
        spec_decode_message(cache, d).cache == cache,
{
}

/// A null-tagged cell decodes to an absent value, while a text-tagged
/// cell with a zero-length payload decodes to present, empty text: the
/// two stay distinguishable.
pub proof fn lemma_null_vs_empty_text(d: Seq<u8>, i: int, n: int, acc: Seq<Option<Seq<char>>>)
    requires
        0 <= i,
        i + 1 <= d.len(),
        n > 0,
    ensures
        d[i] == VALUE_NULL ==> spec_decode_cells(d, i, n, acc) == spec_decode_cells(
            d,
            i + 1,
            n - 1,
            acc.push(None),
        ),
        d[i] == VALUE_TEXT && i + 5 <= d.len() && spec_be32(d, i + 1) == 0
            ==> spec_decode_cells(d, i, n, acc) == spec_decode_cells(
            d,
            i + 5,
            n - 1,
            acc.push(Some(Seq::<char>::empty())),
        ),
{
    if d[i] == VALUE_TEXT && i + 5 <= d.len() && spec_be32(d, i + 1) == 0 {
        assert(d.subrange(i + 5, i + 5) =~= Seq::<u8>::empty());
        assert(vstd::utf8::valid_utf8(Seq::<u8>::empty()));
        assert(vstd::utf8::decode_utf8(Seq::<u8>::empty()) =~= Seq::<char>::empty());
        assert(text_at(d, i + 5, i + 5) == Seq::<char>::empty());
    }
}

/// A record type outside the known set is skipped: no change, no error,
/// and the relation cache is left exactly as it was.
pub proof fn lemma_unknown_record_skipped(cache: Map<u32, RelationModel>, d: Seq<u8>)
    requires
        d.len() >= 1,
        d[0] != TAG_BEGIN,
        d[0] != TAG_COMMIT,
        d[0] != TAG_RELATION,
        d[0] != TAG_INSERT,
        d[0] != TAG_UPDATE,
        d[0] != TAG_DELETE,
    ensures
        spec_decode_message(cache, d).result == Ok::<Option<ChangeModel>, DecodeError>(None),
        spec_decode_message(cache, d).cache == cache,
{
}

// ---------------------------------------------------------------------------
// The executable decoder
// ---------------------------------------------------------------------------

/// Decodes one column-count-prefixed tuple at `start` against the cached
/// column list, producing one entry per schema column in schema order.
fn decode_tuple(cols: &Vec<ColumnInfo>, d: &[u8], start: usize) -> (r: Result<
    (Tuple, usize),
    DecodeError,
>)
    requires
        start <= d@.len(),
    ensures
        match r {
            Ok((t, j)) => spec_decode_tuple(columns_model(cols@), d@, start as int) == Ok::<
                _,
                DecodeError,
            >((t@, j as int)) && j <= d@.len(),
            Err(e) => spec_decode_tuple(columns_model(cols@), d@, start as int) == Err::<
                (TupleModel, int),
                _,
            >(e),
        },
{
    let ghost colsm = columns_model(cols@);
    if d.len() - start < 2 {
        return Err(DecodeError::Malformed { offset: start });
    }
    let n: u16 = be16_at(d, start);
    if n as usize != cols.len() {
        return Err(
            DecodeError::ColumnCountMismatch {
                expected: #[verifier::truncate] (cols.len() as u16),
                found: n,
            },
        );
    }
    let mut tuple = Tuple::new();
    let mut pos: usize = start + 2;
    let mut k: u16 = 0;
    proof {
        assert(tuple_values(tuple@) =~= Seq::<Option<Seq<char>>>::empty());
    }
    while k < n
        invariant
            start + 2 <= pos <= d@.len(),
            k <= n,
            n as int == colsm.len(),
            n == spec_be16(d@, start as int),
            colsm == columns_model(cols@),
            tuple@.len() == k,
            forall|i: int| 0 <= i < k ==> tuple@[i].0 == colsm[i].name,
            spec_decode_cells(d@, start + 2, n as int, Seq::empty()) == spec_decode_cells(
                d@,
                pos as int,
                n - k,
                tuple_values(tuple@),
            ),
        decreases n - k,
    {
        let ghost pre = tuple@;
        if pos >= d.len() {
            return Err(DecodeError::Malformed { offset: pos });
        }
        let tag = d[pos];
        if tag == VALUE_NULL || tag == VALUE_UNCHANGED {
            tuple.push(cols[k as usize].name.clone(), None);
            pos += 1;
        } else if tag == VALUE_TEXT {
            if d.len() - pos < 5 {
                return Err(DecodeError::Malformed { offset: pos + 1 });
            }
            let len: usize = be32_at(d, pos + 1) as usize;
            if len > d.len() - (pos + 5) {
                return Err(DecodeError::Malformed { offset: pos + 5 });
            }
            let end: usize = pos + 5 + len;
            let value = string_at(d, pos + 5, end);
            tuple.push(cols[k as usize].name.clone(), Some(value));
            pos = end;
        } else {
            return Err(DecodeError::Malformed { offset: pos });
        }
        k += 1;
        proof {
            assert(tuple_values(tuple@) =~= tuple_values(pre).push(tuple@[k - 1].1));
        }
    }
    proof {
        assert(spec_decode_cells(d@, pos as int, 0, tuple_values(tuple@)) == Ok::<_, DecodeError>(
            (tuple_values(tuple@), pos as int),
        ));
        assert(spec_tuple_from_cells(colsm, tuple_values(tuple@)) =~= tuple@);
    }
    Ok((tuple, pos))
}

/// Decodes the column descriptors of a relation-metadata record.
fn decode_columns(d: &[u8], start: usize, n: u16) -> (r: Result<
    (Vec<ColumnInfo>, usize),
    DecodeError,
>)
    requires
        start <= d@.len(),
    ensures
        match r {
            Ok((cols, j)) => spec_decode_columns(d@, start as int, n as int, Seq::empty()) == Ok::<
                _,
                DecodeError,
            >((columns_model(cols@), j as int)) && j <= d@.len(),
            Err(e) => spec_decode_columns(d@, start as int, n as int, Seq::empty()) == Err::<
                (Seq<ColumnModel>, int),
                _,
            >(e),
        },
{
    let mut cols: Vec<ColumnInfo> = Vec::new();
    let mut pos: usize = start;
    let mut k: u16 = 0;
    proof {
        assert(columns_model(cols@) =~= Seq::<ColumnModel>::empty());
    }
    while k < n
        invariant
            start <= pos <= d@.len(),
            k <= n,
            cols@.len() == k,
            spec_decode_columns(d@, start as int, n as int, Seq::empty()) == spec_decode_columns(
                d@,
                pos as int,
                n - k,
                columns_model(cols@),
            ),
        decreases n - k,
    {
        let ghost pre = cols@;
        if pos >= d.len() {
            return Err(DecodeError::Malformed { offset: pos });
        }
        let flags = d[pos];
        let name_end = match find_cstr_end(d, pos + 1) {
            Some(j) => j,
            None => {
                return Err(DecodeError::Malformed { offset: pos + 1 });
            },
        };
        proof {
            crate::wire::lemma_cstr_end_props(d@, pos + 1);
        }
        if d.len() - name_end < 9 {
            return Err(DecodeError::Malformed { offset: name_end + 1 });
        }
        let name = string_at(d, pos + 1, name_end);
        let type_id: u32 = be32_at(d, name_end + 1);
        cols.push(ColumnInfo { name, type_id, flags });
        pos = name_end + 9;
        k += 1;
        proof {
            assert(columns_model(cols@) =~= columns_model(pre).push(cols@[k - 1]@));
        }
    }
    proof {
        assert(spec_decode_columns(d@, pos as int, 0, columns_model(cols@)) == Ok::<
            _,
            DecodeError,
        >((columns_model(cols@), pos as int)));
    }
    Ok((cols, pos))
}

/// Parses one binary change record into a change event, updating the
/// relation cache when the record carries relation metadata.
///
/// `Ok(None)` means a well-formed record of a type outside the known set
/// was skipped; it never alters the cache.
pub fn decode_message(cache: &mut RelationCache, d: &[u8]) -> (r: Result<
    Option<Change>,
    DecodeError,
>)
    ensures
        result_model(r) == spec_decode_message(old(cache)@, d@).result,
        final(cache)@ == spec_decode_message(old(cache)@, d@).cache,
{
    let ghost cache0 = cache@;
    if d.len() < 1 {
        return Err(DecodeError::Malformed { offset: 0 });
    }
    let tag = d[0];
    if tag == TAG_BEGIN {
        if d.len() < 21 {
            return Err(DecodeError::Malformed { offset: 1 });
        }
        let lsn = format_lsn(be64_at(d, 1));
        let timestamp: i64 = pg_time_to_unix_micros(be64_at(d, 9));
        let xid: u32 = be32_at(d, 17);
        Ok(Some(Change::Begin { lsn, timestamp, xid }))
    } else if tag == TAG_COMMIT {
        if d.len() < 26 {
            return Err(DecodeError::Malformed { offset: 1 });
        }
        let lsn = format_lsn(be64_at(d, 2));
        let timestamp: i64 = pg_time_to_unix_micros(be64_at(d, 18));
        Ok(Some(Change::Commit { lsn, timestamp }))
    } else if tag == TAG_RELATION {
        if d.len() < 5 {
            return Err(DecodeError::Malformed { offset: 1 });
        }
        let relation_id: u32 = be32_at(d, 1);
        let j1 = match find_cstr_end(d, 5) {
            Some(j) => j,
            None => {
                return Err(DecodeError::Malformed { offset: 5 });
            },
        };
        proof {
            crate::wire::lemma_cstr_end_props(d@, 5);
        }
        let j2 = match find_cstr_end(d, j1 + 1) {
            Some(j) => j,
            None => {
                return Err(DecodeError::Malformed { offset: j1 + 1 });
            },
        };
        proof {
            crate::wire::lemma_cstr_end_props(d@, j1 + 1);
        }
        if d.len() - j2 < 4 {
            return Err(DecodeError::Malformed { offset: j2 + 1 });
        }
        let n: u16 = be16_at(d, j2 + 2);
        let cols = match decode_columns(d, j2 + 4, n) {
            Ok((cols, _end)) => cols,
            Err(e) => {
                return Err(e);
            },
        };
        let schema_name = string_at(d, 5, j1);
        let table_name = string_at(d, j1 + 1, j2);
        let change = Change::Relation {
            relation_id,
            schema: schema_name.clone(),
            table: table_name.clone(),
            columns: clone_columns(&cols),
        };
        cache.store(RelationSchema { relation_id, schema_name, table_name, columns: cols });
        proof {
            assert(cache@ =~= spec_decode_relation(cache0, d@).cache);
        }
        Ok(Some(change))
    } else if tag == TAG_INSERT {
        if d.len() < 5 {
            return Err(DecodeError::Malformed { offset: 1 });
        }
        let relation_id: u32 = be32_at(d, 1);
        let schema = match cache.lookup(relation_id) {
            Some(s) => s,
            None => {
                return Err(DecodeError::UnknownRelation { relation_id });
            },
        };
        if d.len() < 6 {
            return Err(DecodeError::Malformed { offset: 5 });
        }
        if d[5] != TUPLE_NEW {
            return Err(DecodeError::Malformed { offset: 5 });
        }
        let new_tuple = match decode_tuple(&schema.columns, d, 6) {
            Ok((t, _end)) => t,
            Err(e) => {
                return Err(e);
            },
        };
        Ok(
            Some(
                Change::Insert {
                    relation_id,
                    schema: schema.schema_name.clone(),
                    table: schema.table_name.clone(),
                    new_tuple,
                },
            ),
        )
    } else if tag == TAG_UPDATE {
        if d.len() < 5 {
            return Err(DecodeError::Malformed { offset: 1 });
        }
        let relation_id: u32 = be32_at(d, 1);
        let schema = match cache.lookup(relation_id) {
            Some(s) => s,
            None => {
                return Err(DecodeError::UnknownRelation { relation_id });
            },
        };
        if d.len() < 6 {
            return Err(DecodeError::Malformed { offset: 5 });
        }
        let kind = d[5];
        if kind == TUPLE_KEY || kind == TUPLE_OLD {
            let (old_tuple, j) = match decode_tuple(&schema.columns, d, 6) {
                Ok(p) => p,
                Err(e) => {
                    return Err(e);
                },
            };
            if j >= d.len() {
                return Err(DecodeError::Malformed { offset: j });
            }
            if d[j] != TUPLE_NEW {
                return Err(DecodeError::Malformed { offset: j });
            }
            let new_tuple = match decode_tuple(&schema.columns, d, j + 1) {
                Ok((t, _end)) => t,
                Err(e) => {
                    return Err(e);
                },
            };
            Ok(
                Some(
                    Change::Update {
                        relation_id,
                        schema: schema.schema_name.clone(),
                        table: schema.table_name.clone(),
                        old_tuple: Some(old_tuple),
                        new_tuple,
                    },
                ),
            )
        } else if kind == TUPLE_NEW {
            let new_tuple = match decode_tuple(&schema.columns, d, 6) {
                Ok((t, _end)) => t,
                Err(e) => {
                    return Err(e);
                },
            };
            Ok(
                Some(
                    Change::Update {
                        relation_id,
                        schema: schema.schema_name.clone(),
                        table: schema.table_name.clone(),
                        old_tuple: None,
                        new_tuple,
                    },
                ),
            )
        } else {
            Err(DecodeError::Malformed { offset: 5 })
        }
    } else if tag == TAG_DELETE {
        if d.len() < 5 {
            return Err(DecodeError::Malformed { offset: 1 });
        }
        let relation_id: u32 = be32_at(d, 1);
        let schema = match cache.lookup(relation_id) {
            Some(s) => s,
            None => {
                return Err(DecodeError::UnknownRelation { relation_id });
            },
        };
        if d.len() < 6 {
            return Err(DecodeError::Malformed { offset: 5 });
        }
        let kind = d[5];
        if kind != TUPLE_KEY && kind != TUPLE_OLD {
            return Err(DecodeError::Malformed { offset: 5 });
        }
        let old_tuple = match decode_tuple(&schema.columns, d, 6) {
            Ok((t, _end)) => t,
            Err(e) => {
                return Err(e);
            },
        };
        Ok(
            Some(
                Change::Delete {
                    relation_id,
                    schema: schema.schema_name.clone(),
                    table: schema.table_name.clone(),
                    old_tuple,
                },
            ),
        )
    } else {
        Ok(None)
    }
}

} // verus!
