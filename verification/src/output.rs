//! Downstream-facing views of change events: output format selection,
//! typed JSON conversion of tuples, the Debezium CDC envelope, the
//! Feldera insert/delete form, subject routing, and plain-text rendering.
//!
//! JSON values are modelled by the library's own [`JsonValue`] and
//! [`JsonObject`]; the surrounding process serializes them.

use vstd::prelude::*;

use crate::decoder::{
    Change, ChangeModel, ColumnInfo, ColumnModel, Tuple, TupleModel, columns_model, opt_str_view,
    tuple_lookup,
};
use crate::lsn::hex_digit;
use crate::text::{
    ascii_lower, dec_text, dec_text_signed, i64_dec_string, lower_eq, parse_i64, spec_parse_i64,
    str_eq, u64_dec_string,
};
use vstd::utf8::encode_utf8;

verus! {

// ---------------------------------------------------------------------------
// Output formats
// ---------------------------------------------------------------------------

/// How decoded changes are rendered for output.
#[derive(Debug, Clone)]
pub enum OutputFormat {
    Json,
    JsonPretty,
    Text,
    Debezium,
    Feldera,
}

/// The format a name selects, compared without regard to ASCII case.
pub open spec fn parse_format(s: Seq<char>) -> Option<OutputFormat> {
    let folded = ascii_lower(s);
    if folded == "json"@ {
        Some(OutputFormat::Json)
    } else if folded == "json-pretty"@ {
        Some(OutputFormat::JsonPretty)
    } else if folded == "text"@ {
        Some(OutputFormat::Text)
    } else if folded == "debezium"@ {
        Some(OutputFormat::Debezium)
    } else if folded == "feldera"@ || folded == "insert-delete"@ || folded == "insert_delete"@ {
        Some(OutputFormat::Feldera)
    } else {
        None
    }
}

/// A format name that names no format.
#[derive(Debug)]
pub struct UnknownFormat {
    pub given: String,
}

impl UnknownFormat {
    /// The error's description, naming the rejected input and the valid
    /// options.
    pub fn message(&self) -> (r: String)
        ensures
            r@ =~= "Unknown output format: "@ + self.given@
                + ". Valid options: json, json-pretty, text, debezium, feldera"@,
    {
        let mut s = "Unknown output format: ".to_owned();
        s.append(self.given.as_str());
        s.append(". Valid options: json, json-pretty, text, debezium, feldera");
        s
    }
}

impl OutputFormat {
    /// Parses a format name, without regard to ASCII case.
    pub fn from_str(s: &str) -> (r: Result<OutputFormat, UnknownFormat>)
        ensures
            match r {
                Ok(fmt) => parse_format(s@) == Some(fmt),
                Err(e) => parse_format(s@) is None && e.given@ == s@,
            },
    {
        if lower_eq(s, "json") {
            Ok(OutputFormat::Json)
        } else if lower_eq(s, "json-pretty") {
            Ok(OutputFormat::JsonPretty)
        } else if lower_eq(s, "text") {
            Ok(OutputFormat::Text)
        } else if lower_eq(s, "debezium") {
            Ok(OutputFormat::Debezium)
        } else if lower_eq(s, "feldera") || lower_eq(s, "insert-delete") || lower_eq(
            s,
            "insert_delete",
        ) {
            Ok(OutputFormat::Feldera)
        } else {
            Err(UnknownFormat { given: s.to_owned() })
        }
    }
}

// ---------------------------------------------------------------------------
// JSON values
// ---------------------------------------------------------------------------

/// A scalar JSON value.  The library itself holds no floats: `Float`
/// carries a float-typed column's source text, and the consumer parses
/// it into a JSON number, falling back to a string where that fails.
#[derive(Debug, Clone)]
pub enum JsonValue {
    Null,
    Bool(bool),
    Int(i64),
    Float(String),
    Str(String),
}

/// Model of a scalar JSON value.
pub enum JsonValueModel {
    Null,
    Bool(bool),
    Int(i64),
    Float(Seq<char>),
    Str(Seq<char>),
}

impl View for JsonValue {
    type V = JsonValueModel;

    open spec fn view(&self) -> JsonValueModel {
        match self {
            JsonValue::Null => JsonValueModel::Null,
            JsonValue::Bool(b) => JsonValueModel::Bool(*b),
            JsonValue::Int(n) => JsonValueModel::Int(*n),
            JsonValue::Float(s) => JsonValueModel::Float(s@),
            JsonValue::Str(s) => JsonValueModel::Str(s@),
        }
    }
}

/// A JSON object whose members are scalar values, in insertion order.
#[derive(Debug, Clone)]
pub struct JsonObject {
    pub entries: Vec<(String, JsonValue)>,
}

impl View for JsonObject {
    type V = Seq<(Seq<char>, JsonValueModel)>;

    open spec fn view(&self) -> Seq<(Seq<char>, JsonValueModel)> {
        Seq::new(self.entries@.len(), |i: int| (self.entries@[i].0@, self.entries@[i].1@))
    }
}

impl JsonObject {
    /// An empty object.
    pub fn new() -> (r: JsonObject)
        ensures
            r@ =~= Seq::<(Seq<char>, JsonValueModel)>::empty(),
    {
        JsonObject { entries: Vec::new() }
    }

    /// Appends one member.
    pub fn push(&mut self, name: String, value: JsonValue)
        ensures
            final(self)@ =~= old(self)@.push((name@, value@)),
    {
        self.entries.push((name, value));
    }

    /// Number of members.
    pub fn len(&self) -> (r: usize)
        ensures
            r == self@.len(),
    {
        self.entries.len()
    }

    /// The value of the first member with the given name, if any.
    pub fn get(&self, name: &str) -> (r: Option<&JsonValue>)
        ensures
            match r {
                Some(v) => object_lookup(self@, name@) == Some(v@),
                None => object_lookup(self@, name@) is None,
            },
    {
        let mut k: usize = 0;
        proof {
            assert(self@.skip(0) =~= self@);
        }
        while k < self.entries.len()
            invariant
                k <= self.entries@.len(),
                object_lookup(self@, name@) == object_lookup(self@.skip(k as int), name@),
            decreases self.entries@.len() - k,
        {
            let rest = Ghost(self@.skip(k as int));
            proof {
                assert(rest@[0] == self@[k as int]);
            }
            if str_eq(self.entries[k].0.as_str(), name) {
                proof {
                    assert(object_lookup(rest@, name@) == Some(self@[k as int].1));
                }
                return Some(&self.entries[k].1);
            }
            proof {
                assert(rest@.drop_first() =~= self@.skip(k + 1));
            }
            k += 1;
        }
        proof {
            assert(self@.skip(self@.len() as int) =~= Seq::<(Seq<char>, JsonValueModel)>::empty());
        }
        None
    }
}

/// The value of the first object member with the given name.
pub open spec fn object_lookup(o: Seq<(Seq<char>, JsonValueModel)>, name: Seq<char>) -> Option<
    JsonValueModel,
>
    decreases o.len(),
{
    if o.len() == 0 {
        None
    } else if o[0].0 == name {
        Some(o[0].1)
    } else {
        object_lookup(o.drop_first(), name)
    }
}

// ---------------------------------------------------------------------------
// Typed conversion of tuple values
// ---------------------------------------------------------------------------

/// Relies on `chrono::Utc::now`: the wall clock as milliseconds since the
/// Unix epoch.  Nothing is promised of the value.
#[verifier::external_body]
fn now_unix_millis() -> i64 {
    chrono::Utc::now().timestamp_millis()
}

/// Wire type identifier of `bool` columns.
pub const TYPE_BOOL: u32 = 16;

/// Wire type identifiers of the integer column types.
pub const TYPE_INT8: u32 = 20;

pub const TYPE_INT2: u32 = 21;

pub const TYPE_INT4: u32 = 23;

/// Wire type identifiers of the floating-point column types.
pub const TYPE_FLOAT4: u32 = 700;

pub const TYPE_FLOAT8: u32 = 701;

/// Wire type identifier of arbitrary-precision numeric columns.
pub const TYPE_NUMERIC: u32 = 1700;

/// The JSON value a column's text stands for, by the column's type: SQL
/// NULL stays null, booleans and integers become JSON values of their own
/// kind, floats and numerics become number literals where they parse, and
/// everything else stays text.
pub open spec fn spec_cell_json(type_id: u32, v: Option<Seq<char>>) -> JsonValueModel {
    match v {
        None => JsonValueModel::Null,
        Some(s) => if type_id == TYPE_BOOL {
            if s == "t"@ || s == "true"@ || s == "1"@ {
                JsonValueModel::Bool(true)
            } else if s == "f"@ || s == "false"@ || s == "0"@ {
                JsonValueModel::Bool(false)
            } else {
                JsonValueModel::Str(s)
            }
        } else if type_id == TYPE_INT8 || type_id == TYPE_INT2 || type_id == TYPE_INT4 {
            match spec_parse_i64(s) {
                Some(n) => JsonValueModel::Int(n),
                None => JsonValueModel::Str(s),
            }
        } else if type_id == TYPE_FLOAT4 || type_id == TYPE_FLOAT8 {
            JsonValueModel::Float(s)
        } else if type_id == TYPE_NUMERIC {
            match spec_parse_i64(s) {
                Some(n) => JsonValueModel::Int(n),
                None => JsonValueModel::Float(s),
            }
        } else {
            JsonValueModel::Str(s)
        },
    }
}

/// Converts one column's text value by the column's type.
fn json_value_for_cell(type_id: u32, value: &Option<String>) -> (r: JsonValue)
    ensures
        r@ == spec_cell_json(type_id, opt_str_view(*value)),
{
    match value {
        None => JsonValue::Null,
        Some(s) => {
            let sv = s.as_str();
            if type_id == TYPE_BOOL {
                if str_eq(sv, "t") || str_eq(sv, "true") || str_eq(sv, "1") {
                    JsonValue::Bool(true)
                } else if str_eq(sv, "f") || str_eq(sv, "false") || str_eq(sv, "0") {
                    JsonValue::Bool(false)
                } else {
                    JsonValue::Str(s.clone())
                }
            } else if type_id == TYPE_INT8 || type_id == TYPE_INT2 || type_id == TYPE_INT4 {
                match parse_i64(sv) {
                    Some(n) => JsonValue::Int(n),
                    None => JsonValue::Str(s.clone()),
                }
            } else if type_id == TYPE_FLOAT4 || type_id == TYPE_FLOAT8 {
                JsonValue::Float(s.clone())
            } else if type_id == TYPE_NUMERIC {
                match parse_i64(sv) {
                    Some(n) => JsonValue::Int(n),
                    None => JsonValue::Float(s.clone()),
                }
            } else {
                JsonValue::Str(s.clone())
            }
        },
    }
}

/// The object built from a tuple by column metadata: one member per
/// schema column that the tuple carries, in schema order, each value
/// converted by the column's type.  The first `k` columns' worth.
pub open spec fn spec_typed_entries(cols: Seq<ColumnModel>, t: TupleModel, k: int) -> Seq<
    (Seq<char>, JsonValueModel),
>
    decreases k,
{
    if k <= 0 {
        Seq::empty()
    } else {
        let rest = spec_typed_entries(cols, t, k - 1);
        match tuple_lookup(t, cols[k - 1].name) {
            Some(v) => rest + seq![(cols[k - 1].name, spec_cell_json(cols[k - 1].type_id, v))],
            None => rest,
        }
    }
}

/// Builds the typed JSON object of a tuple, using the column metadata for
/// member order and value conversion.
pub fn tuple_to_json_with_types(tuple: &Tuple, columns: &Vec<ColumnInfo>) -> (r: JsonObject)
    ensures
        r@ == spec_typed_entries(columns_model(columns@), tuple@, columns@.len() as int),
{
    let ghost colsm = columns_model(columns@);
    let mut out = JsonObject::new();
    let mut k: usize = 0;
    while k < columns.len()
        invariant
            k <= columns@.len(),
            colsm == columns_model(columns@),
            out@ =~= spec_typed_entries(colsm, tuple@, k as int),
        decreases columns@.len() - k,
    {
        let ghost pre = out@;
        let col = &columns[k];
        match tuple.get(col.name.as_str()) {
            Some(value) => {
                let jv = json_value_for_cell(col.type_id, value);
                out.push(col.name.clone(), jv);
                proof {
                    assert(out@ =~= pre + seq![
                        (colsm[k as int].name, spec_cell_json(colsm[k as int].type_id, opt_str_view(*value))),
                    ]);
                }
            },
            None => {},
        }
        k += 1;
    }
    proof {
        assert(out@ =~= spec_typed_entries(colsm, tuple@, columns@.len() as int));
    }
    out
}

/// The object built from a tuple alone: each value kept as text, or null.
pub open spec fn tuple_str_entries(t: TupleModel) -> Seq<(Seq<char>, JsonValueModel)> {
    Seq::new(
        t.len(),
        |i: int|
            (
                t[i].0,
                match t[i].1 {
                    None => JsonValueModel::Null,
                    Some(s) => JsonValueModel::Str(s),
                },
            ),
    )
}

/// Builds the plain JSON object of a tuple, values kept as text.
pub fn tuple_to_json(tuple: &Tuple) -> (r: JsonObject)
    ensures
        r@ == tuple_str_entries(tuple@),
{
    let mut out = JsonObject::new();
    let mut k: usize = 0;
    while k < tuple.entries.len()
        invariant
            k <= tuple.entries@.len(),
            out@.len() == k,
            forall|i: int| 0 <= i < k ==> out@[i] == #[trigger] tuple_str_entries(tuple@)[i],
        decreases tuple.entries@.len() - k,
    {
        let name = tuple.entries[k].0.clone();
        let jv = match &tuple.entries[k].1 {
            None => JsonValue::Null,
            Some(s) => JsonValue::Str(s.clone()),
        };
        out.push(name, jv);
        k += 1;
    }
    proof {
        assert(out@ =~= tuple_str_entries(tuple@));
    }
    out
}

// ---------------------------------------------------------------------------
// Debezium CDC envelopes
// ---------------------------------------------------------------------------

/// Debezium source metadata, fixed but for the table coordinates and the
/// event time.
#[derive(Debug, Clone)]
pub struct DebeziumSource {
    pub version: String,
    pub connector: String,
    pub name: String,
    pub ts_ms: i64,
    pub db: String,
    pub schema: String,
    pub table: String,
    pub lsn: String,
}

/// Debezium transaction metadata.
#[derive(Debug, Clone)]
pub struct DebeziumTransaction {
    pub id: String,
    pub total_order: i64,
    pub data_collection_order: i64,
}

/// A Debezium CDC event envelope.
#[derive(Debug, Clone)]
pub struct DebeziumEnvelope {
    pub before: Option<JsonObject>,
    pub after: Option<JsonObject>,
    pub source: DebeziumSource,
    pub op: String,
    pub ts_ms: i64,
    pub transaction: Option<DebeziumTransaction>,
}

/// The fixed and per-event source metadata an envelope must carry.
pub open spec fn debezium_source_ok(
    src: DebeziumSource,
    relation_id: u32,
    schema: Seq<char>,
    table: Seq<char>,
    ts_ms: i64,
) -> bool {
    &&& src.version@ == "pgoutput-cmdline-0.1.0"@
    &&& src.connector@ == "postgresql"@
    &&& src.name@ == "pgoutput-cmdline"@
    &&& src.ts_ms == ts_ms
    &&& src.db@ == "postgres"@
    &&& src.schema@ == schema
    &&& src.table@ == table
    &&& src.lsn@ == dec_text(relation_id as int)
}

fn make_debezium_source(relation_id: u32, schema: &String, table: &String, ts_ms: i64) -> (r:
    DebeziumSource)
    ensures
        debezium_source_ok(r, relation_id, schema@, table@, ts_ms),
{
    DebeziumSource {
        version: "pgoutput-cmdline-0.1.0".to_owned(),
        connector: "postgresql".to_owned(),
        name: "pgoutput-cmdline".to_owned(),
        ts_ms,
        db: "postgres".to_owned(),
        schema: schema.clone(),
        table: table.clone(),
        lsn: u64_dec_string(relation_id as u64),
    }
}

/// Converts a change into a Debezium envelope stamped with the given
/// event time.  Only data records convert; transaction boundaries and
/// relation metadata yield nothing.  The row images stay textual.
pub fn convert_to_debezium(change: &Change, ts_ms: i64) -> (r: Option<DebeziumEnvelope>)
    ensures
        match change@ {
            ChangeModel::Insert { relation_id, schema, table, new_tuple } => {
                &&& r matches Some(env)
                &&& env.op@ == "c"@
                &&& env.before is None
                &&& (env.after matches Some(o) && o@ == tuple_str_entries(new_tuple))
                &&& env.ts_ms == ts_ms
                &&& env.transaction is None
                &&& debezium_source_ok(env.source, relation_id, schema, table, ts_ms)
            },
            ChangeModel::Update { relation_id, schema, table, old_tuple, new_tuple } => {
                &&& r matches Some(env)
                &&& env.op@ == "u"@
                &&& match old_tuple {
                    Some(t) => env.before matches Some(o) && o@ == tuple_str_entries(t),
                    None => env.before is None,
                }
                &&& (env.after matches Some(o) && o@ == tuple_str_entries(new_tuple))
                &&& env.ts_ms == ts_ms
                &&& env.transaction is None
                &&& debezium_source_ok(env.source, relation_id, schema, table, ts_ms)
            },
            ChangeModel::Delete { relation_id, schema, table, old_tuple } => {
                &&& r matches Some(env)
                &&& env.op@ == "d"@
                &&& (env.before matches Some(o) && o@ == tuple_str_entries(old_tuple))
                &&& env.after is None
                &&& env.ts_ms == ts_ms
                &&& env.transaction is None
                &&& debezium_source_ok(env.source, relation_id, schema, table, ts_ms)
            },
            _ => r is None,
        },
{
    match change {
        Change::Insert { relation_id, schema, table, new_tuple } => Some(
            DebeziumEnvelope {
                before: None,
                after: Some(tuple_to_json(new_tuple)),
                source: make_debezium_source(*relation_id, schema, table, ts_ms),
                op: "c".to_owned(),
                ts_ms,
                transaction: None,
            },
        ),
        Change::Update { relation_id, schema, table, old_tuple, new_tuple } => {
            let before = match old_tuple {
                Some(t) => Some(tuple_to_json(t)),
                None => None,
            };
            Some(
                DebeziumEnvelope {
                    before,
                    after: Some(tuple_to_json(new_tuple)),
                    source: make_debezium_source(*relation_id, schema, table, ts_ms),
                    op: "u".to_owned(),
                    ts_ms,
                    transaction: None,
                },
            )
        },
        Change::Delete { relation_id, schema, table, old_tuple } => Some(
            DebeziumEnvelope {
                before: Some(tuple_to_json(old_tuple)),
                after: None,
                source: make_debezium_source(*relation_id, schema, table, ts_ms),
                op: "d".to_owned(),
                ts_ms,
                transaction: None,
            },
        ),
        _ => None,
    }
}

/// Converts a change into a Debezium envelope stamped with the wall
/// clock, as delivery to a sink would.
pub fn convert_to_debezium_test(change: &Change) -> (r: Option<DebeziumEnvelope>)
    ensures
        match change@ {
            ChangeModel::Insert { .. } => r is Some,
            ChangeModel::Update { .. } => r is Some,
            ChangeModel::Delete { .. } => r is Some,
            _ => r is None,
        },
{
    let ts_ms = now_unix_millis();
    convert_to_debezium(change, ts_ms)
}

// ---------------------------------------------------------------------------
// Feldera insert/delete events
// ---------------------------------------------------------------------------

/// One event of the insert/delete update format: exactly one of the
/// fields is set.
#[derive(Debug, Clone)]
pub struct FelderaUpdate {
    pub insert: Option<JsonObject>,
    pub delete: Option<JsonObject>,
    pub update: Option<JsonObject>,
}

/// The object a tuple converts to: typed by column metadata where a
/// column list is known, textual otherwise.
pub open spec fn feldera_entries(cols: Option<Seq<ColumnModel>>, t: TupleModel) -> Seq<
    (Seq<char>, JsonValueModel),
> {
    match cols {
        Some(cm) => spec_typed_entries(cm, t, cm.len() as int),
        None => tuple_str_entries(t),
    }
}

/// The model of an optional column list.
pub open spec fn opt_columns_model(cols: Option<&Vec<ColumnInfo>>) -> Option<Seq<ColumnModel>> {
    match cols {
        Some(cs) => Some(columns_model(cs@)),
        None => None,
    }
}

fn feldera_object(tuple: &Tuple, columns: Option<&Vec<ColumnInfo>>) -> (r: JsonObject)
    ensures
        r@ == feldera_entries(opt_columns_model(columns), tuple@),
{
    match columns {
        Some(cols) => tuple_to_json_with_types(tuple, cols),
        None => tuple_to_json(tuple),
    }
}

/// Converts a change into the insert/delete update format: an insert
/// yields one insert event, a delete one delete event, and an update a
/// delete of the old row followed by an insert of the new one (the
/// insert alone when no old row was captured).  Transaction boundaries
/// and relation metadata yield nothing.
pub fn convert_to_feldera(change: &Change, columns: Option<&Vec<ColumnInfo>>) -> (r: Vec<
    FelderaUpdate,
>)
    ensures
        ({
            let colsm = opt_columns_model(columns);
            match change@ {
                ChangeModel::Insert { new_tuple, .. } => {
                    &&& r@.len() == 1
                    &&& (r@[0].insert matches Some(o) && o@ == feldera_entries(colsm, new_tuple))
                    &&& r@[0].delete is None
                    &&& r@[0].update is None
                },
                ChangeModel::Update { old_tuple, new_tuple, .. } => match old_tuple {
                    Some(t) => {
                        &&& r@.len() == 2
                        &&& (r@[0].delete matches Some(o) && o@ == feldera_entries(colsm, t))
                        &&& r@[0].insert is None
                        &&& r@[0].update is None
                        &&& (r@[1].insert matches Some(o) && o@ == feldera_entries(
                            colsm,
                            new_tuple,
                        ))
                        &&& r@[1].delete is None
                        &&& r@[1].update is None
                    },
                    None => {
                        &&& r@.len() == 1
                        &&& (r@[0].insert matches Some(o) && o@ == feldera_entries(
                            colsm,
                            new_tuple,
                        ))
                        &&& r@[0].delete is None
                        &&& r@[0].update is None
                    },
                },
                ChangeModel::Delete { old_tuple, .. } => {
                    &&& r@.len() == 1
                    &&& (r@[0].delete matches Some(o) && o@ == feldera_entries(colsm, old_tuple))
                    &&& r@[0].insert is None
                    &&& r@[0].update is None
                },
                _ => r@.len() == 0,
            }
        }),
{
    let mut events: Vec<FelderaUpdate> = Vec::new();
    match change {
        Change::Insert { new_tuple, .. } => {
            events.push(
                FelderaUpdate {
                    insert: Some(feldera_object(new_tuple, columns)),
                    delete: None,
                    update: None,
                },
            );
        },
        Change::Update { old_tuple, new_tuple, .. } => {
            match old_tuple {
                Some(t) => {
                    events.push(
                        FelderaUpdate {
                            insert: None,
                            delete: Some(feldera_object(t, columns)),
                            update: None,
                        },
                    );
                },
                None => {},
            }
            events.push(
                FelderaUpdate {
                    insert: Some(feldera_object(new_tuple, columns)),
                    delete: None,
                    update: None,
                },
            );
        },
        Change::Delete { old_tuple, .. } => {
            events.push(
                FelderaUpdate {
                    insert: None,
                    delete: Some(feldera_object(old_tuple, columns)),
                    update: None,
                },
            );
        },
        _ => {},
    }
    events
}

/// Converts a change into the insert/delete update format without column
/// metadata, leaving every value textual.
pub fn convert_to_feldera_test(change: &Change) -> (r: Vec<FelderaUpdate>)
    ensures
        match change@ {
            ChangeModel::Insert { new_tuple, .. } => {
                &&& r@.len() == 1
                &&& (r@[0].insert matches Some(o) && o@ == tuple_str_entries(new_tuple))
                &&& r@[0].delete is None
                &&& r@[0].update is None
            },
            ChangeModel::Update { old_tuple, new_tuple, .. } => match old_tuple {
                Some(t) => {
                    &&& r@.len() == 2
                    &&& (r@[0].delete matches Some(o) && o@ == tuple_str_entries(t))
                    &&& (r@[1].insert matches Some(o) && o@ == tuple_str_entries(new_tuple))
                },
                None => {
                    &&& r@.len() == 1
                    &&& (r@[0].insert matches Some(o) && o@ == tuple_str_entries(new_tuple))
                },
            },
            ChangeModel::Delete { old_tuple, .. } => {
                &&& r@.len() == 1
                &&& (r@[0].delete matches Some(o) && o@ == tuple_str_entries(old_tuple))
            },
            _ => r@.len() == 0,
        },
{
    convert_to_feldera(change, None)
}

// ---------------------------------------------------------------------------
// Subject routing
// ---------------------------------------------------------------------------

/// The publish subject for a change under a subject prefix: transaction
/// boundaries go to fixed subjects, data and relation events to
/// `<prefix>.<schema>.<table>.<kind>`.
pub fn nats_subject(prefix: &str, change: &Change) -> (r: String)
    ensures
        match change@ {
            ChangeModel::Begin { .. } => r@ == prefix@ + ".transactions.begin.event"@,
            ChangeModel::Commit { .. } => r@ == prefix@ + ".transactions.commit.event"@,
            ChangeModel::Relation { schema, table, .. } => r@ == prefix@ + "."@ + schema + "."@
                + table + ".relation"@,
            ChangeModel::Insert { schema, table, .. } => r@ == prefix@ + "."@ + schema + "."@
                + table + ".insert"@,
            ChangeModel::Update { schema, table, .. } => r@ == prefix@ + "."@ + schema + "."@
                + table + ".update"@,
            ChangeModel::Delete { schema, table, .. } => r@ == prefix@ + "."@ + schema + "."@
                + table + ".delete"@,
        },
{
    let mut s = prefix.to_owned();
    match change {
        Change::Begin { .. } => {
            s.append(".transactions.begin.event");
        },
        Change::Commit { .. } => {
            s.append(".transactions.commit.event");
        },
        Change::Relation { schema, table, .. } => {
            s.append(".");
            s.append(schema.as_str());
            s.append(".");
            s.append(table.as_str());
            s.append(".relation");
        },
        Change::Insert { schema, table, .. } => {
            s.append(".");
            s.append(schema.as_str());
            s.append(".");
            s.append(table.as_str());
            s.append(".insert");
        },
        Change::Update { schema, table, .. } => {
            s.append(".");
            s.append(schema.as_str());
            s.append(".");
            s.append(table.as_str());
            s.append(".update");
        },
        Change::Delete { schema, table, .. } => {
            s.append(".");
            s.append(schema.as_str());
            s.append(".");
            s.append(table.as_str());
            s.append(".delete");
        },
    }
    s
}

// ---------------------------------------------------------------------------
// Plain-text rendering
// ---------------------------------------------------------------------------

/// The line printed for one tuple entry.
pub open spec fn value_line(e: (Seq<char>, Option<Seq<char>>)) -> Seq<char> {
    "    "@ + e.0 + ": "@ + match e.1 {
        Some(s) => s,
        None => "NULL"@,
    }
}

/// The lines printed for the first `k` entries of a tuple.
pub open spec fn value_lines(t: TupleModel, k: int) -> Seq<Seq<char>>
    decreases k,
{
    if k <= 0 {
        Seq::empty()
    } else {
        value_lines(t, k - 1) + seq![value_line(t[k - 1])]
    }
}

/// The line printed for one column descriptor.
pub open spec fn column_line(c: ColumnModel) -> Seq<char> {
    "    - "@ + c.name + " (type_id: "@ + dec_text(c.type_id as int) + ", flags: "@ + dec_text(
        c.flags as int,
    ) + ")"@
}

/// The lines printed for the first `k` column descriptors.
pub open spec fn column_lines(cols: Seq<ColumnModel>, k: int) -> Seq<Seq<char>>
    decreases k,
{
    if k <= 0 {
        Seq::empty()
    } else {
        column_lines(cols, k - 1) + seq![column_line(cols[k - 1])]
    }
}

/// The human-readable rendering of a change, line by line.
pub open spec fn text_lines(c: ChangeModel) -> Seq<Seq<char>> {
    match c {
        ChangeModel::Begin { lsn, timestamp, xid } => seq![
            "BEGIN [LSN: "@ + lsn + ", XID: "@ + dec_text(xid as int) + ", Time: "@
                + dec_text_signed(timestamp as int) + "]"@,
        ],
        ChangeModel::Commit { lsn, timestamp } => seq![
            "COMMIT [LSN: "@ + lsn + ", Time: "@ + dec_text_signed(timestamp as int) + "]"@,
        ],
        ChangeModel::Relation { relation_id, schema, table, columns } => seq![
            "RELATION ["@ + schema + "."@ + table + " (ID: "@ + dec_text(relation_id as int)
                + ")]"@,
            "  Columns:"@,
        ] + column_lines(columns, columns.len() as int),
        ChangeModel::Insert { relation_id, schema, table, new_tuple } => seq![
            "INSERT into "@ + schema + "."@ + table + " (ID: "@ + dec_text(relation_id as int)
                + ")"@,
            "  New values:"@,
        ] + value_lines(new_tuple, new_tuple.len() as int),
        ChangeModel::Update { relation_id, schema, table, old_tuple, new_tuple } => seq![
            "UPDATE "@ + schema + "."@ + table + " (ID: "@ + dec_text(relation_id as int) + ")"@,
        ] + match old_tuple {
            Some(t) => seq!["  Old values:"@] + value_lines(t, t.len() as int),
            None => Seq::empty(),
        } + seq!["  New values:"@] + value_lines(new_tuple, new_tuple.len() as int),
        ChangeModel::Delete { relation_id, schema, table, old_tuple } => seq![
            "DELETE from "@ + schema + "."@ + table + " (ID: "@ + dec_text(relation_id as int)
                + ")"@,
            "  Old values:"@,
        ] + value_lines(old_tuple, old_tuple.len() as int),
    }
}

/// The models of a list of rendered lines.
pub open spec fn lines_model(v: Seq<String>) -> Seq<Seq<char>> {
    Seq::new(v.len(), |i: int| v[i]@)
}

fn push_value_lines(out: &mut Vec<String>, t: &Tuple)
    ensures
        lines_model(final(out)@) =~= lines_model(old(out)@) + value_lines(t@, t@.len() as int),
{
    let mut k: usize = 0;
    while k < t.entries.len()
        invariant
            k <= t.entries@.len(),
            lines_model(out@) =~= lines_model(old(out)@) + value_lines(t@, k as int),
        decreases t.entries@.len() - k,
    {
        let ghost pre = lines_model(out@);
        let mut line = "    ".to_owned();
        line.append(t.entries[k].0.as_str());
        line.append(": ");
        match &t.entries[k].1 {
            Some(s) => {
                line.append(s.as_str());
            },
            None => {
                line.append("NULL");
            },
        }
        proof {
            assert(line@ == value_line(t@[k as int]));
        }
        out.push(line);
        proof {
            assert(lines_model(out@) =~= pre + seq![value_line(t@[k as int])]);
        }
        k += 1;
    }
}

fn push_column_lines(out: &mut Vec<String>, cols: &Vec<ColumnInfo>)
    ensures
        lines_model(final(out)@) =~= lines_model(old(out)@) + column_lines(
            columns_model(cols@),
            cols@.len() as int,
        ),
{
    let ghost colsm = columns_model(cols@);
    let mut k: usize = 0;
    while k < cols.len()
        invariant
            k <= cols@.len(),
            colsm == columns_model(cols@),
            lines_model(out@) =~= lines_model(old(out)@) + column_lines(colsm, k as int),
        decreases cols@.len() - k,
    {
        let ghost pre = lines_model(out@);
        let col = &cols[k];
        let mut line = "    - ".to_owned();
        line.append(col.name.as_str());
        line.append(" (type_id: ");
        line.append(u64_dec_string(col.type_id as u64).as_str());
        line.append(", flags: ");
        line.append(u64_dec_string(col.flags as u64).as_str());
        line.append(")");
        proof {
            assert(line@ == column_line(colsm[k as int]));
        }
        out.push(line);
        proof {
            assert(lines_model(out@) =~= pre + seq![column_line(colsm[k as int])]);
        }
        k += 1;
    }
}

fn heading(verb: &str, schema: &String, table: &String, relation_id: u32, closer: &str) -> (r:
    String)
    ensures
        r@ == verb@ + schema@ + "."@ + table@ + " (ID: "@ + dec_text(relation_id as int) + closer@,
{
    let mut line = verb.to_owned();
    line.append(schema.as_str());
    line.append(".");
    line.append(table.as_str());
    line.append(" (ID: ");
    line.append(u64_dec_string(relation_id as u64).as_str());
    line.append(closer);
    line
}

/// Renders a change in the human-readable text format, one string per
/// output line.
pub fn render_text(change: &Change) -> (r: Vec<String>)
    ensures
        lines_model(r@) == text_lines(change@),
{
    let mut out: Vec<String> = Vec::new();
    match change {
        Change::Begin { lsn, timestamp, xid } => {
            let mut line = "BEGIN [LSN: ".to_owned();
            line.append(lsn.as_str());
            line.append(", XID: ");
            line.append(u64_dec_string(*xid as u64).as_str());
            line.append(", Time: ");
            line.append(i64_dec_string(*timestamp).as_str());
            line.append("]");
            out.push(line);
            proof {
                assert(lines_model(out@) =~= text_lines(change@));
            }
        },
        Change::Commit { lsn, timestamp } => {
            let mut line = "COMMIT [LSN: ".to_owned();
            line.append(lsn.as_str());
            line.append(", Time: ");
            line.append(i64_dec_string(*timestamp).as_str());
            line.append("]");
            out.push(line);
            proof {
                assert(lines_model(out@) =~= text_lines(change@));
            }
        },
        Change::Relation { relation_id, schema, table, columns } => {
            let h = heading("RELATION [", schema, table, *relation_id, ")]");
            let ghost hl = h@;
            out.push(h);
            out.push("  Columns:".to_owned());
            proof {
                assert(lines_model(out@) =~= seq![hl, "  Columns:"@]);
            }
            push_column_lines(&mut out, columns);
            proof {
                assert(lines_model(out@) =~= seq![hl, "  Columns:"@] + column_lines(
                    columns_model(columns@),
                    columns@.len() as int,
                ));
                assert(lines_model(out@) =~= text_lines(change@));
            }
        },
        Change::Insert { relation_id, schema, table, new_tuple } => {
            let h = heading("INSERT into ", schema, table, *relation_id, ")");
            let ghost hl = h@;
            out.push(h);
            out.push("  New values:".to_owned());
            proof {
                assert(lines_model(out@) =~= seq![hl, "  New values:"@]);
            }
            push_value_lines(&mut out, new_tuple);
            proof {
                assert(lines_model(out@) =~= seq![hl, "  New values:"@] + value_lines(
                    new_tuple@,
                    new_tuple@.len() as int,
                ));
                assert(lines_model(out@) =~= text_lines(change@));
            }
        },
        Change::Update { relation_id, schema, table, old_tuple, new_tuple } => {
            let h = heading("UPDATE ", schema, table, *relation_id, ")");
            let ghost hl = h@;
            out.push(h);
            proof {
                assert(lines_model(out@) =~= seq![hl]);
            }
            match old_tuple {
                Some(t) => {
                    out.push("  Old values:".to_owned());
                    proof {
                        assert(lines_model(out@) =~= seq![hl, "  Old values:"@]);
                    }
                    push_value_lines(&mut out, t);
                    proof {
                        assert(lines_model(out@) =~= seq![hl] + (seq!["  Old values:"@]
                            + value_lines(t@, t@.len() as int)));
                    }
                },
                None => {},
            }
            let ghost mid = lines_model(out@);
            out.push("  New values:".to_owned());
            proof {
                assert(lines_model(out@) =~= mid + seq!["  New values:"@]);
            }
            push_value_lines(&mut out, new_tuple);
            proof {
                assert(lines_model(out@) =~= mid + seq!["  New values:"@] + value_lines(
                    new_tuple@,
                    new_tuple@.len() as int,
                ));
                assert(lines_model(out@) =~= text_lines(change@));
            }
        },
        Change::Delete { relation_id, schema, table, old_tuple } => {
            let h = heading("DELETE from ", schema, table, *relation_id, ")");
            let ghost hl = h@;
            out.push(h);
            out.push("  Old values:".to_owned());
            proof {
                assert(lines_model(out@) =~= seq![hl, "  Old values:"@]);
            }
            push_value_lines(&mut out, old_tuple);
            proof {
                assert(lines_model(out@) =~= seq![hl, "  Old values:"@] + value_lines(
                    old_tuple@,
                    old_tuple@.len() as int,
                ));
                assert(lines_model(out@) =~= text_lines(change@));
            }
        },
    }
    out
}

// ---------------------------------------------------------------------------
// Ingress URL construction
// ---------------------------------------------------------------------------

/// Whether a byte passes through percent-encoding unchanged: ASCII
/// alphanumerics and `- . _ ~`.
pub open spec fn url_unreserved(b: u8) -> bool {
    (48 <= b <= 57) || (65 <= b <= 90) || (97 <= b <= 122) || b == 45 || b == 46 || b == 95
        || b == 126
}

/// The percent-encoding of one byte.
pub open spec fn url_encode_byte(b: u8) -> Seq<char> {
    if url_unreserved(b) {
        seq![b as char]
    } else {
        seq!['%', hex_digit((b >> 4) as int), hex_digit((b & 15) as int)]
    }
}

/// The percent-encoding of the first `k` bytes.
pub open spec fn url_encode_bytes(bytes: Seq<u8>, k: int) -> Seq<char>
    decreases k,
{
    if k <= 0 {
        Seq::empty()
    } else {
        url_encode_bytes(bytes, k - 1) + url_encode_byte(bytes[k - 1])
    }
}

/// The percent-encoding of a string's UTF-8 bytes.
pub open spec fn url_encoded(s: Seq<char>) -> Seq<char> {
    url_encode_bytes(encode_utf8(s), encode_utf8(s).len() as int)
}

/// Relies on `urlencoding::encode`: every byte except ASCII alphanumerics
/// and `- . _ ~` is written as `%` and two upper-case hex digits.
#[verifier::external_body]
fn url_encode(s: &str) -> (r: String)
    ensures
        r@ == url_encoded(s@),
{
    urlencoding::encode(s).into_owned()
}

/// A string with its trailing `'/'` characters removed.
pub open spec fn trim_trailing_slashes(s: Seq<char>) -> Seq<char>
    decreases s.len(),
{
    if s.len() > 0 && s.last() == '/' {
        trim_trailing_slashes(s.drop_last())
    } else {
        s
    }
}

fn trim_slashes(s: &str) -> (r: &str)
    ensures
        r@ == trim_trailing_slashes(s@),
{
    let mut end = s.unicode_len();
    proof {
        assert(s@.take(s@.len() as int) =~= s@);
    }
    while end > 0 && s.get_char(end - 1) == '/'
        invariant
            end <= s@.len(),
            trim_trailing_slashes(s@) == trim_trailing_slashes(s@.take(end as int)),
        decreases end,
    {
        proof {
            assert(s@.take(end as int).drop_last() =~= s@.take(end - 1));
            assert(s@.take(end as int).last() == s@[end - 1]);
        }
        end -= 1;
    }
    proof {
        if end > 0 {
            assert(s@.take(end as int).last() == s@[end - 1]);
        }
        assert(trim_trailing_slashes(s@.take(end as int)) == s@.take(end as int));
    }
    let r = s.substring_char(0, end);
    proof {
        assert(r@ =~= s@.take(end as int));
    }
    r
}

/// Builds the ingress endpoint for a pipeline's table: the base URL
/// without its trailing slashes, the percent-encoded pipeline and table
/// names, and the insert/delete format parameters.
pub fn build_ingress_url(base: &str, pipeline: &str, table: &str) -> (r: String)
    ensures
        r@ =~= trim_trailing_slashes(base@) + "/v0/pipelines/"@ + url_encoded(pipeline@)
            + "/ingress/"@ + url_encoded(table@)
            + "?format=json&update_format=insert_delete&array=true"@,
{
    let mut url = trim_slashes(base).to_owned();
    url.append("/v0/pipelines/");
    url.append(url_encode(pipeline).as_str());
    url.append("/ingress/");
    url.append(url_encode(table).as_str());
    url.append("?format=json&update_format=insert_delete&array=true");
    url
}

// ---------------------------------------------------------------------------
// Output targets
// ---------------------------------------------------------------------------

/// A consumer of decoded changes.  The surrounding process implements
/// this for each destination it delivers to; a failed delivery surfaces
/// its description.
pub trait OutputTarget {
    /// Delivers one change.
    fn write_change(&self, change: &Change) -> Result<(), String>;
}

/// Fans one change out to several targets, in order, stopping at the
/// first failure.
pub struct CompositeOutput {
    pub targets: Vec<std::sync::Arc<dyn OutputTarget>>,
}

impl CompositeOutput {
    /// A composite over the given targets.
    pub fn new(targets: Vec<std::sync::Arc<dyn OutputTarget>>) -> (r: CompositeOutput)
        ensures
            r.targets == targets,
    {
        CompositeOutput { targets }
    }

    /// Delivers one change to every target in order; the first failure
    /// ends the round and surfaces its description.
    pub fn write_change(&self, change: &Change) -> Result<(), String> {
        let mut k: usize = 0;
        while k < self.targets.len()
            decreases self.targets@.len() - k,
        {
            match self.targets[k].write_change(change) {
                Ok(()) => {},
                Err(e) => {
                    return Err(e);
                },
            }
            k += 1;
        }
        Ok(())
    }
}

/// The change-to-stdout renderer's configuration.
pub struct StdoutOutput {
    pub format: OutputFormat,
}

impl StdoutOutput {
    /// A stdout output in the given format.
    pub fn new(format: OutputFormat) -> (r: StdoutOutput)
        ensures
            r.format == format,
    {
        StdoutOutput { format }
    }
}

} // verus!
