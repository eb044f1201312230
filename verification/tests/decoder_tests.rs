use pgoutput_cmdline::decoder::{
    decode_message, Change, ColumnInfo, DecodeError, RelationCache, Tuple,
};
use pgoutput_cmdline::encoder::{
    encode_begin, encode_commit, encode_delete, encode_insert, encode_keepalive_frame,
    encode_log_data_frame, encode_relation, encode_update,
};
use pgoutput_cmdline::lsn::{format_lsn, parse_lsn};
use pgoutput_cmdline::output::{build_ingress_url, nats_subject, render_text, tuple_to_json_with_types, JsonValue};
use pgoutput_cmdline::replication::{FrameOutcome, ReplicationSession, SessionPhase};
use pgoutput_cmdline::text::{i64_dec_string, parse_i64, u64_dec_string};

fn tuple_of(pairs: &[(&str, Option<&str>)]) -> Tuple {
    let mut t = Tuple::new();
    for (name, value) in pairs {
        t.push(name.to_string(), value.map(|v| v.to_string()));
    }
    t
}

fn users_columns() -> Vec<ColumnInfo> {
    vec![
        ColumnInfo { name: "id".to_string(), type_id: 23, flags: 1 },
        ColumnInfo { name: "name".to_string(), type_id: 1043, flags: 0 },
    ]
}

/// Encoding a synthetic relation record and then an insert record for the
/// same relation decodes back to the relation's schema and the inserted
/// row, with the cached column names as keys in cached order.
#[test]
fn test_relation_insert_round_trip() {
    let mut cache = RelationCache::new();

    let rel = encode_relation(16384, "public", "users", &users_columns());
    match decode_message(&mut cache, &rel).unwrap().unwrap() {
        Change::Relation { relation_id, schema, table, columns } => {
            assert_eq!(relation_id, 16384);
            assert_eq!(schema, "public");
            assert_eq!(table, "users");
            assert_eq!(columns.len(), 2);
            assert_eq!(columns[0].name, "id");
            assert_eq!(columns[0].type_id, 23);
            assert_eq!(columns[0].flags, 1);
            assert_eq!(columns[1].name, "name");
            assert_eq!(columns[1].type_id, 1043);
            assert_eq!(columns[1].flags, 0);
        }
        other => panic!("expected a Relation change, got {:?}", decode_kind(&other)),
    }

    let row = tuple_of(&[("id", Some("1")), ("name", Some("Alice"))]);
    let ins = encode_insert(16384, &row);
    match decode_message(&mut cache, &ins).unwrap().unwrap() {
        Change::Insert { relation_id, schema, table, new_tuple } => {
            assert_eq!(relation_id, 16384);
            assert_eq!(schema, "public");
            assert_eq!(table, "users");
            assert_eq!(new_tuple.len(), 2);
            assert_eq!(new_tuple.get("id"), Some(&Some("1".to_string())));
            assert_eq!(new_tuple.get("name"), Some(&Some("Alice".to_string())));
        }
        other => panic!("expected an Insert change, got {:?}", decode_kind(&other)),
    }
}

fn decode_kind(c: &Change) -> &'static str {
    match c {
        Change::Begin { .. } => "Begin",
        Change::Commit { .. } => "Commit",
        Change::Relation { .. } => "Relation",
        Change::Insert { .. } => "Insert",
        Change::Update { .. } => "Update",
        Change::Delete { .. } => "Delete",
    }
}

/// An update record with a key-only old row image decodes to an Update
/// carrying both images; the key-only image holds the key value and null
/// for the column the record omitted.
#[test]
fn test_update_with_key_only_old_tuple() {
    let mut cache = RelationCache::new();
    let rel = encode_relation(16384, "public", "users", &users_columns());
    decode_message(&mut cache, &rel).unwrap();

    let old_row = tuple_of(&[("id", Some("1")), ("name", None)]);
    let new_row = tuple_of(&[("id", Some("1")), ("name", Some("Bob"))]);
    let upd = encode_update(16384, Some(&old_row), true, &new_row);
    match decode_message(&mut cache, &upd).unwrap().unwrap() {
        Change::Update { old_tuple, new_tuple, .. } => {
            let old = old_tuple.expect("old tuple should be present");
            assert_eq!(old.get("id"), Some(&Some("1".to_string())));
            assert_eq!(old.get("name"), Some(&None));
            assert_eq!(new_tuple.get("id"), Some(&Some("1".to_string())));
            assert_eq!(new_tuple.get("name"), Some(&Some("Bob".to_string())));
        }
        other => panic!("expected an Update change, got {:?}", decode_kind(&other)),
    }
}

/// An update record without an old row image decodes to an Update with no
/// old tuple.
#[test]
fn test_update_without_old_tuple() {
    let mut cache = RelationCache::new();
    let rel = encode_relation(16384, "public", "users", &users_columns());
    decode_message(&mut cache, &rel).unwrap();

    let new_row = tuple_of(&[("id", Some("2")), ("name", Some("Carol"))]);
    let upd = encode_update(16384, None, false, &new_row);
    match decode_message(&mut cache, &upd).unwrap().unwrap() {
        Change::Update { old_tuple, new_tuple, .. } => {
            assert!(old_tuple.is_none());
            assert_eq!(new_tuple.get("name"), Some(&Some("Carol".to_string())));
        }
        other => panic!("expected an Update change, got {:?}", decode_kind(&other)),
    }
}

/// A delete record with old tuple {"id":"42"} decodes to a Delete whose
/// old tuple maps "id" to "42".
#[test]
fn test_delete_decodes_old_tuple() {
    let mut cache = RelationCache::new();
    let cols = vec![ColumnInfo { name: "id".to_string(), type_id: 23, flags: 1 }];
    let rel = encode_relation(16385, "public", "orders", &cols);
    decode_message(&mut cache, &rel).unwrap();

    let old_row = tuple_of(&[("id", Some("42"))]);
    let del = encode_delete(16385, &old_row, true);
    match decode_message(&mut cache, &del).unwrap().unwrap() {
        Change::Delete { relation_id, old_tuple, .. } => {
            assert_eq!(relation_id, 16385);
            assert_eq!(old_tuple.len(), 1);
            assert_eq!(old_tuple.get("id"), Some(&Some("42".to_string())));
        }
        other => panic!("expected a Delete change, got {:?}", decode_kind(&other)),
    }
}

/// A data record referencing a relation id never announced fails with the
/// unknown-relation error, not a silent empty tuple.
#[test]
fn test_unknown_relation_is_an_error() {
    let mut cache = RelationCache::new();
    let row = tuple_of(&[("id", Some("1"))]);
    let ins = encode_insert(999, &row);
    let r = decode_message(&mut cache, &ins);
    assert_eq!(r, Err(DecodeError::UnknownRelation { relation_id: 999 }));
}

/// A null-tagged column decodes to None; a text-tagged column with a
/// zero-length payload decodes to Some("") — the two are distinguishable.
#[test]
fn test_null_versus_empty_text() {
    let mut cache = RelationCache::new();
    let cols = vec![
        ColumnInfo { name: "a".to_string(), type_id: 25, flags: 0 },
        ColumnInfo { name: "b".to_string(), type_id: 25, flags: 0 },
    ];
    let rel = encode_relation(7, "s", "t", &cols);
    decode_message(&mut cache, &rel).unwrap();

    let row = tuple_of(&[("a", None), ("b", Some(""))]);
    let ins = encode_insert(7, &row);
    match decode_message(&mut cache, &ins).unwrap().unwrap() {
        Change::Insert { new_tuple, .. } => {
            assert_eq!(new_tuple.get("a"), Some(&None));
            assert_eq!(new_tuple.get("b"), Some(&Some("".to_string())));
            assert_ne!(new_tuple.get("a"), new_tuple.get("b"));
        }
        other => panic!("expected an Insert change, got {:?}", decode_kind(&other)),
    }
}

/// An unrecognized record type byte is skipped without an error and
/// without touching the relation cache.
#[test]
fn test_unknown_record_type_skipped() {
    let mut cache = RelationCache::new();
    let rel = encode_relation(16384, "public", "users", &users_columns());
    decode_message(&mut cache, &rel).unwrap();

    // 'M' introduces a logical-decoding message record, outside the known set
    let record = vec![77u8, 0, 1, 2, 3];
    let r = decode_message(&mut cache, &record);
    assert_eq!(r, Ok(None));
    assert!(cache.get_relation_columns(16384).is_some());

    let truncate_like = vec![84u8];
    assert_eq!(decode_message(&mut cache, &truncate_like), Ok(None));
}

/// A wire column count that disagrees with the cached schema is a fatal
/// decode error.
#[test]
fn test_column_count_mismatch() {
    let mut cache = RelationCache::new();
    let rel = encode_relation(16384, "public", "users", &users_columns());
    decode_message(&mut cache, &rel).unwrap();

    let short_row = tuple_of(&[("id", Some("1"))]);
    let ins = encode_insert(16384, &short_row);
    let r = decode_message(&mut cache, &ins);
    assert_eq!(r, Err(DecodeError::ColumnCountMismatch { expected: 2, found: 1 }));
}

/// Multi-byte text survives the encode/decode round trip.
#[test]
fn test_unicode_round_trip() {
    let mut cache = RelationCache::new();
    let cols = vec![ColumnInfo { name: "name".to_string(), type_id: 25, flags: 0 }];
    let rel = encode_relation(11, "public", "users", &cols);
    decode_message(&mut cache, &rel).unwrap();

    let row = tuple_of(&[("name", Some("Håkon Müller 李明"))]);
    let ins = encode_insert(11, &row);
    match decode_message(&mut cache, &ins).unwrap().unwrap() {
        Change::Insert { new_tuple, .. } => {
            assert_eq!(new_tuple.get("name"), Some(&Some("Håkon Müller 李明".to_string())));
        }
        other => panic!("expected an Insert change, got {:?}", decode_kind(&other)),
    }
}

/// Bytes that are not valid UTF-8 decode to replacement characters
/// rather than failing or passing through unchanged.
#[test]
fn test_invalid_utf8_value_is_repaired() {
    let mut cache = RelationCache::new();
    let cols = vec![ColumnInfo { name: "v".to_string(), type_id: 25, flags: 0 }];
    let rel = encode_relation(12, "s", "t", &cols);
    decode_message(&mut cache, &rel).unwrap();

    // An insert record written by hand, with a one-byte text value 0xFF.
    let mut record = vec![73u8]; // 'I'
    record.extend_from_slice(&12u32.to_be_bytes());
    record.push(78); // 'N'
    record.extend_from_slice(&1u16.to_be_bytes());
    record.push(116); // 't'
    record.extend_from_slice(&1u32.to_be_bytes());
    record.push(0xFF);
    match decode_message(&mut cache, &record).unwrap().unwrap() {
        Change::Insert { new_tuple, .. } => {
            assert_eq!(new_tuple.get("v"), Some(&Some("\u{FFFD}".to_string())));
        }
        other => panic!("expected an Insert change, got {:?}", decode_kind(&other)),
    }
}

/// A truncated keepalive frame is a protocol error.
#[test]
fn test_truncated_keepalive_is_protocol_error() {
    let mut s = ReplicationSession::new(None);
    s.begin_handshake();
    s.begin_streaming();
    let r = s.handle_frame(&[107u8, 0, 0]);
    assert!(r.is_err());
    assert_eq!(r.unwrap_err().describe(), "protocol error at byte offset 1");
}

/// Errors describe their taxonomy kind and their detail.
#[test]
fn test_error_descriptions() {
    assert_eq!(
        DecodeError::Malformed { offset: 7 }.describe(),
        "malformed change record at byte offset 7"
    );
    assert_eq!(
        DecodeError::ColumnCountMismatch { expected: 2, found: 1 }.describe(),
        "column count mismatch: expected 2, found 1"
    );
    assert_eq!(
        DecodeError::UnknownRelation { relation_id: 999 }.describe(),
        "unknown relation 999"
    );
}

/// A truncated record is a malformed-record error, not a panic.
#[test]
fn test_truncated_record_is_malformed() {
    let mut cache = RelationCache::new();
    assert_eq!(decode_message(&mut cache, &[]), Err(DecodeError::Malformed { offset: 0 }));
    assert_eq!(
        decode_message(&mut cache, &[66u8, 1, 2]),
        Err(DecodeError::Malformed { offset: 1 })
    );
}

/// A begin record surfaces the final position, the commit time moved to
/// the Unix epoch, and the transaction id.
#[test]
fn test_begin_record_fields() {
    let mut cache = RelationCache::new();
    let rec = encode_begin(0x16B2D50, 730826470123456, 1000);
    match decode_message(&mut cache, &rec).unwrap().unwrap() {
        Change::Begin { lsn, timestamp, xid } => {
            assert_eq!(lsn, "0/16B2D50");
            assert_eq!(timestamp, 730826470123456 + 946_684_800_000_000);
            assert_eq!(xid, 1000);
        }
        other => panic!("expected a Begin change, got {:?}", decode_kind(&other)),
    }
}

/// A commit record surfaces the commit position and timestamp only.
#[test]
fn test_commit_record_fields() {
    let mut cache = RelationCache::new();
    let rec = encode_commit(0x16B2E20, 0x16B2F00, 730826470123457);
    match decode_message(&mut cache, &rec).unwrap().unwrap() {
        Change::Commit { lsn, timestamp } => {
            assert_eq!(lsn, "0/16B2E20");
            assert_eq!(timestamp, 730826470123457 + 946_684_800_000_000);
        }
        other => panic!("expected a Commit change, got {:?}", decode_kind(&other)),
    }
}

/// A second relation record for the same id replaces the cached schema
/// wholesale.
#[test]
fn test_relation_replaces_schema() {
    let mut cache = RelationCache::new();
    let rel = encode_relation(16384, "public", "users", &users_columns());
    decode_message(&mut cache, &rel).unwrap();

    let new_cols = vec![ColumnInfo { name: "uid".to_string(), type_id: 20, flags: 1 }];
    let rel2 = encode_relation(16384, "public", "users", &new_cols);
    decode_message(&mut cache, &rel2).unwrap();

    let cached = cache.get_relation_columns(16384).unwrap();
    assert_eq!(cached.len(), 1);
    assert_eq!(cached[0].name, "uid");
    assert_eq!(cached[0].type_id, 20);
}

/// Log positions format to the canonical "<hi>/<lo>" upper-case hex form.
#[test]
fn test_format_lsn() {
    assert_eq!(format_lsn(0), "0/0");
    assert_eq!(format_lsn(0x16B2D50), "0/16B2D50");
    assert_eq!(format_lsn(0x1_0000_0000), "1/0");
    assert_eq!(format_lsn(0xAB_DEAD_BEEF), "AB/DEADBEEF");
    assert_eq!(format_lsn(u64::MAX), "FFFFFFFF/FFFFFFFF");
}

/// Log positions parse from their textual form, in either hex case, and
/// reject malformed text.
#[test]
fn test_parse_lsn() {
    assert_eq!(parse_lsn("0/0"), Some(0));
    assert_eq!(parse_lsn("0/16B2D50"), Some(0x16B2D50));
    assert_eq!(parse_lsn("ab/deadbeef"), Some(0xAB_DEAD_BEEF));
    assert_eq!(parse_lsn("FFFFFFFF/FFFFFFFF"), Some(u64::MAX));
    assert_eq!(parse_lsn(""), None);
    assert_eq!(parse_lsn("123"), None);
    assert_eq!(parse_lsn("1/"), None);
    assert_eq!(parse_lsn("/1"), None);
    assert_eq!(parse_lsn("1/2/3"), None);
    assert_eq!(parse_lsn("100000000/0"), None);
    assert_eq!(parse_lsn("xyz/1"), None);
}

/// Formatting then parsing a log position gives the position back.
#[test]
fn test_lsn_round_trip() {
    for v in [0u64, 1, 0x16B2D50, 0xFFFF_FFFF, 0x1_0000_0000, u64::MAX] {
        assert_eq!(parse_lsn(&format_lsn(v)), Some(v));
    }
}

/// Decimal integer parsing matches the standard library's acceptance.
#[test]
fn test_parse_i64() {
    assert_eq!(parse_i64("0"), Some(0));
    assert_eq!(parse_i64("123"), Some(123));
    assert_eq!(parse_i64("+42"), Some(42));
    assert_eq!(parse_i64("-17"), Some(-17));
    assert_eq!(parse_i64("9223372036854775807"), Some(i64::MAX));
    assert_eq!(parse_i64("-9223372036854775808"), Some(i64::MIN));
    assert_eq!(parse_i64("9223372036854775808"), None);
    assert_eq!(parse_i64("-9223372036854775809"), None);
    assert_eq!(parse_i64(""), None);
    assert_eq!(parse_i64("+"), None);
    assert_eq!(parse_i64("12a"), None);
    assert_eq!(parse_i64("1.5"), None);
    assert_eq!(parse_i64(" 1"), None);
}

/// Decimal rendering of unsigned and signed values.
#[test]
fn test_dec_strings() {
    assert_eq!(u64_dec_string(0), "0");
    assert_eq!(u64_dec_string(16384), "16384");
    assert_eq!(u64_dec_string(u64::MAX), "18446744073709551615");
    assert_eq!(i64_dec_string(-1), "-1");
    assert_eq!(i64_dec_string(i64::MIN), "-9223372036854775808");
    assert_eq!(i64_dec_string(730826470123456), "730826470123456");
}

/// Typed tuple conversion: booleans, integers, numerics and floats get
/// JSON kinds of their own; unparseable values and other types stay text.
#[test]
fn test_tuple_to_json_with_types() {
    let cols = vec![
        ColumnInfo { name: "id".to_string(), type_id: 23, flags: 1 },
        ColumnInfo { name: "active".to_string(), type_id: 16, flags: 0 },
        ColumnInfo { name: "score".to_string(), type_id: 701, flags: 0 },
        ColumnInfo { name: "note".to_string(), type_id: 25, flags: 0 },
        ColumnInfo { name: "amount".to_string(), type_id: 1700, flags: 0 },
        ColumnInfo { name: "missing".to_string(), type_id: 25, flags: 0 },
        ColumnInfo { name: "odd".to_string(), type_id: 16, flags: 0 },
    ];
    let tuple = tuple_of(&[
        ("id", Some("7")),
        ("active", Some("t")),
        ("score", Some("1.5")),
        ("note", Some("hi")),
        ("amount", Some("12")),
        ("odd", Some("maybe")),
        ("extra", Some("ignored")),
    ]);

    let obj = tuple_to_json_with_types(&tuple, &cols);
    assert_eq!(obj.len(), 6);
    assert!(matches!(obj.get("id"), Some(JsonValue::Int(7))));
    assert!(matches!(obj.get("active"), Some(JsonValue::Bool(true))));
    assert!(matches!(obj.get("score"), Some(JsonValue::Float(s)) if s == "1.5"));
    assert!(matches!(obj.get("note"), Some(JsonValue::Str(s)) if s == "hi"));
    assert!(matches!(obj.get("amount"), Some(JsonValue::Int(12))));
    assert!(matches!(obj.get("odd"), Some(JsonValue::Str(s)) if s == "maybe"));
    assert!(obj.get("missing").is_none());
    assert!(obj.get("extra").is_none());

    let nulls = tuple_of(&[("id", None)]);
    let cols1 = vec![ColumnInfo { name: "id".to_string(), type_id: 23, flags: 1 }];
    let obj2 = tuple_to_json_with_types(&nulls, &cols1);
    assert!(matches!(obj2.get("id"), Some(JsonValue::Null)));
}

/// Subject routing per change kind.
#[test]
fn test_nats_subject() {
    let begin = Change::Begin { lsn: "0/1".to_string(), timestamp: 0, xid: 1 };
    assert_eq!(nats_subject("postgres", &begin), "postgres.transactions.begin.event");

    let commit = Change::Commit { lsn: "0/1".to_string(), timestamp: 0 };
    assert_eq!(nats_subject("postgres", &commit), "postgres.transactions.commit.event");

    let insert = Change::Insert {
        relation_id: 1,
        schema: "public".to_string(),
        table: "users".to_string(),
        new_tuple: Tuple::new(),
    };
    assert_eq!(nats_subject("postgres", &insert), "postgres.public.users.insert");

    let update = Change::Update {
        relation_id: 1,
        schema: "public".to_string(),
        table: "users".to_string(),
        old_tuple: None,
        new_tuple: Tuple::new(),
    };
    assert_eq!(nats_subject("postgres", &update), "postgres.public.users.update");

    let delete = Change::Delete {
        relation_id: 1,
        schema: "public".to_string(),
        table: "users".to_string(),
        old_tuple: Tuple::new(),
    };
    assert_eq!(nats_subject("postgres", &delete), "postgres.public.users.delete");

    let relation = Change::Relation {
        relation_id: 1,
        schema: "public".to_string(),
        table: "users".to_string(),
        columns: vec![],
    };
    assert_eq!(nats_subject("postgres", &relation), "postgres.public.users.relation");
}

/// Ingress URL construction trims trailing slashes and percent-encodes
/// the pipeline and table names.
#[test]
fn test_build_ingress_url() {
    assert_eq!(
        build_ingress_url("http://localhost:8080/", "my pipeline", "public_users"),
        "http://localhost:8080/v0/pipelines/my%20pipeline/ingress/public_users?format=json&update_format=insert_delete&array=true"
    );
    assert_eq!(
        build_ingress_url("https://feldera.example//", "p", "t/x"),
        "https://feldera.example/v0/pipelines/p/ingress/t%2Fx?format=json&update_format=insert_delete&array=true"
    );
}

/// The human-readable text rendering of an insert.
#[test]
fn test_render_text_insert() {
    let change = Change::Insert {
        relation_id: 16384,
        schema: "public".to_string(),
        table: "users".to_string(),
        new_tuple: tuple_of(&[("id", Some("1")), ("email", None)]),
    };
    let lines = render_text(&change);
    assert_eq!(
        lines,
        vec![
            "INSERT into public.users (ID: 16384)".to_string(),
            "  New values:".to_string(),
            "    id: 1".to_string(),
            "    email: NULL".to_string(),
        ]
    );
}

/// The human-readable text rendering of transaction boundaries.
#[test]
fn test_render_text_transactions() {
    let begin = Change::Begin { lsn: "0/100".to_string(), timestamp: 1234567890, xid: 500 };
    assert_eq!(render_text(&begin), vec!["BEGIN [LSN: 0/100, XID: 500, Time: 1234567890]".to_string()]);

    let commit = Change::Commit { lsn: "0/200".to_string(), timestamp: -5 };
    assert_eq!(render_text(&commit), vec!["COMMIT [LSN: 0/200, Time: -5]".to_string()]);
}

/// A session walks Connecting, Handshaking, Streaming, Closed in order.
#[test]
fn test_session_phases() {
    let mut s = ReplicationSession::new(None);
    assert_eq!(s.phase(), SessionPhase::Connecting);
    s.begin_handshake();
    assert_eq!(s.phase(), SessionPhase::Handshaking);
    s.begin_streaming();
    assert_eq!(s.phase(), SessionPhase::Streaming);
    s.close();
    assert_eq!(s.phase(), SessionPhase::Closed);
}

/// Log-data frames are decoded and advance the received watermark; the
/// watermark never decreases across frames.
#[test]
fn test_session_frames_and_received_watermark() {
    let mut s = ReplicationSession::new(None);
    s.begin_handshake();
    s.begin_streaming();

    let rel = encode_relation(16384, "public", "users", &users_columns());
    let frame = encode_log_data_frame(100, 200, 0, &rel);
    match s.handle_frame(&frame).unwrap() {
        FrameOutcome::Change(Change::Relation { relation_id, .. }) => {
            assert_eq!(relation_id, 16384)
        }
        _ => panic!("expected a relation change"),
    }
    assert_eq!(s.last_received_position(), 100);

    // A keepalive carries the end-of-log position and may ask for a reply.
    let ka = encode_keepalive_frame(500, 0, true);
    assert!(matches!(s.handle_frame(&ka).unwrap(), FrameOutcome::ReplyRequested));
    assert_eq!(s.last_received_position(), 500);

    // A frame with a lower position never moves the watermark back.
    let ka_old = encode_keepalive_frame(300, 0, false);
    assert!(matches!(s.handle_frame(&ka_old).unwrap(), FrameOutcome::NoChange));
    assert_eq!(s.last_received_position(), 500);

    // A frame of an unknown type is dropped, not an error.
    assert!(matches!(s.handle_frame(&[9u8, 9, 9]).unwrap(), FrameOutcome::NoChange));

    // An empty frame is a protocol error.
    assert!(s.handle_frame(&[]).is_err());
}

/// The acknowledged position never decreases and never passes the
/// received position, whatever the caller asks for.
#[test]
fn test_session_acknowledgment_monotonic() {
    let mut s = ReplicationSession::new(None);
    s.begin_handshake();
    s.begin_streaming();
    let ka = encode_keepalive_frame(500, 0, false);
    s.handle_frame(&ka).unwrap();

    assert_eq!(s.last_acknowledged_position(), 0);
    s.acknowledge(400);
    assert_eq!(s.last_acknowledged_position(), 400);
    s.acknowledge(200);
    assert_eq!(s.last_acknowledged_position(), 400);
    s.acknowledge(10_000);
    assert_eq!(s.last_acknowledged_position(), 500);
    assert!(s.last_acknowledged_position() <= s.last_received_position());
}

/// The status-update frame reports the acknowledged position three times,
/// then the client send time and a zero flag.
#[test]
fn test_status_update_frame_bytes() {
    let mut s = ReplicationSession::new(Some(0x0102030405060708));
    let frame = s.status_update_frame(0x1122334455667788);
    assert_eq!(frame.len(), 34);
    assert_eq!(frame[0], 114); // 'r'
    let pos = [1u8, 2, 3, 4, 5, 6, 7, 8];
    assert_eq!(&frame[1..9], &pos);
    assert_eq!(&frame[9..17], &pos);
    assert_eq!(&frame[17..25], &pos);
    assert_eq!(&frame[25..33], &[0x11u8, 0x22, 0x33, 0x44, 0x55, 0x66, 0x77, 0x88]);
    assert_eq!(frame[33], 0);
    s.close();
}

/// A session seeded with a start position reports it for both watermarks.
#[test]
fn test_session_start_position() {
    let s = ReplicationSession::new(Some(0xABC));
    assert_eq!(s.last_received_position(), 0xABC);
    assert_eq!(s.last_acknowledged_position(), 0xABC);
}

/// A decode failure inside a log-data frame surfaces as a session error.
#[test]
fn test_session_decode_error_propagates() {
    let mut s = ReplicationSession::new(None);
    s.begin_handshake();
    s.begin_streaming();

    let row = tuple_of(&[("id", Some("1"))]);
    let ins = encode_insert(31337, &row);
    let frame = encode_log_data_frame(64, 64, 0, &ins);
    assert!(s.handle_frame(&frame).is_err());
}
