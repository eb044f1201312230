use pgoutput_cmdline::decoder::{Change, Tuple};
use pgoutput_cmdline::output::{
    convert_to_debezium_test, convert_to_feldera_test, CompositeOutput, JsonValue, OutputFormat,
    OutputTarget, StdoutOutput,
};
use std::sync::Arc;

fn tuple_of(pairs: &[(&str, Option<&str>)]) -> Tuple {
    let mut t = Tuple::new();
    for (name, value) in pairs {
        t.push(name.to_string(), value.map(|v| v.to_string()));
    }
    t
}

/// Tests parsing of 'json' output format string.
/// Verifies that OutputFormat::from_str correctly recognizes and returns the Json variant.
#[test]
fn test_output_format_from_str_json() {
    let format = OutputFormat::from_str("json").unwrap();
    assert!(matches!(format, OutputFormat::Json));
}

/// Tests parsing of 'json-pretty' output format string.
/// Verifies that the JsonPretty format is correctly recognized.
#[test]
fn test_output_format_from_str_json_pretty() {
    let format = OutputFormat::from_str("json-pretty").unwrap();
    assert!(matches!(format, OutputFormat::JsonPretty));
}

/// Tests parsing of 'text' output format string for human-readable output.
/// Verifies the Text format variant is properly created.
#[test]
fn test_output_format_from_str_text() {
    let format = OutputFormat::from_str("text").unwrap();
    assert!(matches!(format, OutputFormat::Text));
}

/// Tests that output format parsing is case-insensitive.
/// Verifies that 'JSON', 'Json', and 'TEXT' all parse correctly.
#[test]
fn test_output_format_from_str_case_insensitive() {
    assert!(matches!(OutputFormat::from_str("JSON").unwrap(), OutputFormat::Json));
    assert!(matches!(OutputFormat::from_str("Json").unwrap(), OutputFormat::Json));
    assert!(matches!(OutputFormat::from_str("TEXT").unwrap(), OutputFormat::Text));
}

/// Tests error handling for invalid output format strings.
/// Verifies that unrecognized formats like 'invalid', 'xml', and empty strings return errors.
#[test]
fn test_output_format_from_str_invalid() {
    assert!(OutputFormat::from_str("invalid").is_err());
    assert!(OutputFormat::from_str("xml").is_err());
    assert!(OutputFormat::from_str("").is_err());
}

/// Tests the description of the format error.
/// Verifies that it names the rejected input and the valid options.
#[test]
fn test_output_format_error_message() {
    let err = OutputFormat::from_str("xml").unwrap_err();
    assert_eq!(
        err.message(),
        "Unknown output format: xml. Valid options: json, json-pretty, text, debezium, feldera"
    );
}

/// Tests parsing of 'debezium' output format string.
/// Verifies that OutputFormat::from_str correctly recognizes the Debezium variant.
#[test]
fn test_output_format_from_str_debezium() {
    let format = OutputFormat::from_str("debezium").unwrap();
    assert!(matches!(format, OutputFormat::Debezium));
}

/// Tests parsing of 'feldera' output format string.
/// Verifies that OutputFormat::from_str correctly recognizes the Feldera variant.
#[test]
fn test_output_format_from_str_feldera() {
    let format = OutputFormat::from_str("feldera").unwrap();
    assert!(matches!(format, OutputFormat::Feldera));
}

/// Tests parsing of 'insert-delete' and 'insert_delete' as aliases for Feldera format.
/// Verifies that the format can be referenced by multiple names.
#[test]
fn test_output_format_from_str_insert_delete() {
    assert!(matches!(OutputFormat::from_str("insert-delete").unwrap(), OutputFormat::Feldera));
    assert!(matches!(OutputFormat::from_str("insert_delete").unwrap(), OutputFormat::Feldera));
}

/// Tests Debezium format INSERT event structure.
/// Verifies that the envelope contains correct op='c', after data, and source metadata.
#[test]
fn test_debezium_insert() {
    let change = Change::Insert {
        relation_id: 16384,
        schema: "public".to_string(),
        table: "users".to_string(),
        new_tuple: tuple_of(&[("id", Some("123")), ("name", Some("Alice"))]),
    };

    let envelope = convert_to_debezium_test(&change).unwrap();

    assert_eq!(envelope.op, "c");
    assert!(envelope.before.is_none());
    assert!(envelope.after.is_some());
    assert_eq!(envelope.source.schema, "public");
    assert_eq!(envelope.source.table, "users");
    assert_eq!(envelope.source.connector, "postgresql");
}

/// Tests Debezium format UPDATE event structure.
/// Verifies that the envelope contains op='u', both before and after data, and source metadata.
#[test]
fn test_debezium_update() {
    let change = Change::Update {
        relation_id: 16384,
        schema: "public".to_string(),
        table: "users".to_string(),
        old_tuple: Some(tuple_of(&[("id", Some("123")), ("name", Some("Alice"))])),
        new_tuple: tuple_of(&[("id", Some("123")), ("name", Some("Alice Updated"))]),
    };

    let envelope = convert_to_debezium_test(&change).unwrap();

    assert_eq!(envelope.op, "u");
    assert!(envelope.before.is_some());
    assert!(envelope.after.is_some());
    assert_eq!(envelope.source.schema, "public");
    assert_eq!(envelope.source.table, "users");
}

/// Tests Debezium format DELETE event structure.
/// Verifies that the envelope contains op='d', before data only, and no after data.
#[test]
fn test_debezium_delete() {
    let change = Change::Delete {
        relation_id: 16384,
        schema: "public".to_string(),
        table: "users".to_string(),
        old_tuple: tuple_of(&[("id", Some("123")), ("name", Some("Alice"))]),
    };

    let envelope = convert_to_debezium_test(&change).unwrap();

    assert_eq!(envelope.op, "d");
    assert!(envelope.before.is_some());
    assert!(envelope.after.is_none());
    assert_eq!(envelope.source.schema, "public");
    assert_eq!(envelope.source.table, "users");
}

/// Tests that BEGIN transaction events are not converted to Debezium format.
/// Verifies that the conversion returns None for Begin events.
#[test]
fn test_debezium_begin_skipped() {
    let change = Change::Begin {
        lsn: "0/16B9188".to_string(),
        timestamp: 1705320000000,
        xid: 1234,
    };

    let envelope = convert_to_debezium_test(&change);
    assert!(envelope.is_none());
}

/// Tests that COMMIT transaction events are not converted to Debezium format.
/// Verifies that the conversion returns None for Commit events.
#[test]
fn test_debezium_commit_skipped() {
    let change = Change::Commit {
        lsn: "0/16B91B8".to_string(),
        timestamp: 1705320001000,
    };

    let envelope = convert_to_debezium_test(&change);
    assert!(envelope.is_none());
}

/// Tests that RELATION events are not converted to Debezium format.
/// Verifies that the conversion returns None for Relation events.
#[test]
fn test_debezium_relation_skipped() {
    let change = Change::Relation {
        relation_id: 16384,
        schema: "public".to_string(),
        table: "users".to_string(),
        columns: vec![],
    };

    let envelope = convert_to_debezium_test(&change);
    assert!(envelope.is_none());
}

/// Tests Debezium format with NULL values in tuple data.
/// Verifies that NULL values are correctly represented in the envelope.
#[test]
fn test_debezium_null_handling() {
    let change = Change::Insert {
        relation_id: 16384,
        schema: "public".to_string(),
        table: "users".to_string(),
        new_tuple: tuple_of(&[("id", Some("123")), ("email", None)]),
    };

    let envelope = convert_to_debezium_test(&change).unwrap();

    assert!(envelope.after.is_some());
    let after = envelope.after.as_ref().unwrap();
    assert!(after.get("email").is_some());
    assert!(matches!(after.get("email"), Some(JsonValue::Null)));
}

/// Tests Debezium source metadata fields.
/// Verifies that source contains all required Debezium fields with correct values.
#[test]
fn test_debezium_source_metadata() {
    let change = Change::Insert {
        relation_id: 16384,
        schema: "test_schema".to_string(),
        table: "test_table".to_string(),
        new_tuple: tuple_of(&[("id", Some("1"))]),
    };

    let envelope = convert_to_debezium_test(&change).unwrap();

    assert_eq!(envelope.source.version, "pgoutput-cmdline-0.1.0");
    assert_eq!(envelope.source.connector, "postgresql");
    assert_eq!(envelope.source.name, "pgoutput-cmdline");
    assert_eq!(envelope.source.db, "postgres");
    assert_eq!(envelope.source.schema, "test_schema");
    assert_eq!(envelope.source.table, "test_table");
    assert!(!envelope.source.lsn.is_empty());
}

/// Tests Debezium timestamp field presence.
/// Verifies that ts_ms is populated and is a reasonable Unix timestamp.
#[test]
fn test_debezium_timestamp() {
    let change = Change::Insert {
        relation_id: 16384,
        schema: "public".to_string(),
        table: "users".to_string(),
        new_tuple: tuple_of(&[("id", Some("1"))]),
    };

    let envelope = convert_to_debezium_test(&change).unwrap();

    // Verify ts_ms is positive and reasonable (after 2020-01-01)
    assert!(envelope.ts_ms > 1577836800000); // 2020-01-01 in milliseconds
}

/// Tests Feldera format INSERT event structure.
/// Verifies that the event contains an insert key with the record data.
#[test]
fn test_feldera_insert() {
    let change = Change::Insert {
        relation_id: 16384,
        schema: "public".to_string(),
        table: "users".to_string(),
        new_tuple: tuple_of(&[("id", Some("123")), ("name", Some("Alice"))]),
    };

    let events = convert_to_feldera_test(&change);

    assert_eq!(events.len(), 1);
    let event = &events[0];
    assert!(event.insert.is_some());
    assert!(event.delete.is_none());
    assert!(event.update.is_none());

    let insert_data = event.insert.as_ref().unwrap();
    assert!(matches!(insert_data.get("id"), Some(JsonValue::Str(s)) if s == "123"));
    assert!(matches!(insert_data.get("name"), Some(JsonValue::Str(s)) if s == "Alice"));
}

/// Tests Feldera format UPDATE event structure.
/// Verifies that updates are encoded as delete (old) + insert (new) pairs.
#[test]
fn test_feldera_update() {
    let change = Change::Update {
        relation_id: 16384,
        schema: "public".to_string(),
        table: "users".to_string(),
        old_tuple: Some(tuple_of(&[("id", Some("123")), ("name", Some("Alice"))])),
        new_tuple: tuple_of(&[("id", Some("123")), ("name", Some("Alice Updated"))]),
    };

    let events = convert_to_feldera_test(&change);

    // Update should produce two events: delete + insert
    assert_eq!(events.len(), 2);

    // First event: delete old
    let delete_event = &events[0];
    assert!(delete_event.insert.is_none());
    assert!(delete_event.delete.is_some());
    assert!(delete_event.update.is_none());
    let delete_data = delete_event.delete.as_ref().unwrap();
    assert!(matches!(delete_data.get("id"), Some(JsonValue::Str(s)) if s == "123"));
    assert!(matches!(delete_data.get("name"), Some(JsonValue::Str(s)) if s == "Alice"));

    // Second event: insert new
    let insert_event = &events[1];
    assert!(insert_event.insert.is_some());
    assert!(insert_event.delete.is_none());
    assert!(insert_event.update.is_none());
    let insert_data = insert_event.insert.as_ref().unwrap();
    assert!(matches!(insert_data.get("id"), Some(JsonValue::Str(s)) if s == "123"));
    assert!(matches!(insert_data.get("name"), Some(JsonValue::Str(s)) if s == "Alice Updated"));
}

/// Tests Feldera format UPDATE without old_tuple.
/// Verifies that when old_tuple is None, only insert event is produced.
#[test]
fn test_feldera_update_without_old_tuple() {
    let change = Change::Update {
        relation_id: 16384,
        schema: "public".to_string(),
        table: "users".to_string(),
        old_tuple: None,
        new_tuple: tuple_of(&[("id", Some("123")), ("name", Some("Alice Updated"))]),
    };

    let events = convert_to_feldera_test(&change);

    // Without old_tuple, only insert is produced
    assert_eq!(events.len(), 1);
    let event = &events[0];
    assert!(event.insert.is_some());
    assert!(event.delete.is_none());
}

/// Tests Feldera format DELETE event structure.
/// Verifies that the event contains a delete key with the old record data.
#[test]
fn test_feldera_delete() {
    let change = Change::Delete {
        relation_id: 16384,
        schema: "public".to_string(),
        table: "users".to_string(),
        old_tuple: tuple_of(&[("id", Some("123")), ("name", Some("Alice"))]),
    };

    let events = convert_to_feldera_test(&change);

    assert_eq!(events.len(), 1);
    let event = &events[0];
    assert!(event.insert.is_none());
    assert!(event.delete.is_some());
    assert!(event.update.is_none());

    let delete_data = event.delete.as_ref().unwrap();
    assert!(matches!(delete_data.get("id"), Some(JsonValue::Str(s)) if s == "123"));
    assert!(matches!(delete_data.get("name"), Some(JsonValue::Str(s)) if s == "Alice"));
}

/// Tests that BEGIN transaction events are not converted to Feldera format.
/// Verifies that the conversion returns an empty vector for Begin events.
#[test]
fn test_feldera_begin_skipped() {
    let change = Change::Begin {
        lsn: "0/16B9188".to_string(),
        timestamp: 1705320000000,
        xid: 1234,
    };

    let events = convert_to_feldera_test(&change);
    assert!(events.is_empty());
}

/// Tests that COMMIT transaction events are not converted to Feldera format.
/// Verifies that the conversion returns an empty vector for Commit events.
#[test]
fn test_feldera_commit_skipped() {
    let change = Change::Commit {
        lsn: "0/16B91B8".to_string(),
        timestamp: 1705320001000,
    };

    let events = convert_to_feldera_test(&change);
    assert!(events.is_empty());
}

/// Tests that RELATION events are not converted to Feldera format.
/// Verifies that the conversion returns an empty vector for Relation events.
#[test]
fn test_feldera_relation_skipped() {
    let change = Change::Relation {
        relation_id: 16384,
        schema: "public".to_string(),
        table: "users".to_string(),
        columns: vec![],
    };

    let events = convert_to_feldera_test(&change);
    assert!(events.is_empty());
}

/// Tests Feldera format with NULL values in tuple data.
/// Verifies that NULL values are correctly represented.
#[test]
fn test_feldera_null_handling() {
    let change = Change::Insert {
        relation_id: 16384,
        schema: "public".to_string(),
        table: "users".to_string(),
        new_tuple: tuple_of(&[("id", Some("123")), ("email", None)]),
    };

    let events = convert_to_feldera_test(&change);

    assert_eq!(events.len(), 1);
    let event = &events[0];
    assert!(event.insert.is_some());
    let insert_data = event.insert.as_ref().unwrap();
    assert!(insert_data.get("email").is_some());
    assert!(matches!(insert_data.get("email"), Some(JsonValue::Null)));
}

/// Tests Feldera format with empty tuple fields.
/// Verifies handling of records with no data fields.
#[test]
fn test_feldera_empty_tuple() {
    let change = Change::Insert {
        relation_id: 16384,
        schema: "public".to_string(),
        table: "users".to_string(),
        new_tuple: Tuple::new(),
    };

    let events = convert_to_feldera_test(&change);
    assert_eq!(events.len(), 1);
    assert!(events[0].insert.is_some());
}

struct CountingTarget;

impl OutputTarget for CountingTarget {
    fn write_change(&self, _change: &Change) -> Result<(), String> {
        Ok(())
    }
}

struct FailingTarget;

impl OutputTarget for FailingTarget {
    fn write_change(&self, _change: &Change) -> Result<(), String> {
        Err("refused".to_string())
    }
}

/// Tests CompositeOutput with a single output target.
/// Verifies that the multiplexer correctly forwards events to one target.
#[test]
fn test_composite_output_with_single_target() {
    let composite = CompositeOutput::new(vec![Arc::new(CountingTarget)]);

    let change = Change::Insert {
        relation_id: 16384,
        schema: "public".to_string(),
        table: "users".to_string(),
        new_tuple: tuple_of(&[("id", Some("1"))]),
    };

    composite.write_change(&change).unwrap();
}

/// Tests CompositeOutput with multiple output targets.
/// Verifies that events are correctly sent to multiple targets, and that
/// one failing target fails the round.
#[test]
fn test_composite_output_with_multiple_targets() {
    let composite = CompositeOutput::new(vec![Arc::new(CountingTarget), Arc::new(CountingTarget)]);

    let change = Change::Insert {
        relation_id: 16384,
        schema: "public".to_string(),
        table: "users".to_string(),
        new_tuple: tuple_of(&[("id", Some("1"))]),
    };

    composite.write_change(&change).unwrap();

    let failing = CompositeOutput::new(vec![Arc::new(CountingTarget), Arc::new(FailingTarget)]);
    assert_eq!(failing.write_change(&change), Err("refused".to_string()));
}

/// Tests CompositeOutput with no output targets.
/// Verifies that the multiplexer handles empty target lists gracefully without panicking.
#[test]
fn test_composite_output_empty_targets() {
    let composite = CompositeOutput::new(vec![]);

    let change = Change::Insert {
        relation_id: 16384,
        schema: "public".to_string(),
        table: "users".to_string(),
        new_tuple: tuple_of(&[("id", Some("1"))]),
    };

    // Should not panic with no targets
    composite.write_change(&change).unwrap();
}

/// Tests that StdoutOutput keeps the format it was built with.
#[test]
fn test_stdout_output_keeps_format() {
    let output = StdoutOutput::new(OutputFormat::JsonPretty);
    assert!(matches!(output.format, OutputFormat::JsonPretty));
}
