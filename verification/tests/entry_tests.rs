use slogx::{JsonNumber, LogEntry, LogLevel, StackFrame, StructuredValue};

fn text(s: &str) -> StructuredValue {
    StructuredValue::String(s.to_string())
}

fn sample_entry() -> LogEntry {
    LogEntry::assemble(
        LogLevel::Info,
        vec![
            text("hello"),
            StructuredValue::Mapping(vec![("n".to_string(), StructuredValue::Number(JsonNumber::parse("1").unwrap()))]),
        ],
        "svc",
        Some("main.rs"),
        Some(7),
        Some("main"),
        "id-1".to_string(),
        "2024-01-01T00:00:00.000Z".to_string(),
        "  at main (main.rs:7)\n  at start (rt.rs:1)".to_string(),
    )
}

#[test]
fn test_log_entry_captures_metadata() {
    let entry = LogEntry::new(
        LogLevel::Info,
        vec![text("test")],
        "my-service",
        Some("handler.rs"),
        Some(42),
        Some("handle_request"),
    );

    assert_eq!(entry.metadata.service, "my-service");
    assert_eq!(entry.metadata.file, Some("handler.rs".to_string()));
    assert_eq!(entry.metadata.line, Some(42));
    assert_eq!(entry.metadata.function, Some("handle_request".to_string()));
    assert_eq!(entry.metadata.lang, "rust");
}

#[test]
fn test_log_entry_includes_stacktrace_for_all_levels() {
    let error = LogEntry::new(LogLevel::Error, vec![], "svc", None, None, None);
    let info = LogEntry::new(LogLevel::Info, vec![], "svc", None, None, None);
    let debug = LogEntry::new(LogLevel::Debug, vec![], "svc", None, None, None);
    let warn = LogEntry::new(LogLevel::Warn, vec![], "svc", None, None, None);

    assert!(error.stacktrace.is_some());
    assert!(info.stacktrace.is_some());
    assert!(debug.stacktrace.is_some());
    assert!(warn.stacktrace.is_some());

    assert!(!error.stacktrace.as_ref().unwrap().is_empty());
    assert!(!info.stacktrace.as_ref().unwrap().is_empty());
}

#[test]
fn test_log_entry_preserves_args_order() {
    let entry = LogEntry::new(
        LogLevel::Info,
        vec![
            text("first"),
            StructuredValue::Mapping(vec![("second".to_string(), StructuredValue::Bool(true))]),
            StructuredValue::Number(JsonNumber::parse("3").unwrap()),
        ],
        "svc",
        None,
        None,
        None,
    );

    assert_eq!(entry.args[0], text("first"));
    assert_eq!(
        entry.args[1],
        StructuredValue::Mapping(vec![("second".to_string(), StructuredValue::Bool(true))])
    );
    assert_eq!(entry.args[2], StructuredValue::Number(JsonNumber::parse("3").unwrap()));
}

#[test]
fn a_new_entry_has_a_fresh_identifier_and_a_timestamp() {
    let a = LogEntry::new(LogLevel::Debug, vec![], "svc", None, None, None);
    let b = LogEntry::new(LogLevel::Debug, vec![], "svc", None, None, None);
    assert_eq!(a.id.len(), 36);
    assert_eq!(b.id.len(), 36);
    assert_eq!(&a.id[14..15], "4");
    assert_ne!(a.id, b.id);
    assert_eq!(a.id.matches('-').count(), 4);
    assert_eq!(a.timestamp.len(), 24);
    assert!(a.timestamp.ends_with('Z'));
    assert_eq!(&a.timestamp[10..11], "T");
    assert_eq!(&a.timestamp[19..20], ".");
    assert_eq!(a.level, LogLevel::Debug);
    assert_eq!(a.metadata.file, None);
    assert_eq!(a.metadata.line, None);
    assert_eq!(a.metadata.function, None);
}

#[test]
fn assemble_keeps_every_part() {
    let entry = sample_entry();
    assert_eq!(entry.id, "id-1");
    assert_eq!(entry.timestamp, "2024-01-01T00:00:00.000Z");
    assert_eq!(entry.level, LogLevel::Info);
    assert_eq!(entry.args.len(), 2);
    assert_eq!(entry.stacktrace, Some("  at main (main.rs:7)\n  at start (rt.rs:1)".to_string()));
    assert_eq!(entry.metadata.file, Some("main.rs".to_string()));
    assert_eq!(entry.metadata.line, Some(7));
    assert_eq!(entry.metadata.function, Some("main".to_string()));
    assert_eq!(entry.metadata.lang, "rust");
    assert_eq!(entry.metadata.service, "svc");
}

#[test]
fn the_frame_is_one_compact_document() {
    assert_eq!(
        sample_entry().to_frame(),
        "{\"id\":\"id-1\",\"timestamp\":\"2024-01-01T00:00:00.000Z\",\"level\":\"INFO\",\"args\":[\"hello\",{\"n\":1}],\"stacktrace\":\"  at main (main.rs:7)\\n  at start (rt.rs:1)\",\"metadata\":{\"file\":\"main.rs\",\"line\":7,\"func\":\"main\",\"lang\":\"rust\",\"service\":\"svc\"}}"
    );
}

#[test]
fn absent_parts_are_null_and_an_absent_trace_is_left_out() {
    let mut entry = LogEntry::assemble(
        LogLevel::Error,
        vec![],
        "svc",
        None,
        None,
        None,
        "i".to_string(),
        "t".to_string(),
        "s".to_string(),
    );
    entry.stacktrace = None;
    assert_eq!(
        entry.to_frame(),
        "{\"id\":\"i\",\"timestamp\":\"t\",\"level\":\"ERROR\",\"args\":[],\"metadata\":{\"file\":null,\"line\":null,\"func\":null,\"lang\":\"rust\",\"service\":\"svc\"}}"
    );
}

#[test]
fn the_metadata_encodes_as_an_object() {
    assert_eq!(
        sample_entry().metadata.to_json(),
        "{\"file\":\"main.rs\",\"line\":7,\"func\":\"main\",\"lang\":\"rust\",\"service\":\"svc\"}"
    );
}

#[test]
fn a_frame_parses_back_to_the_record() {
    let entry = LogEntry::assemble(
        LogLevel::Warn,
        vec![
            text("Unicode test: \u{4f60}\u{597d} \u{1f980}"),
            StructuredValue::Mapping(vec![
                ("emoji".to_string(), text("\u{1f680}")),
                ("quotes".to_string(), text("Said \"hello\"")),
                ("empty_obj".to_string(), StructuredValue::Mapping(vec![])),
                ("empty_arr".to_string(), StructuredValue::Sequence(vec![])),
                ("null_val".to_string(), StructuredValue::Null),
                ("percent".to_string(), StructuredValue::Number(JsonNumber::parse("89.5").unwrap())),
            ]),
        ],
        "svc \"quoted\"",
        Some("src\\main.rs"),
        Some(4294967295),
        Some("app::main"),
        "6f1c7e0a-0000-4000-8000-000000000000".to_string(),
        "2024-02-29T23:59:59.999Z".to_string(),
        "  at app::main (src\\main.rs:1)".to_string(),
    );
    let parsed: serde_json::Value = serde_json::from_str(&entry.to_frame()).unwrap();
    assert_eq!(parsed["id"], serde_json::Value::String(entry.id.clone()));
    assert_eq!(parsed["timestamp"], serde_json::Value::String(entry.timestamp.clone()));
    assert_eq!(parsed["level"], serde_json::Value::String("WARN".to_string()));
    assert_eq!(parsed["stacktrace"], serde_json::Value::String("  at app::main (src\\main.rs:1)".to_string()));
    let args = parsed["args"].as_array().unwrap();
    assert_eq!(args.len(), 2);
    assert_eq!(args[0], serde_json::Value::String("Unicode test: \u{4f60}\u{597d} \u{1f980}".to_string()));
    assert_eq!(args[1]["emoji"], serde_json::Value::String("\u{1f680}".to_string()));
    assert_eq!(args[1]["quotes"], serde_json::Value::String("Said \"hello\"".to_string()));
    assert_eq!(args[1]["empty_obj"], serde_json::Value::Object(serde_json::Map::new()));
    assert_eq!(args[1]["empty_arr"], serde_json::Value::Array(vec![]));
    assert_eq!(args[1]["null_val"], serde_json::Value::Null);
    assert_eq!(args[1]["percent"].as_f64(), Some(89.5));
    assert_eq!(args[1].as_object().unwrap().len(), 6);
    let metadata = parsed["metadata"].as_object().unwrap();
    assert_eq!(metadata.len(), 5);
    assert_eq!(metadata["file"], serde_json::Value::String("src\\main.rs".to_string()));
    assert_eq!(metadata["line"].as_u64(), Some(4294967295));
    assert_eq!(metadata["func"], serde_json::Value::String("app::main".to_string()));
    assert_eq!(metadata["lang"], serde_json::Value::String("rust".to_string()));
    assert_eq!(metadata["service"], serde_json::Value::String("svc \"quoted\"".to_string()));
    assert_eq!(parsed.as_object().unwrap().len(), 6);
}

#[test]
fn a_cloned_entry_has_the_same_frame() {
    let entry = sample_entry();
    let copy = entry.clone();
    assert_eq!(copy.to_frame(), entry.to_frame());
    assert_eq!(copy.args, entry.args);
    assert_eq!(copy.metadata.clone().service, "svc");
}

fn frame(name: &str, file: &str, line: u32) -> StackFrame {
    StackFrame { name: Some(name.to_string()), file: Some(file.to_string()), line: Some(line) }
}

#[test]
fn an_identifier_is_a_version_four_uuid_in_hyphenated_lower_case() {
    for _ in 0..50 {
        let id: Vec<char> = LogEntry::new(LogLevel::Info, vec![], "svc", None, None, None).id.chars().collect();
        assert_eq!(id.len(), 36);
        for (i, c) in id.iter().enumerate() {
            if i == 8 || i == 13 || i == 18 || i == 23 {
                assert_eq!(*c, '-');
            } else {
                assert!(c.is_ascii_digit() || ('a'..='f').contains(c));
            }
        }
        assert_eq!(id[14], '4');
        assert!(id[19] == '8' || id[19] == '9' || id[19] == 'a' || id[19] == 'b');
    }
}

#[test]
fn a_timestamp_is_utc_to_the_millisecond() {
    let t: Vec<char> = LogEntry::new(LogLevel::Info, vec![], "svc", None, None, None).timestamp.chars().collect();
    let n = t.len();
    assert!(n >= 24);
    for back in 1..=20 {
        let c = t[n - back];
        match back {
            1 => assert_eq!(c, 'Z'),
            5 => assert_eq!(c, '.'),
            8 | 11 => assert_eq!(c, ':'),
            14 => assert_eq!(c, 'T'),
            17 | 20 => assert_eq!(c, '-'),
            _ => assert!(c.is_ascii_digit()),
        }
    }
    assert!(t[..n - 20].iter().collect::<String>().parse::<i32>().unwrap() >= 1970);
}

#[test]
fn with_frames_carries_the_clean_trace_of_the_frames() {
    let frames = vec![
        frame("backtrace::capture::Backtrace::new", "capture.rs", 1),
        frame("slogx::entry::LogEntry::new", "entry.rs", 2),
        frame("app::handler", "handler.rs", 30),
        frame("slogx::server::log", "server.rs", 9),
    ];
    let entry = LogEntry::with_frames(&frames, LogLevel::Error, vec![], "svc", Some("f.rs"), Some(1), None);
    assert_eq!(
        entry.stacktrace,
        Some("  at app::handler (handler.rs:30)\n  at slogx::server::log (server.rs:9)".to_string())
    );
    assert_eq!(entry.level, LogLevel::Error);
    assert_eq!(entry.metadata.file, Some("f.rs".to_string()));
    assert_eq!(entry.metadata.function, None);
    assert_eq!(entry.id.len(), 36);
}

#[test]
fn with_frames_falls_back_where_no_frame_is_external() {
    let frames = vec![frame("slogx::entry::LogEntry::new", "entry.rs", 2)];
    let entry = LogEntry::with_frames(&frames, LogLevel::Info, vec![], "svc", None, None, None);
    let trace = entry.stacktrace.unwrap();
    assert_ne!(trace, "  at slogx::entry::LogEntry::new (entry.rs:2)");
    let none = LogEntry::with_frames(&vec![], LogLevel::Info, vec![], "svc", None, None, None);
    assert!(none.stacktrace.is_some());
}
