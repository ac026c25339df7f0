use robo_arc::errors::DiagError;
use robo_arc::latency::measure_gateway_latency;
use robo_arc::latency::render_millis_latency;
use robo_arc::latency::render_ping_report;
use robo_arc::latency::render_precise_latency;
use robo_arc::latency::ShardLatencySample;
use robo_arc::latency::ShardLatencyTable;
use robo_arc::manifest::manifest_version;
use robo_arc::memory::sample_memory;
use robo_arc::memory::HelperOutcome;
use robo_arc::payload::parse_embed_payload;
use robo_arc::payload::repair_payload;
use robo_arc::source_metrics::file_metrics;
use robo_arc::source_metrics::scan_source_tree;
use robo_arc::source_metrics::FileKind;
use robo_arc::source_metrics::FileSnapshot;

fn completed(out: &str) -> HelperOutcome {
    HelperOutcome::Completed { exit_ok: true, stdout: out.to_string() }
}

#[test]
fn gateway_latency_fixture() {
    let table = ShardLatencyTable {
        rows: vec![
            ShardLatencySample { shard_id: 0, heartbeat_latency_micros: Some(42500) },
            ShardLatencySample { shard_id: 1, heartbeat_latency_micros: None },
        ],
    };
    assert_eq!(measure_gateway_latency(&table, 0), Some(42500));
    assert_eq!(measure_gateway_latency(&table, 1), None);
    assert_eq!(measure_gateway_latency(&table, 7), None);
}

#[test]
fn precise_latency_two_decimals() {
    assert_eq!(render_precise_latency(Some(42500)), "42.50ms");
    assert_eq!(render_precise_latency(Some(1000)), "1.00ms");
    assert_eq!(render_precise_latency(Some(999)), "1.00ms");
    assert_eq!(render_precise_latency(Some(12345)), "12.35ms");
    assert_eq!(render_precise_latency(None), "");
}

#[test]
fn millis_latency_sentinel() {
    assert_eq!(render_millis_latency(Some(Some(42500))), "42ms");
    assert_eq!(render_millis_latency(Some(None)), "?ms");
    assert_eq!(render_millis_latency(None), "?ms");
}

#[test]
fn ping_report_text() {
    assert_eq!(render_ping_report("42.50ms", 50), "Ping?\nGateway: 42.50ms\nREST: 50ms");
}

#[test]
fn sample_memory_stub_outputs() {
    let r = sample_memory(&completed("12345\n"), &completed("6789\n")).unwrap();
    assert_eq!(r.total_kb, 12345);
    assert_eq!(r.baseline_kb, 6789);
}

#[test]
fn sample_memory_parse_failure() {
    let r = sample_memory(&completed("abc\n"), &completed("6789\n"));
    assert_eq!(r, Err(DiagError::OutputParseFailure));
}

#[test]
fn sample_memory_subprocess_failure() {
    let bad = HelperOutcome::Completed { exit_ok: false, stdout: "12345\n".to_string() };
    assert_eq!(sample_memory(&bad, &completed("6789\n")), Err(DiagError::SubprocessFailure));
    assert_eq!(
        sample_memory(&HelperOutcome::SpawnFailed, &completed("1\n")),
        Err(DiagError::SubprocessFailure)
    );
}

#[test]
fn sample_memory_crlf_and_plain() {
    let r = sample_memory(&completed("77\r\n"), &completed("88")).unwrap();
    assert_eq!(r.total_kb, 77);
    assert_eq!(r.baseline_kb, 88);
}

#[test]
fn file_metrics_rust_lines() {
    let m = file_metrics(FileKind::Rust, "// comment\n\nfn main() {}\n");
    assert_eq!(m.comment_lines, 1);
    assert_eq!(m.blank_lines, 1);
    assert_eq!(m.code_lines, 1);
    assert_eq!(m.total_lines, 3);
    assert_eq!(m.total_lines, m.blank_lines + m.comment_lines + m.code_lines);
}

#[test]
fn file_metrics_block_comment() {
    let m = file_metrics(FileKind::Rust, "/* a\nb */\ncode();\n");
    assert_eq!(m.comment_lines, 2);
    assert_eq!(m.code_lines, 1);
    assert_eq!(m.blank_lines, 0);
    assert_eq!(m.total_lines, 3);
}

#[test]
fn file_metrics_other_kind_all_code() {
    let m = file_metrics(FileKind::Other, "# not a rust comment\n\ntext\n");
    assert_eq!(m.code_lines, 2);
    assert_eq!(m.blank_lines, 1);
    assert_eq!(m.comment_lines, 0);
}

#[test]
fn file_metrics_counts_command_markers() {
    let m = file_metrics(FileKind::Rust, "#[command]\nfn a() {}\n#[command]\nfn b() {}\n");
    assert_eq!(m.command_count, 2);
    assert_eq!(m.total_lines, 4);
}

#[test]
fn scan_accumulates_and_keeps_invariant() {
    let files = vec![
        FileSnapshot { kind: FileKind::Rust, contents: Some("// a\nx();\n".to_string()) },
        FileSnapshot { kind: FileKind::Rust, contents: Some("#[command]\n\n".to_string()) },
    ];
    let m = scan_source_tree(&files).unwrap();
    assert_eq!(m.total_lines, 4);
    assert_eq!(m.comment_lines, 1);
    assert_eq!(m.code_lines, 2);
    assert_eq!(m.blank_lines, 1);
    assert_eq!(m.command_count, 1);
    assert_eq!(m.total_lines, m.blank_lines + m.comment_lines + m.code_lines);
}

#[test]
fn scan_order_does_not_change_totals() {
    let forward = vec![
        FileSnapshot { kind: FileKind::Rust, contents: Some("// a\nx();\n".to_string()) },
        FileSnapshot { kind: FileKind::Other, contents: Some("text\n\n".to_string()) },
    ];
    let backward = vec![
        FileSnapshot { kind: FileKind::Other, contents: Some("text\n\n".to_string()) },
        FileSnapshot { kind: FileKind::Rust, contents: Some("// a\nx();\n".to_string()) },
    ];
    assert_eq!(scan_source_tree(&forward), scan_source_tree(&backward));
}

#[test]
fn scan_fails_fast_on_unreadable_file() {
    let files = vec![
        FileSnapshot { kind: FileKind::Rust, contents: Some("x();\n".to_string()) },
        FileSnapshot { kind: FileKind::Rust, contents: None },
    ];
    assert_eq!(scan_source_tree(&files), Err(DiagError::ScanFailure));
}

#[test]
fn manifest_version_read() {
    let text = "[package]\nname = \"robo-arc\"\nversion = \"0.1.0\"\n".to_string();
    assert_eq!(manifest_version(&Some(text)).unwrap(), "0.1.0");
}

#[test]
fn manifest_version_failures() {
    assert_eq!(manifest_version(&None), Err(DiagError::FileAccessFailure));
    assert_eq!(
        manifest_version(&Some("not toml at all ][".to_string())),
        Err(DiagError::FileAccessFailure)
    );
    assert_eq!(
        manifest_version(&Some("[package]\nname = \"x\"\n".to_string())),
        Err(DiagError::FileAccessFailure)
    );
}

#[test]
fn repair_strips_fences_and_completes_braces() {
    assert_eq!(repair_payload("```json{\"a\":1}```"), "{\"a\":1}");
    assert_eq!(repair_payload("```{\"a\":1}```"), "{\"a\":1}");
    assert_eq!(repair_payload("\"a\":1"), "{\"a\":1}");
    assert_eq!(repair_payload("{\"a\":1}"), "{\"a\":1}");
}

#[test]
fn parse_embed_payload_outcomes() {
    assert!(parse_embed_payload("{\"a\": 1}").is_ok());
    assert!(parse_embed_payload("\"a\": 1").is_ok());
    assert_eq!(
        parse_embed_payload("this is not json").unwrap_err(),
        DiagError::MalformedPayload
    );
}

#[test]
fn error_messages() {
    assert_eq!(
        DiagError::TransportUnavailable.message(),
        "There was a problem getting the shard manager"
    );
    assert_eq!(DiagError::ScanFailure.message(), "A source file could not be read");
}
