use robo_arc::config::prefix_from_outcome;
use robo_arc::config::resolve_prefix;
use robo_arc::config::PrefixQueryOutcome;
use robo_arc::config::PrefixRow;
use robo_arc::config::PrefixStore;
use robo_arc::errors::DiagError;
use robo_arc::latency::ShardLatencySample;
use robo_arc::latency::ShardLatencyTable;
use robo_arc::memory::HelperOutcome;
use robo_arc::snapshot::compose_snapshot;
use robo_arc::snapshot::render_memory_field;
use robo_arc::snapshot::render_report;
use robo_arc::snapshot::ComposeInputs;
use robo_arc::source_metrics::FileKind;
use robo_arc::source_metrics::FileSnapshot;

fn store_fixture() -> PrefixStore {
    PrefixStore {
        rows: vec![
            PrefixRow { guild_id: 1, prefix: Some(".".to_string()) },
            PrefixRow { guild_id: 2, prefix: None },
            PrefixRow { guild_id: 3, prefix: Some("".to_string()) },
        ],
        queries: 0,
    }
}

#[test]
fn resolve_prefix_no_guild_uses_default_without_query() {
    let mut store = store_fixture();
    assert_eq!(resolve_prefix(&mut store, "!", None), "!");
    assert_eq!(store.queries, 0);
    assert_eq!(resolve_prefix(&mut store, ".", None), ".");
    assert_eq!(store.queries, 0);
}

#[test]
fn resolve_prefix_store_cases() {
    let mut store = store_fixture();
    assert_eq!(resolve_prefix(&mut store, "!", Some(1)), ".");
    assert_eq!(store.queries, 1);
    assert_eq!(resolve_prefix(&mut store, "!", Some(99)), "!");
    assert_eq!(store.queries, 2);
    assert_eq!(resolve_prefix(&mut store, "!", Some(2)), "!");
    assert_eq!(store.queries, 3);
}

#[test]
fn resolve_prefix_empty_string_is_not_defaulted() {
    let mut store = store_fixture();
    let got = resolve_prefix(&mut store, "!", Some(3));
    assert_eq!(got, "");
    assert_ne!(got, "!");
    assert_eq!(store.queries, 1);
}

#[test]
fn prefix_outcome_decisions() {
    assert_eq!(
        prefix_from_outcome("!", PrefixQueryOutcome::QueryFailed),
        Err(DiagError::StoreQueryFailure)
    );
    assert_eq!(prefix_from_outcome("!", PrefixQueryOutcome::NoRow).unwrap(), "!");
    assert_eq!(prefix_from_outcome("!", PrefixQueryOutcome::Row(None)).unwrap(), "!");
    assert_eq!(
        prefix_from_outcome("!", PrefixQueryOutcome::Row(Some("".to_string()))).unwrap(),
        ""
    );
}

fn inputs_fixture() -> ComposeInputs {
    ComposeInputs {
        shard_id: 0,
        shard_latencies: ShardLatencyTable {
            rows: vec![ShardLatencySample { shard_id: 0, heartbeat_latency_micros: Some(42500) }],
        },
        rest_latency_ms: 50,
        guild_count: 3,
        channel_count: 10,
        shard_count: 1,
        private_channel_count: 0,
        bot_name: "robo-arc".to_string(),
        bot_icon: None,
        hoster_tag: "host#0001".to_string(),
        hoster_id: 99,
        uptime_seconds: 3661,
        manifest_text: Some("[package]\nname = \"robo-arc\"\nversion = \"0.2.1\"\n".to_string()),
        total_memory: HelperOutcome::Completed { exit_ok: true, stdout: "12345\n".to_string() },
        baseline_memory: HelperOutcome::Completed { exit_ok: true, stdout: "6789\n".to_string() },
        source_files: vec![
            FileSnapshot { kind: FileKind::Rust, contents: Some("#[command]\nfn a() {}\n".to_string()) },
        ],
    }
}

#[test]
fn end_to_end_report_fields() {
    let snap = compose_snapshot(&inputs_fixture()).unwrap();
    let report = render_report(&snap);
    assert_eq!(report.title, "**robo-arc** - v0.2.1");
    assert_eq!(report.fields.len(), 6);
    assert_eq!(report.fields[0].name, "Statistics:");
    assert_eq!(
        report.fields[0].value,
        "Shards: 1\nGuilds: 3\nChannels: 10\nPrivate Channels: 0"
    );
    assert_eq!(report.fields[3].name, "Latency:");
    assert!(report.fields[3].value.contains("50ms"));
    assert_eq!(report.fields[3].value, "Gateway:\n`42ms`\nREST:\n`50ms`");
    assert_eq!(report.fields[1].value, "Blank: 0\nComment: 0\nCode: 2\nTotal Lines: 2");
    assert_eq!(report.fields[2].value, "Tag: host#0001\nID: 99");
    assert_eq!(report.fields[4].value, "Complete:\n`12,345 KB`\nBase:\n`6,789 KB`");
    assert_eq!(report.fields[5].value, "Command Count:\n`1`\nUptime:\n`1:01:01`");
}

#[test]
fn memory_field_grouping() {
    let snap = compose_snapshot(&inputs_fixture()).unwrap();
    assert_eq!(
        render_memory_field(&snap.memory),
        "Complete:\n`12,345 KB`\nBase:\n`6,789 KB`"
    );
}

#[test]
fn compose_surfaces_version_failure() {
    let mut inputs = inputs_fixture();
    inputs.manifest_text = None;
    assert!(matches!(compose_snapshot(&inputs), Err(DiagError::FileAccessFailure)));
}

#[test]
fn compose_surfaces_scan_failure() {
    let mut inputs = inputs_fixture();
    inputs.source_files.push(FileSnapshot { kind: FileKind::Rust, contents: None });
    assert!(matches!(compose_snapshot(&inputs), Err(DiagError::ScanFailure)));
}

#[test]
fn compose_twice_differs_only_in_rest_and_uptime() {
    let first = compose_snapshot(&inputs_fixture()).unwrap();
    let mut later = inputs_fixture();
    later.rest_latency_ms = 75;
    later.uptime_seconds = 3700;
    let second = compose_snapshot(&later).unwrap();
    assert_eq!(first.gateway_latency_text, second.gateway_latency_text);
    assert_eq!(first.memory, second.memory);
    assert_eq!(first.metrics, second.metrics);
    assert_eq!(first.guild_count, second.guild_count);
    assert_eq!(first.channel_count, second.channel_count);
    assert_eq!(first.shard_count, second.shard_count);
    assert_eq!(first.private_channel_count, second.private_channel_count);
    assert_eq!(first.bot_name, second.bot_name);
    assert_eq!(first.hoster_tag, second.hoster_tag);
    assert_eq!(first.hoster_id, second.hoster_id);
    assert_eq!(first.version, second.version);
    assert_ne!(first.rest_latency_ms, second.rest_latency_ms);
    assert_ne!(first.uptime_seconds, second.uptime_seconds);
}
