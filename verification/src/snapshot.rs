//! The snapshot composer: the inputs one diagnostics invocation gathers,
//! the immutable snapshot composed from them, and the rendered report that
//! replaces the placeholder message.  No partial snapshot exists: the
//! first failure among memory sampling, the source scan and the manifest
//! read is the invocation's result.

use vstd::prelude::*;
use vstd::string::StringExecFns;
use crate::basic_functions::seconds_to_days;
use crate::basic_functions::spec_uptime_text;
use crate::digits::dec_rep;
use crate::digits::format_grouped_u64;
use crate::digits::grouped;
use crate::digits::u64_to_dec;
use crate::errors::DiagError;
use crate::latency::render_millis_latency;
use crate::latency::spec_millis_latency_text;
use crate::latency::spec_runner;
use crate::latency::ShardLatencyTable;
use crate::manifest::manifest_version;
use crate::manifest::opt_str_view;
use crate::manifest::spec_version;
use crate::memory::sample_memory;
use crate::memory::spec_sample_memory;
use crate::memory::HelperOutcome;
use crate::memory::MemorySample;
use crate::source_metrics::lemma_scan_line_invariant;
use crate::source_metrics::scan_source_tree;
use crate::source_metrics::spec_scan_ok;
use crate::source_metrics::spec_scan_tally;
use crate::source_metrics::FileSnapshot;
use crate::source_metrics::SourceMetrics;

verus! {

/// Everything one diagnostics invocation gathers before composing: the
/// copied-out latency table, the measured REST round trip, the cached
/// counts and identities, the uptime, the manifest text, the two helper
/// outcomes and the read source files.
pub struct ComposeInputs {
    pub shard_id: u64,
    pub shard_latencies: ShardLatencyTable,
    pub rest_latency_ms: u64,
    pub guild_count: u64,
    pub channel_count: u64,
    pub shard_count: u64,
    pub private_channel_count: u64,
    pub bot_name: String,
    pub bot_icon: Option<String>,
    pub hoster_tag: String,
    pub hoster_id: u64,
    pub uptime_seconds: u64,
    pub manifest_text: Option<String>,
    pub total_memory: HelperOutcome,
    pub baseline_memory: HelperOutcome,
    pub source_files: Vec<FileSnapshot>,
}

/// The composed snapshot, immutable once constructed and owned by the one
/// request that asked for it.
pub struct DiagnosticsSnapshot {
    pub gateway_latency_text: String,
    pub rest_latency_ms: u64,
    pub memory: MemorySample,
    pub metrics: SourceMetrics,
    pub guild_count: u64,
    pub channel_count: u64,
    pub shard_count: u64,
    pub private_channel_count: u64,
    pub bot_name: String,
    pub bot_icon: Option<String>,
    pub hoster_tag: String,
    pub hoster_id: u64,
    pub version: String,
    pub uptime_seconds: u64,
}

/// The mathematical image of a snapshot.
pub ghost struct SnapshotModel {
    pub gateway_latency_text: Seq<char>,
    pub rest_latency_ms: u64,
    pub memory: MemorySample,
    pub metrics: SourceMetrics,
    pub guild_count: u64,
    pub channel_count: u64,
    pub shard_count: u64,
    pub private_channel_count: u64,
    pub bot_name: Seq<char>,
    pub bot_icon: Option<Seq<char>>,
    pub hoster_tag: Seq<char>,
    pub hoster_id: u64,
    pub version: Seq<char>,
    pub uptime_seconds: u64,
}

impl DiagnosticsSnapshot {
    /// The snapshot's image.
    pub open spec fn model(self) -> SnapshotModel {
        SnapshotModel {
            gateway_latency_text: self.gateway_latency_text@,
            rest_latency_ms: self.rest_latency_ms,
            memory: self.memory,
            metrics: self.metrics,
            guild_count: self.guild_count,
            channel_count: self.channel_count,
            shard_count: self.shard_count,
            private_channel_count: self.private_channel_count,
            bot_name: self.bot_name@,
            bot_icon: opt_str_view(self.bot_icon),
            hoster_tag: self.hoster_tag@,
            hoster_id: self.hoster_id,
            version: self.version@,
            uptime_seconds: self.uptime_seconds,
        }
    }
}

/// What composing yields.  Memory sampling is read first, then the source
/// scan, then the manifest: the first failure is the invocation's error.
/// A missing gateway sample does not fail the report: the `?ms` sentinel
/// stands in for it.
pub open spec fn spec_compose(i: ComposeInputs) -> Result<SnapshotModel, DiagError> {
    match spec_sample_memory(i.total_memory, i.baseline_memory) {
        Err(e) => Err(e),
        Ok(mem) => {
            if !spec_scan_ok(i.source_files@) {
                Err(DiagError::ScanFailure)
            } else {
                match spec_version(i.manifest_text) {
                    Err(e) => Err(e),
                    Ok(v) => Ok(
                        SnapshotModel {
                            gateway_latency_text: spec_millis_latency_text(
                                spec_runner(i.shard_latencies.rows@, i.shard_id),
                            ),
                            rest_latency_ms: i.rest_latency_ms,
                            memory: mem,
                            metrics: SourceMetrics {
                                blank_lines: spec_scan_tally(i.source_files@).blank as u64,
                                comment_lines: spec_scan_tally(i.source_files@).comment as u64,
                                code_lines: spec_scan_tally(i.source_files@).code as u64,
                                total_lines: spec_scan_tally(i.source_files@).total as u64,
                                command_count: spec_scan_tally(i.source_files@).commands as u64,
                            },
                            guild_count: i.guild_count,
                            channel_count: i.channel_count,
                            shard_count: i.shard_count,
                            private_channel_count: i.private_channel_count,
                            bot_name: i.bot_name@,
                            bot_icon: opt_str_view(i.bot_icon),
                            hoster_tag: i.hoster_tag@,
                            hoster_id: i.hoster_id,
                            version: v,
                            uptime_seconds: i.uptime_seconds,
                        },
                    ),
                }
            }
        },
    }
}

/// Composes the snapshot out of the gathered inputs, joining every part
/// before anything is rendered.
pub fn compose_snapshot(inputs: &ComposeInputs) -> (r: Result<DiagnosticsSnapshot, DiagError>)
    requires
        spec_scan_tally(inputs.source_files@).total <= u64::MAX,
        spec_scan_tally(inputs.source_files@).commands <= u64::MAX,
    ensures
        r is Ok <==> spec_compose(*inputs) is Ok,
        r is Ok ==> r->Ok_0.model() == spec_compose(*inputs)->Ok_0,
        r is Err ==> spec_compose(*inputs) == Err::<SnapshotModel, DiagError>(r->Err_0),
{
    proof {
        lemma_scan_line_invariant(inputs.source_files@);
    }
    let mem = match sample_memory(&inputs.total_memory, &inputs.baseline_memory) {
        Ok(m) => m,
        Err(e) => {
            return Err(e);
        },
    };
    let metrics = match scan_source_tree(&inputs.source_files) {
        Ok(m) => m,
        Err(e) => {
            return Err(e);
        },
    };
    let version = match manifest_version(&inputs.manifest_text) {
        Ok(v) => v,
        Err(e) => {
            return Err(e);
        },
    };
    let runner = inputs.shard_latencies.lookup_runner(inputs.shard_id);
    let gateway = render_millis_latency(runner);
    let icon: Option<String> = match &inputs.bot_icon {
        Some(s) => Some(s.clone()),
        None => None,
    };
    Ok(
        DiagnosticsSnapshot {
            gateway_latency_text: gateway,
            rest_latency_ms: inputs.rest_latency_ms,
            memory: mem,
            metrics,
            guild_count: inputs.guild_count,
            channel_count: inputs.channel_count,
            shard_count: inputs.shard_count,
            private_channel_count: inputs.private_channel_count,
            bot_name: inputs.bot_name.clone(),
            bot_icon: icon,
            hoster_tag: inputs.hoster_tag.clone(),
            hoster_id: inputs.hoster_id,
            version,
            uptime_seconds: inputs.uptime_seconds,
        },
    )
}

/// Composing twice in immediate succession with unchanged fixtures: the
/// two snapshots agree on every field but the REST latency and the
/// uptime, and fail alike.
pub proof fn lemma_compose_idempotent(a: ComposeInputs, b: ComposeInputs)
    requires
        a.shard_id == b.shard_id,
        a.shard_latencies.rows == b.shard_latencies.rows,
        a.guild_count == b.guild_count,
        a.channel_count == b.channel_count,
        a.shard_count == b.shard_count,
        a.private_channel_count == b.private_channel_count,
        a.bot_name == b.bot_name,
        a.bot_icon == b.bot_icon,
        a.hoster_tag == b.hoster_tag,
        a.hoster_id == b.hoster_id,
        a.manifest_text == b.manifest_text,
        a.total_memory == b.total_memory,
        a.baseline_memory == b.baseline_memory,
        a.source_files == b.source_files,
    ensures
        spec_compose(a) is Ok <==> spec_compose(b) is Ok,
        spec_compose(a) is Err ==> spec_compose(a) == spec_compose(b),
        spec_compose(a) is Ok ==> spec_compose(a)->Ok_0 == (SnapshotModel {
            rest_latency_ms: a.rest_latency_ms,
            uptime_seconds: a.uptime_seconds,
            ..spec_compose(b)->Ok_0
        }),
{
}

/// One field of the rendered report.
pub struct ReportField {
    pub name: String,
    pub value: String,
}

/// The rendered report: a title, the project links, six fields, and the
/// bot's avatar as an optional thumbnail.
pub struct Report {
    pub title: String,
    pub url: String,
    pub description: String,
    pub fields: Vec<ReportField>,
    pub thumbnail: Option<String>,
}

/// `**name** - vversion`.
pub open spec fn spec_title(name: Seq<char>, version: Seq<char>) -> Seq<char> {
    "**"@ + name + "** - v"@ + version
}

/// The statistics field: the four counts, one per line.
pub open spec fn spec_statistics_field(
    shards: u64,
    guilds: u64,
    channels: u64,
    privs: u64,
) -> Seq<char> {
    "Shards: "@ + dec_rep(shards as nat) + "\nGuilds: "@ + dec_rep(guilds as nat) + "\nChannels: "@
        + dec_rep(channels as nat) + "\nPrivate Channels: "@ + dec_rep(privs as nat)
}

/// The lines-of-code field.
pub open spec fn spec_lines_field(m: SourceMetrics) -> Seq<char> {
    "Blank: "@ + dec_rep(m.blank_lines as nat) + "\nComment: "@ + dec_rep(m.comment_lines as nat)
        + "\nCode: "@ + dec_rep(m.code_lines as nat) + "\nTotal Lines: "@ + dec_rep(
        m.total_lines as nat,
    )
}

/// The hoster field.
pub open spec fn spec_hoster_field(tag: Seq<char>, id: u64) -> Seq<char> {
    "Tag: "@ + tag + "\nID: "@ + dec_rep(id as nat)
}

/// The latency field.
pub open spec fn spec_latency_field(gateway: Seq<char>, rest_ms: u64) -> Seq<char> {
    "Gateway:\n`"@ + gateway + "`\nREST:\n`"@ + dec_rep(rest_ms as nat) + "ms`"@
}

/// The memory field, with both figures in grouped thousands notation.
pub open spec fn spec_memory_field(m: MemorySample) -> Seq<char> {
    "Complete:\n`"@ + grouped(dec_rep(m.total_kb as nat)) + " KB`\nBase:\n`"@ + grouped(
        dec_rep(m.baseline_kb as nat),
    ) + " KB`"@
}

/// The somewhat-static field: command count and uptime.
pub open spec fn spec_static_field(command_count: u64, uptime_seconds: u64) -> Seq<char> {
    "Command Count:\n`"@ + dec_rep(command_count as nat) + "`\nUptime:\n`"@ + spec_uptime_text(
        uptime_seconds,
    ) + "`"@
}

/// Renders the statistics field.
pub fn render_statistics_field(shards: u64, guilds: u64, channels: u64, privs: u64) -> (r: String)
    ensures
        r@ == spec_statistics_field(shards, guilds, channels, privs),
{
    let mut s = String::from_str("Shards: ");
    let d1 = u64_to_dec(shards);
    s.append(d1.as_str());
    s.append("\nGuilds: ");
    let d2 = u64_to_dec(guilds);
    s.append(d2.as_str());
    s.append("\nChannels: ");
    let d3 = u64_to_dec(channels);
    s.append(d3.as_str());
    s.append("\nPrivate Channels: ");
    let d4 = u64_to_dec(privs);
    s.append(d4.as_str());
    s
}

/// Renders the lines-of-code field.
pub fn render_lines_field(m: &SourceMetrics) -> (r: String)
    ensures
        r@ == spec_lines_field(*m),
{
    let mut s = String::from_str("Blank: ");
    let d1 = u64_to_dec(m.blank_lines);
    s.append(d1.as_str());
    s.append("\nComment: ");
    let d2 = u64_to_dec(m.comment_lines);
    s.append(d2.as_str());
    s.append("\nCode: ");
    let d3 = u64_to_dec(m.code_lines);
    s.append(d3.as_str());
    s.append("\nTotal Lines: ");
    let d4 = u64_to_dec(m.total_lines);
    s.append(d4.as_str());
    s
}

/// Renders the hoster field.
pub fn render_hoster_field(tag: &str, id: u64) -> (r: String)
    ensures
        r@ == spec_hoster_field(tag@, id),
{
    let mut s = String::from_str("Tag: ");
    s.append(tag);
    s.append("\nID: ");
    let d = u64_to_dec(id);
    s.append(d.as_str());
    s
}

/// Renders the latency field.
pub fn render_latency_field(gateway: &str, rest_ms: u64) -> (r: String)
    ensures
        r@ == spec_latency_field(gateway@, rest_ms),
{
    let mut s = String::from_str("Gateway:\n`");
    s.append(gateway);
    s.append("`\nREST:\n`");
    let d = u64_to_dec(rest_ms);
    s.append(d.as_str());
    s.append("ms`");
    s
}

/// Renders the memory field.
pub fn render_memory_field(m: &MemorySample) -> (r: String)
    ensures
        r@ == spec_memory_field(*m),
{
    let mut s = String::from_str("Complete:\n`");
    let g1 = format_grouped_u64(m.total_kb);
    s.append(g1.as_str());
    s.append(" KB`\nBase:\n`");
    let g2 = format_grouped_u64(m.baseline_kb);
    s.append(g2.as_str());
    s.append(" KB`");
    s
}

/// Renders the somewhat-static field.
pub fn render_static_field(command_count: u64, uptime_seconds: u64) -> (r: String)
    ensures
        r@ == spec_static_field(command_count, uptime_seconds),
{
    let mut s = String::from_str("Command Count:\n`");
    let d = u64_to_dec(command_count);
    s.append(d.as_str());
    s.append("`\nUptime:\n`");
    let up = seconds_to_days(uptime_seconds);
    s.append(up.as_str());
    s.append("`");
    s
}

/// Renders the title.
pub fn render_title(name: &str, version: &str) -> (r: String)
    ensures
        r@ == spec_title(name@, version@),
{
    let mut s = String::from_str("**");
    s.append(name);
    s.append("** - v");
    s.append(version);
    s
}

/// Renders the whole report out of a composed snapshot, field by field in
/// the order the delivered embed shows them.
pub fn render_report(snap: &DiagnosticsSnapshot) -> (r: Report)
    ensures
        r.title@ == spec_title(snap.bot_name@, snap.version@),
        r.url@ == "https://gitlab.com/nitsuga5124/robo-arc"@,
        r.fields@.len() == 6,
        r.fields@[0].name@ == "Statistics:"@,
        r.fields@[0].value@ == spec_statistics_field(
            snap.shard_count,
            snap.guild_count,
            snap.channel_count,
            snap.private_channel_count,
        ),
        r.fields@[1].name@ == "Lines of code:"@,
        r.fields@[1].value@ == spec_lines_field(snap.metrics),
        r.fields@[2].name@ == "Currently hosted by:"@,
        r.fields@[2].value@ == spec_hoster_field(snap.hoster_tag@, snap.hoster_id),
        r.fields@[3].name@ == "Latency:"@,
        r.fields@[3].value@ == spec_latency_field(snap.gateway_latency_text@, snap.rest_latency_ms),
        r.fields@[4].name@ == "Memory usage:"@,
        r.fields@[4].value@ == spec_memory_field(snap.memory),
        r.fields@[5].name@ == "Somewhat Static Stats:"@,
        r.fields@[5].value@ == spec_static_field(snap.metrics.command_count, snap.uptime_seconds),
        opt_str_view(r.thumbnail) == opt_str_view(snap.bot_icon),
{
    let title = render_title(snap.bot_name.as_str(), snap.version.as_str());
    let mut fields: Vec<ReportField> = Vec::new();
    fields.push(
        ReportField {
            name: String::from_str("Statistics:"),
            value: render_statistics_field(
                snap.shard_count,
                snap.guild_count,
                snap.channel_count,
                snap.private_channel_count,
            ),
        },
    );
    fields.push(
        ReportField {
            name: String::from_str("Lines of code:"),
            value: render_lines_field(&snap.metrics),
        },
    );
    fields.push(
        ReportField {
            name: String::from_str("Currently hosted by:"),
            value: render_hoster_field(snap.hoster_tag.as_str(), snap.hoster_id),
        },
    );
    fields.push(
        ReportField {
            name: String::from_str("Latency:"),
            value: render_latency_field(snap.gateway_latency_text.as_str(), snap.rest_latency_ms),
        },
    );
    fields.push(
        ReportField {
            name: String::from_str("Memory usage:"),
            value: render_memory_field(&snap.memory),
        },
    );
    fields.push(
        ReportField {
            name: String::from_str("Somewhat Static Stats:"),
            value: render_static_field(snap.metrics.command_count, snap.uptime_seconds),
        },
    );
    let thumbnail: Option<String> = match &snap.bot_icon {
        Some(s) => Some(s.clone()),
        None => None,
    };
    Report {
        title,
        url: String::from_str("https://gitlab.com/nitsuga5124/robo-arc"),
        description: String::from_str(
            "General Purpose Discord Bot made in [Rust](https://www.rust-lang.org/) using [serenity.rs](https://github.com/serenity-rs/serenity)\n\nHaving any issues? join the [Support Server](https://discord.gg/kH7z85n)\nBe sure to `invite` me to your server if you like what i can do!",
        ),
        fields,
        thumbnail,
    }
}

} // verus!
