//! The latency prober: reading a shard's most recent heartbeat latency out
//! of a copied-out latency table, and rendering the latency lines of the
//! reports.  Timing the REST round trip itself is the caller's side effect;
//! the rendered text takes the measured figure as a plain value.

use vstd::prelude::*;
use vstd::string::StringExecFns;
use crate::digits::dec_rep;
use crate::digits::pad2_rep;
use crate::digits::u64_to_dec;
use crate::digits::u64_to_pad2;

verus! {

/// One shard's most recently recorded heartbeat latency, in microseconds;
/// nothing until a first heartbeat has completed.
#[derive(Clone, Copy, Debug, PartialEq, Eq, Structural)]
pub struct ShardLatencySample {
    pub shard_id: u64,
    pub heartbeat_latency_micros: Option<u64>,
}

/// The shard-runner latency state, copied out row by row by the transport
/// layer's safe-read accessor before it is handed here.
pub struct ShardLatencyTable {
    pub rows: Vec<ShardLatencySample>,
}

/// The latency entry of the first row for `shard_id`: nothing when no
/// runner is known for that shard.
pub open spec fn spec_runner(rows: Seq<ShardLatencySample>, shard_id: u64) -> Option<Option<u64>>
    decreases rows.len(),
{
    if rows.len() == 0 {
        None
    } else if rows[0].shard_id == shard_id {
        Some(rows[0].heartbeat_latency_micros)
    } else {
        spec_runner(rows.drop_first(), shard_id)
    }
}

/// The heartbeat latency for `shard_id`: nothing when the shard has no row
/// or no completed heartbeat yet.
pub open spec fn spec_gateway_latency(rows: Seq<ShardLatencySample>, shard_id: u64) -> Option<
    u64,
> {
    match spec_runner(rows, shard_id) {
        Some(Some(us)) => Some(us),
        _ => None,
    }
}

impl ShardLatencyTable {
    /// The latency entry of the first row for `shard_id`, or nothing when
    /// the shard has no runner.
    pub fn lookup_runner(&self, shard_id: u64) -> (r: Option<Option<u64>>)
        ensures
            r == spec_runner(self.rows@, shard_id),
    {
        proof {
            assert(self.rows@.skip(0) =~= self.rows@);
        }
        let mut i: usize = 0;
        while i < self.rows.len()
            invariant
                i <= self.rows@.len(),
                spec_runner(self.rows@, shard_id) == spec_runner(
                    self.rows@.skip(i as int),
                    shard_id,
                ),
            decreases self.rows@.len() - i,
        {
            proof {
                assert(self.rows@.skip(i as int)[0] == self.rows@[i as int]);
                assert(self.rows@.skip(i as int).drop_first() =~= self.rows@.skip(i as int + 1));
            }
            let row = self.rows[i];
            if row.shard_id == shard_id {
                return Some(row.heartbeat_latency_micros);
            }
            i += 1;
        }
        proof {
            assert(self.rows@.skip(i as int).len() == 0);
        }
        None
    }
}

/// Reads the most recently recorded heartbeat latency for `shard_id` out of
/// the table, without blocking for one: nothing when no sample exists yet.
pub fn measure_gateway_latency(table: &ShardLatencyTable, shard_id: u64) -> (r: Option<u64>)
    ensures
        r == spec_gateway_latency(table.rows@, shard_id),
{
    match table.lookup_runner(shard_id) {
        Some(Some(us)) => Some(us),
        _ => None,
    }
}

/// Microseconds rendered as milliseconds with two decimal places, rounded
/// half up on the third.
pub open spec fn precise_latency_rep(micros: u64) -> Seq<char> {
    let cm = micros / 10 + if micros % 10 >= 5 {
        1int
    } else {
        0int
    };
    dec_rep((cm / 100) as nat) + "."@ + pad2_rep((cm % 100) as nat) + "ms"@
}

/// The gateway part of the quick latency report: the precise text, or the
/// empty string without a sample.
pub open spec fn spec_precise_latency_text(sample: Option<u64>) -> Seq<char> {
    match sample {
        Some(us) => precise_latency_rep(us),
        None => Seq::empty(),
    }
}

/// Renders a gateway latency sample as `12.34ms`, or as the empty string
/// when no sample exists yet.
pub fn render_precise_latency(sample: Option<u64>) -> (r: String)
    ensures
        r@ == spec_precise_latency_text(sample),
{
    match sample {
        None => String::new(),
        Some(us) => {
            let cm: u64 = us / 10 + if us % 10 >= 5 {
                1
            } else {
                0
            };
            let mut s = u64_to_dec(cm / 100);
            s.append(".");
            let frac = u64_to_pad2(cm % 100);
            s.append(frac.as_str());
            s.append("ms");
            s
        },
    }
}

/// The gateway line of the full report: whole milliseconds, or `?ms` when
/// the shard has no runner or no sample yet.
pub open spec fn spec_millis_latency_text(runner: Option<Option<u64>>) -> Seq<char> {
    match runner {
        Some(Some(us)) => dec_rep((us / 1000) as nat) + "ms"@,
        _ => "?ms"@,
    }
}

/// Renders a runner lookup as whole milliseconds, with `?ms` standing in
/// when no sample exists.
pub fn render_millis_latency(runner: Option<Option<u64>>) -> (r: String)
    ensures
        r@ == spec_millis_latency_text(runner),
{
    match runner {
        Some(Some(us)) => {
            let mut s = u64_to_dec(us / 1000);
            s.append("ms");
            s
        },
        _ => String::from_str("?ms"),
    }
}

/// The quick latency report around a gateway text and a REST round trip in
/// milliseconds.
pub open spec fn spec_ping_report(gateway: Seq<char>, rest_ms: u64) -> Seq<char> {
    "Ping?\nGateway: "@ + gateway + "\nREST: "@ + dec_rep(rest_ms as nat) + "ms"@
}

/// Renders the quick latency report.
pub fn render_ping_report(gateway: &str, rest_ms: u64) -> (r: String)
    ensures
        r@ == spec_ping_report(gateway@, rest_ms),
{
    let mut s = String::from_str("Ping?\nGateway: ");
    s.append(gateway);
    s.append("\nREST: ");
    let d = u64_to_dec(rest_ms);
    s.append(d.as_str());
    s.append("ms");
    s
}

/// The notice for a shard without a runner.
pub fn missing_shard_notice() -> (r: String)
    ensures
        r@ == "No shard found"@,
{
    String::from_str("No shard found")
}

/// The acknowledgment text of the placeholder message that the report
/// later replaces in place.
pub fn calculating_notice() -> (r: String)
    ensures
        r@ == "Calculating latency..."@,
{
    String::from_str("Calculating latency...")
}

} // verus!
