//! Counters of what the connectors did.

use crate::text::{dec, decimal};
use vstd::prelude::*;
use vstd::string::*;

verus! {

/// What was counted up to some moment.
#[derive(Clone, Copy, Debug, PartialEq, Eq, Structural)]
pub struct IoSnapshot {
    pub mqtt_received: u64,
    pub mqtt_inbox_metadata_bytes: u64,
    pub mqtt_pending_bytes: u64,
    pub mqtt_dropped_budget: u64,
    pub mqtt_dropped_oversize: u64,
    pub mqtt_accounted_sources: u64,
    pub mqtt_inbox_items: u64,
    pub mqtt_inbox_bytes: u64,
    pub mqtt_inbox_peak_items: u64,
    pub mqtt_inbox_peak_bytes: u64,
    pub mqtt_decoded: u64,
    pub mqtt_dropped_bad: u64,
    pub mqtt_dropped_full: u64,
    pub mqtt_backpressure_waits: u64,
    pub mqtt_backpressure_recovered: u64,
    pub mqtt_reconnects: u64,
    pub mqtt_quickack_calls: u64,
    pub mqtt_quickack_errors: u64,
    pub http_posted: u64,
    pub http_acked_batches: u64,
    pub http_encode_errors: u64,
    pub http_budget_drops: u64,
    pub http_failed: u64,
    pub http_dropped: u64,
    pub http_retries: u64,
    pub http_inflight: u64,
    pub log_written: u64,
    pub decode_errors: u64,
}

impl Default for IoSnapshot {
    /// Nothing was counted.
    fn default() -> (r: Self)
        ensures
            r == IoSnapshot::zero(),
    {
        IoSnapshot {
            mqtt_received: 0,
            mqtt_inbox_metadata_bytes: 0,
            mqtt_pending_bytes: 0,
            mqtt_dropped_budget: 0,
            mqtt_dropped_oversize: 0,
            mqtt_accounted_sources: 0,
            mqtt_inbox_items: 0,
            mqtt_inbox_bytes: 0,
            mqtt_inbox_peak_items: 0,
            mqtt_inbox_peak_bytes: 0,
            mqtt_decoded: 0,
            mqtt_dropped_bad: 0,
            mqtt_dropped_full: 0,
            mqtt_backpressure_waits: 0,
            mqtt_backpressure_recovered: 0,
            mqtt_reconnects: 0,
            mqtt_quickack_calls: 0,
            mqtt_quickack_errors: 0,
            http_posted: 0,
            http_acked_batches: 0,
            http_encode_errors: 0,
            http_budget_drops: 0,
            http_failed: 0,
            http_dropped: 0,
            http_retries: 0,
            http_inflight: 0,
            log_written: 0,
            decode_errors: 0,
        }
    }
}

impl IoSnapshot {
    /// Nothing was counted.
    pub open spec fn zero() -> IoSnapshot {
        IoSnapshot {
            mqtt_received: 0,
            mqtt_inbox_metadata_bytes: 0,
            mqtt_pending_bytes: 0,
            mqtt_dropped_budget: 0,
            mqtt_dropped_oversize: 0,
            mqtt_accounted_sources: 0,
            mqtt_inbox_items: 0,
            mqtt_inbox_bytes: 0,
            mqtt_inbox_peak_items: 0,
            mqtt_inbox_peak_bytes: 0,
            mqtt_decoded: 0,
            mqtt_dropped_bad: 0,
            mqtt_dropped_full: 0,
            mqtt_backpressure_waits: 0,
            mqtt_backpressure_recovered: 0,
            mqtt_reconnects: 0,
            mqtt_quickack_calls: 0,
            mqtt_quickack_errors: 0,
            http_posted: 0,
            http_acked_batches: 0,
            http_encode_errors: 0,
            http_budget_drops: 0,
            http_failed: 0,
            http_dropped: 0,
            http_retries: 0,
            http_inflight: 0,
            log_written: 0,
            decode_errors: 0,
        }
    }

    /// No counter overflows when the counts are added.
    pub open spec fn fits(self, other: IoSnapshot) -> bool {
        &&& self.mqtt_received + other.mqtt_received <= u64::MAX
        &&& self.mqtt_inbox_metadata_bytes + other.mqtt_inbox_metadata_bytes <= u64::MAX
        &&& self.mqtt_pending_bytes + other.mqtt_pending_bytes <= u64::MAX
        &&& self.mqtt_dropped_budget + other.mqtt_dropped_budget <= u64::MAX
        &&& self.mqtt_dropped_oversize + other.mqtt_dropped_oversize <= u64::MAX
        &&& self.mqtt_accounted_sources + other.mqtt_accounted_sources <= u64::MAX
        &&& self.mqtt_inbox_items + other.mqtt_inbox_items <= u64::MAX
        &&& self.mqtt_inbox_bytes + other.mqtt_inbox_bytes <= u64::MAX
        &&& self.mqtt_inbox_peak_items + other.mqtt_inbox_peak_items <= u64::MAX
        &&& self.mqtt_inbox_peak_bytes + other.mqtt_inbox_peak_bytes <= u64::MAX
        &&& self.mqtt_decoded + other.mqtt_decoded <= u64::MAX
        &&& self.mqtt_dropped_bad + other.mqtt_dropped_bad <= u64::MAX
        &&& self.mqtt_dropped_full + other.mqtt_dropped_full <= u64::MAX
        &&& self.mqtt_backpressure_waits + other.mqtt_backpressure_waits <= u64::MAX
        &&& self.mqtt_backpressure_recovered + other.mqtt_backpressure_recovered <= u64::MAX
        &&& self.mqtt_reconnects + other.mqtt_reconnects <= u64::MAX
        &&& self.mqtt_quickack_calls + other.mqtt_quickack_calls <= u64::MAX
        &&& self.mqtt_quickack_errors + other.mqtt_quickack_errors <= u64::MAX
        &&& self.http_posted + other.http_posted <= u64::MAX
        &&& self.http_acked_batches + other.http_acked_batches <= u64::MAX
        &&& self.http_encode_errors + other.http_encode_errors <= u64::MAX
        &&& self.http_budget_drops + other.http_budget_drops <= u64::MAX
        &&& self.http_failed + other.http_failed <= u64::MAX
        &&& self.http_dropped + other.http_dropped <= u64::MAX
        &&& self.http_retries + other.http_retries <= u64::MAX
        &&& self.http_inflight + other.http_inflight <= u64::MAX
        &&& self.log_written + other.log_written <= u64::MAX
        &&& self.decode_errors + other.decode_errors <= u64::MAX
    }

    /// Both counts together.
    pub open spec fn sum(self, other: IoSnapshot) -> IoSnapshot {
        IoSnapshot {
            mqtt_received: (self.mqtt_received + other.mqtt_received) as u64,
            mqtt_inbox_metadata_bytes: (self.mqtt_inbox_metadata_bytes + other.mqtt_inbox_metadata_bytes) as u64,
            mqtt_pending_bytes: (self.mqtt_pending_bytes + other.mqtt_pending_bytes) as u64,
            mqtt_dropped_budget: (self.mqtt_dropped_budget + other.mqtt_dropped_budget) as u64,
            mqtt_dropped_oversize: (self.mqtt_dropped_oversize + other.mqtt_dropped_oversize) as u64,
            mqtt_accounted_sources: (self.mqtt_accounted_sources + other.mqtt_accounted_sources) as u64,
            mqtt_inbox_items: (self.mqtt_inbox_items + other.mqtt_inbox_items) as u64,
            mqtt_inbox_bytes: (self.mqtt_inbox_bytes + other.mqtt_inbox_bytes) as u64,
            mqtt_inbox_peak_items: (self.mqtt_inbox_peak_items + other.mqtt_inbox_peak_items) as u64,
            mqtt_inbox_peak_bytes: (self.mqtt_inbox_peak_bytes + other.mqtt_inbox_peak_bytes) as u64,
            mqtt_decoded: (self.mqtt_decoded + other.mqtt_decoded) as u64,
            mqtt_dropped_bad: (self.mqtt_dropped_bad + other.mqtt_dropped_bad) as u64,
            mqtt_dropped_full: (self.mqtt_dropped_full + other.mqtt_dropped_full) as u64,
            mqtt_backpressure_waits: (self.mqtt_backpressure_waits + other.mqtt_backpressure_waits) as u64,
            mqtt_backpressure_recovered: (self.mqtt_backpressure_recovered + other.mqtt_backpressure_recovered) as u64,
            mqtt_reconnects: (self.mqtt_reconnects + other.mqtt_reconnects) as u64,
            mqtt_quickack_calls: (self.mqtt_quickack_calls + other.mqtt_quickack_calls) as u64,
            mqtt_quickack_errors: (self.mqtt_quickack_errors + other.mqtt_quickack_errors) as u64,
            http_posted: (self.http_posted + other.http_posted) as u64,
            http_acked_batches: (self.http_acked_batches + other.http_acked_batches) as u64,
            http_encode_errors: (self.http_encode_errors + other.http_encode_errors) as u64,
            http_budget_drops: (self.http_budget_drops + other.http_budget_drops) as u64,
            http_failed: (self.http_failed + other.http_failed) as u64,
            http_dropped: (self.http_dropped + other.http_dropped) as u64,
            http_retries: (self.http_retries + other.http_retries) as u64,
            http_inflight: (self.http_inflight + other.http_inflight) as u64,
            log_written: (self.log_written + other.log_written) as u64,
            decode_errors: (self.decode_errors + other.decode_errors) as u64,
        }
    }

    /// Adds the counts of another snapshot.
    pub fn add_assign(&mut self, other: &IoSnapshot)
        requires
            old(self).fits(*other),
        ensures
            *final(self) == old(self).sum(*other),
    {
        self.mqtt_received = self.mqtt_received + other.mqtt_received;
        self.mqtt_inbox_metadata_bytes = self.mqtt_inbox_metadata_bytes + other.mqtt_inbox_metadata_bytes;
        self.mqtt_pending_bytes = self.mqtt_pending_bytes + other.mqtt_pending_bytes;
        self.mqtt_dropped_budget = self.mqtt_dropped_budget + other.mqtt_dropped_budget;
        self.mqtt_dropped_oversize = self.mqtt_dropped_oversize + other.mqtt_dropped_oversize;
        self.mqtt_accounted_sources = self.mqtt_accounted_sources + other.mqtt_accounted_sources;
        self.mqtt_inbox_items = self.mqtt_inbox_items + other.mqtt_inbox_items;
        self.mqtt_inbox_bytes = self.mqtt_inbox_bytes + other.mqtt_inbox_bytes;
        self.mqtt_inbox_peak_items = self.mqtt_inbox_peak_items + other.mqtt_inbox_peak_items;
        self.mqtt_inbox_peak_bytes = self.mqtt_inbox_peak_bytes + other.mqtt_inbox_peak_bytes;
        self.mqtt_decoded = self.mqtt_decoded + other.mqtt_decoded;
        self.mqtt_dropped_bad = self.mqtt_dropped_bad + other.mqtt_dropped_bad;
        self.mqtt_dropped_full = self.mqtt_dropped_full + other.mqtt_dropped_full;
        self.mqtt_backpressure_waits = self.mqtt_backpressure_waits + other.mqtt_backpressure_waits;
        self.mqtt_backpressure_recovered = self.mqtt_backpressure_recovered + other.mqtt_backpressure_recovered;
        self.mqtt_reconnects = self.mqtt_reconnects + other.mqtt_reconnects;
        self.mqtt_quickack_calls = self.mqtt_quickack_calls + other.mqtt_quickack_calls;
        self.mqtt_quickack_errors = self.mqtt_quickack_errors + other.mqtt_quickack_errors;
        self.http_posted = self.http_posted + other.http_posted;
        self.http_acked_batches = self.http_acked_batches + other.http_acked_batches;
        self.http_encode_errors = self.http_encode_errors + other.http_encode_errors;
        self.http_budget_drops = self.http_budget_drops + other.http_budget_drops;
        self.http_failed = self.http_failed + other.http_failed;
        self.http_dropped = self.http_dropped + other.http_dropped;
        self.http_retries = self.http_retries + other.http_retries;
        self.http_inflight = self.http_inflight + other.http_inflight;
        self.log_written = self.log_written + other.log_written;
        self.decode_errors = self.decode_errors + other.decode_errors;
    }

    /// The line that shows the main counters.
    pub open spec fn line(self) -> Seq<char> {
        "mqtt recv="@
            + decimal(self.mqtt_received as nat) + " decoded="@
            + decimal(self.mqtt_decoded as nat) + " bad="@
            + decimal(self.mqtt_dropped_bad as nat) + " full="@
            + decimal(self.mqtt_dropped_full as nat) + " waits="@
            + decimal(self.mqtt_backpressure_waits as nat) + " recovered="@
            + decimal(self.mqtt_backpressure_recovered as nat) + " reconnects="@
            + decimal(self.mqtt_reconnects as nat) + " | http posted="@
            + decimal(self.http_posted as nat) + " failed="@
            + decimal(self.http_failed as nat) + " dropped="@
            + decimal(self.http_dropped as nat) + " retries="@
            + decimal(self.http_retries as nat) + " inflight="@
            + decimal(self.http_inflight as nat) + " | log="@
            + decimal(self.log_written as nat) + " decode_err="@
            + decimal(self.decode_errors as nat)
    }

    /// Writes the line that shows the main counters.
    pub fn display(&self) -> (r: String)
        ensures
            r@ == self.line(),
    {
        let mut r: String = "".to_owned();
        proof {
            reveal_strlit("");
        }
        r.append("mqtt recv=");
        r.append(dec(self.mqtt_received).as_str());
        assert(r@ =~= "mqtt recv="@ + decimal(self.mqtt_received as nat));
        r.append(" decoded=");
        r.append(dec(self.mqtt_decoded).as_str());
        r.append(" bad=");
        r.append(dec(self.mqtt_dropped_bad).as_str());
        r.append(" full=");
        r.append(dec(self.mqtt_dropped_full).as_str());
        r.append(" waits=");
        r.append(dec(self.mqtt_backpressure_waits).as_str());
        r.append(" recovered=");
        r.append(dec(self.mqtt_backpressure_recovered).as_str());
        r.append(" reconnects=");
        r.append(dec(self.mqtt_reconnects).as_str());
        r.append(" | http posted=");
        r.append(dec(self.http_posted).as_str());
        r.append(" failed=");
        r.append(dec(self.http_failed).as_str());
        r.append(" dropped=");
        r.append(dec(self.http_dropped).as_str());
        r.append(" retries=");
        r.append(dec(self.http_retries).as_str());
        r.append(" inflight=");
        r.append(dec(self.http_inflight).as_str());
        r.append(" | log=");
        r.append(dec(self.log_written).as_str());
        r.append(" decode_err=");
        r.append(dec(self.decode_errors).as_str());
        r
    }
}

} // verus!
