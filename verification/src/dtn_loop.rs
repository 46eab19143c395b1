//! The station-originated outbound loop: when to pull pending pushes, where a
//! completed payload goes, and when a push is given up.
//!
//! The durable record of a push is a row of the push table. The loop re-sends
//! every pending row on its first tick, on a wake and on a periodic re-scan, so a
//! lost wake costs latency and never a push.

use vstd::prelude::*;

use crate::control::PayloadKind;
use crate::dtn_sync::{elapsed, elapsed_secs, Backpressure, Completed, Priority};
use crate::tables::Id;

verus! {

/// A wake signal to the outbound loop that new outbound work has been queued. It
/// carries no payload.
#[derive(Clone, Copy, Debug, PartialEq, Eq, Structural)]
pub enum DtnOutbound {
    /// New outbound work is queued: pull and send the due rows.
    Wake,
}

/// One pending outbound push the loop should (re-)send.
#[derive(Clone, Debug, PartialEq, Eq)]
pub struct PushToSend {
    /// The push id (the bundle's presentation hash).
    pub push_id: Id,
    /// The carrier destination to send to.
    pub to: String,
    /// The encoded bundle bytes.
    pub bundle: Vec<u8>,
    /// The airtime class the bundle is paced at.
    pub priority: Priority,
}

/// A pull of pending pushes from the push table.
#[derive(Clone, Copy, Debug, PartialEq, Eq, Structural)]
pub struct Pull {
    /// Rows older than this are abandoned.
    pub ttl_secs: i64,
    /// Only rows not sent for this long; all rows where there is none.
    pub quiet_for: Option<i64>,
}

/// What to do with a completed payload.
#[derive(Clone, Debug, PartialEq, Eq)]
pub enum Route {
    /// Ingest a bundle, and send its receipt back to the source.
    Ingest {
        /// Who sent it.
        source: String,
        /// The bundle.
        bundle: Vec<u8>,
    },
    /// Correlate a receipt with one of the station's own pushes.
    Correlate {
        /// Who sent it.
        source: String,
        /// The receipt.
        receipt: Vec<u8>,
    },
}

/// A payload to send.
#[derive(Clone, Debug, PartialEq, Eq)]
pub struct Reply {
    /// The peer it goes to.
    pub to: String,
    /// What it is.
    pub kind: PayloadKind,
    /// Its bytes.
    pub payload: Vec<u8>,
    /// Its class.
    pub priority: Priority,
}

/// The outbound-push lifecycle of one carrier.
#[derive(Clone, Copy, Debug, PartialEq, Eq)]
pub struct DtnLoop {
    /// How long an undelivered push is kept.
    pub push_ttl_secs: i64,
    /// How often pending pushes are looked for.
    pub push_rescan_secs: i64,
    /// When they were last looked for.
    pub last_rescan_at: i64,
    /// Whether the first tick is over.
    pub started: bool,
}

impl DtnLoop {
    /// Builds a loop that has not ticked yet.
    pub fn new(push_ttl_secs: i64, push_rescan_secs: i64, now: i64) -> (r: Self)
        ensures
            r == (DtnLoop { push_ttl_secs, push_rescan_secs, last_rescan_at: now, started: false }),
    {
        DtnLoop { push_ttl_secs, push_rescan_secs, last_rescan_at: now, started: false }
    }

    /// Starts a tick: every pending push is pulled on the first tick and whenever
    /// at least one wake came in, however many came.
    pub fn begin(&mut self, now: i64, wakes: &Vec<DtnOutbound>) -> (r: Option<Pull>)
        ensures
            r == if !old(self).started || wakes@.len() > 0 {
                Some(Pull { ttl_secs: old(self).push_ttl_secs, quiet_for: None })
            } else {
                None
            },
            *final(self) == (DtnLoop {
                last_rescan_at: if old(self).started {
                    old(self).last_rescan_at
                } else {
                    now
                },
                started: true,
                ..*old(self)
            }),
    {
        let mut pull = false;
        if !self.started {
            self.started = true;
            self.last_rescan_at = now;
            pull = true;
        }
        if wakes.len() > 0 {
            pull = true;
        }
        if pull {
            Some(Pull { ttl_secs: self.push_ttl_secs, quiet_for: None })
        } else {
            None
        }
    }

    /// Whether a re-scan of the push table is due.
    pub open spec fn rescan_due(&self, now: i64) -> bool {
        elapsed(now, self.last_rescan_at) >= self.push_rescan_secs
    }

    /// Ends a tick: once the re-scan interval has passed, the pushes gone quiet for
    /// that long are pulled again.
    pub fn rescan(&mut self, now: i64) -> (r: Option<Pull>)
        ensures
            r == if old(self).rescan_due(now) {
                Some(
                    Pull {
                        ttl_secs: old(self).push_ttl_secs,
                        quiet_for: Some(old(self).push_rescan_secs),
                    },
                )
            } else {
                None
            },
            *final(self) == if old(self).rescan_due(now) {
                DtnLoop { last_rescan_at: now, ..*old(self) }
            } else {
                *old(self)
            },
    {
        if elapsed_secs(now, self.last_rescan_at) >= self.push_rescan_secs {
            self.last_rescan_at = now;
            Some(Pull { ttl_secs: self.push_ttl_secs, quiet_for: Some(self.push_rescan_secs) })
        } else {
            None
        }
    }
}

/// Where a completed payload goes.
pub fn route(done: Completed) -> (r: Route)
    ensures
        r == match done.kind {
            PayloadKind::Bundle => Route::Ingest { source: done.source, bundle: done.bytes },
            PayloadKind::Receipt => Route::Correlate { source: done.source, receipt: done.bytes },
        },
{
    match done.kind {
        PayloadKind::Bundle => Route::Ingest { source: done.source, bundle: done.bytes },
        PayloadKind::Receipt => Route::Correlate { source: done.source, receipt: done.bytes },
    }
}

/// The answer to an ingested bundle: its receipt goes back to the source ahead of
/// other traffic; a bundle that gave no receipt is not answered.
pub fn receipt_reply(source: String, receipt: Option<Vec<u8>>) -> (r: Option<Reply>)
    ensures
        r == match receipt {
            Some(payload) => Some(
                Reply {
                    to: source,
                    kind: PayloadKind::Receipt,
                    payload,
                    priority: Priority::Economic,
                },
            ),
            None => None,
        },
{
    match receipt {
        Some(payload) => Some(
            Reply { to: source, kind: PayloadKind::Receipt, payload, priority: Priority::Economic },
        ),
        None => None,
    }
}

/// The payload of a push.
pub fn push_payload(p: PushToSend) -> (r: Reply)
    ensures
        r == (Reply {
            to: p.to,
            kind: PayloadKind::Bundle,
            payload: p.bundle,
            priority: p.priority,
        }),
{
    Reply { to: p.to, kind: PayloadKind::Bundle, payload: p.bundle, priority: p.priority }
}

/// The push to abandon at once, given what came of sending it: one that could not be
/// framed for the carrier, which is refused with a depth of zero, can never be sent.
pub fn abandoned_send(push_id: Id, sent: Result<(), Backpressure>) -> (r: Option<Id>)
    ensures
        r == (if sent matches Err(bp) && bp.depth == 0 {
            Some(push_id)
        } else {
            None
        }),
{
    match sent {
        Err(bp) => if bp.depth == 0 {
            Some(push_id)
        } else {
            None
        },
        Ok(()) => None,
    }
}

} // verus!
