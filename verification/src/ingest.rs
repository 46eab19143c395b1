//! Bundle ingest: what becomes of each record that a courier brings.
//!
//! The station decodes a bundle, answers a presentation that it has answered
//! before with the receipt it gave then, and otherwise takes the entries one by
//! one, in bundle order. For each entry it alternates between its stores and its
//! engine and the decisions made here: a step takes what the last action brought
//! and says what to do next, until the entry has a disposition or the ingest is
//! given up.

use vstd::prelude::*;
use vstd::string::*;

use crate::cbor::{kind_text, record_kind};
use crate::rpc::{BundleIngestError, LedgerError, LedgerErrorKind};
use crate::tables::Id;
use crate::text::same_text;

verus! {

/// Why a record was refused, as the receipt says it.
#[derive(Clone, Copy, Debug, PartialEq, Eq, Structural)]
pub enum RefusalReason {
    /// A signature did not verify.
    BadSignature,
    /// Another entry stands at this position of the author's outbox.
    OutboxFork,
    /// The proposal is on the log already.
    Duplicate,
    /// The nonce is not the sender's next.
    NonceGap,
    /// The proposal's time is over.
    Expired,
    /// The oracle tier is not supported.
    TierUnsupported,
    /// The sender would fall below the debt floor.
    DebtFloor,
    /// The referenced transaction is absent or not in the state needed.
    NotProposed,
    /// The confirmer's standing does not carry a Tier-2 confirmation.
    Tier2Stake,
    /// No engine takes records of this kind.
    UnroutableKind,
    /// Any other refusal.
    Rejected,
}

/// What became of a record.
#[derive(Clone, Copy, Debug, PartialEq, Eq, Structural)]
pub enum Disposition {
    /// It was admitted to the log at this sequence number.
    Admitted {
        /// The sequence number.
        seq: u64,
    },
    /// The log held it already, at this sequence number.
    Known {
        /// The sequence number.
        seq: u64,
    },
    /// It was refused.
    Refused {
        /// Why.
        reason: RefusalReason,
    },
}

/// A record and what became of it.
#[derive(Clone, Copy, Debug, PartialEq, Eq)]
pub struct Outcome {
    /// The record's hash.
    pub record_hash: Id,
    /// What became of it.
    pub disposition: Disposition,
}

/// The record kinds that the station routes to an engine.
#[derive(Clone, Copy, Debug, PartialEq, Eq, Structural)]
pub enum RecordKind {
    /// A transaction proposal.
    Proposal,
    /// A confirmation of a proposal.
    Confirmation,
    /// A dispute of a transaction.
    Dispute,
    /// A party's answer to a dispute.
    DisputeResponse,
}

/// The wire discriminator of a proposal.
pub const KIND_PROPOSAL: &'static str = "rrn.tx.proposal";

/// The wire discriminator of a confirmation.
pub const KIND_CONFIRMATION: &'static str = "rrn.tx.confirmation";

/// The wire discriminator of a dispute.
pub const KIND_DISPUTE: &'static str = "rrn.tx.dispute";

/// The wire discriminator of a dispute response.
pub const KIND_DISPUTE_RESPONSE: &'static str = "rrn.tx.dispute.response";

/// The routable kind that a discriminator stands for.
pub open spec fn routed_kind(kind: Option<Seq<char>>) -> Option<RecordKind> {
    match kind {
        Some(k) => if k == KIND_PROPOSAL@ {
            Some(RecordKind::Proposal)
        } else if k == KIND_CONFIRMATION@ {
            Some(RecordKind::Confirmation)
        } else if k == KIND_DISPUTE@ {
            Some(RecordKind::Dispute)
        } else if k == KIND_DISPUTE_RESPONSE@ {
            Some(RecordKind::DisputeResponse)
        } else {
            None
        },
        None => None,
    }
}

/// The routable kind of a record, given its discriminator.
pub fn route_kind(kind: &Option<String>) -> (r: Option<RecordKind>)
    ensures
        r == routed_kind(
            match kind {
                Some(k) => Some(k@),
                None => None,
            },
        ),
{
    match kind {
        Some(k) => {
            let k = k.as_str();
            if same_text(k, KIND_PROPOSAL) {
                Some(RecordKind::Proposal)
            } else if same_text(k, KIND_CONFIRMATION) {
                Some(RecordKind::Confirmation)
            } else if same_text(k, KIND_DISPUTE) {
                Some(RecordKind::Dispute)
            } else if same_text(k, KIND_DISPUTE_RESPONSE) {
                Some(RecordKind::DisputeResponse)
            } else {
                None
            }
        },
        None => None,
    }
}

/// The refusal that a ledger error is reported as. A valid signature by the wrong
/// party is no bad signature; a confirmation ahead of its proposal is told to keep
/// its order.
pub open spec fn refusal_of(e: LedgerErrorKind) -> RefusalReason {
    match e {
        LedgerErrorKind::BadSignature => RefusalReason::BadSignature,
        LedgerErrorKind::DuplicateProposal => RefusalReason::Duplicate,
        LedgerErrorKind::BadNonce => RefusalReason::NonceGap,
        LedgerErrorKind::Expired => RefusalReason::Expired,
        LedgerErrorKind::TierNotSupported => RefusalReason::TierUnsupported,
        LedgerErrorKind::DebtFloorExceeded => RefusalReason::DebtFloor,
        LedgerErrorKind::UnknownTransaction => RefusalReason::NotProposed,
        LedgerErrorKind::NotProposed => RefusalReason::NotProposed,
        _ => RefusalReason::Rejected,
    }
}

/// Maps a ledger admission error to the machine-stable refusal carried back in the
/// receipt.
pub fn map_refusal(e: LedgerErrorKind) -> (r: RefusalReason)
    ensures
        r == refusal_of(e),
{
    match e {
        LedgerErrorKind::BadSignature => RefusalReason::BadSignature,
        LedgerErrorKind::DuplicateProposal => RefusalReason::Duplicate,
        LedgerErrorKind::BadNonce => RefusalReason::NonceGap,
        LedgerErrorKind::Expired => RefusalReason::Expired,
        LedgerErrorKind::TierNotSupported => RefusalReason::TierUnsupported,
        LedgerErrorKind::DebtFloorExceeded => RefusalReason::DebtFloor,
        LedgerErrorKind::UnknownTransaction | LedgerErrorKind::NotProposed => {
            RefusalReason::NotProposed
        },
        _ => RefusalReason::Rejected,
    }
}

/// The lowest oracle tier, which an unknown transaction is taken to have.
pub const MIN_TIER: u8 = 1;

/// Whether confirming a transaction of this tier stakes the confirmer's standing.
/// `None` is a transaction that the ledger does not know: the engine refuses it.
pub open spec fn stakes(tier: Option<u8>) -> bool {
    match tier {
        Some(t) => t >= 2,
        None => false,
    }
}

/// Whether the confirmer's eligibility has to be evaluated.
pub fn needs_stake(tier: Option<u8>) -> (r: bool)
    ensures
        r == stakes(tier),
{
    let tier: u8 = match tier {
        Some(t) => t,
        None => MIN_TIER,
    };
    tier >= 2
}

/// What the reputation layer says of a Tier-2 confirmer. Standing is given as
/// text, rounded to two digits.
#[derive(Clone, Debug, PartialEq, Eq)]
pub enum Tier2Eligibility {
    /// The confirmation may proceed.
    Allowed,
    /// It may not.
    Refused {
        /// The confirmer's composite standing.
        composite: String,
        /// How many members are established.
        established: u64,
    },
}

/// The Tier-2 confirmation gate, shared by every path that admits a confirmation.
/// `None` lets the confirmation proceed; otherwise the standing and the count of
/// established members are given back for the caller's message. `eligibility` is
/// the reputation layer's answer, which is asked for only where standing is staked.
pub fn tier2_confirmation_gate(
    tier: Option<u8>,
    eligibility: Option<Tier2Eligibility>,
) -> (r: Option<(String, u64)>)
    ensures
        r is Some <==> stakes(tier) && eligibility matches Some(Tier2Eligibility::Refused { .. }),
        r matches Some(p) ==> eligibility == Some(
            Tier2Eligibility::Refused { composite: p.0, established: p.1 },
        ),
{
    if !needs_stake(tier) {
        return None;
    }
    match eligibility {
        Some(Tier2Eligibility::Refused { composite, established }) => Some(
            (composite, established),
        ),
        _ => None,
    }
}

/// A carried entry, decoded.
#[derive(Clone, Debug, PartialEq, Eq)]
pub struct Prepared {
    /// The hash of the carried record.
    pub record_hash: Id,
    /// The author's public key.
    pub author: Id,
    /// The entry's position in the author's outbox.
    pub position: u64,
    /// The hash of the entry.
    pub entry_hash: Id,
    /// The entry's envelope, kept as evidence of a fork.
    pub envelope: Vec<u8>,
    /// The canonical bytes of the carried record.
    pub record: Vec<u8>,
}

/// The record hashes of a bundle, one behind the other.
pub open spec fn hash_run(entries: Seq<Prepared>) -> Seq<u8>
    decreases entries.len(),
{
    if entries.len() == 0 {
        Seq::empty()
    } else {
        hash_run(entries.drop_last()) + entries.last().record_hash@
    }
}

/// The bytes whose hash names a presentation: the ordered record hashes, however
/// the records were bundled.
pub fn presentation(entries: &Vec<Prepared>) -> (r: Vec<u8>)
    ensures
        r@ == hash_run(entries@),
{
    let mut out: Vec<u8> = Vec::new();
    let mut i: usize = 0;
    while i < entries.len()
        invariant
            i <= entries.len(),
            out@ == hash_run(entries@.take(i as int)),
        decreases entries.len() - i,
    {
        let mut hash = vstd::slice::slice_to_vec(entries[i].record_hash.bytes.as_slice());
        out.append(&mut hash);
        assert(entries@.take(i as int + 1).drop_last() =~= entries@.take(i as int));
        i = i + 1;
    }
    assert(entries@.take(i as int) =~= entries@);
    out
}

proof fn lemma_hash_run_len(entries: Seq<Prepared>)
    ensures
        hash_run(entries).len() == 32 * entries.len(),
    decreases entries.len(),
{
    if entries.len() > 0 {
        lemma_hash_run_len(entries.drop_last());
    }
}

/// Two bundles are the same presentation exactly when they carry the same records
/// in the same order.
pub proof fn law_presentation_is_the_record_order(a: Seq<Prepared>, b: Seq<Prepared>)
    ensures
        hash_run(a) == hash_run(b) <==> a.map_values(|p: Prepared| p.record_hash@)
            == b.map_values(|p: Prepared| p.record_hash@),
    decreases a.len(),
{
    let f = |p: Prepared| p.record_hash@;
    lemma_hash_run_len(a);
    lemma_hash_run_len(b);
    if hash_run(a) == hash_run(b) || a.map_values(f) == b.map_values(f) {
        assert(a.map_values(f).len() == a.len());
        assert(b.map_values(f).len() == b.len());
        assert(a.len() == b.len());
        if a.len() > 0 {
            let x = a.drop_last();
            let y = b.drop_last();
            law_presentation_is_the_record_order(x, y);
            lemma_hash_run_len(x);
            lemma_hash_run_len(y);
            assert(a.map_values(f) =~= x.map_values(f).push(a.last().record_hash@));
            assert(b.map_values(f) =~= y.map_values(f).push(b.last().record_hash@));
            if hash_run(a) == hash_run(b) {
                let n = 32 * x.len() as int;
                assert(hash_run(x) =~= hash_run(a).take(n));
                assert(hash_run(y) =~= hash_run(b).take(n));
                assert(a.last().record_hash@ =~= hash_run(a).skip(n));
                assert(b.last().record_hash@ =~= hash_run(b).skip(n));
            }
            if a.map_values(f) == b.map_values(f) {
                assert(x.map_values(f) =~= a.map_values(f).drop_last());
                assert(y.map_values(f) =~= b.map_values(f).drop_last());
                assert(a.map_values(f).last() == b.map_values(f).last());
            }
        } else {
            assert(a.map_values(f) =~= b.map_values(f));
        }
    }
}

/// How an entry relates to what the station has seen of the author's outbox.
#[derive(Clone, Debug, PartialEq, Eq)]
pub enum NoteOutcome {
    /// Nothing was known at this position.
    Fresh,
    /// The same entry was.
    Duplicate,
    /// Another entry was.
    Fork {
        /// The hash of the entry that was there first.
        stored_entry_hash: Id,
        /// Its envelope.
        stored_envelope: Vec<u8>,
    },
}

/// What the ingest of an entry waits for.
#[derive(Clone, Copy, Debug, PartialEq, Eq, Structural)]
pub enum Phase {
    /// Whether the entry's signatures verify.
    Validating,
    /// How it relates to the author's outbox.
    Noting,
    /// How far the author's outbox is known without a hole.
    ReadingHead,
    /// That the evidence of a fork is stored.
    RecordingFork,
    /// Whether the log holds the record.
    LookingUp,
    /// Whether the record decodes as its kind.
    Decoding {
        /// The kind.
        kind: RecordKind,
    },
    /// Whether the Tier-2 gate refuses the confirmation.
    Gating,
    /// Whether the engine admits the record.
    Submitting {
        /// The kind.
        kind: RecordKind,
    },
    /// Where on the log the admitted record stands.
    Confirming,
}

/// What an action brought.
pub enum Event {
    /// Whether the entry's signatures verify.
    Validated(bool),
    /// How the entry relates to the author's outbox.
    Noted(NoteOutcome),
    /// The last position known without a hole.
    HeadRead(Option<u64>),
    /// The evidence of a fork is stored.
    ForkRecorded,
    /// The sequence number of the record on the log.
    Found(Option<u64>),
    /// Whether the record decodes as its kind.
    Decoded(bool),
    /// Whether the staking bar keeps the confirmation out.
    Gated {
        /// It refuses.
        refused: bool,
    },
    /// What the engine said.
    Submitted(Result<(), LedgerError>),
    /// The store failed.
    Fault(String),
}

/// What to do next for an entry.
pub enum Step {
    /// Find out what this phase waits for.
    Go(Phase),
    /// Store the evidence of a fork: the entry that was there first.
    StoreFork {
        /// Its hash.
        stored_entry_hash: Id,
        /// Its envelope.
        stored_envelope: Vec<u8>,
    },
    /// The entry is done.
    Settle(Disposition),
    /// No receipt is possible.
    Abort(BundleIngestError),
}

/// What to do next, as plain values.
#[verifier::ext_equal]
pub enum Next {
    Go(Phase),
    StoreFork { stored_entry_hash: Seq<u8>, stored_envelope: Seq<u8> },
    Settle(Disposition),
    Abort { internal: bool, message: Seq<char> },
}

impl View for Step {
    type V = Next;

    open spec fn view(&self) -> Next {
        match self {
            Step::Go(p) => Next::Go(*p),
            Step::StoreFork { stored_entry_hash, stored_envelope } => Next::StoreFork {
                stored_entry_hash: stored_entry_hash@,
                stored_envelope: stored_envelope@,
            },
            Step::Settle(d) => Next::Settle(*d),
            Step::Abort(BundleIngestError::Internal(m)) => Next::Abort {
                internal: true,
                message: m@,
            },
            Step::Abort(BundleIngestError::Malformed(m)) => Next::Abort {
                internal: false,
                message: m@,
            },
        }
    }
}

/// Said when the engine reported success for a record that the log lacks.
pub const ABSENT: &'static str = "engine admitted a record absent from the log";

/// The end of an ingest for an internal failure.
pub open spec fn failure(message: Seq<char>) -> Next {
    Next::Abort { internal: true, message }
}

/// A refusal.
pub open spec fn refusal(reason: RefusalReason) -> Next {
    Next::Settle(Disposition::Refused { reason })
}

/// Whether an event answers what a phase waits for. The store can fail wherever it
/// is used.
pub open spec fn answers(phase: Phase, event: Event) -> bool {
    match phase {
        Phase::Validating => event is Validated,
        Phase::Noting => event is Noted || event is Fault,
        Phase::ReadingHead => event is HeadRead || event is Fault,
        Phase::RecordingFork => event is ForkRecorded || event is Fault,
        Phase::LookingUp => event is Found || event is Fault,
        Phase::Decoding { .. } => event is Decoded,
        Phase::Gating => event is Gated || event is Fault,
        Phase::Submitting { .. } => event is Submitted,
        Phase::Confirming => event is Found || event is Fault,
    }
}

/// The transitions of an entry's ingest. `kind` is the routable kind of its record.
pub open spec fn next_step(phase: Phase, kind: Option<RecordKind>, event: Event) -> Next {
    match (phase, event) {
        (_, Event::Fault(m)) => failure(m@),
        (Phase::Validating, Event::Validated(valid)) => if valid {
            Next::Go(Phase::Noting)
        } else {
            refusal(RefusalReason::BadSignature)
        },
        (Phase::Noting, Event::Noted(NoteOutcome::Fresh)) => Next::Go(Phase::ReadingHead),
        (Phase::Noting, Event::Noted(NoteOutcome::Duplicate)) => Next::Go(Phase::LookingUp),
        (
            Phase::Noting,
            Event::Noted(NoteOutcome::Fork { stored_entry_hash, stored_envelope }),
        ) => Next::StoreFork {
            stored_entry_hash: stored_entry_hash@,
            stored_envelope: stored_envelope@,
        },
        (Phase::ReadingHead, _) => Next::Go(Phase::LookingUp),
        (Phase::RecordingFork, _) => refusal(RefusalReason::OutboxFork),
        (Phase::LookingUp, Event::Found(Some(seq))) => Next::Settle(Disposition::Known { seq }),
        (Phase::LookingUp, _) => match kind {
            Some(kind) => Next::Go(Phase::Decoding { kind }),
            None => refusal(RefusalReason::UnroutableKind),
        },
        (Phase::Decoding { kind }, Event::Decoded(decoded)) => if !decoded {
            refusal(RefusalReason::Rejected)
        } else if kind == RecordKind::Confirmation {
            Next::Go(Phase::Gating)
        } else {
            Next::Go(Phase::Submitting { kind })
        },
        (Phase::Gating, Event::Gated { refused }) => if refused {
            refusal(RefusalReason::Tier2Stake)
        } else {
            Next::Go(Phase::Submitting { kind: RecordKind::Confirmation })
        },
        (Phase::Submitting { .. }, Event::Submitted(Ok(_))) => Next::Go(Phase::Confirming),
        (Phase::Submitting { .. }, Event::Submitted(Err(e))) => if e.kind
            == LedgerErrorKind::Storage {
            failure(e.message@)
        } else {
            refusal(refusal_of(e.kind))
        },
        (Phase::Confirming, Event::Found(Some(seq))) => Next::Settle(
            Disposition::Admitted { seq },
        ),
        (_, _) => failure(ABSENT@),
    }
}

/// A refused [`Disposition`] with `reason`.
pub fn refused_disposition(reason: RefusalReason) -> (r: Disposition)
    ensures
        r == (Disposition::Refused { reason }),
{
    Disposition::Refused { reason }
}

/// A refused [`Outcome`] for `record_hash` with `reason`.
pub fn refused(record_hash: Id, reason: RefusalReason) -> (r: Outcome)
    ensures
        r == (Outcome { record_hash, disposition: Disposition::Refused { reason } }),
{
    Outcome { record_hash, disposition: refused_disposition(reason) }
}

/// Takes what the last action for an entry brought and says what to do next.
pub fn advance(entry: &Prepared, phase: Phase, event: Event) -> (r: Step)
    requires
        answers(phase, event),
    ensures
        r@ == next_step(phase, routed_kind(kind_text(entry.record@)), event),
{
    match event {
        Event::Fault(m) => Step::Abort(BundleIngestError::Internal(m)),
        Event::Validated(valid) => if valid {
            Step::Go(Phase::Noting)
        } else {
            Step::Settle(refused_disposition(RefusalReason::BadSignature))
        },
        Event::Noted(NoteOutcome::Fresh) => Step::Go(Phase::ReadingHead),
        Event::Noted(NoteOutcome::Duplicate) => Step::Go(Phase::LookingUp),
        Event::Noted(NoteOutcome::Fork { stored_entry_hash, stored_envelope }) => Step::StoreFork {
            stored_entry_hash,
            stored_envelope,
        },
        Event::HeadRead(_) => Step::Go(Phase::LookingUp),
        Event::ForkRecorded => Step::Settle(refused_disposition(RefusalReason::OutboxFork)),
        Event::Found(found) => match (phase, found) {
            (Phase::LookingUp, Some(seq)) => Step::Settle(Disposition::Known { seq }),
            (Phase::LookingUp, None) => {
                let kind = record_kind(entry.record.as_slice());
                match route_kind(&kind) {
                    Some(kind) => Step::Go(Phase::Decoding { kind }),
                    None => Step::Settle(refused_disposition(RefusalReason::UnroutableKind)),
                }
            },
            (_, Some(seq)) => Step::Settle(Disposition::Admitted { seq }),
            (_, None) => Step::Abort(BundleIngestError::Internal(String::from_str(ABSENT))),
        },
        Event::Decoded(decoded) => match phase {
            Phase::Decoding { kind } => if !decoded {
                Step::Settle(refused_disposition(RefusalReason::Rejected))
            } else {
                match kind {
                    RecordKind::Confirmation => Step::Go(Phase::Gating),
                    _ => Step::Go(Phase::Submitting { kind }),
                }
            },
            _ => Step::Settle(refused_disposition(RefusalReason::Rejected)),
        },
        Event::Gated { refused } => if refused {
            Step::Settle(refused_disposition(RefusalReason::Tier2Stake))
        } else {
            Step::Go(Phase::Submitting { kind: RecordKind::Confirmation })
        },
        Event::Submitted(Ok(_)) => Step::Go(Phase::Confirming),
        Event::Submitted(Err(e)) => match e.kind {
            LedgerErrorKind::Storage => Step::Abort(BundleIngestError::Internal(e.message)),
            kind => Step::Settle(refused_disposition(map_refusal(kind))),
        },
    }
}

/// Whether an entry stands ahead of a hole in the author's outbox. A gap refuses
/// nothing: couriers carry partial chains.
pub fn is_gap(head: Option<u64>, position: u64) -> (r: bool)
    ensures
        r == (head != Some(position)),
{
    match head {
        Some(h) => h != position,
        None => true,
    }
}

/// The station's answer to a bundle: one outcome for each carried entry.
#[derive(Clone, Debug, PartialEq, Eq)]
pub struct DeliveryReceipt {
    /// The station's address.
    pub station: String,
    /// The outcomes, in bundle order.
    pub outcomes: Vec<Outcome>,
    /// When the bundle was taken in.
    pub received_at: i64,
}

/// How the ingest of a decoded bundle starts.
pub enum Start {
    /// This presentation was answered before: the stored receipt is the answer.
    Replay(Vec<u8>),
    /// It was not: its entries are taken one by one.
    Run(IngestRun),
}

/// What to do next for a bundle.
pub enum Todo {
    /// Find out, for the current entry, what this phase waits for.
    Ask(Phase),
    /// Store the evidence of a fork at the current entry's position.
    StoreFork {
        /// The hash of the entry that was there first.
        stored_entry_hash: Id,
        /// Its envelope.
        stored_envelope: Vec<u8>,
    },
    /// Every entry has its outcome: sign and store the receipt.
    Finish,
    /// No receipt is possible.
    Abort(BundleIngestError),
}

/// The ingest of a bundle that was not answered before.
pub struct IngestRun {
    entries: Vec<Prepared>,
    outcomes: Vec<Outcome>,
    phase: Phase,
}

impl IngestRun {
    /// The carried entries.
    pub closed spec fn carried(&self) -> Seq<Prepared> {
        self.entries@
    }

    /// The outcomes so far.
    pub closed spec fn settled(&self) -> Seq<Outcome> {
        self.outcomes@
    }

    /// What the current entry waits for.
    pub closed spec fn waits_for(&self) -> Phase {
        self.phase
    }

    /// The outcomes belong to the first entries, in bundle order.
    pub open spec fn wf(&self) -> bool {
        &&& self.settled().len() <= self.carried().len()
        &&& forall|i: int|
            0 <= i < self.settled().len() ==> (#[trigger] self.settled()[i]).record_hash
                == self.carried()[i].record_hash
    }

    /// Whether every entry has its outcome.
    pub open spec fn done(&self) -> bool {
        self.settled().len() == self.carried().len()
    }

    /// The entry that is being taken in.
    pub open spec fn entry(&self) -> Prepared {
        self.carried()[self.settled().len() as int]
    }

    /// Starts the ingest of a decoded bundle. `stored` is the receipt that this
    /// presentation was answered with before, if it was; it is given back as it
    /// stands.
    pub fn start(entries: Vec<Prepared>, stored: Option<Vec<u8>>) -> (r: Start)
        ensures
            match stored {
                Some(receipt) => r == Start::Replay(receipt),
                None => {
                    &&& r is Run
                    &&& r->Run_0.wf()
                    &&& r->Run_0.carried() == entries@
                    &&& r->Run_0.settled() == Seq::<Outcome>::empty()
                    &&& r->Run_0.waits_for() == Phase::Validating
                },
            },
    {
        match stored {
            Some(receipt) => Start::Replay(receipt),
            None => Start::Run(
                IngestRun { entries, outcomes: Vec::new(), phase: Phase::Validating },
            ),
        }
    }

    /// The entry that is being taken in.
    pub fn current(&self) -> (r: &Prepared)
        requires
            self.wf(),
            !self.done(),
        ensures
            *r == self.entry(),
    {
        &self.entries[self.outcomes.len()]
    }

    /// What to do first.
    pub fn first(&self) -> (r: Todo)
        requires
            self.wf(),
        ensures
            r == if self.done() {
                Todo::Finish
            } else {
                Todo::Ask(self.waits_for())
            },
    {
        if self.outcomes.len() == self.entries.len() {
            Todo::Finish
        } else {
            Todo::Ask(self.phase)
        }
    }

    /// What taking what the last action brought means.
    pub open spec fn follows(&self, before: &IngestRun, event: Event, r: Todo) -> bool {
        match next_step(
            before.waits_for(),
            routed_kind(kind_text(before.entry().record@)),
            event,
        ) {
            Next::Go(p) => {
                &&& r == Todo::Ask(p)
                &&& self.waits_for() == p
                &&& self.settled() == before.settled()
            },
            Next::StoreFork { stored_entry_hash, stored_envelope } => {
                &&& r is StoreFork
                &&& r->stored_entry_hash@ == stored_entry_hash
                &&& r->stored_envelope@ == stored_envelope
                &&& self.waits_for() == Phase::RecordingFork
                &&& self.settled() == before.settled()
            },
            Next::Settle(disposition) => {
                &&& r == if self.done() {
                    Todo::Finish
                } else {
                    Todo::Ask(Phase::Validating)
                }
                &&& self.waits_for() == Phase::Validating
                &&& self.settled() == before.settled().push(
                    Outcome { record_hash: before.entry().record_hash, disposition },
                )
            },
            Next::Abort { internal, message } => {
                &&& internal
                &&& r matches Todo::Abort(BundleIngestError::Internal(e)) && e@ == message
                &&& self.settled() == before.settled()
            },
        }
    }

    /// Takes what the last action for the current entry brought and says what to do
    /// next. A settled entry is followed by the next one, from its first phase.
    pub fn feed(&mut self, event: Event) -> (r: Todo)
        requires
            old(self).wf(),
            !old(self).done(),
            answers(old(self).waits_for(), event),
        ensures
            final(self).wf(),
            final(self).carried() == old(self).carried(),
            final(self).follows(old(self), event, r),
    {
        let at: usize = self.outcomes.len();
        match advance(&self.entries[at], self.phase, event) {
            Step::Go(p) => {
                self.phase = p;
                Todo::Ask(p)
            },
            Step::StoreFork { stored_entry_hash, stored_envelope } => {
                self.phase = Phase::RecordingFork;
                Todo::StoreFork { stored_entry_hash, stored_envelope }
            },
            Step::Settle(disposition) => {
                let record_hash = self.entries[at].record_hash;
                self.outcomes.push(Outcome { record_hash, disposition });
                self.phase = Phase::Validating;
                self.first()
            },
            Step::Abort(e) => Todo::Abort(e),
        }
    }

    /// The receipt of a bundle whose entries are all done: one outcome for each
    /// entry, in bundle order.
    pub fn receipt(self, station: String, received_at: i64) -> (r: DeliveryReceipt)
        requires
            self.wf(),
            self.done(),
        ensures
            r.station == station,
            r.received_at == received_at,
            r.outcomes@ == self.settled(),
            r.outcomes@.len() == self.carried().len(),
            forall|i: int|
                0 <= i < r.outcomes@.len() ==> (#[trigger] r.outcomes@[i]).record_hash
                    == self.carried()[i].record_hash,
    {
        DeliveryReceipt { station, outcomes: self.outcomes, received_at }
    }
}

/// What the station's stores and engine answer for an entry, where no store fails.
pub struct Answers {
    pub valid: bool,
    pub note: NoteOutcome,
    pub head: Option<u64>,
    pub found: Option<u64>,
    pub decoded: bool,
    pub gate_refuses: bool,
    pub engine: Result<(), LedgerError>,
    pub admitted: Option<u64>,
}

/// The answer to what a phase waits for.
pub open spec fn answer(a: Answers, phase: Phase) -> Event {
    match phase {
        Phase::Validating => Event::Validated(a.valid),
        Phase::Noting => Event::Noted(a.note),
        Phase::ReadingHead => Event::HeadRead(a.head),
        Phase::RecordingFork => Event::ForkRecorded,
        Phase::LookingUp => Event::Found(a.found),
        Phase::Decoding { .. } => Event::Decoded(a.decoded),
        Phase::Gating => Event::Gated { refused: a.gate_refuses },
        Phase::Submitting { .. } => Event::Submitted(a.engine),
        Phase::Confirming => Event::Found(a.admitted),
    }
}

/// The phase that a step leads to, if the entry is not done.
pub open spec fn phase_after(n: Next) -> Option<Phase> {
    match n {
        Next::Go(p) => Some(p),
        Next::StoreFork { .. } => Some(Phase::RecordingFork),
        _ => None,
    }
}

/// How the ingest of an entry ends that stands in `phase`, within `fuel` steps.
pub open spec fn drive(
    a: Answers,
    kind: Option<RecordKind>,
    phase: Phase,
    fuel: nat,
) -> Option<Next>
    decreases fuel,
{
    if fuel == 0 {
        None
    } else {
        let n = next_step(phase, kind, answer(a, phase));
        match phase_after(n) {
            Some(p) => drive(a, kind, p, (fuel - 1) as nat),
            None => Some(n),
        }
    }
}

/// How the ingest of an entry ends, in one statement.
pub open spec fn ending(a: Answers, kind: Option<RecordKind>) -> Next {
    if !a.valid {
        refusal(RefusalReason::BadSignature)
    } else if a.note is Fork {
        refusal(RefusalReason::OutboxFork)
    } else if a.found is Some {
        Next::Settle(Disposition::Known { seq: a.found->0 })
    } else if kind is None {
        refusal(RefusalReason::UnroutableKind)
    } else if !a.decoded {
        refusal(RefusalReason::Rejected)
    } else if kind == Some(RecordKind::Confirmation) && a.gate_refuses {
        refusal(RefusalReason::Tier2Stake)
    } else {
        match a.engine {
            Ok(_) => match a.admitted {
                Some(seq) => Next::Settle(Disposition::Admitted { seq }),
                None => failure(ABSENT@),
            },
            Err(e) => if e.kind == LedgerErrorKind::Storage {
                failure(e.message@)
            } else {
                refusal(refusal_of(e.kind))
            },
        }
    }
}

/// Whether driving an entry asks the engine to admit its record.
pub open spec fn submits(a: Answers, kind: Option<RecordKind>, phase: Phase, fuel: nat) -> bool
    decreases fuel,
{
    if fuel == 0 {
        false
    } else {
        ||| phase is Submitting
        ||| match phase_after(next_step(phase, kind, answer(a, phase))) {
            Some(p) => submits(a, kind, p, (fuel - 1) as nat),
            None => false,
        }
    }
}

/// Every entry is done after at most nine steps, and ends as [`ending`] says.
pub proof fn law_ingest_of_an_entry(a: Answers, kind: Option<RecordKind>)
    ensures
        drive(a, kind, Phase::Validating, 9) == Some(ending(a, kind)),
{
    reveal_with_fuel(drive, 10);
}

/// A record reaches the engine only if its signatures verify, its author's outbox
/// is not forked at its position, the log does not hold it, its kind is routable,
/// it decodes, and the Tier-2 gate lets it pass. In particular a record that the
/// log holds is never admitted a second time.
pub proof fn law_only_cleared_records_are_submitted(a: Answers, kind: Option<RecordKind>)
    ensures
        submits(a, kind, Phase::Validating, 9) <==> a.valid && !(a.note is Fork) && a.found is None
            && kind is Some && a.decoded && !(kind == Some(RecordKind::Confirmation)
            && a.gate_refuses),
{
    reveal_with_fuel(submits, 10);
}

/// Whatever an entry waits for, a failing store ends the ingest without a receipt.
pub proof fn law_a_fault_leaves_no_receipt(phase: Phase, kind: Option<RecordKind>, m: String)
    ensures
        next_step(phase, kind, Event::Fault(m)) == failure(m@),
{
}

/// A record goes to the engine that its discriminator names, and to none for any other
/// discriminator or for none.
pub proof fn law_records_go_where_their_kind_says(kind: &Option<String>, r: Option<RecordKind>)
    requires
        call_ensures(route_kind, (kind,), r),
    ensures
        r == Some(RecordKind::Proposal) <==> (kind matches Some(k) && k@ == "rrn.tx.proposal"@),
        r == Some(RecordKind::Confirmation) <==> (kind matches Some(k) && k@
            == "rrn.tx.confirmation"@),
        r == Some(RecordKind::Dispute) <==> (kind matches Some(k) && k@ == "rrn.tx.dispute"@),
        r == Some(RecordKind::DisputeResponse) <==> (kind matches Some(k) && k@
            == "rrn.tx.dispute.response"@),
{
    reveal_strlit("rrn.tx.proposal");
    reveal_strlit("rrn.tx.confirmation");
    reveal_strlit("rrn.tx.dispute");
    reveal_strlit("rrn.tx.dispute.response");
    assert("rrn.tx.proposal"@.len() == 15);
    assert("rrn.tx.confirmation"@.len() == 19);
    assert("rrn.tx.dispute"@.len() == 14);
    assert("rrn.tx.dispute.response"@.len() == 23);
}

/// Each refusal has its own causes: a signature, a repeated proposal, a nonce out of order,
/// an expiry, a tier and the debt floor are told apart, a confirmation ahead of its proposal
/// or of a transaction that is past confirming is not proposed, and everything else is a
/// plain rejection.
pub proof fn law_refusals_name_their_cause(e: LedgerErrorKind, r: RefusalReason)
    requires
        call_ensures(map_refusal, (e,), r),
    ensures
        r == RefusalReason::BadSignature <==> e == LedgerErrorKind::BadSignature,
        r == RefusalReason::Duplicate <==> e == LedgerErrorKind::DuplicateProposal,
        r == RefusalReason::NonceGap <==> e == LedgerErrorKind::BadNonce,
        r == RefusalReason::Expired <==> e == LedgerErrorKind::Expired,
        r == RefusalReason::TierUnsupported <==> e == LedgerErrorKind::TierNotSupported,
        r == RefusalReason::DebtFloor <==> e == LedgerErrorKind::DebtFloorExceeded,
        r == RefusalReason::NotProposed <==> e == LedgerErrorKind::UnknownTransaction || e
            == LedgerErrorKind::NotProposed,
        r != RefusalReason::OutboxFork && r != RefusalReason::UnroutableKind && r
            != RefusalReason::Tier2Stake,
{
}

/// A confirmation is held back exactly where its transaction is of the second tier or above
/// and the confirmer's standing does not reach.
pub proof fn law_standing_guards_the_second_tier(
    tier: Option<u8>,
    eligibility: Option<Tier2Eligibility>,
    r: Option<(String, u64)>,
)
    requires
        call_ensures(tier2_confirmation_gate, (tier, eligibility), r),
    ensures
        r is Some <==> (tier matches Some(t) && t >= 2) && (eligibility matches Some(
            Tier2Eligibility::Refused { .. },
        )),
{
}

/// A receipt answers every entry of the bundle that it was started with, in bundle order,
/// and nothing else. `run` is the run once every entry is done.
pub proof fn law_a_receipt_answers_every_entry(
    entries: Vec<Prepared>,
    begun: IngestRun,
    run: IngestRun,
    station: String,
    received_at: i64,
    r: DeliveryReceipt,
)
    requires
        call_ensures(IngestRun::start, (entries, None::<Vec<u8>>), Start::Run(begun)),
        run.carried() == begun.carried(),
        call_ensures(IngestRun::receipt, (run, station, received_at), r),
    ensures
        r.outcomes@.len() == entries@.len(),
        forall|i: int|
            0 <= i < entries@.len() ==> (#[trigger] r.outcomes@[i]).record_hash
                == entries@[i].record_hash,
        r.received_at == received_at,
        r.station@ == station@,
{
}

/// The entries of a bundle are taken one after another: once as many have their outcome, it
/// is the next one that is being taken in, and the run is over behind the last.
pub proof fn law_entries_are_taken_in_order(
    entries: Vec<Prepared>,
    begun: IngestRun,
    run: IngestRun,
    entry: &Prepared,
    first: Todo,
)
    requires
        call_ensures(IngestRun::start, (entries, None::<Vec<u8>>), Start::Run(begun)),
        run.carried() == begun.carried(),
        run.settled().len() < entries@.len() ==> call_ensures(IngestRun::current, (&run,), entry),
        call_ensures(IngestRun::first, (&run,), first),
    ensures
        run.settled().len() < entries@.len() ==> *entry == entries@[run.settled().len() as int]
            && first is Ask,
        run.settled().len() == entries@.len() ==> first is Finish,
{
}

/// A run from its start on: the runs it went through, what each said to do, and the events
/// that took it from each to the next.
pub struct BundleRun {
    /// The runs.
    pub states: Seq<IngestRun>,
    /// What to do in each.
    pub todos: Seq<Todo>,
    /// What it brought.
    pub events: Seq<Event>,
}

impl BundleRun {
    /// The first run is what `start` gave, and every other is what `feed` made of the one
    /// before it, given the answer for the current entry that `answers` holds for it.
    pub open spec fn valid(&self, entries: Vec<Prepared>, answers: Seq<Answers>) -> bool {
        &&& answers.len() == entries@.len()
        &&& self.states.len() == self.events.len() + 1
        &&& self.todos.len() == self.states.len()
        &&& call_ensures(IngestRun::start, (entries, None::<Vec<u8>>), Start::Run(self.states[0]))
        &&& forall|j: int|
            0 <= j < self.events.len() ==> {
                let before = #[trigger] self.states[j];
                let after = self.states[j + 1];
                &&& before.settled().len() < entries@.len()
                &&& self.events[j] == answer(
                    answers[before.settled().len() as int],
                    before.waits_for(),
                )
                &&& after.wf()
                &&& after.carried() == before.carried()
                &&& after.follows(&before, self.events[j], self.todos[j + 1])
            }
    }
}

proof fn lemma_bundle(run: BundleRun, entries: Vec<Prepared>, answers: Seq<Answers>, j: int) -> (
    fuel: nat)
    requires
        run.valid(entries, answers),
        0 <= j < run.states.len(),
        forall|i: int| 0 < i <= j ==> !(#[trigger] run.todos[i] is Abort),
    ensures
        run.states[j].wf(),
        run.states[j].carried() == entries@,
        ({
            let s = run.states[j];
            let k = s.settled().len() as int;
            &&& k < entries@.len() ==> drive(
                answers[k],
                routed_kind(kind_text(entries@[k].record@)),
                s.waits_for(),
                fuel,
            ) == Some(ending(answers[k], routed_kind(kind_text(entries@[k].record@))))
            &&& forall|i: int|
                0 <= i < k ==> ending(
                    answers[i],
                    routed_kind(kind_text(entries@[i].record@)),
                ) == Next::Settle((#[trigger] s.settled()[i]).disposition)
        }),
    decreases j,
{
    if j == 0 {
        let s = run.states[0];
        if entries@.len() > 0 {
            law_ingest_of_an_entry(answers[0], routed_kind(kind_text(entries@[0].record@)));
        }
        9
    } else {
        let p = run.states[j - 1];
        let fuel = lemma_bundle(run, entries, answers, j - 1);
        let s = run.states[j];
        let k = p.settled().len() as int;
        let kind = routed_kind(kind_text(entries@[k].record@));
        assert(run.states[j - 1 + 1].follows(&p, run.events[j - 1], run.todos[j - 1 + 1]));
        assert(p.entry() == entries@[k]);
        let n = next_step(p.waits_for(), kind, answer(answers[k], p.waits_for()));
        assert(fuel > 0);
        match n {
            Next::Settle(d) => {
                if k + 1 < entries@.len() {
                    law_ingest_of_an_entry(
                        answers[k + 1],
                        routed_kind(kind_text(entries@[k + 1].record@)),
                    );
                }
                assert(ending(answers[k], kind) == n);
                assert forall|i: int| 0 <= i < s.settled().len() implies ending(
                    answers[i],
                    routed_kind(kind_text(entries@[i].record@)),
                ) == Next::Settle((#[trigger] s.settled()[i]).disposition) by {
                    if i < k {
                        assert(s.settled()[i] == p.settled()[i]);
                    }
                }
                9
            },
            _ => (fuel - 1) as nat,
        }
    }
}

/// The receipt of a bundle says of every entry, in bundle order, what its own answers come
/// to: refused for its signature, for a fork of its author's outbox, for a kind that goes
/// nowhere, for not decoding or for the standing it takes, known where the log holds it
/// already, and otherwise what the engine said of it. `answers` holds what the station's
/// stores and engines answer for each entry.
pub proof fn law_a_bundle_is_answered_entry_by_entry(
    run: BundleRun,
    entries: Vec<Prepared>,
    answers: Seq<Answers>,
    station: String,
    received_at: i64,
    r: DeliveryReceipt,
    i: int,
)
    requires
        run.valid(entries, answers),
        run.events.len() > 0,
        run.todos.last() is Finish,
        forall|j: int| 0 < j < run.todos.len() ==> !(#[trigger] run.todos[j] is Abort),
        call_ensures(IngestRun::receipt, (run.states.last(), station, received_at), r),
        0 <= i < entries@.len(),
    ensures
        r.outcomes@.len() == entries@.len(),
        r.outcomes@[i].record_hash == entries@[i].record_hash,
        ({
            let a = answers[i];
            let kind = routed_kind(kind_text(entries@[i].record@));
            let d = r.outcomes@[i].disposition;
            if !a.valid {
                d == (Disposition::Refused { reason: RefusalReason::BadSignature })
            } else if a.note is Fork {
                d == (Disposition::Refused { reason: RefusalReason::OutboxFork })
            } else if a.found is Some {
                d == (Disposition::Known { seq: a.found->0 })
            } else if kind is None {
                d == (Disposition::Refused { reason: RefusalReason::UnroutableKind })
            } else if !a.decoded {
                d == (Disposition::Refused { reason: RefusalReason::Rejected })
            } else if kind == Some(RecordKind::Confirmation) && a.gate_refuses {
                d == (Disposition::Refused { reason: RefusalReason::Tier2Stake })
            } else {
                match a.engine {
                    Ok(_) => a.admitted matches Some(seq) && d == (Disposition::Admitted { seq }),
                    Err(e) => d is Refused && e.kind != LedgerErrorKind::Storage,
                }
            }
        }),
{
    let n = run.states.len() - 1;
    let _ = lemma_bundle(run, entries, answers, n);
    let s = run.states[n];
    assert(s.settled().len() == entries@.len());
    assert(ending(answers[i], routed_kind(kind_text(entries@[i].record@))) == Next::Settle(
        s.settled()[i].disposition,
    ));
}

} // verus!
