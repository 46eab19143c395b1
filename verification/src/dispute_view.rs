//! Dispute reads: the disputes there are, and one in full with its jury and its
//! escalation.
//!
//! The jury, the tally and the outcome that a resolve pass would enact are derived anew
//! for each read, from the time the dispute was admitted; the dispute layer derives them
//! and hands them in.

use vstd::prelude::*;
use vstd::string::*;

use crate::order::{
    law_sorting_keeps_sorted_rows, lemma_sort_permutes, sort_by_rank, sorted_by_rank, stable_sort,
    Ranked,
};
use crate::params::{escalation_name, escalation_text, EscalationReason};
use crate::sweeps::{resolution_name, resolution_text, Resolution};
use crate::tables::Id;
use crate::text::{hex, hex_text};

verus! {

/// The seated jury's verdict counts.
#[derive(Debug, Clone, Copy, PartialEq, Eq, Structural)]
pub struct DisputeTallyView {
    /// Seated jurors who have voted to uphold.
    pub uphold: u32,
    /// Seated jurors who have voted to reject.
    pub reject: u32,
    /// Seated jurors yet to cast a valid verdict.
    pub awaiting: u32,
    /// The panel size a majority is measured against.
    pub panel_size: u32,
}

/// A dispute as a browse row: the contested transaction, its parties, the grievance, the
/// window it is frozen for, and where it stands.
#[derive(Debug, Clone, PartialEq, Eq)]
pub struct DisputeSummary {
    /// The disputed transaction's id, hex.
    pub tx_id: String,
    /// The transaction's sender.
    pub sender: String,
    /// The transaction's receiver.
    pub receiver: String,
    /// The party who raised the dispute.
    pub raiser: String,
    /// The grievance.
    pub reason: String,
    /// The opening evidence hash, hex.
    pub evidence_hash: Option<String>,
    /// Unix seconds the dispute was opened.
    pub opened_at: i64,
    /// Unix seconds the resolution window closes.
    pub window_ends_at: i64,
    /// The seated jury's counts so far.
    pub tally: DisputeTallyView,
    /// The outcome a resolve pass would enact right now.
    pub resolution: String,
}

/// One dispute in full: the summary, the parties' responses, and the seated jury.
#[derive(Debug, Clone, PartialEq, Eq)]
pub struct DisputeDetail {
    /// The browse-row fields.
    pub summary: DisputeSummary,
    /// The responses each party filed, in the order they were made.
    pub responses: Vec<ResponseView>,
    /// The jury as seated right now.
    pub panel: Vec<PanelSeatView>,
    /// How many members were eligible for the draw.
    pub eligible_pool_size: u32,
    /// The escalation to the electorate, if a party has opened one.
    pub escalation: Option<EscalationView>,
}

/// An open escalation vote: why it was opened, its window, and the ballots so far.
#[derive(Debug, Clone, PartialEq, Eq)]
pub struct EscalationView {
    /// Why it was opened: `appeal` or `cannot_seat`.
    pub reason: String,
    /// The party who opened it.
    pub initiator: String,
    /// Unix seconds it was opened.
    pub opened_at: i64,
    /// Unix seconds its window closes.
    pub closes_at: i64,
    /// Ballots to uphold the dispute.
    pub uphold: u32,
    /// Ballots to reject the dispute.
    pub reject: u32,
    /// Members eligible to vote.
    pub eligible: u32,
    /// Whether turnout has reached the quorum.
    pub quorum_met: bool,
    /// Whether the uphold share has cleared the approval bar.
    pub approval_met: bool,
}

/// A party's filed response to the dispute.
#[derive(Debug, Clone, PartialEq, Eq)]
pub struct ResponseView {
    /// The responding party's address.
    pub responder: String,
    /// Their statement.
    pub statement: String,
    /// Their evidence hash, hex.
    pub evidence_hash: Option<String>,
    /// Unix seconds the response was made.
    pub responded_at: i64,
}

/// One occupied seat on the jury.
#[derive(Debug, Clone, PartialEq, Eq)]
pub struct PanelSeatView {
    /// The juror in this seat.
    pub juror: String,
    /// Unix seconds they took the seat.
    pub seated_at: i64,
    /// How they ruled: `uphold`, `reject`, or `awaiting`.
    pub verdict: String,
}

/// A seat of the panel.
#[derive(Debug, Clone, PartialEq, Eq)]
pub struct Seat {
    /// The juror.
    pub juror: String,
    /// When they took the seat.
    pub seated_at: i64,
    /// Whether they uphold the dispute, once they have ruled.
    pub verdict: Option<bool>,
}

/// A disputed transaction, with what is derived of it right now.
#[derive(Debug, Clone, PartialEq, Eq)]
pub struct Dispute {
    /// The transaction.
    pub tx_id: Id,
    /// Its sender.
    pub sender: String,
    /// Its receiver.
    pub receiver: String,
    /// Who raised the dispute.
    pub raiser: String,
    /// The grievance.
    pub reason: String,
    /// The evidence.
    pub evidence: Option<Id>,
    /// When the dispute was admitted.
    pub opened_at: i64,
    /// How long it stays open, in seconds.
    pub window_seconds: i64,
    /// The seated jury.
    pub seats: Vec<Seat>,
    /// The size of a full jury.
    pub panel_size: u32,
    /// What a resolve pass would enact.
    pub resolution: Resolution,
}

/// A party's response, as its record has it.
#[derive(Debug, Clone, PartialEq, Eq)]
pub struct Response {
    /// The party.
    pub responder: String,
    /// What they say.
    pub statement: String,
    /// The evidence.
    pub evidence: Option<Id>,
    /// When.
    pub responded_at: i64,
}

/// An escalation, with the electorate's tally.
#[derive(Debug, Clone, PartialEq, Eq)]
pub struct Escalation {
    /// Why it was opened.
    pub reason: EscalationReason,
    /// By whom.
    pub initiator: String,
    /// When.
    pub opened_at: i64,
    /// How long an escalation stays open, in seconds.
    pub window_seconds: i64,
    /// Ballots to uphold.
    pub uphold: u32,
    /// Ballots to reject.
    pub reject: u32,
    /// Members eligible to vote.
    pub eligible: u32,
    /// Whether turnout has reached the quorum.
    pub quorum_met: bool,
    /// Whether the uphold share has cleared the approval bar.
    pub approval_met: bool,
}

/// A time some seconds later, at the end of the range where it does not fit.
pub open spec fn later(t: i64, secs: i64) -> i64 {
    if t + secs > i64::MAX {
        i64::MAX
    } else if t + secs < i64::MIN {
        i64::MIN
    } else {
        (t + secs) as i64
    }
}

/// A time some seconds later, held within the range.
pub fn later_by(t: i64, secs: i64) -> (r: i64)
    ensures
        r == later(t, secs),
{
    match t.checked_add(secs) {
        Some(v) => v,
        None => if t < 0 {
            i64::MIN
        } else {
            i64::MAX
        },
    }
}

/// How many seats have a verdict.
pub open spec fn seats_with(seats: Seq<Seat>, verdict: Option<bool>) -> nat
    decreases seats.len(),
{
    if seats.len() == 0 {
        0
    } else if seats.last().verdict == verdict {
        seats_with(seats.drop_last(), verdict) + 1
    } else {
        seats_with(seats.drop_last(), verdict)
    }
}

/// Every seat counts once: for, against or awaiting.
pub proof fn law_every_seat_counts_once(seats: Seq<Seat>)
    ensures
        seats_with(seats, Some(true)) + seats_with(seats, Some(false)) + seats_with(seats, None)
            == seats.len(),
    decreases seats.len(),
{
    if seats.len() > 0 {
        law_every_seat_counts_once(seats.drop_last());
        match seats.last().verdict {
            Some(v) => {
                assert(seats.last().verdict == Some(true) || seats.last().verdict == Some(false));
            },
            None => {},
        }
    }
}

fn count_seats(seats: &Vec<Seat>) -> (r: (u32, u32, u32))
    requires
        seats@.len() <= u32::MAX,
    ensures
        r.0 == seats_with(seats@, Some(true)),
        r.1 == seats_with(seats@, Some(false)),
        r.2 == seats_with(seats@, None),
{
    let mut uphold: u32 = 0;
    let mut reject: u32 = 0;
    let mut awaiting: u32 = 0;
    let mut i: usize = 0;
    while i < seats.len()
        invariant
            i <= seats.len(),
            seats@.len() <= u32::MAX,
            uphold == seats_with(seats@.take(i as int), Some(true)),
            reject == seats_with(seats@.take(i as int), Some(false)),
            awaiting == seats_with(seats@.take(i as int), None),
        decreases seats.len() - i,
    {
        proof {
            assert(seats@.take(i as int + 1).drop_last() =~= seats@.take(i as int));
            law_every_seat_counts_once(seats@.take(i as int));
        }
        match seats[i].verdict {
            Some(true) => {
                uphold = uphold + 1;
            },
            Some(false) => {
                reject = reject + 1;
            },
            None => {
                awaiting = awaiting + 1;
            },
        }
        i = i + 1;
    }
    assert(seats@.take(i as int) =~= seats@);
    (uphold, reject, awaiting)
}

/// Whether an optional text is the hex of an optional hash.
pub open spec fn shows_hash(s: Option<String>, h: Option<Id>) -> bool {
    match h {
        Some(id) => s is Some && s->0@ == hex_text(id@),
        None => s is None,
    }
}

fn show_hash(h: &Option<Id>) -> (r: Option<String>)
    ensures
        shows_hash(r, *h),
{
    match h {
        Some(id) => Some(hex(id.bytes.as_slice())),
        None => None,
    }
}

/// Whether a row shows a dispute.
pub open spec fn shows_summary(v: DisputeSummary, d: Dispute) -> bool {
    &&& v.tx_id@ == hex_text(d.tx_id@)
    &&& v.sender == d.sender
    &&& v.receiver == d.receiver
    &&& v.raiser == d.raiser
    &&& v.reason == d.reason
    &&& shows_hash(v.evidence_hash, d.evidence)
    &&& v.opened_at == d.opened_at
    &&& v.window_ends_at == later(d.opened_at, d.window_seconds)
    &&& v.tally.uphold == seats_with(d.seats@, Some(true))
    &&& v.tally.reject == seats_with(d.seats@, Some(false))
    &&& v.tally.awaiting == seats_with(d.seats@, None)
    &&& v.tally.panel_size == d.panel_size
    &&& v.resolution@ == resolution_text(d.resolution)
}

/// Builds a browse row for one disputed transaction.
pub fn summarize(d: &Dispute) -> (r: DisputeSummary)
    requires
        d.seats@.len() <= u32::MAX,
    ensures
        shows_summary(r, *d),
{
    let (uphold, reject, awaiting) = count_seats(&d.seats);
    DisputeSummary {
        tx_id: hex(d.tx_id.bytes.as_slice()),
        sender: d.sender.clone(),
        receiver: d.receiver.clone(),
        raiser: d.raiser.clone(),
        reason: d.reason.clone(),
        evidence_hash: show_hash(&d.evidence),
        opened_at: d.opened_at,
        window_ends_at: later_by(d.opened_at, d.window_seconds),
        tally: DisputeTallyView { uphold, reject, awaiting, panel_size: d.panel_size },
        resolution: String::from_str(resolution_name(d.resolution)),
    }
}

impl Ranked for DisputeSummary {
    /// Newest first.
    open spec fn before(&self, other: &Self) -> bool {
        self.opened_at > other.opened_at
    }

    fn precedes(&self, other: &Self) -> (r: bool) {
        self.opened_at > other.opened_at
    }

    proof fn lemma_order(a: &Self, b: &Self, c: &Self) {
    }
}

/// Whether rows show disputes one for one, from the last to the first.
pub open spec fn shows_reversed(rows: Seq<DisputeSummary>, all: Seq<Dispute>) -> bool {
    &&& rows.len() == all.len()
    &&& forall|i: int|
        0 <= i < rows.len() ==> shows_summary(#[trigger] rows[i], all[all.len() - 1 - i])
}

/// Every disputed transaction as browse rows, newest first by open time. `all` is in log
/// order; of two disputes opened at one time, the later on the log comes first.
pub fn disputes_view(all: &Vec<Dispute>) -> (r: Vec<DisputeSummary>)
    requires
        forall|i: int| 0 <= i < all@.len() ==> (#[trigger] all@[i]).seats@.len() <= u32::MAX,
    ensures
        sorted_by_rank(r@),
        exists|rows: Seq<DisputeSummary>|
            #![trigger stable_sort(rows)]
            shows_reversed(rows, all@) && r@ == stable_sort(rows),
{
    let mut rows: Vec<DisputeSummary> = Vec::new();
    let mut left: usize = all.len();
    while left > 0
        invariant
            left <= all@.len(),
            forall|i: int| 0 <= i < all@.len() ==> (#[trigger] all@[i]).seats@.len() <= u32::MAX,
            rows@.len() == all@.len() - left,
            forall|j: int|
                0 <= j < rows@.len() ==> shows_summary(
                    #[trigger] rows@[j],
                    all@[all@.len() - 1 - j],
                ),
        decreases left,
    {
        left = left - 1;
        assert(all@[left as int].seats@.len() <= u32::MAX);
        rows.push(summarize(&all[left]));
    }
    let ghost unsorted = rows@;
    let r = sort_by_rank(rows);
    assert(shows_reversed(unsorted, all@) && r@ == stable_sort(unsorted));
    r
}

/// Where disputes stand on the log in the order that they were opened in, the rows are
/// the log's order reversed. `r` is what [`disputes_view`] returned, and `rows` the rows
/// that it sorted.
pub proof fn law_disputes_are_shown_in_reversed_log_order(
    all: Seq<Dispute>,
    rows: Seq<DisputeSummary>,
    r: Seq<DisputeSummary>,
)
    requires
        shows_reversed(rows, all),
        r == stable_sort(rows),
        forall|i: int, j: int|
            #![trigger all[i], all[j]]
            0 <= i < j < all.len() ==> all[i].opened_at <= all[j].opened_at,
    ensures
        shows_reversed(r, all),
{
    assert forall|i: int, j: int|
        #![trigger rows[i], rows[j]]
        0 <= i < j < rows.len() implies !rows[j].before(&rows[i]) by {
        let n = all.len();
        assert(shows_summary(rows[i], all[n - 1 - i]));
        assert(shows_summary(rows[j], all[n - 1 - j]));
    }
    law_sorting_keeps_sorted_rows(rows);
}

/// The wire name of a verdict.
pub open spec fn verdict_text(v: Option<bool>) -> Seq<char> {
    match v {
        Some(true) => "uphold"@,
        Some(false) => "reject"@,
        None => "awaiting"@,
    }
}

fn verdict_name(v: Option<bool>) -> (r: &'static str)
    ensures
        r@ == verdict_text(v),
{
    match v {
        Some(true) => "uphold",
        Some(false) => "reject",
        None => "awaiting",
    }
}

/// Whether a view shows a seat.
pub open spec fn shows_seat(v: PanelSeatView, s: Seat) -> bool {
    v.juror == s.juror && v.seated_at == s.seated_at && v.verdict@ == verdict_text(s.verdict)
}

/// Whether a view shows a response.
pub open spec fn shows_response(v: ResponseView, s: Response) -> bool {
    v.responder == s.responder && v.statement == s.statement && shows_hash(
        v.evidence_hash,
        s.evidence,
    ) && v.responded_at == s.responded_at
}

/// Whether a view shows an escalation of a dispute: its window ends with the dispute's.
pub open spec fn shows_escalation(v: EscalationView, e: Escalation, d: Dispute) -> bool {
    let own = later(e.opened_at, e.window_seconds);
    let whole = later(d.opened_at, d.window_seconds);
    &&& v.reason@ == escalation_text(e.reason)
    &&& v.initiator == e.initiator
    &&& v.opened_at == e.opened_at
    &&& v.closes_at == if own < whole {
        own
    } else {
        whole
    }
    &&& v.uphold == e.uphold
    &&& v.reject == e.reject
    &&& v.eligible == e.eligible
    &&& v.quorum_met == e.quorum_met
    &&& v.approval_met == e.approval_met
}

/// When an escalation's window closes: after its own time, and not after the dispute's.
pub fn escalation_closes_at(opened_at: i64, window: i64, dispute_opened_at: i64, dispute_window: i64)
    -> (r: i64)
    ensures
        ({
            let own = later(opened_at, window);
            let whole = later(dispute_opened_at, dispute_window);
            r == if own < whole {
                own
            } else {
                whole
            }
        }),
{
    let own: i64 = later_by(opened_at, window);
    let whole: i64 = later_by(dispute_opened_at, dispute_window);
    if own < whole {
        own
    } else {
        whole
    }
}

/// Whether a view shows a dispute in full.
pub open spec fn shows_dispute(
    v: DisputeDetail,
    d: Dispute,
    responses: Seq<Response>,
    pool: u32,
    escalation: Option<Escalation>,
) -> bool {
    &&& shows_summary(v.summary, d)
    &&& v.responses@.len() == responses.len()
    &&& forall|i: int|
        0 <= i < responses.len() ==> shows_response(#[trigger] v.responses@[i], responses[i])
    &&& v.panel@.len() == d.seats@.len()
    &&& forall|i: int| 0 <= i < d.seats@.len() ==> shows_seat(#[trigger] v.panel@[i], d.seats@[i])
    &&& v.eligible_pool_size == pool
    &&& match escalation {
        Some(e) => v.escalation is Some && shows_escalation(v.escalation->0, e, d),
        None => v.escalation is None,
    }
}

/// One dispute in full, or `None` if the transaction is not currently disputed.
pub fn dispute_view(
    dispute: &Option<Dispute>,
    responses: &Vec<Response>,
    pool: u32,
    escalation: &Option<Escalation>,
) -> (r: Option<DisputeDetail>)
    requires
        dispute matches Some(d) ==> d.seats@.len() <= u32::MAX,
    ensures
        match dispute {
            Some(d) => r is Some && shows_dispute(r->0, *d, responses@, pool, *escalation),
            None => r is None,
        },
{
    let d = match dispute {
        Some(d) => d,
        None => {
            return None;
        },
    };
    let summary = summarize(d);
    let mut answers: Vec<ResponseView> = Vec::new();
    let mut i: usize = 0;
    while i < responses.len()
        invariant
            i <= responses.len(),
            answers@.len() == i,
            forall|j: int| 0 <= j < i ==> shows_response(#[trigger] answers@[j], responses@[j]),
        decreases responses.len() - i,
    {
        let s = &responses[i];
        answers.push(
            ResponseView {
                responder: s.responder.clone(),
                statement: s.statement.clone(),
                evidence_hash: show_hash(&s.evidence),
                responded_at: s.responded_at,
            },
        );
        i = i + 1;
    }
    let mut panel: Vec<PanelSeatView> = Vec::new();
    let mut k: usize = 0;
    while k < d.seats.len()
        invariant
            k <= d.seats.len(),
            panel@.len() == k,
            forall|j: int| 0 <= j < k ==> shows_seat(#[trigger] panel@[j], d.seats@[j]),
        decreases d.seats.len() - k,
    {
        let s = &d.seats[k];
        panel.push(
            PanelSeatView {
                juror: s.juror.clone(),
                seated_at: s.seated_at,
                verdict: String::from_str(verdict_name(s.verdict)),
            },
        );
        k = k + 1;
    }
    let escalated = match escalation {
        Some(e) => Some(
            EscalationView {
                reason: String::from_str(escalation_name(e.reason)),
                initiator: e.initiator.clone(),
                opened_at: e.opened_at,
                closes_at: escalation_closes_at(
                    e.opened_at,
                    e.window_seconds,
                    d.opened_at,
                    d.window_seconds,
                ),
                uphold: e.uphold,
                reject: e.reject,
                eligible: e.eligible,
                quorum_met: e.quorum_met,
                approval_met: e.approval_met,
            },
        ),
        None => None,
    };
    Some(
        DisputeDetail {
            summary,
            responses: answers,
            panel,
            eligible_pool_size: pool,
            escalation: escalated,
        },
    )
}

/// An escalation never outlasts the dispute's own window.
pub proof fn law_escalations_end_with_the_dispute(v: EscalationView, e: Escalation, d: Dispute)
    requires
        shows_escalation(v, e, d),
    ensures
        v.closes_at <= later(d.opened_at, d.window_seconds),
{
}

proof fn lemma_seats(seats: Seq<Seat>, verdict: Option<bool>)
    ensures
        seats_with(seats, verdict) == seats.filter(|s: Seat| s.verdict == verdict).len(),
    decreases seats.len(),
{
    reveal(Seq::filter);
    if seats.len() > 0 {
        lemma_seats(seats.drop_last(), verdict);
    }
}

/// A row shows the dispute's own transaction, parties, grievance and evidence, when its
/// window ends, and how many of its seats ruled which way.
pub proof fn law_a_summary_shows_the_dispute(d: &Dispute, v: DisputeSummary)
    requires
        call_ensures(summarize, (d,), v),
    ensures
        v.tx_id@ == hex_text(d.tx_id@),
        v.sender@ == d.sender@,
        v.receiver@ == d.receiver@,
        v.raiser@ == d.raiser@,
        v.reason@ == d.reason@,
        d.evidence matches Some(h) ==> (v.evidence_hash matches Some(t) && t@ == hex_text(h@)),
        d.evidence is None ==> v.evidence_hash is None,
        v.opened_at == d.opened_at,
        i64::MIN <= d.opened_at + d.window_seconds <= i64::MAX ==> v.window_ends_at == d.opened_at
            + d.window_seconds,
        d.opened_at + d.window_seconds > i64::MAX ==> v.window_ends_at == i64::MAX,
        d.opened_at + d.window_seconds < i64::MIN ==> v.window_ends_at == i64::MIN,
        v.tally.uphold == d.seats@.filter(|s: Seat| s.verdict == Some(true)).len(),
        v.tally.reject == d.seats@.filter(|s: Seat| s.verdict == Some(false)).len(),
        v.tally.awaiting == d.seats@.filter(|s: Seat| s.verdict == None::<bool>).len(),
        v.tally.panel_size == d.panel_size,
        v.resolution@ == resolution_text(d.resolution),
{
    lemma_seats(d.seats@, Some(true));
    lemma_seats(d.seats@, Some(false));
    lemma_seats(d.seats@, None);
}

/// The list shows every dispute once: those that were opened last come first, and of two
/// that were opened at once the later on the log. The result says which dispute each row
/// shows.
pub proof fn law_every_dispute_is_listed(all: &Vec<Dispute>, r: Vec<DisputeSummary>) -> (at: Seq<
    int,
>)
    requires
        call_ensures(disputes_view, (all,), r),
    ensures
        r@.len() == all@.len(),
        at.len() == all@.len(),
        forall|k: int|
            0 <= k < at.len() ==> {
                let d = all@[#[trigger] at[k]];
                &&& 0 <= at[k] < all@.len()
                &&& r@[k].tx_id@ == hex_text(d.tx_id@)
                &&& r@[k].opened_at == d.opened_at
                &&& r@[k].raiser@ == d.raiser@
                &&& r@[k].reason@ == d.reason@
                &&& r@[k].sender@ == d.sender@
                &&& r@[k].receiver@ == d.receiver@
            },
        forall|j: int, k: int| 0 <= j < k < at.len() ==> at[j] != at[k],
        forall|i: int| 0 <= i < all@.len() ==> #[trigger] at.contains(i),
        forall|j: int, k: int|
            #![trigger at[j], at[k]]
            0 <= j < k < at.len() ==> r@[j].opened_at > r@[k].opened_at || (r@[j].opened_at
                == r@[k].opened_at && at[j] > at[k]),
{
    let rows = choose|rows: Seq<DisputeSummary>|
        #![trigger stable_sort(rows)]
        shows_reversed(rows, all@) && r@ == stable_sort(rows);
    let from = lemma_sort_permutes(rows);
    let n = all@.len() as int;
    let at = Seq::new(all@.len(), |k: int| n - 1 - from[k]);
    assert forall|k: int| 0 <= k < at.len() implies 0 <= #[trigger] at[k] < n && shows_summary(
        r@[k],
        all@[at[k]],
    ) by {
        let j = from[k];
        assert(shows_summary(rows[j], all@[n - 1 - j]));
    }
    assert forall|i: int| 0 <= i < n implies #[trigger] at.contains(i) by {
        assert(from.contains(n - 1 - i));
        let k = choose|k: int| 0 <= k < from.len() && from[k] == n - 1 - i;
        assert(at[k] == i);
    }
    assert forall|j: int, k: int| 0 <= j < k < at.len() implies at[j] != at[k] by {
        assert(from[j] != from[k]);
    }
    assert forall|j: int, k: int|
        #![trigger at[j], at[k]]
        0 <= j < k < at.len() implies r@[j].opened_at > r@[k].opened_at || (r@[j].opened_at
        == r@[k].opened_at && at[j] > at[k]) by {
        assert(!r@[k].before(&r@[j]));
        let a = from[j];
        let b = from[k];
    }
    at
}

/// A dispute in full shows each response and each seat of its own, in order, and its
/// escalation, which ends after its own time or with the dispute, whichever is first.
pub proof fn law_a_dispute_is_shown_in_full(
    dispute: &Option<Dispute>,
    responses: &Vec<Response>,
    pool: u32,
    escalation: &Option<Escalation>,
    r: Option<DisputeDetail>,
)
    requires
        call_ensures(dispute_view, (dispute, responses, pool, escalation), r),
    ensures
        r is Some <==> dispute is Some,
        r matches Some(v) ==> {
            let d = dispute->0;
            &&& v.summary.tx_id@ == hex_text(d.tx_id@)
            &&& v.summary.raiser@ == d.raiser@
            &&& v.responses@.len() == responses@.len()
            &&& forall|i: int|
                0 <= i < responses@.len() ==> (#[trigger] v.responses@[i]).responder@
                    == responses@[i].responder@ && v.responses@[i].statement@
                    == responses@[i].statement@ && v.responses@[i].responded_at
                    == responses@[i].responded_at
            &&& v.panel@.len() == d.seats@.len()
            &&& forall|i: int|
                0 <= i < d.seats@.len() ==> (#[trigger] v.panel@[i]).juror@ == d.seats@[i].juror@
                    && v.panel@[i].seated_at == d.seats@[i].seated_at && v.panel@[i].verdict@
                    == match d.seats@[i].verdict {
                    Some(true) => "uphold"@,
                    Some(false) => "reject"@,
                    None => "awaiting"@,
                }
            &&& v.eligible_pool_size == pool
            &&& v.escalation is Some <==> escalation is Some
            &&& v.escalation matches Some(x) ==> {
                let e = escalation->0;
                &&& x.initiator@ == e.initiator@
                &&& x.opened_at == e.opened_at
                &&& x.uphold == e.uphold
                &&& x.reject == e.reject
                &&& x.eligible == e.eligible
                &&& x.quorum_met == e.quorum_met
                &&& x.approval_met == e.approval_met
                &&& i64::MIN <= e.opened_at + e.window_seconds <= i64::MAX && i64::MIN
                    <= d.opened_at + d.window_seconds <= i64::MAX ==> {
                    &&& x.closes_at <= e.opened_at + e.window_seconds
                    &&& x.closes_at <= d.opened_at + d.window_seconds
                    &&& x.closes_at == e.opened_at + e.window_seconds || x.closes_at == d.opened_at
                        + d.window_seconds
                }
            }
        },
{
    if r is Some {
        let v = r->0;
        let d = dispute->0;
        assert forall|i: int| 0 <= i < responses@.len() implies (
        #[trigger] v.responses@[i]).responder@ == responses@[i].responder@
            && v.responses@[i].statement@ == responses@[i].statement@
            && v.responses@[i].responded_at == responses@[i].responded_at by {
            assert(shows_response(v.responses@[i], responses@[i]));
        }
        assert forall|i: int| 0 <= i < d.seats@.len() implies (#[trigger] v.panel@[i]).juror@
            == d.seats@[i].juror@ && v.panel@[i].seated_at == d.seats@[i].seated_at
            && v.panel@[i].verdict@ == match d.seats@[i].verdict {
            Some(true) => "uphold"@,
            Some(false) => "reject"@,
            None => "awaiting"@,
        } by {
            assert(shows_seat(v.panel@[i], d.seats@[i]));
        }
    }
}

} // verus!
