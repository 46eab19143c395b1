//! Governance reads: the charter, the proposals with their tally and phase, and the
//! statutes in force.
//!
//! The governance layer derives the state from the log; the wire shapes and names are
//! owned here.

use vstd::prelude::*;
use vstd::string::*;

use crate::order::{
    law_sorting_is_a_sorted_rearrangement, sort_by_rank, stable_sort, text_before, Ranked,
};
use crate::params::ProposalKind;
use crate::tables::{Id, Key};
use crate::text::{hex, hex_text, join2};

verus! {

/// The thresholds that a charter sets.
#[derive(Debug, Clone, Copy, PartialEq, Eq, Structural)]
pub struct Thresholds {
    /// Statute-vote quorum, as a percentage of the electorate.
    pub statute_quorum_pct: u8,
    /// Statute-vote approval, as a percentage of decisive votes.
    pub statute_approval_pct: u8,
    /// Days a statute deliberates and votes.
    pub deliberation_window_days: u8,
    /// Days between passing and taking effect.
    pub implementation_delay_days: u8,
    /// The higher approval bar an emergency must clear.
    pub emergency_threshold_pct: u8,
    /// Charter-amendment quorum percentage.
    pub charter_quorum_pct: u8,
    /// Charter-amendment approval percentage.
    pub charter_approval_pct: u8,
    /// Days a charter-amendment deliberates and votes.
    pub charter_deliberation_window_days: u8,
}

/// The charter in effect.
#[derive(Debug, Clone, PartialEq, Eq)]
pub struct Charter {
    /// Its version.
    pub version: u32,
    /// Its content address.
    pub hash: String,
    /// The community.
    pub community_id: String,
    /// The founding principles.
    pub founding_principles: Vec<String>,
    /// The rights guaranteed.
    pub rights_floor: Vec<String>,
    /// The founders' addresses.
    pub founders: Vec<String>,
    /// The thresholds.
    pub thresholds: Thresholds,
}

/// The community's constitution as a reader sees it.
#[derive(Debug, Clone, PartialEq, Eq)]
pub struct CharterView {
    /// Whether any charter has been published.
    pub published: bool,
    /// The effective charter version.
    pub version: u32,
    /// The effective charter's hash, hex-encoded.
    pub charter_hash: Option<String>,
    /// A stable identifier for the community.
    pub community_id: String,
    /// The founding principles, free text.
    pub founding_principles: Vec<String>,
    /// Rights guaranteed above the federation floor.
    pub rights_floor: Vec<String>,
    /// The genesis founders' addresses.
    pub founders: Vec<String>,
    /// Statute-vote quorum, as a percentage of the electorate.
    pub statute_quorum_pct: u8,
    /// Statute-vote approval, as a percentage of decisive votes.
    pub statute_approval_pct: u8,
    /// Days a statute deliberates and votes before its window closes.
    pub deliberation_window_days: u8,
    /// Days between a non-emergency proposal passing and taking effect.
    pub implementation_delay_days: u8,
    /// The higher approval bar an emergency must clear.
    pub emergency_threshold_pct: u8,
    /// Charter-amendment quorum percentage.
    pub charter_quorum_pct: u8,
    /// Charter-amendment approval percentage.
    pub charter_approval_pct: u8,
    /// Days a charter-amendment deliberates and votes.
    pub charter_deliberation_window_days: u8,
    /// Distinct established co-signers a proposal needs to publish.
    pub cosign_threshold: u32,
}

/// The thresholds that a view shows.
pub open spec fn shown_thresholds(v: CharterView) -> Thresholds {
    Thresholds {
        statute_quorum_pct: v.statute_quorum_pct,
        statute_approval_pct: v.statute_approval_pct,
        deliberation_window_days: v.deliberation_window_days,
        implementation_delay_days: v.implementation_delay_days,
        emergency_threshold_pct: v.emergency_threshold_pct,
        charter_quorum_pct: v.charter_quorum_pct,
        charter_approval_pct: v.charter_approval_pct,
        charter_deliberation_window_days: v.charter_deliberation_window_days,
    }
}

/// Thresholds of zero.
pub open spec fn no_thresholds() -> Thresholds {
    Thresholds {
        statute_quorum_pct: 0,
        statute_approval_pct: 0,
        deliberation_window_days: 0,
        implementation_delay_days: 0,
        emergency_threshold_pct: 0,
        charter_quorum_pct: 0,
        charter_approval_pct: 0,
        charter_deliberation_window_days: 0,
    }
}

/// A copy of a list of texts.
pub fn copy_texts(v: &Vec<String>) -> (r: Vec<String>)
    ensures
        r@ == v@,
{
    let mut out: Vec<String> = Vec::new();
    let mut i: usize = 0;
    while i < v.len()
        invariant
            i <= v.len(),
            out@ == v@.take(i as int),
        decreases v.len() - i,
    {
        out.push(v[i].clone());
        i = i + 1;
        assert(out@ =~= v@.take(i as int));
    }
    assert(v@.take(i as int) =~= v@);
    out
}

/// The effective charter as a view, or an unpublished placeholder while the community is
/// still bootstrapping.
pub fn charter_view(charter: &Option<Charter>, cosign_threshold: u32) -> (r: CharterView)
    ensures
        r.cosign_threshold == cosign_threshold,
        match charter {
            None => {
                &&& !r.published
                &&& r.version == 0
                &&& r.charter_hash is None
                &&& r.community_id@.len() == 0
                &&& r.founding_principles@.len() == 0
                &&& r.rights_floor@.len() == 0
                &&& r.founders@.len() == 0
                &&& shown_thresholds(r) == no_thresholds()
            },
            Some(c) => {
                &&& r.published
                &&& r.version == c.version
                &&& r.charter_hash == Some(c.hash)
                &&& r.community_id == c.community_id
                &&& r.founding_principles@ == c.founding_principles@
                &&& r.rights_floor@ == c.rights_floor@
                &&& r.founders@ == c.founders@
                &&& shown_thresholds(r) == c.thresholds
            },
        },
{
    match charter {
        None => CharterView {
            published: false,
            version: 0,
            charter_hash: None,
            community_id: String::new(),
            founding_principles: Vec::new(),
            rights_floor: Vec::new(),
            founders: Vec::new(),
            statute_quorum_pct: 0,
            statute_approval_pct: 0,
            deliberation_window_days: 0,
            implementation_delay_days: 0,
            emergency_threshold_pct: 0,
            charter_quorum_pct: 0,
            charter_approval_pct: 0,
            charter_deliberation_window_days: 0,
            cosign_threshold,
        },
        Some(c) => CharterView {
            published: true,
            version: c.version,
            charter_hash: Some(c.hash.clone()),
            community_id: c.community_id.clone(),
            founding_principles: copy_texts(&c.founding_principles),
            rights_floor: copy_texts(&c.rights_floor),
            founders: copy_texts(&c.founders),
            statute_quorum_pct: c.thresholds.statute_quorum_pct,
            statute_approval_pct: c.thresholds.statute_approval_pct,
            deliberation_window_days: c.thresholds.deliberation_window_days,
            implementation_delay_days: c.thresholds.implementation_delay_days,
            emergency_threshold_pct: c.thresholds.emergency_threshold_pct,
            charter_quorum_pct: c.thresholds.charter_quorum_pct,
            charter_approval_pct: c.thresholds.charter_approval_pct,
            charter_deliberation_window_days: c.thresholds.charter_deliberation_window_days,
            cosign_threshold,
        },
    }
}

/// A proposal's counted ballots.
#[derive(Debug, Clone, PartialEq, Eq)]
pub struct TallyView {
    /// Ballots in favour.
    pub yes: u32,
    /// Ballots against.
    pub no: u32,
    /// Ballots explicitly abstaining.
    pub abstain: u32,
    /// Established members eligible to vote, as of the proposal's close.
    pub eligible_voters: u32,
    /// Whether participation reached the quorum.
    pub quorum_met: bool,
    /// Whether the yes share reached the approval bar.
    pub approval_met: bool,
    /// `passed`, `failed`, or nothing while voting is still open.
    pub outcome: Option<String>,
}

/// How a vote ended.
#[derive(Debug, Clone, Copy, PartialEq, Eq, Structural)]
pub enum ProposalOutcome {
    /// The proposal carried.
    Passed,
    /// It did not.
    Failed,
}

/// A proposal's tally, as the governance layer counts it.
#[derive(Debug, Clone, Copy, PartialEq, Eq, Structural)]
pub struct VoteTally {
    /// Ballots in favour.
    pub yes_count: u32,
    /// Ballots against.
    pub no_count: u32,
    /// Ballots abstaining.
    pub abstain_count: u32,
    /// Members eligible to vote.
    pub eligible_voters: u32,
    /// Whether participation reached the quorum.
    pub quorum_met: bool,
    /// Whether the yes share reached the approval bar.
    pub approval_met: bool,
    /// How the vote ended, once it has.
    pub outcome: Option<ProposalOutcome>,
}

/// The wire name of a vote's outcome.
pub open spec fn vote_outcome_text(o: ProposalOutcome) -> Seq<char> {
    match o {
        ProposalOutcome::Passed => "passed"@,
        ProposalOutcome::Failed => "failed"@,
    }
}

/// Whether a view shows a tally. Before a charter exists there is nothing to count
/// against, and the tally shown is empty.
pub open spec fn shows_tally(v: TallyView, t: Option<VoteTally>) -> bool {
    match t {
        Some(t) => {
            &&& v.yes == t.yes_count
            &&& v.no == t.no_count
            &&& v.abstain == t.abstain_count
            &&& v.eligible_voters == t.eligible_voters
            &&& v.quorum_met == t.quorum_met
            &&& v.approval_met == t.approval_met
            &&& match t.outcome {
                Some(o) => v.outcome is Some && v.outcome->0@ == vote_outcome_text(o),
                None => v.outcome is None,
            }
        },
        None => {
            &&& v.yes == 0
            &&& v.no == 0
            &&& v.abstain == 0
            &&& v.eligible_voters == 0
            &&& !v.quorum_met
            &&& !v.approval_met
            &&& v.outcome is None
        },
    }
}

/// Shapes a tally, or an empty one where there is none.
pub fn tally_view(t: &Option<VoteTally>) -> (r: TallyView)
    ensures
        shows_tally(r, *t),
{
    match t {
        Some(t) => TallyView {
            yes: t.yes_count,
            no: t.no_count,
            abstain: t.abstain_count,
            eligible_voters: t.eligible_voters,
            quorum_met: t.quorum_met,
            approval_met: t.approval_met,
            outcome: match t.outcome {
                Some(ProposalOutcome::Passed) => Some(String::from_str("passed")),
                Some(ProposalOutcome::Failed) => Some(String::from_str("failed")),
                None => None,
            },
        },
        None => TallyView {
            yes: 0,
            no: 0,
            abstain: 0,
            eligible_voters: 0,
            quorum_met: false,
            approval_met: false,
            outcome: None,
        },
    }
}

/// The wire name of a proposal's kind.
pub open spec fn kind_of_text(k: ProposalKind) -> Seq<char> {
    match k {
        ProposalKind::Statute => "statute"@,
        ProposalKind::AdministrativeRule { .. } => "administrative_rule"@,
        ProposalKind::CharterAmendment => "charter_amendment"@,
        ProposalKind::Emergency { .. } => "emergency"@,
    }
}

/// The wire name for a proposal kind.
pub fn kind_name(k: &ProposalKind) -> (r: &'static str)
    ensures
        r@ == kind_of_text(*k),
{
    match k {
        ProposalKind::Statute => "statute",
        ProposalKind::AdministrativeRule { .. } => "administrative_rule",
        ProposalKind::CharterAmendment => "charter_amendment",
        ProposalKind::Emergency { .. } => "emergency",
    }
}

/// Where a proposal is in its life.
#[derive(Debug, Clone, Copy, PartialEq, Eq, Structural)]
pub enum ProposalPhase {
    /// It is being deliberated.
    Deliberation,
    /// It is being voted on.
    Voting,
    /// It is over.
    Concluded,
}

/// The wire name of a phase; a proposal without one is over.
pub open spec fn phase_text(p: Option<ProposalPhase>) -> Seq<char> {
    match p {
        Some(ProposalPhase::Deliberation) => "deliberation"@,
        Some(ProposalPhase::Voting) => "voting"@,
        _ => "concluded"@,
    }
}

fn phase_name(p: Option<ProposalPhase>) -> (r: &'static str)
    ensures
        r@ == phase_text(p),
{
    match p {
        Some(ProposalPhase::Deliberation) => "deliberation",
        Some(ProposalPhase::Voting) => "voting",
        _ => "concluded",
    }
}

/// A proposal, with what is derived of it right now.
#[derive(Debug, Clone, PartialEq, Eq)]
pub struct ProposalRecords {
    /// The proposal.
    pub proposal_id: Id,
    /// Who wrote it.
    pub author: String,
    /// Its title.
    pub title: String,
    /// Its text.
    pub body: String,
    /// What it is to become.
    pub kind: ProposalKind,
    /// When it was created.
    pub created_at: i64,
    /// When voting ends.
    pub voting_ends_at: i64,
    /// When it takes effect.
    pub implementation_at: i64,
    /// Where it is in its life.
    pub phase: Option<ProposalPhase>,
    /// Whether enough members co-signed it.
    pub published: bool,
    /// How many did.
    pub cosigner_count: u32,
    /// Who did.
    pub cosigners: Vec<String>,
    /// The tally, where there is a charter to count against.
    pub tally: Option<VoteTally>,
}

/// A proposal as a browse row.
#[derive(Debug, Clone, PartialEq, Eq)]
pub struct ProposalSummary {
    /// The proposal's content address, hex-encoded.
    pub proposal_id: String,
    /// The author's address.
    pub author: String,
    /// The short title.
    pub title: String,
    /// `statute`, `administrative_rule`, `charter_amendment`, or `emergency`.
    pub kind: String,
    /// The scope of an administrative rule.
    pub scope: Option<String>,
    /// Unix seconds the proposal was created.
    pub created_at: i64,
    /// Unix seconds the window closes.
    pub voting_ends_at: i64,
    /// Unix seconds a passed proposal takes effect.
    pub implementation_at: i64,
    /// `deliberation`, `voting`, or `concluded`.
    pub phase: String,
    /// Whether the proposal opened for voting.
    pub published: bool,
    /// Distinct established co-signers gathered so far.
    pub cosigner_count: u32,
    /// The tally so far.
    pub tally: TallyView,
    /// Whether the proposal has been enacted.
    pub enacted: bool,
}

/// One proposal in full: the summary plus its body and the addresses that have co-signed
/// it.
#[derive(Debug, Clone, PartialEq, Eq)]
pub struct ProposalDetail {
    /// The browse-row fields.
    pub summary: ProposalSummary,
    /// The full proposal text.
    pub body: String,
    /// The addresses that have validly co-signed, in order.
    pub cosigners: Vec<String>,
}

/// Whether a proposal is among those in force.
pub open spec fn in_force(enacted: Seq<Id>, id: Seq<u8>) -> bool {
    exists|i: int| 0 <= i < enacted.len() && (#[trigger] enacted[i])@ == id
}

fn is_enacted(enacted: &Vec<Id>, id: &Id) -> (r: bool)
    ensures
        r == in_force(enacted@, id@),
{
    let mut i: usize = 0;
    while i < enacted.len()
        invariant
            i <= enacted.len(),
            forall|j: int| 0 <= j < i ==> (#[trigger] enacted@[j])@ != id@,
        decreases enacted.len() - i,
    {
        if enacted[i].same(id) {
            return true;
        }
        i = i + 1;
    }
    false
}

/// Whether a row shows a proposal.
pub open spec fn shows_proposal(v: ProposalSummary, p: ProposalRecords, enacted: Seq<Id>) -> bool {
    &&& v.proposal_id@ == hex_text(p.proposal_id@)
    &&& v.author == p.author
    &&& v.title == p.title
    &&& v.kind@ == kind_of_text(p.kind)
    &&& v.scope == match p.kind {
        ProposalKind::AdministrativeRule { scope } => Some(scope),
        _ => None,
    }
    &&& v.created_at == p.created_at
    &&& v.voting_ends_at == p.voting_ends_at
    &&& v.implementation_at == p.implementation_at
    &&& v.phase@ == phase_text(p.phase)
    &&& v.published == p.published
    &&& v.cosigner_count == p.cosigner_count
    &&& shows_tally(v.tally, p.tally)
    &&& v.enacted == in_force(enacted, p.proposal_id@)
}

/// Builds a browse row for one proposal: its phase, co-signers, live tally, and whether
/// it has been enacted.
pub fn summarize(p: &ProposalRecords, enacted: &Vec<Id>) -> (r: ProposalSummary)
    ensures
        shows_proposal(r, *p, enacted@),
{
    ProposalSummary {
        proposal_id: hex(p.proposal_id.bytes.as_slice()),
        author: p.author.clone(),
        title: p.title.clone(),
        kind: String::from_str(kind_name(&p.kind)),
        scope: match &p.kind {
            ProposalKind::AdministrativeRule { scope } => Some(scope.clone()),
            _ => None,
        },
        created_at: p.created_at,
        voting_ends_at: p.voting_ends_at,
        implementation_at: p.implementation_at,
        phase: String::from_str(phase_name(p.phase)),
        published: p.published,
        cosigner_count: p.cosigner_count,
        tally: tally_view(&p.tally),
        enacted: is_enacted(enacted, &p.proposal_id),
    }
}

/// Every proposal as a browse row, in the order given.
pub fn proposals_view(all: &Vec<ProposalRecords>, enacted: &Vec<Id>) -> (r: Vec<ProposalSummary>)
    ensures
        r@.len() == all@.len(),
        forall|i: int| 0 <= i < r@.len() ==> shows_proposal(#[trigger] r@[i], all@[i], enacted@),
{
    let mut rows: Vec<ProposalSummary> = Vec::new();
    let mut i: usize = 0;
    while i < all.len()
        invariant
            i <= all.len(),
            rows@.len() == i,
            forall|j: int| 0 <= j < i ==> shows_proposal(#[trigger] rows@[j], all@[j], enacted@),
        decreases all.len() - i,
    {
        rows.push(summarize(&all[i], enacted));
        i = i + 1;
    }
    rows
}

/// One proposal in full, or `None` if there is no record of it.
pub fn proposal_view(p: &Option<ProposalRecords>, enacted: &Vec<Id>) -> (r: Option<ProposalDetail>)
    ensures
        match p {
            Some(p) => r matches Some(d) && shows_proposal(d.summary, *p, enacted@) && d.body
                == p.body && d.cosigners@ == stable_sort(p.cosigners@),
            None => r is None,
        },
{
    match p {
        Some(p) => Some(
            ProposalDetail {
                summary: summarize(p, enacted),
                body: p.body.clone(),
                cosigners: sort_by_rank(copy_texts(&p.cosigners)),
            },
        ),
        None => None,
    }
}

/// A statute in force: the proposal that carried, and when it took effect.
#[derive(Debug, Clone, PartialEq, Eq)]
pub struct StatuteSummary {
    /// The proposal's content address, hex-encoded.
    pub proposal_id: String,
    /// The title.
    pub title: String,
    /// The proposal kind.
    pub kind: String,
    /// Unix seconds it was enacted.
    pub implemented_at: i64,
}

/// An enacted proposal.
#[derive(Debug, Clone, PartialEq, Eq)]
pub struct Statute {
    /// The proposal.
    pub proposal_id: Id,
    /// Its title.
    pub title: String,
    /// Its kind.
    pub kind: ProposalKind,
    /// When it was enacted.
    pub implemented_at: i64,
}

/// Whether a row shows a statute.
pub open spec fn shows_statute(v: StatuteSummary, s: Statute) -> bool {
    &&& v.proposal_id@ == hex_text(s.proposal_id@)
    &&& v.title == s.title
    &&& v.kind@ == kind_of_text(s.kind)
    &&& v.implemented_at == s.implemented_at
}

/// The statutes in force.
pub fn statutes_view(all: &Vec<Statute>) -> (r: Vec<StatuteSummary>)
    ensures
        r@.len() == all@.len(),
        forall|i: int| 0 <= i < r@.len() ==> shows_statute(#[trigger] r@[i], all@[i]),
{
    let mut rows: Vec<StatuteSummary> = Vec::new();
    let mut i: usize = 0;
    while i < all.len()
        invariant
            i <= all.len(),
            rows@.len() == i,
            forall|j: int| 0 <= j < i ==> shows_statute(#[trigger] rows@[j], all@[j]),
        decreases all.len() - i,
    {
        let s = &all[i];
        rows.push(
            StatuteSummary {
                proposal_id: hex(s.proposal_id.bytes.as_slice()),
                title: s.title.clone(),
                kind: String::from_str(kind_name(&s.kind)),
                implemented_at: s.implemented_at,
            },
        );
        i = i + 1;
    }
    rows
}

/// The ids of the proposals in force.
pub fn enacted_ids(all: &Vec<Statute>) -> (r: Vec<Id>)
    ensures
        r@ == all@.map_values(|s: Statute| s.proposal_id),
{
    let mut out: Vec<Id> = Vec::new();
    let mut i: usize = 0;
    while i < all.len()
        invariant
            i <= all.len(),
            out@ == all@.take(i as int).map_values(|s: Statute| s.proposal_id),
        decreases all.len() - i,
    {
        out.push(all[i].proposal_id);
        i = i + 1;
        assert(out@ =~= all@.take(i as int).map_values(|s: Statute| s.proposal_id));
    }
    assert(all@.take(i as int) =~= all@);
    out
}

/// A failure building a governance view.
#[derive(Debug, Clone, PartialEq, Eq)]
pub enum GovernanceViewError {
    /// A proposal-record read failed.
    Proposal(String),
    /// A tally read failed.
    Tally(String),
    /// A statutes read failed.
    Statute(String),
}

impl GovernanceViewError {
    /// What went wrong, in words.
    pub fn message(&self) -> (r: String)
        ensures
            r@ == match self {
                GovernanceViewError::Proposal(m) => "proposal: "@ + m@,
                GovernanceViewError::Tally(m) => "tally: "@ + m@,
                GovernanceViewError::Statute(m) => "statute: "@ + m@,
            },
    {
        match self {
            GovernanceViewError::Proposal(m) => join2("proposal: ", m.as_str()),
            GovernanceViewError::Tally(m) => join2("tally: ", m.as_str()),
            GovernanceViewError::Statute(m) => join2("statute: ", m.as_str()),
        }
    }
}

/// A list of proposals shows each of them once, in the order given, with its own author,
/// title, times, co-signers and counts; one is shown as enacted exactly where a statute in
/// force came of it. `statutes` are the statutes in force.
pub proof fn law_every_proposal_is_listed(
    all: &Vec<ProposalRecords>,
    statutes: &Vec<Statute>,
    enacted: Vec<Id>,
    r: Vec<ProposalSummary>,
    i: int,
)
    requires
        call_ensures(enacted_ids, (statutes,), enacted),
        call_ensures(proposals_view, (all, &enacted), r),
    ensures
        r@.len() == all@.len(),
        0 <= i < all@.len() ==> {
            let p = all@[i];
            &&& r@[i].proposal_id@ == hex_text(p.proposal_id@)
            &&& r@[i].author@ == p.author@
            &&& r@[i].title@ == p.title@
            &&& r@[i].scope == match p.kind {
                ProposalKind::AdministrativeRule { scope } => Some(scope),
                _ => None,
            }
            &&& r@[i].created_at == p.created_at
            &&& r@[i].voting_ends_at == p.voting_ends_at
            &&& r@[i].implementation_at == p.implementation_at
            &&& r@[i].published == p.published
            &&& r@[i].cosigner_count == p.cosigner_count
            &&& r@[i].enacted <==> exists|j: int|
                0 <= j < statutes@.len() && (#[trigger] statutes@[j]).proposal_id@ == p.proposal_id@
            &&& p.tally matches Some(t) ==> {
                &&& r@[i].tally.yes == t.yes_count
                &&& r@[i].tally.no == t.no_count
                &&& r@[i].tally.abstain == t.abstain_count
                &&& r@[i].tally.eligible_voters == t.eligible_voters
                &&& r@[i].tally.quorum_met == t.quorum_met
                &&& r@[i].tally.approval_met == t.approval_met
                &&& r@[i].tally.outcome is Some <==> t.outcome is Some
            }
            &&& p.tally is None ==> r@[i].tally.yes == 0 && r@[i].tally.no == 0
                && r@[i].tally.abstain == 0 && r@[i].tally.eligible_voters == 0
                && !r@[i].tally.quorum_met && !r@[i].tally.approval_met
                && r@[i].tally.outcome is None
        },
{
    if 0 <= i < all@.len() {
        let p = all@[i];
        assert(shows_proposal(r@[i], p, enacted@));
        if in_force(enacted@, p.proposal_id@) {
            let j = choose|j: int| 0 <= j < enacted@.len() && (#[trigger] enacted@[j])@
                == p.proposal_id@;
            assert(statutes@[j].proposal_id@ == p.proposal_id@);
        }
        if exists|j: int|
            0 <= j < statutes@.len() && (#[trigger] statutes@[j]).proposal_id@ == p.proposal_id@ {
            let j = choose|j: int|
                0 <= j < statutes@.len() && (#[trigger] statutes@[j]).proposal_id@
                    == p.proposal_id@;
            assert(enacted@[j]@ == p.proposal_id@);
        }
    }
}

/// A proposal in full shows its own text and all of its co-signers, none left out and none
/// added, in the order of their addresses.
pub proof fn law_a_proposal_shows_its_cosigners(
    p: ProposalRecords,
    enacted: &Vec<Id>,
    r: Option<ProposalDetail>,
)
    requires
        call_ensures(proposal_view, (&Some(p), enacted), r),
    ensures
        r is Some,
        r->0.body@ == p.body@,
        r->0.summary.proposal_id@ == hex_text(p.proposal_id@),
        r->0.cosigners@.to_multiset() == p.cosigners@.to_multiset(),
        forall|i: int, j: int|
            #![trigger r->0.cosigners@[i], r->0.cosigners@[j]]
            0 <= i < j < r->0.cosigners@.len() ==> !text_before(
                r->0.cosigners@[j]@,
                r->0.cosigners@[i]@,
            ),
{
    law_sorting_is_a_sorted_rearrangement(p.cosigners@);
    assert forall|i: int, j: int|
        #![trigger r->0.cosigners@[i], r->0.cosigners@[j]]
        0 <= i < j < r->0.cosigners@.len() implies !text_before(
        r->0.cosigners@[j]@,
        r->0.cosigners@[i]@,
    ) by {
        assert(!r->0.cosigners@[j].before(&r->0.cosigners@[i]));
    }
}

/// The statutes in force are shown each once, in order, with their own title and time.
pub proof fn law_every_statute_is_listed(all: &Vec<Statute>, r: Vec<StatuteSummary>, i: int)
    requires
        call_ensures(statutes_view, (all,), r),
    ensures
        r@.len() == all@.len(),
        0 <= i < all@.len() ==> r@[i].proposal_id@ == hex_text(all@[i].proposal_id@)
            && r@[i].title@ == all@[i].title@ && r@[i].implemented_at == all@[i].implemented_at,
{
    if 0 <= i < all@.len() {
        assert(shows_statute(r@[i], all@[i]));
    }
}

/// A published charter shows its own thresholds, each under its own name.
pub proof fn law_a_charter_shows_its_thresholds(c: Charter, cosign_threshold: u32, r: CharterView)
    requires
        call_ensures(charter_view, (&Some(c), cosign_threshold), r),
    ensures
        r.published,
        r.statute_quorum_pct == c.thresholds.statute_quorum_pct,
        r.statute_approval_pct == c.thresholds.statute_approval_pct,
        r.deliberation_window_days == c.thresholds.deliberation_window_days,
        r.implementation_delay_days == c.thresholds.implementation_delay_days,
        r.emergency_threshold_pct == c.thresholds.emergency_threshold_pct,
        r.charter_quorum_pct == c.thresholds.charter_quorum_pct,
        r.charter_approval_pct == c.thresholds.charter_approval_pct,
        r.charter_deliberation_window_days == c.thresholds.charter_deliberation_window_days,
        r.cosign_threshold == cosign_threshold,
{
}

} // verus!
