//! The authenticated request channel of the paired mobiles: pairing, authentication,
//! and the records that a mobile submits.
//!
//! The order of the checks is deliberate: cheap, stateless ones come before the stateful
//! ones, and the nonce is consumed before a method runs, so that a request cannot be
//! replayed even if its method fails.

use vstd::prelude::*;
use vstd::string::*;

use crate::dtn_sync::{elapsed, elapsed_secs};
use crate::events::{Event, EventBatch};
use crate::gossip::to_signature;
use crate::order::{insert_sorted, lemma_text_rank, place, sorted_by_rank, text_before, text_precedes, Ranked};
use crate::params::{hex_field_error, hex_field_ok, hex_param, json_text};
use crate::rpc::{invalid_params, ErrorCode, RpcError};
use crate::tables::{Id, Key, KeyMap};
use crate::text::{hex_bytes, join3, same_text};

verus! {

/// Why a sealed request was turned away. Nothing sealed is answered to one that was.
#[derive(Clone, Copy, Debug, PartialEq, Eq, Structural)]
pub enum ChannelError {
    /// The seal did not open, or the answer could not be sealed.
    Sealed,
    /// The request has not the right shape.
    Malformed,
    /// Its signature does not verify.
    BadSignature,
    /// It was meant for another station.
    WrongRecipient,
    /// Its signer is not paired.
    NotPaired,
    /// Its time is too far from the station's.
    StaleTimestamp,
    /// Its nonce was used before.
    Replay,
    /// The station could not record its nonce.
    Unavailable,
}

/// What the checks read of a request.
#[derive(Clone, Copy, Debug, PartialEq, Eq)]
pub struct EnvelopeHead {
    /// The station it is meant for.
    pub recipient: Id,
    /// The mobile that signed it.
    pub signer: Id,
    /// When it was made.
    pub timestamp: i64,
    /// Its nonce, which the answer echoes.
    pub nonce: u64,
}

/// The distance between two times.
pub open spec fn distance(a: i64, b: i64) -> int {
    if a >= b {
        a - b
    } else {
        b - a
    }
}

/// Whether two times are further apart than a bound.
pub fn too_far(a: i64, b: i64, bound: i64) -> (r: bool)
    ensures
        r == (distance(a, b) > bound),
{
    let gap: i128 = if a >= b {
        a as i128 - b as i128
    } else {
        b as i128 - a as i128
    };
    gap > bound as i128
}

/// What the checks before the nonce find, in their order.
pub open spec fn refused_before_nonce(
    e: EnvelopeHead,
    station: Seq<u8>,
    paired: bool,
    now: i64,
    skew: i64,
) -> Option<ChannelError> {
    if e.recipient@ != station {
        Some(ChannelError::WrongRecipient)
    } else if !paired {
        Some(ChannelError::NotPaired)
    } else if distance(now, e.timestamp) > skew {
        Some(ChannelError::StaleTimestamp)
    } else {
        None
    }
}

/// Authorizes an opened and verified request up to its nonce: it must be meant for this
/// station, come from a paired mobile, and be of the present. `paired` says whether the
/// signer is paired.
pub fn authorize(e: &EnvelopeHead, station: &Id, paired: bool, now: i64, skew: i64) -> (r: Result<
    (),
    ChannelError,
>)
    ensures
        match r {
            Ok(_) => refused_before_nonce(*e, station@, paired, now, skew) is None,
            Err(c) => refused_before_nonce(*e, station@, paired, now, skew) == Some(c),
        },
{
    if !e.recipient.same(station) {
        return Err(ChannelError::WrongRecipient);
    }
    if !paired {
        return Err(ChannelError::NotPaired);
    }
    if too_far(now, e.timestamp, skew) {
        return Err(ChannelError::StaleTimestamp);
    }
    Ok(())
}

/// What becomes of a request at its nonce.
pub open spec fn nonce_answer(fresh: bool, saved: bool) -> Result<(), ChannelError> {
    if !fresh {
        Err(ChannelError::Replay)
    } else if !saved {
        Err(ChannelError::Unavailable)
    } else {
        Ok(())
    }
}

/// Whether a request goes on to its method, once the nonce was offered: `fresh` says
/// whether the nonce was accepted, `saved` whether that was recorded for good. The nonce
/// counts as used only where the request goes on.
pub fn admit_nonce(fresh: bool, saved: bool) -> (r: Result<(), ChannelError>)
    ensures
        r == nonce_answer(fresh, saved),
{
    if !fresh {
        return Err(ChannelError::Replay);
    }
    if !saved {
        return Err(ChannelError::Unavailable);
    }
    Ok(())
}

/// A request that goes on to its method is meant for this station, signed by a paired
/// mobile and of the present; a request of an unpaired mobile never does.
pub proof fn law_only_paired_mobiles_get_through(
    e: EnvelopeHead,
    station: Seq<u8>,
    paired: bool,
    now: i64,
    skew: i64,
)
    ensures
        refused_before_nonce(e, station, paired, now, skew) is None <==> e.recipient@ == station
            && paired && distance(now, e.timestamp) <= skew,
        !paired ==> refused_before_nonce(e, station, paired, now, skew) is Some,
{
}

/// What becomes of a request: the checks before the nonce, and then the nonce.
pub open spec fn authenticated(
    e: EnvelopeHead,
    station: Seq<u8>,
    paired: bool,
    now: i64,
    skew: i64,
    fresh: bool,
    saved: bool,
) -> Result<(), ChannelError> {
    match refused_before_nonce(e, station, paired, now, skew) {
        Some(c) => Err(c),
        None => nonce_answer(fresh, saved),
    }
}

/// The nonces that are used, by mobile, after a request was answered.
pub open spec fn used_after(
    used: Set<(Seq<u8>, u64)>,
    e: EnvelopeHead,
    answer: Result<(), ChannelError>,
) -> Set<(Seq<u8>, u64)> {
    if answer is Ok {
        used.insert((e.signer@, e.nonce))
    } else {
        used
    }
}

/// A request that got through is refused as a replay when it is presented again while its
/// time and its pairing still hold, whatever came of its method, and that uses up nothing.
/// `fresh_again` is what the store of nonces says of the nonce then: it takes no nonce for
/// fresh that is used.
pub proof fn law_a_request_gets_through_once(
    used: Set<(Seq<u8>, u64)>,
    e: EnvelopeHead,
    station: Seq<u8>,
    now: i64,
    later: i64,
    skew: i64,
    fresh: bool,
    saved: bool,
    fresh_again: bool,
    saved_again: bool,
)
    requires
        authenticated(e, station, true, now, skew, fresh, saved) is Ok,
        distance(later, e.timestamp) <= skew,
        fresh_again ==> !used_after(
            used,
            e,
            authenticated(e, station, true, now, skew, fresh, saved),
        ).contains((e.signer@, e.nonce)),
    ensures
        authenticated(e, station, true, later, skew, fresh_again, saved_again) == Err::<
            (),
            ChannelError,
        >(ChannelError::Replay),
        ({
            let after = used_after(
                used,
                e,
                authenticated(e, station, true, now, skew, fresh, saved),
            );
            used_after(
                after,
                e,
                authenticated(e, station, true, later, skew, fresh_again, saved_again),
            ) == after
        }),
{
}

/// A request that is turned away, for whatever reason, uses up no nonce, and one that gets
/// through uses up its own alone.
pub proof fn law_an_error_uses_no_nonce(
    used: Set<(Seq<u8>, u64)>,
    e: EnvelopeHead,
    station: Seq<u8>,
    paired: bool,
    now: i64,
    skew: i64,
    fresh: bool,
    saved: bool,
    other: (Seq<u8>, u64),
)
    ensures
        authenticated(e, station, paired, now, skew, fresh, saved) is Err ==> used_after(
            used,
            e,
            authenticated(e, station, paired, now, skew, fresh, saved),
        ) == used,
        other != (e.signer@, e.nonce) ==> used_after(
            used,
            e,
            authenticated(e, station, paired, now, skew, fresh, saved),
        ).contains(other) == used.contains(other),
{
}

/// Lets only the subscribe method subscribe.
pub fn require_subscribe(method: &str) -> (r: Result<(), ChannelError>)
    ensures
        match r {
            Ok(_) => method@ == "subscribe"@,
            Err(c) => method@ != "subscribe"@ && c == ChannelError::Malformed,
        },
{
    if same_text(method, "subscribe") {
        Ok(())
    } else {
        Err(ChannelError::Malformed)
    }
}

/// What a subscriber gets.
#[derive(Clone, Debug, PartialEq, Eq)]
pub enum SubscribeOutcome {
    /// Events, at once.
    Ready(EventBatch),
    /// Nothing yet: what to wait with.
    Waiting {
        /// The subscriber.
        member: String,
        /// Their key, to seal the answer to.
        member_pk: Id,
        /// Their cursor.
        last_seen: u64,
        /// The nonce that the answer echoes.
        nonce: u64,
    },
}

/// Answers a subscriber with the events there are, or has them wait.
pub fn subscribe(
    events: Vec<Event>,
    tail: u64,
    member: String,
    member_pk: Id,
    last_seen: u64,
    nonce: u64,
) -> (r: SubscribeOutcome)
    ensures
        r == if events@.len() == 0 {
            SubscribeOutcome::Waiting { member, member_pk, last_seen, nonce }
        } else {
            SubscribeOutcome::Ready(EventBatch { last_seen_event_id: tail, events })
        },
{
    if events.len() == 0 {
        SubscribeOutcome::Waiting { member, member_pk, last_seen, nonce }
    } else {
        SubscribeOutcome::Ready(EventBatch { last_seen_event_id: tail, events })
    }
}

/// Publishes the log's tail to the waiting subscribers, and says whether to wake them:
/// only if the tail actually advanced.
pub fn publish_tail(current: &mut u64, tail: u64) -> (r: bool)
    ensures
        r == (tail > *old(current)),
        *final(current) == if r {
            tail
        } else {
            *old(current)
        },
{
    if tail > *current {
        *current = tail;
        true
    } else {
        false
    }
}

/// What goes back to a mobile whose request got through: its nonce, and the result or
/// the error of its method.
#[derive(Debug, PartialEq, Eq)]
pub struct ResponseEnvelope {
    /// The request's nonce.
    pub nonce: u64,
    /// The result, or the code and the message of an error.
    pub body: Result<String, (ErrorCode, String)>,
}

/// Wraps a method's outcome. A method that fails is answered too.
pub fn respond(nonce: u64, outcome: Result<String, RpcError>) -> (r: ResponseEnvelope)
    ensures
        r == (ResponseEnvelope {
            nonce,
            body: match outcome {
                Ok(s) => Ok(s),
                Err(e) => Err((e.code, e.message)),
            },
        }),
{
    ResponseEnvelope {
        nonce,
        body: match outcome {
            Ok(s) => Ok(s),
            Err(e) => Err((e.code, e.message)),
        },
    }
}

/// The records that a mobile submits. Each is signed on the phone, and its signer must
/// be the authenticated mobile.
#[derive(Clone, Copy, Debug, PartialEq, Eq, Structural)]
pub enum ChannelWrite {
    /// `submit_proposal`.
    SubmitProposal,
    /// `submit_confirmation`.
    SubmitConfirmation,
    /// `submit_vouch`.
    SubmitVouch,
    /// `submit_listing`.
    SubmitListing,
    /// `submit_listing_update`.
    SubmitListingUpdate,
    /// `submit_listing_close`.
    SubmitListingClose,
    /// `submit_inquiry`.
    SubmitInquiry,
    /// `submit_inquiry_message`.
    SubmitInquiryMessage,
    /// `submit_inquiry_close`.
    SubmitInquiryClose,
    /// `submit_contract`.
    SubmitContract,
    /// `submit_contract_termination`.
    SubmitContractTermination,
    /// `governance_submit_proposal`.
    GovernanceSubmitProposal,
    /// `governance_submit_cosign`.
    GovernanceSubmitCosign,
    /// `governance_submit_vote`.
    GovernanceSubmitVote,
    /// `submit_dispute`.
    SubmitDispute,
    /// `submit_dispute_response`.
    SubmitDisputeResponse,
    /// `submit_verdict`.
    SubmitVerdict,
    /// `submit_escalation`.
    SubmitEscalation,
    /// `submit_escalation_ballot`.
    SubmitEscalationBallot,
}

impl ChannelWrite {
    /// The field of the parameters that carries the record.
    pub open spec fn field_text(self) -> Seq<char> {
        match self {
            ChannelWrite::SubmitProposal => "signed_proposal"@,
            ChannelWrite::SubmitConfirmation => "signed_confirmation"@,
            ChannelWrite::SubmitVouch => "signed_vouch"@,
            ChannelWrite::SubmitListing => "signed_listing"@,
            ChannelWrite::SubmitListingUpdate => "signed_listing_update"@,
            ChannelWrite::SubmitListingClose => "signed_listing_close"@,
            ChannelWrite::SubmitInquiry => "signed_inquiry"@,
            ChannelWrite::SubmitInquiryMessage => "signed_message"@,
            ChannelWrite::SubmitInquiryClose => "signed_close"@,
            ChannelWrite::SubmitContract => "signed_contract"@,
            ChannelWrite::SubmitContractTermination => "signed_termination"@,
            ChannelWrite::GovernanceSubmitProposal => "signed_proposal"@,
            ChannelWrite::GovernanceSubmitCosign => "signed_cosign"@,
            ChannelWrite::GovernanceSubmitVote => "signed_vote"@,
            ChannelWrite::SubmitDispute => "signed_dispute"@,
            ChannelWrite::SubmitDisputeResponse => "signed_response"@,
            ChannelWrite::SubmitVerdict => "signed_verdict"@,
            ChannelWrite::SubmitEscalation => "signed_escalation"@,
            ChannelWrite::SubmitEscalationBallot => "signed_ballot"@,
        }
    }

    /// Said where the record does not parse.
    pub open spec fn malformed_text(self) -> Seq<char> {
        match self {
            ChannelWrite::SubmitProposal => "malformed signed proposal"@,
            ChannelWrite::SubmitConfirmation => "malformed signed confirmation"@,
            ChannelWrite::SubmitVouch => "malformed signed vouch"@,
            ChannelWrite::SubmitListing => "malformed signed listing"@,
            ChannelWrite::SubmitListingUpdate => "malformed signed update"@,
            ChannelWrite::SubmitListingClose => "malformed signed close"@,
            ChannelWrite::SubmitInquiry => "malformed signed inquiry"@,
            ChannelWrite::SubmitInquiryMessage => "malformed signed message"@,
            ChannelWrite::SubmitInquiryClose => "malformed signed close"@,
            ChannelWrite::SubmitContract => "malformed signed contract"@,
            ChannelWrite::SubmitContractTermination => "malformed signed termination"@,
            ChannelWrite::GovernanceSubmitProposal => "malformed signed proposal"@,
            ChannelWrite::GovernanceSubmitCosign => "malformed signed cosign"@,
            ChannelWrite::GovernanceSubmitVote => "malformed signed vote"@,
            ChannelWrite::SubmitDispute => "malformed signed dispute"@,
            ChannelWrite::SubmitDisputeResponse => "malformed signed response"@,
            ChannelWrite::SubmitVerdict => "malformed signed verdict"@,
            ChannelWrite::SubmitEscalation => "malformed signed escalation"@,
            ChannelWrite::SubmitEscalationBallot => "malformed signed escalation ballot"@,
        }
    }

    /// Said where someone else signed the record.
    pub open spec fn mismatch_text(self) -> Seq<char> {
        match self {
            ChannelWrite::SubmitProposal => "proposal sender is not the authenticated mobile"@,
            ChannelWrite::SubmitConfirmation => "confirmer is not the authenticated mobile"@,
            ChannelWrite::SubmitVouch => "voucher is not the authenticated mobile"@,
            ChannelWrite::SubmitListing => "provider is not the authenticated mobile"@,
            ChannelWrite::SubmitListingUpdate => "editor is not the authenticated mobile"@,
            ChannelWrite::SubmitListingClose => "closer is not the authenticated mobile"@,
            ChannelWrite::SubmitInquiry => "buyer is not the authenticated mobile"@,
            ChannelWrite::SubmitInquiryMessage => "sender is not the authenticated mobile"@,
            ChannelWrite::SubmitInquiryClose => "closer is not the authenticated mobile"@,
            ChannelWrite::SubmitContract => "buyer is not the authenticated mobile"@,
            ChannelWrite::SubmitContractTermination => "terminator is not the authenticated mobile"@,
            ChannelWrite::GovernanceSubmitProposal => "proposal author is not the authenticated mobile"@,
            ChannelWrite::GovernanceSubmitCosign => "co-signer is not the authenticated mobile"@,
            ChannelWrite::GovernanceSubmitVote => "voter is not the authenticated mobile"@,
            ChannelWrite::SubmitDispute => "dispute raiser is not the authenticated mobile"@,
            ChannelWrite::SubmitDisputeResponse => "responder is not the authenticated mobile"@,
            ChannelWrite::SubmitVerdict => "juror is not the authenticated mobile"@,
            ChannelWrite::SubmitEscalation => "escalation initiator is not the authenticated mobile"@,
            ChannelWrite::SubmitEscalationBallot => "voter is not the authenticated mobile"@,
        }
    }

    /// Said where the signature does not verify; none for a record whose signature the
    /// engine that takes it verifies.
    pub open spec fn unverified_text(self) -> Option<Seq<char>> {
        match self {
            ChannelWrite::SubmitVouch => Some("vouch signature does not verify"@),
            ChannelWrite::SubmitListing => Some("listing signature does not verify"@),
            ChannelWrite::SubmitListingUpdate => Some("update signature does not verify"@),
            ChannelWrite::SubmitListingClose => Some("close signature does not verify"@),
            ChannelWrite::SubmitInquiry => Some("inquiry signature does not verify"@),
            ChannelWrite::SubmitInquiryMessage => Some("message signature does not verify"@),
            ChannelWrite::SubmitInquiryClose => Some("close signature does not verify"@),
            ChannelWrite::SubmitContract => Some("contract signature does not verify"@),
            ChannelWrite::SubmitContractTermination => Some("termination signature does not verify"@),
            _ => None,
        }
    }

    /// The field of the parameters that carries the record.
    pub fn field(self) -> (r: &'static str)
        ensures
            r@ == self.field_text(),
    {
        match self {
            ChannelWrite::SubmitProposal => "signed_proposal",
            ChannelWrite::SubmitConfirmation => "signed_confirmation",
            ChannelWrite::SubmitVouch => "signed_vouch",
            ChannelWrite::SubmitListing => "signed_listing",
            ChannelWrite::SubmitListingUpdate => "signed_listing_update",
            ChannelWrite::SubmitListingClose => "signed_listing_close",
            ChannelWrite::SubmitInquiry => "signed_inquiry",
            ChannelWrite::SubmitInquiryMessage => "signed_message",
            ChannelWrite::SubmitInquiryClose => "signed_close",
            ChannelWrite::SubmitContract => "signed_contract",
            ChannelWrite::SubmitContractTermination => "signed_termination",
            ChannelWrite::GovernanceSubmitProposal => "signed_proposal",
            ChannelWrite::GovernanceSubmitCosign => "signed_cosign",
            ChannelWrite::GovernanceSubmitVote => "signed_vote",
            ChannelWrite::SubmitDispute => "signed_dispute",
            ChannelWrite::SubmitDisputeResponse => "signed_response",
            ChannelWrite::SubmitVerdict => "signed_verdict",
            ChannelWrite::SubmitEscalation => "signed_escalation",
            ChannelWrite::SubmitEscalationBallot => "signed_ballot",
        }
    }

    fn malformed(self) -> (r: &'static str)
        ensures
            r@ == self.malformed_text(),
    {
        match self {
            ChannelWrite::SubmitProposal => "malformed signed proposal",
            ChannelWrite::SubmitConfirmation => "malformed signed confirmation",
            ChannelWrite::SubmitVouch => "malformed signed vouch",
            ChannelWrite::SubmitListing => "malformed signed listing",
            ChannelWrite::SubmitListingUpdate => "malformed signed update",
            ChannelWrite::SubmitListingClose => "malformed signed close",
            ChannelWrite::SubmitInquiry => "malformed signed inquiry",
            ChannelWrite::SubmitInquiryMessage => "malformed signed message",
            ChannelWrite::SubmitInquiryClose => "malformed signed close",
            ChannelWrite::SubmitContract => "malformed signed contract",
            ChannelWrite::SubmitContractTermination => "malformed signed termination",
            ChannelWrite::GovernanceSubmitProposal => "malformed signed proposal",
            ChannelWrite::GovernanceSubmitCosign => "malformed signed cosign",
            ChannelWrite::GovernanceSubmitVote => "malformed signed vote",
            ChannelWrite::SubmitDispute => "malformed signed dispute",
            ChannelWrite::SubmitDisputeResponse => "malformed signed response",
            ChannelWrite::SubmitVerdict => "malformed signed verdict",
            ChannelWrite::SubmitEscalation => "malformed signed escalation",
            ChannelWrite::SubmitEscalationBallot => "malformed signed escalation ballot",
        }
    }

    fn mismatch(self) -> (r: &'static str)
        ensures
            r@ == self.mismatch_text(),
    {
        match self {
            ChannelWrite::SubmitProposal => "proposal sender is not the authenticated mobile",
            ChannelWrite::SubmitConfirmation => "confirmer is not the authenticated mobile",
            ChannelWrite::SubmitVouch => "voucher is not the authenticated mobile",
            ChannelWrite::SubmitListing => "provider is not the authenticated mobile",
            ChannelWrite::SubmitListingUpdate => "editor is not the authenticated mobile",
            ChannelWrite::SubmitListingClose => "closer is not the authenticated mobile",
            ChannelWrite::SubmitInquiry => "buyer is not the authenticated mobile",
            ChannelWrite::SubmitInquiryMessage => "sender is not the authenticated mobile",
            ChannelWrite::SubmitInquiryClose => "closer is not the authenticated mobile",
            ChannelWrite::SubmitContract => "buyer is not the authenticated mobile",
            ChannelWrite::SubmitContractTermination => "terminator is not the authenticated mobile",
            ChannelWrite::GovernanceSubmitProposal => "proposal author is not the authenticated mobile",
            ChannelWrite::GovernanceSubmitCosign => "co-signer is not the authenticated mobile",
            ChannelWrite::GovernanceSubmitVote => "voter is not the authenticated mobile",
            ChannelWrite::SubmitDispute => "dispute raiser is not the authenticated mobile",
            ChannelWrite::SubmitDisputeResponse => "responder is not the authenticated mobile",
            ChannelWrite::SubmitVerdict => "juror is not the authenticated mobile",
            ChannelWrite::SubmitEscalation => "escalation initiator is not the authenticated mobile",
            ChannelWrite::SubmitEscalationBallot => "voter is not the authenticated mobile",
        }
    }

    fn unverified(self) -> (r: Option<&'static str>)
        ensures
            match r {
                Some(m) => self.unverified_text() == Some(m@),
                None => self.unverified_text() is None,
            },
    {
        match self {
            ChannelWrite::SubmitVouch => Some("vouch signature does not verify"),
            ChannelWrite::SubmitListing => Some("listing signature does not verify"),
            ChannelWrite::SubmitListingUpdate => Some("update signature does not verify"),
            ChannelWrite::SubmitListingClose => Some("close signature does not verify"),
            ChannelWrite::SubmitInquiry => Some("inquiry signature does not verify"),
            ChannelWrite::SubmitInquiryMessage => Some("message signature does not verify"),
            ChannelWrite::SubmitInquiryClose => Some("close signature does not verify"),
            ChannelWrite::SubmitContract => Some("contract signature does not verify"),
            ChannelWrite::SubmitContractTermination => Some("termination signature does not verify"),
            _ => None,
        }
    }
}

/// The bytes of a submitted record.
pub fn record_bytes(write: ChannelWrite, params: &str) -> (r: Result<Vec<u8>, RpcError>)
    ensures
        ({
            let found = json_text(params@, write.field_text());
            match r {
                Ok(b) => hex_field_ok(found) && b@ == hex_bytes(found->Ok_0->0),
                Err(e) => !hex_field_ok(found) && e.is_invalid(
                    hex_field_error(found, write.field_text()),
                ),
            }
        }),
{
    hex_param(params, write.field())
}

/// Whether a submitted record goes on: it parses, the authenticated mobile signed it,
/// and, where no engine verifies it again, its signature verifies.
pub open spec fn record_admitted(
    write: ChannelWrite,
    signer: Option<Seq<u8>>,
    mobile: Seq<u8>,
    verifies: bool,
) -> bool {
    signer == Some(mobile) && (write.unverified_text() is Some ==> verifies)
}

/// Lets a submitted record go on to be recorded. `signer` is who signed it, or nothing
/// where it does not parse; `verifies` whether the signature does.
pub fn admit_record(
    write: ChannelWrite,
    signer: Option<Id>,
    mobile: &Id,
    verifies: bool,
) -> (r: Result<(), RpcError>)
    ensures
        ({
            let by = match signer {
                Some(s) => Some(s@),
                None => None,
            };
            match r {
                Ok(_) => record_admitted(write, by, mobile@, verifies),
                Err(e) => !record_admitted(write, by, mobile@, verifies) && match by {
                    None => e.is_invalid(write.malformed_text()),
                    Some(s) => if s != mobile@ {
                        e.is_invalid(write.mismatch_text())
                    } else {
                        e.is_invalid(write.unverified_text()->0)
                    },
                },
            }
        }),
{
    match signer {
        None => Err(invalid_params(write.malformed())),
        Some(s) => {
            if !s.same(mobile) {
                return Err(invalid_params(write.mismatch()));
            }
            match write.unverified() {
                Some(m) => {
                    if !verifies {
                        return Err(invalid_params(m));
                    }
                },
                None => {},
            }
            Ok(())
        },
    }
}

/// A mobile submits only what it signed itself.
pub proof fn law_mobiles_submit_only_their_own(
    write: ChannelWrite,
    signer: Option<Seq<u8>>,
    mobile: Seq<u8>,
    verifies: bool,
)
    requires
        record_admitted(write, signer, mobile, verifies),
    ensures
        signer == Some(mobile),
{
}

/// The signature of a founder over the charter, which the authenticated mobile submits:
/// sixty-four bytes in hex.
pub fn charter_signature(params: &str) -> (r: Result<[u8; 64], RpcError>)
    ensures
        ({
            let found = json_text(params@, "charter_signature"@);
            match r {
                Ok(s) => hex_field_ok(found) && s@ == hex_bytes(found->Ok_0->0),
                Err(e) => if hex_field_ok(found) {
                    hex_bytes(found->Ok_0->0).len() != 64 && e.is_invalid(
                        "signature must be 64 bytes"@,
                    )
                } else {
                    e.is_invalid(hex_field_error(found, "charter_signature"@))
                },
            }
        }),
{
    match hex_param(params, "charter_signature") {
        Ok(bytes) => match to_signature(bytes.as_slice()) {
            Some(s) => Ok(s),
            None => Err(invalid_params("signature must be 64 bytes")),
        },
        Err(e) => Err(e),
    }
}

/// A pairing request that waits for the operator to confirm it.
#[derive(Clone, Debug, PartialEq, Eq)]
pub struct PendingPair {
    /// The mobile's address.
    pub mobile_address: String,
    /// The code that both sides show.
    pub sas: String,
    /// When the request came.
    pub received_at: i64,
}

/// A row of the pending requests.
#[derive(Clone, Debug, PartialEq, Eq)]
pub struct PendingRow {
    /// The mobile's address.
    pub address: String,
    /// The code to compare.
    pub sas: String,
    /// How long the request has waited, in seconds.
    pub age_secs: i64,
}

impl Ranked for PendingRow {
    open spec fn before(&self, other: &Self) -> bool {
        text_before(self.address@, other.address@)
    }

    fn precedes(&self, other: &Self) -> (r: bool) {
        text_precedes(self.address.as_str(), other.address.as_str())
    }

    proof fn lemma_order(a: &Self, b: &Self, c: &Self) {
        lemma_text_rank(a.address@, b.address@, c.address@);
    }
}

/// Why a pairing request was refused.
#[derive(Clone, Copy, Debug, PartialEq, Eq, Structural)]
pub enum PairError {
    /// It was made too far from the station's time.
    StaleTimestamp,
}

/// The pairing requests that wait for the operator.
pub struct PendingPairs {
    table: KeyMap<String, PendingPair>,
}

/// The requests that have not aged out.
pub open spec fn unexpired(
    table: Map<Seq<char>, PendingPair>,
    now: i64,
    ttl: i64,
) -> Map<Seq<char>, PendingPair> {
    table.restrict(
        Set::new(
            |a: Seq<char>| table.dom().contains(a) && elapsed(now, table[a].received_at) <= ttl,
        ),
    )
}

impl PendingPairs {
    /// The requests, by the mobile's address.
    pub closed spec fn requests(&self) -> Map<Seq<char>, PendingPair> {
        self.table@
    }

    /// The table is well formed, and each request stands under its mobile's address.
    pub closed spec fn wf(&self) -> bool {
        &&& self.table.wf()
        &&& forall|a: Seq<char>|
            self.table@.dom().contains(a) ==> (#[trigger] self.table@[a]).mobile_address@ == a
    }

    /// No requests.
    pub fn new() -> (r: Self)
        ensures
            r.wf(),
            r.requests() == Map::<Seq<char>, PendingPair>::empty(),
    {
        PendingPairs { table: KeyMap::new() }
    }

    /// Removes requests older than the TTL.
    pub fn prune(&mut self, now: i64, ttl: i64)
        requires
            old(self).wf(),
        ensures
            final(self).wf(),
            final(self).requests() == unexpired(old(self).requests(), now, ttl),
    {
        let ghost keep = |a: Seq<char>|
            old(self).table@.dom().contains(a) && elapsed(
                now,
                old(self).table@[a].received_at,
            ) <= ttl;
        let mut i: usize = 0;
        let mut n: usize = self.table.len();
        while i < n
            invariant
                self.table.wf(),
                keep == (|a: Seq<char>|
                    old(self).table@.dom().contains(a) && elapsed(
                        now,
                        old(self).table@[a].received_at,
                    ) <= ttl),
                i <= n,
                n == self.table.keys().len(),
                self.table@.dom() == self.table.keys().to_set(),
                forall|j: int| 0 <= j < i ==> keep(#[trigger] self.table.keys()[j]),
                forall|k: Seq<char>|
                    #![trigger self.table@.dom().contains(k)]
                    self.table@.dom().contains(k) ==> old(self).table@.dom().contains(k)
                        && self.table@[k] == old(self).table@[k],
                forall|k: Seq<char>|
                    #![trigger self.table@.dom().contains(k)]
                    keep(k) ==> self.table@.dom().contains(k),
            decreases n - i,
        {
            let _ = self.table.key_at(i);
            let age = elapsed_secs(now, self.table.value_at(i).received_at);
            if age <= ttl {
                i = i + 1;
            } else {
                let _ = self.table.remove_at(i);
                n = self.table.len();
            }
        }
        assert(self.table@ =~= old(self).table@.restrict(Set::new(keep)));
    }

    /// Takes in a verified pairing request, made at `requested_at`, with the code that
    /// both sides show. It does not pair the mobile: the operator does, by confirming.
    /// Requests that have aged out are dropped, so that abandoned ones do not pile up.
    pub fn request(
        &mut self,
        address: String,
        sas: String,
        requested_at: i64,
        now: i64,
        skew: i64,
        ttl: i64,
    ) -> (r: Result<(), PairError>)
        requires
            old(self).wf(),
        ensures
            final(self).wf(),
            match r {
                Ok(_) => {
                    &&& distance(now, requested_at) <= skew
                    &&& final(self).requests() == unexpired(
                        old(self).requests(),
                        now,
                        ttl,
                    ).insert(
                        address@,
                        PendingPair { mobile_address: address, sas, received_at: now },
                    )
                },
                Err(e) => {
                    &&& distance(now, requested_at) > skew
                    &&& e == PairError::StaleTimestamp
                    &&& final(self).requests() == old(self).requests()
                },
            },
    {
        if too_far(now, requested_at, skew) {
            return Err(PairError::StaleTimestamp);
        }
        self.prune(now, ttl);
        let name = address.clone();
        self.table.insert(
            name,
            PendingPair { mobile_address: address, sas, received_at: now },
        );
        Ok(())
    }

    /// Takes a request that the operator confirms out of the table.
    pub fn confirm(&mut self, address: &String, now: i64, ttl: i64) -> (r: Result<
        PendingPair,
        RpcError,
    >)
        requires
            old(self).wf(),
        ensures
            final(self).wf(),
            ({
                let kept = unexpired(old(self).requests(), now, ttl);
                &&& final(self).requests() == kept.remove(address@)
                &&& match r {
                    Ok(p) => kept.dom().contains(address@) && p == kept[address@],
                    Err(e) => !kept.dom().contains(address@) && e.is_invalid(
                        "no pending pairing request from "@ + address@
                            + " (it may have expired)"@,
                    ),
                }
            }),
    {
        self.prune(now, ttl);
        match self.table.remove(address) {
            Some(p) => Ok(p),
            None => Err(
                RpcError {
                    code: ErrorCode::InvalidParams,
                    message: join3(
                        "no pending pairing request from ",
                        address.as_str(),
                        " (it may have expired)",
                    ),
                },
            ),
        }
    }

    /// The requests that wait, in order of the mobiles' addresses.
    pub fn list(&mut self, now: i64, ttl: i64) -> (r: Vec<PendingRow>)
        requires
            old(self).wf(),
        ensures
            final(self).wf(),
            final(self).requests() == unexpired(old(self).requests(), now, ttl),
            sorted_by_rank(r@),
            r@.len() == final(self).requests().len(),
            forall|i: int|
                0 <= i < r@.len() ==> final(self).requests().dom().contains(
                    (#[trigger] r@[i]).address@,
                ) && r@[i].sas == final(self).requests()[r@[i].address@].sas && r@[i].age_secs
                    == elapsed(now, final(self).requests()[r@[i].address@].received_at),
            forall|a: Seq<char>|
                final(self).requests().dom().contains(a) ==> exists|i: int|
                    0 <= i < r@.len() && (#[trigger] r@[i]).address@ == a,
    {
        self.prune(now, ttl);
        let n: usize = self.table.len();
        let mut out: Vec<PendingRow> = Vec::new();
        let mut i: usize = 0;
        while i < n
            invariant
                self.table.wf(),
                i <= n,
                n == self.table.keys().len(),
                self.table.vals().len() == n,
                forall|j: int|
                    0 <= j < n ==> self.table@.dom().contains(#[trigger] self.table.keys()[j])
                        && self.table@[self.table.keys()[j]] == self.table.vals()[j],
                forall|a: Seq<char>|
                    self.table@.dom().contains(a) ==> (
                    #[trigger] self.table@[a]).mobile_address@ == a,
                out@.len() == i,
                sorted_by_rank(out@),
                forall|j: int|
                    0 <= j < i ==> self.table@.dom().contains((#[trigger] out@[j]).address@)
                        && out@[j].sas == self.table@[out@[j].address@].sas && out@[j].age_secs
                        == elapsed(now, self.table@[out@[j].address@].received_at),
                forall|j: int|
                    0 <= j < i ==> exists|k: int|
                        0 <= k < out@.len() && (#[trigger] out@[k]).address@
                            == #[trigger] self.table.keys()[j],
            decreases n - i,
        {
            let ghost before = out@;
            let ghost key = self.table.keys()[i as int];
            let p = self.table.value_at(i);
            let row = PendingRow {
                address: p.mobile_address.clone(),
                sas: p.sas.clone(),
                age_secs: elapsed_secs(now, p.received_at),
            };
            assert(self.table@[key].mobile_address@ == key);
            insert_sorted(&mut out, row);
            proof {
                let at = place(before, row);
                assert forall|j: int| 0 <= j < out@.len() implies self.table@.dom().contains(
                    (#[trigger] out@[j]).address@,
                ) && out@[j].sas == self.table@[out@[j].address@].sas && out@[j].age_secs
                    == elapsed(now, self.table@[out@[j].address@].received_at) by {
                    if j < at {
                        assert(out@[j] == before[j]);
                    } else if j > at {
                        assert(out@[j] == before[j - 1]);
                    }
                }
                assert forall|j: int| 0 <= j < i + 1 implies exists|k: int|
                    0 <= k < out@.len() && (#[trigger] out@[k]).address@
                        == #[trigger] self.table.keys()[j] by {
                    if j < i {
                        let k = choose|k: int|
                            0 <= k < before.len() && (#[trigger] before[k]).address@
                                == self.table.keys()[j];
                        let k2 = if k < at { k } else { k + 1 };
                        assert(out@[k2] == before[k]);
                    } else {
                        assert(out@[at].address@ == key);
                    }
                }
            }
            i = i + 1;
        }
        proof {
            assert forall|a: Seq<char>| self.table@.dom().contains(a) implies exists|i: int|
                0 <= i < out@.len() && (#[trigger] out@[i]).address@ == a by {
                assert(self.table.keys().to_set().contains(a));
                let j = choose|j: int| 0 <= j < n && self.table.keys()[j] == a;
                assert(self.table.keys()[j] == a);
            }
        }
        out
    }
}

/// A request that has aged out cannot be confirmed.
pub proof fn law_aged_requests_cannot_be_confirmed(
    table: Map<Seq<char>, PendingPair>,
    address: Seq<char>,
    now: i64,
    ttl: i64,
)
    requires
        table.dom().contains(address),
        elapsed(now, table[address].received_at) > ttl,
    ensures
        !unexpired(table, now, ttl).dom().contains(address),
{
}

/// A request gets as far as its nonce exactly where it is meant for this station, comes from
/// a paired mobile, and was made no further from the station's time, on either side, than
/// the bound; of several faults the first in this order is named.
pub proof fn law_a_request_is_authorized_by_its_head(
    e: &EnvelopeHead,
    station: &Id,
    paired: bool,
    now: i64,
    skew: i64,
    r: Result<(), ChannelError>,
)
    requires
        call_ensures(authorize, (e, station, paired, now, skew), r),
    ensures
        ({
            let present = now - e.timestamp <= skew && e.timestamp - now <= skew;
            &&& r is Ok <==> e.recipient@ == station@ && paired && present
            &&& e.recipient@ != station@ ==> r == Err::<(), ChannelError>(
                ChannelError::WrongRecipient,
            )
            &&& e.recipient@ == station@ && !paired ==> r == Err::<(), ChannelError>(
                ChannelError::NotPaired,
            )
            &&& e.recipient@ == station@ && paired && !present ==> r == Err::<(), ChannelError>(
                ChannelError::StaleTimestamp,
            )
        }),
{
}

/// A request gets past its nonce exactly where the nonce is fresh and was recorded for good.
pub proof fn law_a_nonce_is_fresh_and_saved(fresh: bool, saved: bool, r: Result<(), ChannelError>)
    requires
        call_ensures(admit_nonce, (fresh, saved), r),
    ensures
        r is Ok <==> fresh && saved,
        !fresh ==> r == Err::<(), ChannelError>(ChannelError::Replay),
        fresh && !saved ==> r == Err::<(), ChannelError>(ChannelError::Unavailable),
{
}

/// A submitted record goes on exactly where it parses, the mobile that submits it signed it
/// and, if it is a vouch or a record of the marketplace, which no engine verifies again, its
/// signature verifies.
pub proof fn law_a_record_goes_on_under_its_own_signature(
    write: ChannelWrite,
    signer: Option<Id>,
    mobile: &Id,
    verifies: bool,
    r: Result<(), RpcError>,
)
    requires
        call_ensures(admit_record, (write, signer, mobile, verifies), r),
    ensures
        r is Ok ==> (signer matches Some(s) && s@ == mobile@),
        (signer matches Some(s) && s@ == mobile@) && verifies ==> r is Ok,
        !verifies && (write == ChannelWrite::SubmitVouch || write == ChannelWrite::SubmitListing
            || write == ChannelWrite::SubmitListingUpdate || write
            == ChannelWrite::SubmitListingClose || write == ChannelWrite::SubmitInquiry || write
            == ChannelWrite::SubmitInquiryMessage || write == ChannelWrite::SubmitInquiryClose
            || write == ChannelWrite::SubmitContract || write
            == ChannelWrite::SubmitContractTermination) ==> r is Err,
{
}

/// What is left of the pending requests: each that has waited no longer than the time to
/// live, as it was, and no other. A request of any age lives on under the longest time to
/// live.
pub proof fn law_requests_age_out_one_by_one(
    table: Map<Seq<char>, PendingPair>,
    now: i64,
    ttl: i64,
    address: Seq<char>,
)
    ensures
        unexpired(table, now, ttl).dom().contains(address) <==> table.dom().contains(address) && (
        now - table[address].received_at <= ttl || ttl == i64::MAX),
        unexpired(table, now, ttl).dom().contains(address) ==> unexpired(table, now, ttl)[address]
            == table[address],
{
}

/// The pending requests are listed by their mobiles' addresses, in the order of texts.
pub proof fn law_pending_requests_are_listed_by_address(rows: Seq<PendingRow>, i: int, j: int)
    requires
        sorted_by_rank(rows),
        0 <= i < j < rows.len(),
    ensures
        !text_before(rows[j].address@, rows[i].address@),
{
    assert(!rows[j].before(&rows[i]));
}

} // verus!
