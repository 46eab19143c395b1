//! The method surfaces: what the operator's socket answers, and the part of it that a
//! paired mobile reaches.

use vstd::prelude::*;

use crate::rpc::{ErrorCode, RpcError};
use crate::text::{join2, same_text};

verus! {

/// The methods of the operator's socket.
#[derive(Clone, Copy, Debug, PartialEq, Eq, Structural)]
pub enum Method {
    /// `whoami`.
    Whoami,
    /// `balance`.
    Balance,
    /// `propose`.
    Propose,
    /// `confirm`.
    Confirm,
    /// `history`.
    History,
    /// `transactions`.
    Transactions,
    /// `next_nonce`.
    NextNonce,
    /// `vouch`.
    Vouch,
    /// `backup_export`.
    BackupExport,
    /// `recover_import`.
    RecoverImport,
    /// `marketplace_search`.
    MarketplaceSearch,
    /// `marketplace_listing`.
    MarketplaceListing,
    /// `marketplace_create_listing`.
    MarketplaceCreateListing,
    /// `marketplace_edit_listing`.
    MarketplaceEditListing,
    /// `marketplace_close_listing`.
    MarketplaceCloseListing,
    /// `marketplace_my_listings`.
    MarketplaceMyListings,
    /// `marketplace_announce_need`.
    MarketplaceAnnounceNeed,
    /// `marketplace_matches`.
    MarketplaceMatches,
    /// `marketplace_inquire`.
    MarketplaceInquire,
    /// `marketplace_inquiry_message`.
    MarketplaceInquiryMessage,
    /// `marketplace_inquiry_close`.
    MarketplaceInquiryClose,
    /// `marketplace_inquiry_thread`.
    MarketplaceInquiryThread,
    /// `marketplace_my_inquiries`.
    MarketplaceMyInquiries,
    /// `marketplace_settle_inquiry`.
    MarketplaceSettleInquiry,
    /// `marketplace_contract`.
    MarketplaceContract,
    /// `marketplace_contracts`.
    MarketplaceContracts,
    /// `marketplace_contract_show`.
    MarketplaceContractShow,
    /// `marketplace_contract_terminate`.
    MarketplaceContractTerminate,
    /// `governance_charter`.
    GovernanceCharter,
    /// `governance_proposals`.
    GovernanceProposals,
    /// `governance_proposal`.
    GovernanceProposal,
    /// `governance_statutes`.
    GovernanceStatutes,
    /// `governance_init_charter`.
    GovernanceInitCharter,
    /// `governance_charter_begin`.
    GovernanceCharterBegin,
    /// `governance_pending_charter`.
    GovernancePendingCharter,
    /// `governance_add_charter_signature`.
    GovernanceAddCharterSignature,
    /// `governance_charter_sign`.
    GovernanceCharterSign,
    /// `governance_propose`.
    GovernancePropose,
    /// `governance_cosign`.
    GovernanceCosign,
    /// `governance_vote`.
    GovernanceVote,
    /// `disputes`.
    Disputes,
    /// `dispute`.
    Dispute,
    /// `dispute_raise`.
    DisputeRaise,
    /// `dispute_respond`.
    DisputeRespond,
    /// `dispute_rule`.
    DisputeRule,
    /// `dispute_resolve`.
    DisputeResolve,
    /// `dispute_escalate`.
    DisputeEscalate,
    /// `dispute_escalation_vote`.
    DisputeEscalationVote,
    /// `pair_list_pending`.
    PairListPending,
    /// `pair_confirm`.
    PairConfirm,
    /// `list_mobiles`.
    ListMobiles,
    /// `unpair`.
    Unpair,
    /// `bundle_submit`.
    BundleSubmit,
}

/// The methods of the mobile channel: each binds the caller to the record or the view
/// it names. Reads that any caller may make go through the operator's method.
#[derive(Clone, Copy, Debug, PartialEq, Eq, Structural)]
pub enum ChannelMethod {
    /// `submit_proposal`.
    SubmitProposal,
    /// `submit_confirmation`.
    SubmitConfirmation,
    /// `submit_vouch`.
    SubmitVouch,
    /// `vouch_counts`.
    VouchCounts,
    /// `list_vouches`.
    ListVouches,
    /// `reputation`.
    Reputation,
    /// `reputation_band`.
    ReputationBand,
    /// `marketplace_search`.
    MarketplaceSearch,
    /// `marketplace_listing`.
    MarketplaceListing,
    /// `submit_listing`.
    SubmitListing,
    /// `submit_listing_update`.
    SubmitListingUpdate,
    /// `submit_listing_close`.
    SubmitListingClose,
    /// `marketplace_my_listings`.
    MarketplaceMyListings,
    /// `submit_inquiry`.
    SubmitInquiry,
    /// `submit_inquiry_message`.
    SubmitInquiryMessage,
    /// `submit_inquiry_close`.
    SubmitInquiryClose,
    /// `inquiry_thread`.
    InquiryThread,
    /// `my_inquiries`.
    MyInquiries,
    /// `submit_contract`.
    SubmitContract,
    /// `submit_contract_termination`.
    SubmitContractTermination,
    /// `marketplace_contracts`.
    MarketplaceContracts,
    /// `marketplace_contract_show`.
    MarketplaceContractShow,
    /// `governance_submit_proposal`.
    GovernanceSubmitProposal,
    /// `governance_submit_cosign`.
    GovernanceSubmitCosign,
    /// `governance_submit_vote`.
    GovernanceSubmitVote,
    /// `governance_submit_charter_signature`.
    GovernanceSubmitCharterSignature,
    /// `bundle_submit`.
    BundleSubmit,
    /// `submit_dispute`.
    SubmitDispute,
    /// `submit_dispute_response`.
    SubmitDisputeResponse,
    /// `submit_verdict`.
    SubmitVerdict,
    /// `submit_escalation`.
    SubmitEscalation,
    /// `submit_escalation_ballot`.
    SubmitEscalationBallot,
    /// A read that the operator's socket answers in the same way.
    Shared {
        /// The method.
        method: Method,
    },
}

impl Method {
    /// The wire name.
    pub open spec fn text(self) -> Seq<char> {
        match self {
            Method::Whoami => "whoami"@,
            Method::Balance => "balance"@,
            Method::Propose => "propose"@,
            Method::Confirm => "confirm"@,
            Method::History => "history"@,
            Method::Transactions => "transactions"@,
            Method::NextNonce => "next_nonce"@,
            Method::Vouch => "vouch"@,
            Method::BackupExport => "backup_export"@,
            Method::RecoverImport => "recover_import"@,
            Method::MarketplaceSearch => "marketplace_search"@,
            Method::MarketplaceListing => "marketplace_listing"@,
            Method::MarketplaceCreateListing => "marketplace_create_listing"@,
            Method::MarketplaceEditListing => "marketplace_edit_listing"@,
            Method::MarketplaceCloseListing => "marketplace_close_listing"@,
            Method::MarketplaceMyListings => "marketplace_my_listings"@,
            Method::MarketplaceAnnounceNeed => "marketplace_announce_need"@,
            Method::MarketplaceMatches => "marketplace_matches"@,
            Method::MarketplaceInquire => "marketplace_inquire"@,
            Method::MarketplaceInquiryMessage => "marketplace_inquiry_message"@,
            Method::MarketplaceInquiryClose => "marketplace_inquiry_close"@,
            Method::MarketplaceInquiryThread => "marketplace_inquiry_thread"@,
            Method::MarketplaceMyInquiries => "marketplace_my_inquiries"@,
            Method::MarketplaceSettleInquiry => "marketplace_settle_inquiry"@,
            Method::MarketplaceContract => "marketplace_contract"@,
            Method::MarketplaceContracts => "marketplace_contracts"@,
            Method::MarketplaceContractShow => "marketplace_contract_show"@,
            Method::MarketplaceContractTerminate => "marketplace_contract_terminate"@,
            Method::GovernanceCharter => "governance_charter"@,
            Method::GovernanceProposals => "governance_proposals"@,
            Method::GovernanceProposal => "governance_proposal"@,
            Method::GovernanceStatutes => "governance_statutes"@,
            Method::GovernanceInitCharter => "governance_init_charter"@,
            Method::GovernanceCharterBegin => "governance_charter_begin"@,
            Method::GovernancePendingCharter => "governance_pending_charter"@,
            Method::GovernanceAddCharterSignature => "governance_add_charter_signature"@,
            Method::GovernanceCharterSign => "governance_charter_sign"@,
            Method::GovernancePropose => "governance_propose"@,
            Method::GovernanceCosign => "governance_cosign"@,
            Method::GovernanceVote => "governance_vote"@,
            Method::Disputes => "disputes"@,
            Method::Dispute => "dispute"@,
            Method::DisputeRaise => "dispute_raise"@,
            Method::DisputeRespond => "dispute_respond"@,
            Method::DisputeRule => "dispute_rule"@,
            Method::DisputeResolve => "dispute_resolve"@,
            Method::DisputeEscalate => "dispute_escalate"@,
            Method::DisputeEscalationVote => "dispute_escalation_vote"@,
            Method::PairListPending => "pair_list_pending"@,
            Method::PairConfirm => "pair_confirm"@,
            Method::ListMobiles => "list_mobiles"@,
            Method::Unpair => "unpair"@,
            Method::BundleSubmit => "bundle_submit"@,
        }
    }

    /// The wire name.
    pub fn name(self) -> (r: &'static str)
        ensures
            r@ == self.text(),
    {
        match self {
            Method::Whoami => "whoami",
            Method::Balance => "balance",
            Method::Propose => "propose",
            Method::Confirm => "confirm",
            Method::History => "history",
            Method::Transactions => "transactions",
            Method::NextNonce => "next_nonce",
            Method::Vouch => "vouch",
            Method::BackupExport => "backup_export",
            Method::RecoverImport => "recover_import",
            Method::MarketplaceSearch => "marketplace_search",
            Method::MarketplaceListing => "marketplace_listing",
            Method::MarketplaceCreateListing => "marketplace_create_listing",
            Method::MarketplaceEditListing => "marketplace_edit_listing",
            Method::MarketplaceCloseListing => "marketplace_close_listing",
            Method::MarketplaceMyListings => "marketplace_my_listings",
            Method::MarketplaceAnnounceNeed => "marketplace_announce_need",
            Method::MarketplaceMatches => "marketplace_matches",
            Method::MarketplaceInquire => "marketplace_inquire",
            Method::MarketplaceInquiryMessage => "marketplace_inquiry_message",
            Method::MarketplaceInquiryClose => "marketplace_inquiry_close",
            Method::MarketplaceInquiryThread => "marketplace_inquiry_thread",
            Method::MarketplaceMyInquiries => "marketplace_my_inquiries",
            Method::MarketplaceSettleInquiry => "marketplace_settle_inquiry",
            Method::MarketplaceContract => "marketplace_contract",
            Method::MarketplaceContracts => "marketplace_contracts",
            Method::MarketplaceContractShow => "marketplace_contract_show",
            Method::MarketplaceContractTerminate => "marketplace_contract_terminate",
            Method::GovernanceCharter => "governance_charter",
            Method::GovernanceProposals => "governance_proposals",
            Method::GovernanceProposal => "governance_proposal",
            Method::GovernanceStatutes => "governance_statutes",
            Method::GovernanceInitCharter => "governance_init_charter",
            Method::GovernanceCharterBegin => "governance_charter_begin",
            Method::GovernancePendingCharter => "governance_pending_charter",
            Method::GovernanceAddCharterSignature => "governance_add_charter_signature",
            Method::GovernanceCharterSign => "governance_charter_sign",
            Method::GovernancePropose => "governance_propose",
            Method::GovernanceCosign => "governance_cosign",
            Method::GovernanceVote => "governance_vote",
            Method::Disputes => "disputes",
            Method::Dispute => "dispute",
            Method::DisputeRaise => "dispute_raise",
            Method::DisputeRespond => "dispute_respond",
            Method::DisputeRule => "dispute_rule",
            Method::DisputeResolve => "dispute_resolve",
            Method::DisputeEscalate => "dispute_escalate",
            Method::DisputeEscalationVote => "dispute_escalation_vote",
            Method::PairListPending => "pair_list_pending",
            Method::PairConfirm => "pair_confirm",
            Method::ListMobiles => "list_mobiles",
            Method::Unpair => "unpair",
            Method::BundleSubmit => "bundle_submit",
        }
    }
}

/// The operator's method with a name.
pub open spec fn method_named(name: Seq<char>) -> Option<Method> {
    if name == "whoami"@ {
        Some(Method::Whoami)
    } else if name == "balance"@ {
        Some(Method::Balance)
    } else if name == "propose"@ {
        Some(Method::Propose)
    } else if name == "confirm"@ {
        Some(Method::Confirm)
    } else if name == "history"@ {
        Some(Method::History)
    } else if name == "transactions"@ {
        Some(Method::Transactions)
    } else if name == "next_nonce"@ {
        Some(Method::NextNonce)
    } else if name == "vouch"@ {
        Some(Method::Vouch)
    } else if name == "backup_export"@ {
        Some(Method::BackupExport)
    } else if name == "recover_import"@ {
        Some(Method::RecoverImport)
    } else if name == "marketplace_search"@ {
        Some(Method::MarketplaceSearch)
    } else if name == "marketplace_listing"@ {
        Some(Method::MarketplaceListing)
    } else if name == "marketplace_create_listing"@ {
        Some(Method::MarketplaceCreateListing)
    } else if name == "marketplace_edit_listing"@ {
        Some(Method::MarketplaceEditListing)
    } else if name == "marketplace_close_listing"@ {
        Some(Method::MarketplaceCloseListing)
    } else if name == "marketplace_my_listings"@ {
        Some(Method::MarketplaceMyListings)
    } else if name == "marketplace_announce_need"@ {
        Some(Method::MarketplaceAnnounceNeed)
    } else if name == "marketplace_matches"@ {
        Some(Method::MarketplaceMatches)
    } else if name == "marketplace_inquire"@ {
        Some(Method::MarketplaceInquire)
    } else if name == "marketplace_inquiry_message"@ {
        Some(Method::MarketplaceInquiryMessage)
    } else if name == "marketplace_inquiry_close"@ {
        Some(Method::MarketplaceInquiryClose)
    } else if name == "marketplace_inquiry_thread"@ {
        Some(Method::MarketplaceInquiryThread)
    } else if name == "marketplace_my_inquiries"@ {
        Some(Method::MarketplaceMyInquiries)
    } else if name == "marketplace_settle_inquiry"@ {
        Some(Method::MarketplaceSettleInquiry)
    } else if name == "marketplace_contract"@ {
        Some(Method::MarketplaceContract)
    } else if name == "marketplace_contracts"@ {
        Some(Method::MarketplaceContracts)
    } else if name == "marketplace_contract_show"@ {
        Some(Method::MarketplaceContractShow)
    } else if name == "marketplace_contract_terminate"@ {
        Some(Method::MarketplaceContractTerminate)
    } else if name == "governance_charter"@ {
        Some(Method::GovernanceCharter)
    } else if name == "governance_proposals"@ {
        Some(Method::GovernanceProposals)
    } else if name == "governance_proposal"@ {
        Some(Method::GovernanceProposal)
    } else if name == "governance_statutes"@ {
        Some(Method::GovernanceStatutes)
    } else if name == "governance_init_charter"@ {
        Some(Method::GovernanceInitCharter)
    } else if name == "governance_charter_begin"@ {
        Some(Method::GovernanceCharterBegin)
    } else if name == "governance_pending_charter"@ {
        Some(Method::GovernancePendingCharter)
    } else if name == "governance_add_charter_signature"@ {
        Some(Method::GovernanceAddCharterSignature)
    } else if name == "governance_charter_sign"@ {
        Some(Method::GovernanceCharterSign)
    } else if name == "governance_propose"@ {
        Some(Method::GovernancePropose)
    } else if name == "governance_cosign"@ {
        Some(Method::GovernanceCosign)
    } else if name == "governance_vote"@ {
        Some(Method::GovernanceVote)
    } else if name == "disputes"@ {
        Some(Method::Disputes)
    } else if name == "dispute"@ {
        Some(Method::Dispute)
    } else if name == "dispute_raise"@ {
        Some(Method::DisputeRaise)
    } else if name == "dispute_respond"@ {
        Some(Method::DisputeRespond)
    } else if name == "dispute_rule"@ {
        Some(Method::DisputeRule)
    } else if name == "dispute_resolve"@ {
        Some(Method::DisputeResolve)
    } else if name == "dispute_escalate"@ {
        Some(Method::DisputeEscalate)
    } else if name == "dispute_escalation_vote"@ {
        Some(Method::DisputeEscalationVote)
    } else if name == "pair_list_pending"@ {
        Some(Method::PairListPending)
    } else if name == "pair_confirm"@ {
        Some(Method::PairConfirm)
    } else if name == "list_mobiles"@ {
        Some(Method::ListMobiles)
    } else if name == "unpair"@ {
        Some(Method::Unpair)
    } else if name == "bundle_submit"@ {
        Some(Method::BundleSubmit)
    } else {
        None
    }
}

/// The operator's method that a request names; an unknown one is refused by name.
pub fn call_method(name: &str) -> (r: Result<Method, RpcError>)
    ensures
        match r {
            Ok(m) => method_named(name@) == Some(m),
            Err(e) => method_named(name@) is None && e.says(
                ErrorCode::MethodNotFound,
                "unknown method: "@ + name@,
            ),
        },
{
    if same_text(name, "whoami") {
        Ok(Method::Whoami)
    } else if same_text(name, "balance") {
        Ok(Method::Balance)
    } else if same_text(name, "propose") {
        Ok(Method::Propose)
    } else if same_text(name, "confirm") {
        Ok(Method::Confirm)
    } else if same_text(name, "history") {
        Ok(Method::History)
    } else if same_text(name, "transactions") {
        Ok(Method::Transactions)
    } else if same_text(name, "next_nonce") {
        Ok(Method::NextNonce)
    } else if same_text(name, "vouch") {
        Ok(Method::Vouch)
    } else if same_text(name, "backup_export") {
        Ok(Method::BackupExport)
    } else if same_text(name, "recover_import") {
        Ok(Method::RecoverImport)
    } else if same_text(name, "marketplace_search") {
        Ok(Method::MarketplaceSearch)
    } else if same_text(name, "marketplace_listing") {
        Ok(Method::MarketplaceListing)
    } else if same_text(name, "marketplace_create_listing") {
        Ok(Method::MarketplaceCreateListing)
    } else if same_text(name, "marketplace_edit_listing") {
        Ok(Method::MarketplaceEditListing)
    } else if same_text(name, "marketplace_close_listing") {
        Ok(Method::MarketplaceCloseListing)
    } else if same_text(name, "marketplace_my_listings") {
        Ok(Method::MarketplaceMyListings)
    } else if same_text(name, "marketplace_announce_need") {
        Ok(Method::MarketplaceAnnounceNeed)
    } else if same_text(name, "marketplace_matches") {
        Ok(Method::MarketplaceMatches)
    } else if same_text(name, "marketplace_inquire") {
        Ok(Method::MarketplaceInquire)
    } else if same_text(name, "marketplace_inquiry_message") {
        Ok(Method::MarketplaceInquiryMessage)
    } else if same_text(name, "marketplace_inquiry_close") {
        Ok(Method::MarketplaceInquiryClose)
    } else if same_text(name, "marketplace_inquiry_thread") {
        Ok(Method::MarketplaceInquiryThread)
    } else if same_text(name, "marketplace_my_inquiries") {
        Ok(Method::MarketplaceMyInquiries)
    } else if same_text(name, "marketplace_settle_inquiry") {
        Ok(Method::MarketplaceSettleInquiry)
    } else if same_text(name, "marketplace_contract") {
        Ok(Method::MarketplaceContract)
    } else if same_text(name, "marketplace_contracts") {
        Ok(Method::MarketplaceContracts)
    } else if same_text(name, "marketplace_contract_show") {
        Ok(Method::MarketplaceContractShow)
    } else if same_text(name, "marketplace_contract_terminate") {
        Ok(Method::MarketplaceContractTerminate)
    } else if same_text(name, "governance_charter") {
        Ok(Method::GovernanceCharter)
    } else if same_text(name, "governance_proposals") {
        Ok(Method::GovernanceProposals)
    } else if same_text(name, "governance_proposal") {
        Ok(Method::GovernanceProposal)
    } else if same_text(name, "governance_statutes") {
        Ok(Method::GovernanceStatutes)
    } else if same_text(name, "governance_init_charter") {
        Ok(Method::GovernanceInitCharter)
    } else if same_text(name, "governance_charter_begin") {
        Ok(Method::GovernanceCharterBegin)
    } else if same_text(name, "governance_pending_charter") {
        Ok(Method::GovernancePendingCharter)
    } else if same_text(name, "governance_add_charter_signature") {
        Ok(Method::GovernanceAddCharterSignature)
    } else if same_text(name, "governance_charter_sign") {
        Ok(Method::GovernanceCharterSign)
    } else if same_text(name, "governance_propose") {
        Ok(Method::GovernancePropose)
    } else if same_text(name, "governance_cosign") {
        Ok(Method::GovernanceCosign)
    } else if same_text(name, "governance_vote") {
        Ok(Method::GovernanceVote)
    } else if same_text(name, "disputes") {
        Ok(Method::Disputes)
    } else if same_text(name, "dispute") {
        Ok(Method::Dispute)
    } else if same_text(name, "dispute_raise") {
        Ok(Method::DisputeRaise)
    } else if same_text(name, "dispute_respond") {
        Ok(Method::DisputeRespond)
    } else if same_text(name, "dispute_rule") {
        Ok(Method::DisputeRule)
    } else if same_text(name, "dispute_resolve") {
        Ok(Method::DisputeResolve)
    } else if same_text(name, "dispute_escalate") {
        Ok(Method::DisputeEscalate)
    } else if same_text(name, "dispute_escalation_vote") {
        Ok(Method::DisputeEscalationVote)
    } else if same_text(name, "pair_list_pending") {
        Ok(Method::PairListPending)
    } else if same_text(name, "pair_confirm") {
        Ok(Method::PairConfirm)
    } else if same_text(name, "list_mobiles") {
        Ok(Method::ListMobiles)
    } else if same_text(name, "unpair") {
        Ok(Method::Unpair)
    } else if same_text(name, "bundle_submit") {
        Ok(Method::BundleSubmit)
    } else {
        Err(
            RpcError {
                code: ErrorCode::MethodNotFound,
                message: join2("unknown method: ", name),
            },
        )
    }
}

/// The reads that mobiles share with the operator.
pub open spec fn shared_with_mobiles(m: Method) -> bool {
    match m {
        Method::Whoami
        | Method::Balance
        | Method::Transactions
        | Method::NextNonce
        | Method::GovernanceCharter
        | Method::GovernancePendingCharter
        | Method::GovernanceProposals
        | Method::GovernanceProposal
        | Method::GovernanceStatutes
        | Method::Disputes
        | Method::Dispute => true,
        _ => false,
    }
}

/// The mobile channel's method with a name.
pub open spec fn channel_method_named(name: Seq<char>) -> Option<ChannelMethod> {
    if name == "submit_proposal"@ {
        Some(ChannelMethod::SubmitProposal)
    } else if name == "submit_confirmation"@ {
        Some(ChannelMethod::SubmitConfirmation)
    } else if name == "submit_vouch"@ {
        Some(ChannelMethod::SubmitVouch)
    } else if name == "vouch_counts"@ {
        Some(ChannelMethod::VouchCounts)
    } else if name == "list_vouches"@ {
        Some(ChannelMethod::ListVouches)
    } else if name == "reputation"@ {
        Some(ChannelMethod::Reputation)
    } else if name == "reputation_band"@ {
        Some(ChannelMethod::ReputationBand)
    } else if name == "marketplace_search"@ {
        Some(ChannelMethod::MarketplaceSearch)
    } else if name == "marketplace_listing"@ {
        Some(ChannelMethod::MarketplaceListing)
    } else if name == "submit_listing"@ {
        Some(ChannelMethod::SubmitListing)
    } else if name == "submit_listing_update"@ {
        Some(ChannelMethod::SubmitListingUpdate)
    } else if name == "submit_listing_close"@ {
        Some(ChannelMethod::SubmitListingClose)
    } else if name == "marketplace_my_listings"@ {
        Some(ChannelMethod::MarketplaceMyListings)
    } else if name == "submit_inquiry"@ {
        Some(ChannelMethod::SubmitInquiry)
    } else if name == "submit_inquiry_message"@ {
        Some(ChannelMethod::SubmitInquiryMessage)
    } else if name == "submit_inquiry_close"@ {
        Some(ChannelMethod::SubmitInquiryClose)
    } else if name == "inquiry_thread"@ {
        Some(ChannelMethod::InquiryThread)
    } else if name == "my_inquiries"@ {
        Some(ChannelMethod::MyInquiries)
    } else if name == "submit_contract"@ {
        Some(ChannelMethod::SubmitContract)
    } else if name == "submit_contract_termination"@ {
        Some(ChannelMethod::SubmitContractTermination)
    } else if name == "marketplace_contracts"@ {
        Some(ChannelMethod::MarketplaceContracts)
    } else if name == "marketplace_contract_show"@ {
        Some(ChannelMethod::MarketplaceContractShow)
    } else if name == "governance_submit_proposal"@ {
        Some(ChannelMethod::GovernanceSubmitProposal)
    } else if name == "governance_submit_cosign"@ {
        Some(ChannelMethod::GovernanceSubmitCosign)
    } else if name == "governance_submit_vote"@ {
        Some(ChannelMethod::GovernanceSubmitVote)
    } else if name == "governance_submit_charter_signature"@ {
        Some(ChannelMethod::GovernanceSubmitCharterSignature)
    } else if name == "bundle_submit"@ {
        Some(ChannelMethod::BundleSubmit)
    } else if name == "submit_dispute"@ {
        Some(ChannelMethod::SubmitDispute)
    } else if name == "submit_dispute_response"@ {
        Some(ChannelMethod::SubmitDisputeResponse)
    } else if name == "submit_verdict"@ {
        Some(ChannelMethod::SubmitVerdict)
    } else if name == "submit_escalation"@ {
        Some(ChannelMethod::SubmitEscalation)
    } else if name == "submit_escalation_ballot"@ {
        Some(ChannelMethod::SubmitEscalationBallot)
    } else {
        match method_named(name) {
            Some(m) => if shared_with_mobiles(m) {
                Some(ChannelMethod::Shared { method: m })
            } else {
                None
            },
            None => None,
        }
    }
}

fn is_shared(m: Method) -> (r: bool)
    ensures
        r == shared_with_mobiles(m),
{
    match m {
        Method::Whoami
        | Method::Balance
        | Method::Transactions
        | Method::NextNonce
        | Method::GovernanceCharter
        | Method::GovernancePendingCharter
        | Method::GovernanceProposals
        | Method::GovernanceProposal
        | Method::GovernanceStatutes
        | Method::Disputes
        | Method::Dispute => true,
        _ => false,
    }
}

/// The mobile channel's method that a request names; one that is not on the list is
/// refused by name.
pub fn route_channel_method(name: &str) -> (r: Result<ChannelMethod, RpcError>)
    ensures
        match r {
            Ok(m) => channel_method_named(name@) == Some(m),
            Err(e) => channel_method_named(name@) is None && e.says(
                ErrorCode::MethodNotFound,
                "method not available to mobiles: "@ + name@,
            ),
        },
{
    if same_text(name, "submit_proposal") {
        return Ok(ChannelMethod::SubmitProposal);
    } else if same_text(name, "submit_confirmation") {
        return Ok(ChannelMethod::SubmitConfirmation);
    } else if same_text(name, "submit_vouch") {
        return Ok(ChannelMethod::SubmitVouch);
    } else if same_text(name, "vouch_counts") {
        return Ok(ChannelMethod::VouchCounts);
    } else if same_text(name, "list_vouches") {
        return Ok(ChannelMethod::ListVouches);
    } else if same_text(name, "reputation") {
        return Ok(ChannelMethod::Reputation);
    } else if same_text(name, "reputation_band") {
        return Ok(ChannelMethod::ReputationBand);
    } else if same_text(name, "marketplace_search") {
        return Ok(ChannelMethod::MarketplaceSearch);
    } else if same_text(name, "marketplace_listing") {
        return Ok(ChannelMethod::MarketplaceListing);
    } else if same_text(name, "submit_listing") {
        return Ok(ChannelMethod::SubmitListing);
    } else if same_text(name, "submit_listing_update") {
        return Ok(ChannelMethod::SubmitListingUpdate);
    } else if same_text(name, "submit_listing_close") {
        return Ok(ChannelMethod::SubmitListingClose);
    } else if same_text(name, "marketplace_my_listings") {
        return Ok(ChannelMethod::MarketplaceMyListings);
    } else if same_text(name, "submit_inquiry") {
        return Ok(ChannelMethod::SubmitInquiry);
    } else if same_text(name, "submit_inquiry_message") {
        return Ok(ChannelMethod::SubmitInquiryMessage);
    } else if same_text(name, "submit_inquiry_close") {
        return Ok(ChannelMethod::SubmitInquiryClose);
    } else if same_text(name, "inquiry_thread") {
        return Ok(ChannelMethod::InquiryThread);
    } else if same_text(name, "my_inquiries") {
        return Ok(ChannelMethod::MyInquiries);
    } else if same_text(name, "submit_contract") {
        return Ok(ChannelMethod::SubmitContract);
    } else if same_text(name, "submit_contract_termination") {
        return Ok(ChannelMethod::SubmitContractTermination);
    } else if same_text(name, "marketplace_contracts") {
        return Ok(ChannelMethod::MarketplaceContracts);
    } else if same_text(name, "marketplace_contract_show") {
        return Ok(ChannelMethod::MarketplaceContractShow);
    } else if same_text(name, "governance_submit_proposal") {
        return Ok(ChannelMethod::GovernanceSubmitProposal);
    } else if same_text(name, "governance_submit_cosign") {
        return Ok(ChannelMethod::GovernanceSubmitCosign);
    } else if same_text(name, "governance_submit_vote") {
        return Ok(ChannelMethod::GovernanceSubmitVote);
    } else if same_text(name, "governance_submit_charter_signature") {
        return Ok(ChannelMethod::GovernanceSubmitCharterSignature);
    } else if same_text(name, "bundle_submit") {
        return Ok(ChannelMethod::BundleSubmit);
    } else if same_text(name, "submit_dispute") {
        return Ok(ChannelMethod::SubmitDispute);
    } else if same_text(name, "submit_dispute_response") {
        return Ok(ChannelMethod::SubmitDisputeResponse);
    } else if same_text(name, "submit_verdict") {
        return Ok(ChannelMethod::SubmitVerdict);
    } else if same_text(name, "submit_escalation") {
        return Ok(ChannelMethod::SubmitEscalation);
    } else if same_text(name, "submit_escalation_ballot") {
        return Ok(ChannelMethod::SubmitEscalationBallot);
    }
    match call_method(name) {
        Ok(m) => {
            if is_shared(m) {
                return Ok(ChannelMethod::Shared { method: m });
            }
        },
        Err(_) => {},
    }
    Err(
        RpcError {
            code: ErrorCode::MethodNotFound,
            message: join2("method not available to mobiles: ", name),
        },
    )
}

/// Each method answers to its own name.
#[verifier::rlimit(50)]
pub proof fn law_methods_answer_to_their_names(m: Method)
    ensures
        method_named(m.text()) == Some(m),
{
    reveal_strlit("whoami");
    reveal_strlit("balance");
    reveal_strlit("propose");
    reveal_strlit("confirm");
    reveal_strlit("history");
    reveal_strlit("transactions");
    reveal_strlit("next_nonce");
    reveal_strlit("vouch");
    reveal_strlit("backup_export");
    reveal_strlit("recover_import");
    reveal_strlit("marketplace_search");
    reveal_strlit("marketplace_listing");
    reveal_strlit("marketplace_create_listing");
    reveal_strlit("marketplace_edit_listing");
    reveal_strlit("marketplace_close_listing");
    reveal_strlit("marketplace_my_listings");
    reveal_strlit("marketplace_announce_need");
    reveal_strlit("marketplace_matches");
    reveal_strlit("marketplace_inquire");
    reveal_strlit("marketplace_inquiry_message");
    reveal_strlit("marketplace_inquiry_close");
    reveal_strlit("marketplace_inquiry_thread");
    reveal_strlit("marketplace_my_inquiries");
    reveal_strlit("marketplace_settle_inquiry");
    reveal_strlit("marketplace_contract");
    reveal_strlit("marketplace_contracts");
    reveal_strlit("marketplace_contract_show");
    reveal_strlit("marketplace_contract_terminate");
    reveal_strlit("governance_charter");
    reveal_strlit("governance_proposals");
    reveal_strlit("governance_proposal");
    reveal_strlit("governance_statutes");
    reveal_strlit("governance_init_charter");
    reveal_strlit("governance_charter_begin");
    reveal_strlit("governance_pending_charter");
    reveal_strlit("governance_add_charter_signature");
    reveal_strlit("governance_charter_sign");
    reveal_strlit("governance_propose");
    reveal_strlit("governance_cosign");
    reveal_strlit("governance_vote");
    reveal_strlit("disputes");
    reveal_strlit("dispute");
    reveal_strlit("dispute_raise");
    reveal_strlit("dispute_respond");
    reveal_strlit("dispute_rule");
    reveal_strlit("dispute_resolve");
    reveal_strlit("dispute_escalate");
    reveal_strlit("dispute_escalation_vote");
    reveal_strlit("pair_list_pending");
    reveal_strlit("pair_confirm");
    reveal_strlit("list_mobiles");
    reveal_strlit("unpair");
    reveal_strlit("bundle_submit");
    assert("whoami"@.len() == 6);
    assert("balance"@.len() == 7);
    assert("propose"@.len() == 7);
    assert("confirm"@.len() == 7);
    assert("history"@.len() == 7);
    assert("transactions"@.len() == 12);
    assert("next_nonce"@.len() == 10);
    assert("vouch"@.len() == 5);
    assert("backup_export"@.len() == 13);
    assert("recover_import"@.len() == 14);
    assert("marketplace_search"@.len() == 18);
    assert("marketplace_listing"@.len() == 19);
    assert("marketplace_create_listing"@.len() == 26);
    assert("marketplace_edit_listing"@.len() == 24);
    assert("marketplace_close_listing"@.len() == 25);
    assert("marketplace_my_listings"@.len() == 23);
    assert("marketplace_announce_need"@.len() == 25);
    assert("marketplace_matches"@.len() == 19);
    assert("marketplace_inquire"@.len() == 19);
    assert("marketplace_inquiry_message"@.len() == 27);
    assert("marketplace_inquiry_close"@.len() == 25);
    assert("marketplace_inquiry_thread"@.len() == 26);
    assert("marketplace_my_inquiries"@.len() == 24);
    assert("marketplace_settle_inquiry"@.len() == 26);
    assert("marketplace_contract"@.len() == 20);
    assert("marketplace_contracts"@.len() == 21);
    assert("marketplace_contract_show"@.len() == 25);
    assert("marketplace_contract_terminate"@.len() == 30);
    assert("governance_charter"@.len() == 18);
    assert("governance_proposals"@.len() == 20);
    assert("governance_proposal"@.len() == 19);
    assert("governance_statutes"@.len() == 19);
    assert("governance_init_charter"@.len() == 23);
    assert("governance_charter_begin"@.len() == 24);
    assert("governance_pending_charter"@.len() == 26);
    assert("governance_add_charter_signature"@.len() == 32);
    assert("governance_charter_sign"@.len() == 23);
    assert("governance_propose"@.len() == 18);
    assert("governance_cosign"@.len() == 17);
    assert("governance_vote"@.len() == 15);
    assert("disputes"@.len() == 8);
    assert("dispute"@.len() == 7);
    assert("dispute_raise"@.len() == 13);
    assert("dispute_respond"@.len() == 15);
    assert("dispute_rule"@.len() == 12);
    assert("dispute_resolve"@.len() == 15);
    assert("dispute_escalate"@.len() == 16);
    assert("dispute_escalation_vote"@.len() == 23);
    assert("pair_list_pending"@.len() == 17);
    assert("pair_confirm"@.len() == 12);
    assert("list_mobiles"@.len() == 12);
    assert("unpair"@.len() == 6);
    assert("bundle_submit"@.len() == 13);
    assert("propose"@[0] != "balance"@[0]);
    assert("confirm"@[0] != "balance"@[0]);
    assert("confirm"@[0] != "propose"@[0]);
    assert("history"@[0] != "balance"@[0]);
    assert("history"@[0] != "propose"@[0]);
    assert("history"@[0] != "confirm"@[0]);
    assert("marketplace_announce_need"@[12] != "marketplace_close_listing"@[12]);
    assert("marketplace_matches"@[12] != "marketplace_listing"@[12]);
    assert("marketplace_inquire"@[12] != "marketplace_listing"@[12]);
    assert("marketplace_inquire"@[12] != "marketplace_matches"@[12]);
    assert("marketplace_inquiry_close"@[12] != "marketplace_close_listing"@[12]);
    assert("marketplace_inquiry_close"@[12] != "marketplace_announce_need"@[12]);
    assert("marketplace_inquiry_thread"@[12] != "marketplace_create_listing"@[12]);
    assert("marketplace_my_inquiries"@[12] != "marketplace_edit_listing"@[12]);
    assert("marketplace_settle_inquiry"@[12] != "marketplace_create_listing"@[12]);
    assert("marketplace_settle_inquiry"@[12] != "marketplace_inquiry_thread"@[12]);
    assert("marketplace_contract_show"@[13] != "marketplace_close_listing"@[13]);
    assert("marketplace_contract_show"@[12] != "marketplace_announce_need"@[12]);
    assert("marketplace_contract_show"@[12] != "marketplace_inquiry_close"@[12]);
    assert("governance_charter"@[0] != "marketplace_search"@[0]);
    assert("governance_proposals"@[0] != "marketplace_contract"@[0]);
    assert("governance_proposal"@[0] != "marketplace_listing"@[0]);
    assert("governance_proposal"@[0] != "marketplace_matches"@[0]);
    assert("governance_proposal"@[0] != "marketplace_inquire"@[0]);
    assert("governance_statutes"@[0] != "marketplace_listing"@[0]);
    assert("governance_statutes"@[0] != "marketplace_matches"@[0]);
    assert("governance_statutes"@[0] != "marketplace_inquire"@[0]);
    assert("governance_statutes"@[11] != "governance_proposal"@[11]);
    assert("governance_init_charter"@[0] != "marketplace_my_listings"@[0]);
    assert("governance_charter_begin"@[0] != "marketplace_edit_listing"@[0]);
    assert("governance_charter_begin"@[0] != "marketplace_my_inquiries"@[0]);
    assert("governance_pending_charter"@[0] != "marketplace_create_listing"@[0]);
    assert("governance_pending_charter"@[0] != "marketplace_inquiry_thread"@[0]);
    assert("governance_pending_charter"@[0] != "marketplace_settle_inquiry"@[0]);
    assert("governance_charter_sign"@[0] != "marketplace_my_listings"@[0]);
    assert("governance_charter_sign"@[11] != "governance_init_charter"@[11]);
    assert("governance_propose"@[0] != "marketplace_search"@[0]);
    assert("governance_propose"@[11] != "governance_charter"@[11]);
    assert("dispute"@[0] != "balance"@[0]);
    assert("dispute"@[0] != "propose"@[0]);
    assert("dispute"@[0] != "confirm"@[0]);
    assert("dispute"@[0] != "history"@[0]);
    assert("dispute_raise"@[0] != "backup_export"@[0]);
    assert("dispute_respond"@[0] != "governance_vote"@[0]);
    assert("dispute_rule"@[0] != "transactions"@[0]);
    assert("dispute_resolve"@[0] != "governance_vote"@[0]);
    assert("dispute_resolve"@[11] != "dispute_respond"@[11]);
    assert("dispute_escalation_vote"@[0] != "marketplace_my_listings"@[0]);
    assert("dispute_escalation_vote"@[0] != "governance_init_charter"@[0]);
    assert("dispute_escalation_vote"@[0] != "governance_charter_sign"@[0]);
    assert("pair_list_pending"@[0] != "governance_cosign"@[0]);
    assert("pair_confirm"@[0] != "transactions"@[0]);
    assert("pair_confirm"@[0] != "dispute_rule"@[0]);
    assert("list_mobiles"@[0] != "transactions"@[0]);
    assert("list_mobiles"@[0] != "dispute_rule"@[0]);
    assert("list_mobiles"@[0] != "pair_confirm"@[0]);
    assert("unpair"@[0] != "whoami"@[0]);
    assert("bundle_submit"@[1] != "backup_export"@[1]);
    assert("bundle_submit"@[0] != "dispute_raise"@[0]);
}

/// The reads that mobiles share are reached by the operator's name for them.
#[verifier::rlimit(50)]
pub proof fn law_mobiles_share_these_reads(m: Method)
    requires
        shared_with_mobiles(m),
    ensures
        channel_method_named(m.text()) == Some(ChannelMethod::Shared { method: m }),
{
    law_methods_answer_to_their_names(m);
    reveal_strlit("whoami");
    reveal_strlit("balance");
    reveal_strlit("transactions");
    reveal_strlit("next_nonce");
    reveal_strlit("governance_charter");
    reveal_strlit("governance_pending_charter");
    reveal_strlit("governance_proposals");
    reveal_strlit("governance_proposal");
    reveal_strlit("governance_statutes");
    reveal_strlit("disputes");
    reveal_strlit("dispute");
    reveal_strlit("submit_proposal");
    reveal_strlit("submit_confirmation");
    reveal_strlit("submit_vouch");
    reveal_strlit("vouch_counts");
    reveal_strlit("list_vouches");
    reveal_strlit("reputation");
    reveal_strlit("reputation_band");
    reveal_strlit("marketplace_search");
    reveal_strlit("marketplace_listing");
    reveal_strlit("submit_listing");
    reveal_strlit("submit_listing_update");
    reveal_strlit("submit_listing_close");
    reveal_strlit("marketplace_my_listings");
    reveal_strlit("submit_inquiry");
    reveal_strlit("submit_inquiry_message");
    reveal_strlit("submit_inquiry_close");
    reveal_strlit("inquiry_thread");
    reveal_strlit("my_inquiries");
    reveal_strlit("submit_contract");
    reveal_strlit("submit_contract_termination");
    reveal_strlit("marketplace_contracts");
    reveal_strlit("marketplace_contract_show");
    reveal_strlit("governance_submit_proposal");
    reveal_strlit("governance_submit_cosign");
    reveal_strlit("governance_submit_vote");
    reveal_strlit("governance_submit_charter_signature");
    reveal_strlit("bundle_submit");
    reveal_strlit("submit_dispute");
    reveal_strlit("submit_dispute_response");
    reveal_strlit("submit_verdict");
    reveal_strlit("submit_escalation");
    reveal_strlit("submit_escalation_ballot");
    assert("whoami"@.len() == 6);
    assert("balance"@.len() == 7);
    assert("transactions"@.len() == 12);
    assert("next_nonce"@.len() == 10);
    assert("governance_charter"@.len() == 18);
    assert("governance_pending_charter"@.len() == 26);
    assert("governance_proposals"@.len() == 20);
    assert("governance_proposal"@.len() == 19);
    assert("governance_statutes"@.len() == 19);
    assert("disputes"@.len() == 8);
    assert("dispute"@.len() == 7);
    assert("submit_proposal"@.len() == 15);
    assert("submit_confirmation"@.len() == 19);
    assert("submit_vouch"@.len() == 12);
    assert("vouch_counts"@.len() == 12);
    assert("list_vouches"@.len() == 12);
    assert("reputation"@.len() == 10);
    assert("reputation_band"@.len() == 15);
    assert("marketplace_search"@.len() == 18);
    assert("marketplace_listing"@.len() == 19);
    assert("submit_listing"@.len() == 14);
    assert("submit_listing_update"@.len() == 21);
    assert("submit_listing_close"@.len() == 20);
    assert("marketplace_my_listings"@.len() == 23);
    assert("submit_inquiry"@.len() == 14);
    assert("submit_inquiry_message"@.len() == 22);
    assert("submit_inquiry_close"@.len() == 20);
    assert("inquiry_thread"@.len() == 14);
    assert("my_inquiries"@.len() == 12);
    assert("submit_contract"@.len() == 15);
    assert("submit_contract_termination"@.len() == 27);
    assert("marketplace_contracts"@.len() == 21);
    assert("marketplace_contract_show"@.len() == 25);
    assert("governance_submit_proposal"@.len() == 26);
    assert("governance_submit_cosign"@.len() == 24);
    assert("governance_submit_vote"@.len() == 22);
    assert("governance_submit_charter_signature"@.len() == 35);
    assert("bundle_submit"@.len() == 13);
    assert("submit_dispute"@.len() == 14);
    assert("submit_dispute_response"@.len() == 23);
    assert("submit_verdict"@.len() == 14);
    assert("submit_escalation"@.len() == 17);
    assert("submit_escalation_ballot"@.len() == 24);
    assert("governance_statutes"@[11] != "governance_proposal"@[11]);
    assert("dispute"@[0] != "balance"@[0]);
    assert("submit_confirmation"@[0] != "governance_proposal"@[0]);
    assert("submit_confirmation"@[0] != "governance_statutes"@[0]);
    assert("submit_vouch"@[0] != "transactions"@[0]);
    assert("vouch_counts"@[0] != "transactions"@[0]);
    assert("vouch_counts"@[0] != "submit_vouch"@[0]);
    assert("list_vouches"@[0] != "transactions"@[0]);
    assert("list_vouches"@[0] != "submit_vouch"@[0]);
    assert("list_vouches"@[0] != "vouch_counts"@[0]);
    assert("reputation"@[0] != "next_nonce"@[0]);
    assert("reputation_band"@[0] != "submit_proposal"@[0]);
    assert("marketplace_search"@[0] != "governance_charter"@[0]);
    assert("marketplace_listing"@[0] != "governance_proposal"@[0]);
    assert("marketplace_listing"@[0] != "governance_statutes"@[0]);
    assert("marketplace_listing"@[0] != "submit_confirmation"@[0]);
    assert("submit_listing_close"@[0] != "governance_proposals"@[0]);
    assert("submit_inquiry"@[7] != "submit_listing"@[7]);
    assert("submit_inquiry_close"@[0] != "governance_proposals"@[0]);
    assert("submit_inquiry_close"@[7] != "submit_listing_close"@[7]);
    assert("inquiry_thread"@[0] != "submit_listing"@[0]);
    assert("inquiry_thread"@[0] != "submit_inquiry"@[0]);
    assert("my_inquiries"@[0] != "transactions"@[0]);
    assert("my_inquiries"@[0] != "submit_vouch"@[0]);
    assert("my_inquiries"@[0] != "vouch_counts"@[0]);
    assert("my_inquiries"@[0] != "list_vouches"@[0]);
    assert("submit_contract"@[7] != "submit_proposal"@[7]);
    assert("submit_contract"@[0] != "reputation_band"@[0]);
    assert("marketplace_contracts"@[0] != "submit_listing_update"@[0]);
    assert("governance_submit_proposal"@[11] != "governance_pending_charter"@[11]);
    assert("governance_submit_vote"@[0] != "submit_inquiry_message"@[0]);
    assert("submit_dispute"@[7] != "submit_listing"@[7]);
    assert("submit_dispute"@[7] != "submit_inquiry"@[7]);
    assert("submit_dispute"@[0] != "inquiry_thread"@[0]);
    assert("submit_dispute_response"@[0] != "marketplace_my_listings"@[0]);
    assert("submit_verdict"@[7] != "submit_listing"@[7]);
    assert("submit_verdict"@[7] != "submit_inquiry"@[7]);
    assert("submit_verdict"@[0] != "inquiry_thread"@[0]);
    assert("submit_verdict"@[7] != "submit_dispute"@[7]);
    assert("submit_escalation_ballot"@[0] != "governance_submit_cosign"@[0]);
}

/// The methods that only the operator may call: they sign as the station, manage
/// pairings, export keys, or read as the operator.
pub open spec fn operator_only(m: Method) -> bool {
    match m {
        Method::Propose
        | Method::Confirm
        | Method::History
        | Method::Vouch
        | Method::BackupExport
        | Method::RecoverImport
        | Method::MarketplaceCreateListing
        | Method::MarketplaceEditListing
        | Method::MarketplaceCloseListing
        | Method::MarketplaceAnnounceNeed
        | Method::MarketplaceMatches
        | Method::MarketplaceInquire
        | Method::MarketplaceInquiryMessage
        | Method::MarketplaceInquiryClose
        | Method::MarketplaceInquiryThread
        | Method::MarketplaceMyInquiries
        | Method::MarketplaceSettleInquiry
        | Method::MarketplaceContract
        | Method::MarketplaceContractTerminate
        | Method::GovernanceInitCharter
        | Method::GovernanceCharterBegin
        | Method::GovernanceAddCharterSignature
        | Method::GovernanceCharterSign
        | Method::GovernancePropose
        | Method::GovernanceCosign
        | Method::GovernanceVote
        | Method::DisputeRaise
        | Method::DisputeRespond
        | Method::DisputeRule
        | Method::DisputeResolve
        | Method::DisputeEscalate
        | Method::DisputeEscalationVote
        | Method::PairListPending
        | Method::PairConfirm
        | Method::ListMobiles
        | Method::Unpair => true,
        _ => false,
    }
}

/// A mobile cannot reach what is the operator's alone.
#[verifier::rlimit(50)]
pub proof fn law_operator_methods_are_out_of_reach(m: Method)
    requires
        operator_only(m),
    ensures
        channel_method_named(m.text()) is None,
{
    law_methods_answer_to_their_names(m);
    reveal_strlit("propose");
    reveal_strlit("confirm");
    reveal_strlit("history");
    reveal_strlit("vouch");
    reveal_strlit("backup_export");
    reveal_strlit("recover_import");
    reveal_strlit("marketplace_create_listing");
    reveal_strlit("marketplace_edit_listing");
    reveal_strlit("marketplace_close_listing");
    reveal_strlit("marketplace_announce_need");
    reveal_strlit("marketplace_matches");
    reveal_strlit("marketplace_inquire");
    reveal_strlit("marketplace_inquiry_message");
    reveal_strlit("marketplace_inquiry_close");
    reveal_strlit("marketplace_inquiry_thread");
    reveal_strlit("marketplace_my_inquiries");
    reveal_strlit("marketplace_settle_inquiry");
    reveal_strlit("marketplace_contract");
    reveal_strlit("marketplace_contract_terminate");
    reveal_strlit("governance_init_charter");
    reveal_strlit("governance_charter_begin");
    reveal_strlit("governance_add_charter_signature");
    reveal_strlit("governance_charter_sign");
    reveal_strlit("governance_propose");
    reveal_strlit("governance_cosign");
    reveal_strlit("governance_vote");
    reveal_strlit("dispute_raise");
    reveal_strlit("dispute_respond");
    reveal_strlit("dispute_rule");
    reveal_strlit("dispute_resolve");
    reveal_strlit("dispute_escalate");
    reveal_strlit("dispute_escalation_vote");
    reveal_strlit("pair_list_pending");
    reveal_strlit("pair_confirm");
    reveal_strlit("list_mobiles");
    reveal_strlit("unpair");
    reveal_strlit("submit_proposal");
    reveal_strlit("submit_confirmation");
    reveal_strlit("submit_vouch");
    reveal_strlit("vouch_counts");
    reveal_strlit("list_vouches");
    reveal_strlit("reputation");
    reveal_strlit("reputation_band");
    reveal_strlit("marketplace_search");
    reveal_strlit("marketplace_listing");
    reveal_strlit("submit_listing");
    reveal_strlit("submit_listing_update");
    reveal_strlit("submit_listing_close");
    reveal_strlit("marketplace_my_listings");
    reveal_strlit("submit_inquiry");
    reveal_strlit("submit_inquiry_message");
    reveal_strlit("submit_inquiry_close");
    reveal_strlit("inquiry_thread");
    reveal_strlit("my_inquiries");
    reveal_strlit("submit_contract");
    reveal_strlit("submit_contract_termination");
    reveal_strlit("marketplace_contracts");
    reveal_strlit("marketplace_contract_show");
    reveal_strlit("governance_submit_proposal");
    reveal_strlit("governance_submit_cosign");
    reveal_strlit("governance_submit_vote");
    reveal_strlit("governance_submit_charter_signature");
    reveal_strlit("bundle_submit");
    reveal_strlit("submit_dispute");
    reveal_strlit("submit_dispute_response");
    reveal_strlit("submit_verdict");
    reveal_strlit("submit_escalation");
    reveal_strlit("submit_escalation_ballot");
    assert("propose"@.len() == 7);
    assert("confirm"@.len() == 7);
    assert("history"@.len() == 7);
    assert("vouch"@.len() == 5);
    assert("backup_export"@.len() == 13);
    assert("recover_import"@.len() == 14);
    assert("marketplace_create_listing"@.len() == 26);
    assert("marketplace_edit_listing"@.len() == 24);
    assert("marketplace_close_listing"@.len() == 25);
    assert("marketplace_announce_need"@.len() == 25);
    assert("marketplace_matches"@.len() == 19);
    assert("marketplace_inquire"@.len() == 19);
    assert("marketplace_inquiry_message"@.len() == 27);
    assert("marketplace_inquiry_close"@.len() == 25);
    assert("marketplace_inquiry_thread"@.len() == 26);
    assert("marketplace_my_inquiries"@.len() == 24);
    assert("marketplace_settle_inquiry"@.len() == 26);
    assert("marketplace_contract"@.len() == 20);
    assert("marketplace_contract_terminate"@.len() == 30);
    assert("governance_init_charter"@.len() == 23);
    assert("governance_charter_begin"@.len() == 24);
    assert("governance_add_charter_signature"@.len() == 32);
    assert("governance_charter_sign"@.len() == 23);
    assert("governance_propose"@.len() == 18);
    assert("governance_cosign"@.len() == 17);
    assert("governance_vote"@.len() == 15);
    assert("dispute_raise"@.len() == 13);
    assert("dispute_respond"@.len() == 15);
    assert("dispute_rule"@.len() == 12);
    assert("dispute_resolve"@.len() == 15);
    assert("dispute_escalate"@.len() == 16);
    assert("dispute_escalation_vote"@.len() == 23);
    assert("pair_list_pending"@.len() == 17);
    assert("pair_confirm"@.len() == 12);
    assert("list_mobiles"@.len() == 12);
    assert("unpair"@.len() == 6);
    assert("submit_proposal"@.len() == 15);
    assert("submit_confirmation"@.len() == 19);
    assert("submit_vouch"@.len() == 12);
    assert("vouch_counts"@.len() == 12);
    assert("list_vouches"@.len() == 12);
    assert("reputation"@.len() == 10);
    assert("reputation_band"@.len() == 15);
    assert("marketplace_search"@.len() == 18);
    assert("marketplace_listing"@.len() == 19);
    assert("submit_listing"@.len() == 14);
    assert("submit_listing_update"@.len() == 21);
    assert("submit_listing_close"@.len() == 20);
    assert("marketplace_my_listings"@.len() == 23);
    assert("submit_inquiry"@.len() == 14);
    assert("submit_inquiry_message"@.len() == 22);
    assert("submit_inquiry_close"@.len() == 20);
    assert("inquiry_thread"@.len() == 14);
    assert("my_inquiries"@.len() == 12);
    assert("submit_contract"@.len() == 15);
    assert("submit_contract_termination"@.len() == 27);
    assert("marketplace_contracts"@.len() == 21);
    assert("marketplace_contract_show"@.len() == 25);
    assert("governance_submit_proposal"@.len() == 26);
    assert("governance_submit_cosign"@.len() == 24);
    assert("governance_submit_vote"@.len() == 22);
    assert("governance_submit_charter_signature"@.len() == 35);
    assert("bundle_submit"@.len() == 13);
    assert("submit_dispute"@.len() == 14);
    assert("submit_dispute_response"@.len() == 23);
    assert("submit_verdict"@.len() == 14);
    assert("submit_escalation"@.len() == 17);
    assert("submit_escalation_ballot"@.len() == 24);
    assert("backup_export"@[1] != "bundle_submit"@[1]);
    assert("recover_import"@[0] != "submit_listing"@[0]);
    assert("recover_import"@[0] != "submit_inquiry"@[0]);
    assert("recover_import"@[0] != "inquiry_thread"@[0]);
    assert("recover_import"@[0] != "submit_dispute"@[0]);
    assert("recover_import"@[0] != "submit_verdict"@[0]);
    assert("marketplace_create_listing"@[0] != "governance_submit_proposal"@[0]);
    assert("marketplace_edit_listing"@[0] != "governance_submit_cosign"@[0]);
    assert("marketplace_edit_listing"@[0] != "submit_escalation_ballot"@[0]);
    assert("marketplace_close_listing"@[13] != "marketplace_contract_show"@[13]);
    assert("marketplace_announce_need"@[12] != "marketplace_contract_show"@[12]);
    assert("marketplace_matches"@[0] != "submit_confirmation"@[0]);
    assert("marketplace_matches"@[12] != "marketplace_listing"@[12]);
    assert("marketplace_inquire"@[0] != "submit_confirmation"@[0]);
    assert("marketplace_inquire"@[12] != "marketplace_listing"@[12]);
    assert("marketplace_inquiry_message"@[0] != "submit_contract_termination"@[0]);
    assert("marketplace_inquiry_close"@[12] != "marketplace_contract_show"@[12]);
    assert("marketplace_inquiry_thread"@[0] != "governance_submit_proposal"@[0]);
    assert("marketplace_my_inquiries"@[0] != "governance_submit_cosign"@[0]);
    assert("marketplace_my_inquiries"@[0] != "submit_escalation_ballot"@[0]);
    assert("marketplace_settle_inquiry"@[0] != "governance_submit_proposal"@[0]);
    assert("marketplace_contract"@[0] != "submit_listing_close"@[0]);
    assert("marketplace_contract"@[0] != "submit_inquiry_close"@[0]);
    assert("governance_init_charter"@[0] != "marketplace_my_listings"@[0]);
    assert("governance_init_charter"@[0] != "submit_dispute_response"@[0]);
    assert("governance_charter_begin"@[11] != "governance_submit_cosign"@[11]);
    assert("governance_charter_begin"@[0] != "submit_escalation_ballot"@[0]);
    assert("governance_charter_sign"@[0] != "marketplace_my_listings"@[0]);
    assert("governance_charter_sign"@[0] != "submit_dispute_response"@[0]);
    assert("governance_propose"@[0] != "marketplace_search"@[0]);
    assert("governance_cosign"@[0] != "submit_escalation"@[0]);
    assert("governance_vote"@[0] != "submit_proposal"@[0]);
    assert("governance_vote"@[0] != "reputation_band"@[0]);
    assert("governance_vote"@[0] != "submit_contract"@[0]);
    assert("dispute_raise"@[0] != "bundle_submit"@[0]);
    assert("dispute_respond"@[0] != "submit_proposal"@[0]);
    assert("dispute_respond"@[0] != "reputation_band"@[0]);
    assert("dispute_respond"@[0] != "submit_contract"@[0]);
    assert("dispute_rule"@[0] != "submit_vouch"@[0]);
    assert("dispute_rule"@[0] != "vouch_counts"@[0]);
    assert("dispute_rule"@[0] != "list_vouches"@[0]);
    assert("dispute_rule"@[0] != "my_inquiries"@[0]);
    assert("dispute_resolve"@[0] != "submit_proposal"@[0]);
    assert("dispute_resolve"@[0] != "reputation_band"@[0]);
    assert("dispute_resolve"@[0] != "submit_contract"@[0]);
    assert("dispute_escalation_vote"@[0] != "marketplace_my_listings"@[0]);
    assert("dispute_escalation_vote"@[0] != "submit_dispute_response"@[0]);
    assert("pair_list_pending"@[0] != "submit_escalation"@[0]);
    assert("pair_confirm"@[0] != "submit_vouch"@[0]);
    assert("pair_confirm"@[0] != "vouch_counts"@[0]);
    assert("pair_confirm"@[0] != "list_vouches"@[0]);
    assert("pair_confirm"@[0] != "my_inquiries"@[0]);
    assert("list_mobiles"@[0] != "submit_vouch"@[0]);
    assert("list_mobiles"@[0] != "vouch_counts"@[0]);
    assert("list_mobiles"@[5] != "list_vouches"@[5]);
    assert("list_mobiles"@[0] != "my_inquiries"@[0]);
}

} // verus!
