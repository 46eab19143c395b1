//! RPC errors: a machine-readable code and a message.

use vstd::prelude::*;
use vstd::string::*;

use crate::text::join2;

verus! {

/// Whose fault a failed call is.
#[derive(Clone, Copy, Debug, PartialEq, Eq, Structural)]
pub enum ErrorCode {
    /// No such method.
    MethodNotFound,
    /// The caller's mistake.
    InvalidParams,
    /// The station's own failure.
    InternalError,
}

/// A failed call.
#[derive(Clone, Debug, PartialEq, Eq)]
pub struct RpcError {
    /// Whose fault it is.
    pub code: ErrorCode,
    /// What went wrong.
    pub message: String,
}

impl RpcError {
    /// An error with this code and this message.
    pub open spec fn says(&self, code: ErrorCode, message: Seq<char>) -> bool {
        &&& self.code == code
        &&& self.message@ == message
    }

    /// A caller's mistake with this message.
    pub open spec fn is_invalid(&self, message: Seq<char>) -> bool {
        self.says(ErrorCode::InvalidParams, message)
    }

    /// A failure of the station's with this message.
    pub open spec fn is_internal(&self, message: Seq<char>) -> bool {
        self.says(ErrorCode::InternalError, message)
    }
}

/// A caller's mistake.
pub fn invalid_params(message: &str) -> (r: RpcError)
    ensures
        r.is_invalid(message@),
{
    RpcError { code: ErrorCode::InvalidParams, message: String::from_str(message) }
}

/// A failure of the station's own.
pub fn internal(message: &str) -> (r: RpcError)
    ensures
        r.is_internal(message@),
{
    RpcError { code: ErrorCode::InternalError, message: String::from_str(message) }
}

/// The `(code, message)` form of an error, which a response envelope carries.
pub fn error_pair(e: RpcError) -> (r: (ErrorCode, String))
    ensures
        r == (e.code, e.message),
{
    (e.code, e.message)
}

/// Why the ledger refused a record or failed on it.
#[derive(Clone, Copy, Debug, PartialEq, Eq, Structural)]
pub enum LedgerErrorKind {
    /// A signature did not verify.
    BadSignature,
    /// A proposal signed by someone other than its sender.
    SenderMismatch,
    /// A confirmation signed by someone other than its confirmer.
    ConfirmerMismatch,
    /// The proposal is on the log already.
    DuplicateProposal,
    /// The nonce is not the sender's next.
    BadNonce,
    /// The proposal's time is over.
    Expired,
    /// The oracle tier is not supported.
    TierNotSupported,
    /// The sender would fall below the debt floor.
    DebtFloorExceeded,
    /// No such transaction.
    UnknownTransaction,
    /// The transaction is not in the state the record needs.
    NotProposed,
    /// The log could not be read or written.
    Storage,
    /// The ledger's own state is inconsistent.
    Invalid,
    /// Any other refusal.
    Other,
}

/// A ledger error: its kind and its text.
#[derive(Clone, Debug, PartialEq, Eq)]
pub struct LedgerError {
    /// The kind.
    pub kind: LedgerErrorKind,
    /// The text.
    pub message: String,
}

/// Whether a ledger error is the station's own failure.
pub open spec fn ledger_fault(kind: LedgerErrorKind) -> bool {
    kind == LedgerErrorKind::Storage || kind == LedgerErrorKind::Invalid
}

/// Maps a ledger error to an RPC error, distinguishing caller mistakes from
/// internal failures.
pub fn ledger_err(e: LedgerError) -> (r: RpcError)
    ensures
        r.message == e.message,
        r.code == if ledger_fault(e.kind) {
            ErrorCode::InternalError
        } else {
            ErrorCode::InvalidParams
        },
{
    let code = match e.kind {
        LedgerErrorKind::Storage | LedgerErrorKind::Invalid => ErrorCode::InternalError,
        _ => ErrorCode::InvalidParams,
    };
    RpcError { code, message: e.message }
}

/// Why the marketplace refused a record or failed on it.
#[derive(Clone, Copy, Debug, PartialEq, Eq, Structural)]
pub enum MarketplaceErrorKind {
    /// The log could not be read or written.
    Storage,
    /// The search engine failed.
    SearchEngine,
    /// The listing index failed.
    Index,
    /// A listing rule was broken.
    Listing,
    /// A lifecycle rule was broken.
    Lifecycle,
    /// A need rule was broken.
    Need,
    /// An inquiry rule was broken.
    Inquiry,
    /// A contract rule was broken.
    Contract,
}

/// Whether a marketplace error is the station's own failure.
pub open spec fn marketplace_fault(kind: MarketplaceErrorKind) -> bool {
    kind == MarketplaceErrorKind::Storage || kind == MarketplaceErrorKind::SearchEngine || kind
        == MarketplaceErrorKind::Index
}

/// Maps a marketplace error to an RPC error: a rule the caller's own request broke
/// is their mistake to fix; only storage and index trouble is the station's.
pub fn marketplace_err(kind: MarketplaceErrorKind, message: String) -> (r: RpcError)
    ensures
        r.message == message,
        r.code == if marketplace_fault(kind) {
            ErrorCode::InternalError
        } else {
            ErrorCode::InvalidParams
        },
{
    let code = match kind {
        MarketplaceErrorKind::Storage
        | MarketplaceErrorKind::SearchEngine
        | MarketplaceErrorKind::Index => ErrorCode::InternalError,
        _ => ErrorCode::InvalidParams,
    };
    RpcError { code, message }
}

/// Why the dispute layer refused a record or failed on it.
#[derive(Clone, Debug, PartialEq, Eq)]
pub enum DisputeError {
    /// The log could not be read or written.
    Storage(String),
    /// Standing could not be computed.
    Reputation(String),
    /// A disputed transaction lacks its admission.
    MissingAdmission(String),
    /// The ledger refused or failed.
    Ledger(LedgerError),
    /// The caller broke a rule: an unseated juror, a second verdict, a transaction
    /// that is not disputed, an escalation that is not open.
    Refused(String),
}

/// Maps a dispute-layer error to an RPC error. A nested ledger error keeps its own
/// split between caller mistakes and failures.
pub fn dispute_err(e: DisputeError) -> (r: RpcError)
    ensures
        match e {
            DisputeError::Storage(m)
            | DisputeError::Reputation(m)
            | DisputeError::MissingAdmission(m) => r.is_internal(m@),
            DisputeError::Ledger(l) => r.message == l.message && r.code == if ledger_fault(l.kind) {
                ErrorCode::InternalError
            } else {
                ErrorCode::InvalidParams
            },
            DisputeError::Refused(m) => r.is_invalid(m@),
        },
{
    match e {
        DisputeError::Storage(message) => RpcError { code: ErrorCode::InternalError, message },
        DisputeError::Reputation(message) => RpcError { code: ErrorCode::InternalError, message },
        DisputeError::MissingAdmission(message) => RpcError {
            code: ErrorCode::InternalError,
            message,
        },
        DisputeError::Ledger(l) => ledger_err(l),
        DisputeError::Refused(message) => RpcError { code: ErrorCode::InvalidParams, message },
    }
}

/// Why an ingest could not produce a receipt at all. A malformed bundle is the
/// caller's fault; a storage fault is the station's.
#[derive(Clone, Debug, PartialEq, Eq)]
pub enum BundleIngestError {
    /// The bundle bytes did not decode.
    Malformed(String),
    /// A storage failure occurred mid-ingest; no trustworthy receipt is possible.
    Internal(String),
}

impl BundleIngestError {
    /// Maps to the RPC error form.
    pub fn rpc_error(self) -> (r: RpcError)
        ensures
            match self {
                BundleIngestError::Malformed(m) => r.is_invalid("malformed bundle: "@ + m@),
                BundleIngestError::Internal(m) => r.is_internal(m@),
            },
    {
        match self {
            BundleIngestError::Malformed(m) => RpcError {
                code: ErrorCode::InvalidParams,
                message: join2("malformed bundle: ", m.as_str()),
            },
            BundleIngestError::Internal(message) => RpcError {
                code: ErrorCode::InternalError,
                message,
            },
        }
    }

    /// Maps to the `(code, message)` error form.
    pub fn pair_error(self) -> (r: (ErrorCode, String))
        ensures
            match self {
                BundleIngestError::Malformed(m) => r.0 == ErrorCode::InvalidParams && r.1@
                    == "malformed bundle: "@ + m@,
                BundleIngestError::Internal(m) => r.0 == ErrorCode::InternalError && r.1@ == m@,
            },
    {
        error_pair(self.rpc_error())
    }
}

/// A failure is the station's own exactly where its log, its index or its own state is at
/// fault; every rule that a request broke is the caller's to mend. The words are passed on.
pub proof fn law_faults_are_told_from_mistakes(
    e: LedgerError,
    ledger: RpcError,
    kind: MarketplaceErrorKind,
    message: String,
    market: RpcError,
)
    requires
        call_ensures(ledger_err, (e,), ledger),
        call_ensures(marketplace_err, (kind, message), market),
    ensures
        ledger.message@ == e.message@,
        ledger.code == ErrorCode::InternalError <==> e.kind == LedgerErrorKind::Storage || e.kind
            == LedgerErrorKind::Invalid,
        ledger.code == ErrorCode::InternalError || ledger.code == ErrorCode::InvalidParams,
        market.message@ == message@,
        market.code == ErrorCode::InternalError <==> kind == MarketplaceErrorKind::Storage || kind
            == MarketplaceErrorKind::SearchEngine || kind == MarketplaceErrorKind::Index,
        market.code == ErrorCode::InternalError || market.code == ErrorCode::InvalidParams,
{
}

} // verus!
