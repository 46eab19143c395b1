//! Reading what a caller sent: fields of JSON parameters, ids and keys in hex, and the
//! words that choose between a few options.

use vstd::prelude::*;
use vstd::string::*;

use crate::gossip::{to_id, to_signature};
use crate::rpc::{invalid_params, ErrorCode, RpcError};
use crate::tables::Id;
use crate::text::{
    chars_of, debug_of, debug_text, decimal, decimal_u64, hex_bytes, hex_text, is_hex, join2,
    join3, law_unhex_inverts_hex, same_text, trimmed, trimmed_text, unhex,
};

verus! {

/// The text under a field of a JSON object: the parser's words where the text is not
/// JSON, and nothing where it has no text under the field.
pub uninterp spec fn json_text(params: Seq<char>, field: Seq<char>) -> Result<
    Option<Seq<char>>,
    Seq<char>,
>;

/// The unsigned number under a field of a JSON object: the parser's words where the
/// text is not JSON, and nothing where it has no such number under the field.
pub uninterp spec fn json_u64(params: Seq<char>, field: Seq<char>) -> Result<
    Option<u64>,
    Seq<char>,
>;

/// Calls `serde_json::from_str` for a `serde_json::Value`, then `Value::get` and
/// `Value::as_str`. The result is a function of the two texts: the parser's error as
/// text, or the string under the field where there is one.
#[verifier::external_body]
pub(crate) fn json_text_field(params: &str, field: &str) -> (r: Result<Option<String>, String>)
    ensures
        match r {
            Ok(Some(s)) => json_text(params@, field@) == Ok::<_, Seq<char>>(Some(s@)),
            Ok(None) => json_text(params@, field@) == Ok::<Option<Seq<char>>, Seq<char>>(None),
            Err(e) => json_text(params@, field@) == Err::<Option<Seq<char>>, _>(e@),
        },
{
    match serde_json::from_str::<serde_json::Value>(params) {
        Ok(v) => Ok(v.get(field).and_then(|x| x.as_str()).map(|s| s.to_string())),
        Err(e) => Err(e.to_string()),
    }
}

/// Calls `serde_json::from_str` for a `serde_json::Value`, then `Value::get` and
/// `Value::as_u64`. The result is a function of the two texts: the parser's error as
/// text, or the unsigned number under the field where there is one.
#[verifier::external_body]
pub(crate) fn json_u64_field(params: &str, field: &str) -> (r: Result<Option<u64>, String>)
    ensures
        match r {
            Ok(n) => json_u64(params@, field@) == Ok::<_, Seq<char>>(n),
            Err(e) => json_u64(params@, field@) == Err::<Option<u64>, _>(e@),
        },
{
    match serde_json::from_str::<serde_json::Value>(params) {
        Ok(v) => Ok(v.get(field).and_then(|x| x.as_u64())),
        Err(e) => Err(e.to_string()),
    }
}

/// What a hex field of JSON parameters amounts to, given what is under the field.
pub open spec fn hex_field_ok(found: Result<Option<Seq<char>>, Seq<char>>) -> bool {
    found matches Ok(Some(s)) && is_hex(s)
}

/// Why a hex field of JSON parameters is refused.
pub open spec fn hex_field_error(
    found: Result<Option<Seq<char>>, Seq<char>>,
    field: Seq<char>,
) -> Seq<char> {
    match found {
        Err(e) => "params not valid JSON: "@ + e,
        Ok(None) => "missing string field: "@ + field,
        Ok(Some(_)) => field + " is not hex"@,
    }
}

/// The bytes of a hex field, given what was found under it.
pub fn hex_field(found: Result<Option<String>, String>, field: &str) -> (r: Result<
    Vec<u8>,
    RpcError,
>)
    ensures
        ({
            let f = match found {
                Ok(Some(s)) => Ok(Some(s@)),
                Ok(None) => Ok(None),
                Err(e) => Err(e@),
            };
            match r {
                Ok(b) => hex_field_ok(f) && b@ == hex_bytes(f->Ok_0->0),
                Err(e) => !hex_field_ok(f) && e.is_invalid(hex_field_error(f, field@)),
            }
        }),
{
    match found {
        Err(e) => Err(
            RpcError {
                code: ErrorCode::InvalidParams,
                message: join2("params not valid JSON: ", e.as_str()),
            },
        ),
        Ok(None) => Err(
            RpcError {
                code: ErrorCode::InvalidParams,
                message: join2("missing string field: ", field),
            },
        ),
        Ok(Some(s)) => match unhex(s.as_str()) {
            Some(bytes) => Ok(bytes),
            None => Err(
                RpcError { code: ErrorCode::InvalidParams, message: join2(field, " is not hex") },
            ),
        },
    }
}

/// Pulls a hex-string field out of a JSON object and decodes it to bytes, for the
/// handlers that carry a signed record.
pub fn hex_param(params: &str, field: &str) -> (r: Result<Vec<u8>, RpcError>)
    ensures
        match r {
            Ok(b) => hex_field_ok(json_text(params@, field@)) && b@ == hex_bytes(
                json_text(params@, field@)->Ok_0->0,
            ),
            Err(e) => !hex_field_ok(json_text(params@, field@)) && e.is_invalid(
                hex_field_error(json_text(params@, field@), field@),
            ),
        },
{
    hex_field(json_text_field(params, field), field)
}

/// The cursor that a field stands for: the start where it is missing or malformed.
pub open spec fn cursor_of(found: Result<Option<u64>, Seq<char>>) -> u64 {
    match found {
        Ok(Some(n)) => n,
        _ => 0,
    }
}

/// The cursor that was found.
pub fn cursor(found: Result<Option<u64>, String>) -> (r: u64)
    ensures
        r == match found {
            Ok(Some(n)) => n,
            _ => 0,
        },
{
    match found {
        Ok(Some(n)) => n,
        _ => 0,
    }
}

/// Reads the cursor of a subscriber. A missing or malformed one means "from the
/// start", so a fresh subscriber sees everything.
pub fn parse_subscribe_cursor(params: &str) -> (r: u64)
    ensures
        r == cursor_of(json_u64(params@, "last_seen_event_id"@)),
{
    cursor(json_u64_field(params, "last_seen_event_id"))
}

/// Whether optional parameters were left out: nothing but blanks was sent.
pub fn left_out(params: &str) -> (r: bool)
    ensures
        r == (trimmed_text(params@).len() == 0),
{
    let t = trimmed(params);
    let cs = chars_of(t.as_str());
    cs.len() == 0
}

/// The window of a list that a caller asked for: how many at most, and how many to
/// skip.
#[derive(Clone, Copy, Debug, PartialEq, Eq, Structural)]
pub struct Window {
    /// At most this many.
    pub limit: Option<u64>,
    /// Behind this many.
    pub offset: u64,
}

/// The window that two fields stand for.
pub fn window(limit: Result<Option<u64>, String>, offset: Result<Option<u64>, String>) -> (r: Result<
    Window,
    RpcError,
>)
    ensures
        match r {
            Ok(w) => limit is Ok && offset is Ok && w.limit == limit->Ok_0 && w.offset
                == match offset->Ok_0 {
                Some(n) => n,
                None => 0,
            },
            Err(e) => match limit {
                Err(m) => e.is_invalid("params not valid JSON: "@ + m@),
                Ok(_) => offset matches Err(m) && e.is_invalid("params not valid JSON: "@ + m@),
            },
        },
{
    match (limit, offset) {
        (Err(e), _) => Err(
            RpcError {
                code: ErrorCode::InvalidParams,
                message: join2("params not valid JSON: ", e.as_str()),
            },
        ),
        (Ok(_), Err(e)) => Err(
            RpcError {
                code: ErrorCode::InvalidParams,
                message: join2("params not valid JSON: ", e.as_str()),
            },
        ),
        (Ok(limit), Ok(offset)) => Ok(
            Window {
                limit,
                offset: match offset {
                    Some(n) => n,
                    None => 0,
                },
            },
        ),
    }
}

/// Reads the window of a list from optional parameters: everything where they were
/// left out.
pub fn parse_window(params: &str) -> (r: Result<Window, RpcError>)
    ensures
        trimmed_text(params@).len() == 0 ==> r == Ok::<Window, RpcError>(
            Window { limit: None, offset: 0 },
        ),
        trimmed_text(params@).len() != 0 ==> match r {
            Ok(w) => json_u64(params@, "limit"@) == Ok::<_, Seq<char>>(w.limit) && json_u64(
                params@,
                "offset"@,
            ) is Ok && w.offset == cursor_of(json_u64(params@, "offset"@)),
            Err(e) => match json_u64(params@, "limit"@) {
                Err(m) => e.is_invalid("params not valid JSON: "@ + m),
                Ok(_) => json_u64(params@, "offset"@) matches Err(m) && e.is_invalid(
                    "params not valid JSON: "@ + m,
                ),
            },
        },
{
    if left_out(params) {
        return Ok(Window { limit: None, offset: 0 });
    }
    window(json_u64_field(params, "limit"), json_u64_field(params, "offset"))
}

/// What parsing an id from hex gives: the bytes, or one of two refusals.
pub open spec fn id_parsed(
    r: Result<Id, RpcError>,
    s: Seq<char>,
    not_hex: Seq<char>,
    not_sized: Seq<char>,
) -> bool {
    match r {
        Ok(id) => is_hex(s) && id@ == hex_bytes(s),
        Err(e) => if is_hex(s) {
            hex_bytes(s).len() != 32 && e.is_invalid(not_sized)
        } else {
            e.is_invalid(not_hex)
        },
    }
}

fn parse_id(s: &str, not_hex: &str, not_sized: &str) -> (r: Result<Id, RpcError>)
    ensures
        id_parsed(r, s@, not_hex@, not_sized@),
{
    match unhex(s) {
        Some(bytes) => match to_id(bytes.as_slice()) {
            Some(id) => Ok(id),
            None => Err(invalid_params(not_sized)),
        },
        None => Err(invalid_params(not_hex)),
    }
}

/// Parses a transaction id.
pub fn parse_tx_id(s: &str) -> (r: Result<Id, RpcError>)
    ensures
        id_parsed(r, s@, "invalid tx id "@ + debug_text(s@), "tx id must be 32 bytes"@),
{
    let shown = debug_of(s);
    let not_hex = join2("invalid tx id ", shown.as_str());
    parse_id(s, not_hex.as_str(), "tx id must be 32 bytes")
}

/// Parses a governance proposal's id.
pub fn parse_proposal_id(s: &str) -> (r: Result<Id, RpcError>)
    ensures
        id_parsed(r, s@, "invalid proposal id "@ + debug_text(s@), "proposal id must be 32 bytes"@),
{
    let shown = debug_of(s);
    let not_hex = join2("invalid proposal id ", shown.as_str());
    parse_id(s, not_hex.as_str(), "proposal id must be 32 bytes")
}

/// Parses a listing's id.
pub fn parse_listing_id(s: &str) -> (r: Result<Id, RpcError>)
    ensures
        id_parsed(r, s@, "listing_id is not hex"@, "listing_id is not 32 bytes"@),
{
    parse_id(s, "listing_id is not hex", "listing_id is not 32 bytes")
}

/// Parses an inquiry's id.
pub fn parse_inquiry_id(s: &str) -> (r: Result<Id, RpcError>)
    ensures
        id_parsed(r, s@, "inquiry_id is not hex"@, "inquiry_id is not 32 bytes"@),
{
    parse_id(s, "inquiry_id is not hex", "inquiry_id is not 32 bytes")
}

/// Parses a contract's id.
pub fn parse_contract_id(s: &str) -> (r: Result<Id, RpcError>)
    ensures
        id_parsed(r, s@, "contract_id is not hex"@, "contract_id is not 32 bytes"@),
{
    parse_id(s, "contract_id is not hex", "contract_id is not 32 bytes")
}

/// Parses a founder's secret key.
pub fn parse_secret_keypair(hex_secret: &str) -> (r: Result<Id, RpcError>)
    ensures
        id_parsed(
            r,
            hex_secret@,
            "founder key is not valid hex"@,
            "founder key must be 32 bytes"@,
        ),
{
    parse_id(hex_secret, "founder key is not valid hex", "founder key must be 32 bytes")
}

/// Parses a hex-encoded 32-byte public key; blanks around it are let pass. Whether the
/// bytes are a key is for the signature scheme to say: see [`require_key`].
pub fn parse_pubkey_hex(s: &str) -> (r: Result<Id, RpcError>)
    ensures
        id_parsed(
            r,
            trimmed_text(s@),
            "signer key is not valid hex"@,
            "signer key must be 32 bytes"@,
        ),
{
    let t = trimmed(s);
    parse_id(t.as_str(), "signer key is not valid hex", "signer key must be 32 bytes")
}

/// Lets only bytes pass that are a public key. `valid` says whether they are one.
pub fn require_key(key: Id, valid: bool) -> (r: Result<Id, RpcError>)
    ensures
        match r {
            Ok(k) => valid && k == key,
            Err(e) => !valid && e.is_invalid("signer key is not a valid public key"@),
        },
{
    if valid {
        Ok(key)
    } else {
        Err(invalid_params("signer key is not a valid public key"))
    }
}

/// Lets only bytes pass that are a signature. `valid` says whether they have the form of
/// one.
pub fn require_signature(signature: [u8; 64], valid: bool) -> (r: Result<[u8; 64], RpcError>)
    ensures
        match r {
            Ok(s) => valid && s == signature,
            Err(e) => !valid && e.is_invalid("signature is malformed"@),
        },
{
    if valid {
        Ok(signature)
    } else {
        Err(invalid_params("signature is malformed"))
    }
}

/// Parses a hex-encoded 64-byte signature; blanks around it are let pass. Whether the
/// bytes have the form of a signature is for the signature scheme to say: see
/// [`require_signature`].
pub fn parse_signature_hex(s: &str) -> (r: Result<[u8; 64], RpcError>)
    ensures
        match r {
            Ok(b) => is_hex(trimmed_text(s@)) && b@ == hex_bytes(trimmed_text(s@)),
            Err(e) => if is_hex(trimmed_text(s@)) {
                hex_bytes(trimmed_text(s@)).len() != 64 && e.is_invalid(
                    "signature must be 64 bytes"@,
                )
            } else {
                e.is_invalid("signature is not valid hex"@)
            },
        },
{
    let t = trimmed(s);
    match unhex(t.as_str()) {
        Some(bytes) => match to_signature(bytes.as_slice()) {
            Some(b) => Ok(b),
            None => Err(invalid_params("signature must be 64 bytes")),
        },
        None => Err(invalid_params("signature is not valid hex")),
    }
}

/// The hex body of a charter that is to be signed; blanks around it are let pass.
pub fn parse_charter_body(s: &str) -> (r: Result<Vec<u8>, RpcError>)
    ensures
        match r {
            Ok(b) => is_hex(trimmed_text(s@)) && b@ == hex_bytes(trimmed_text(s@)),
            Err(e) => !is_hex(trimmed_text(s@)) && e.is_invalid(
                "charter_body_hex is not valid hex"@,
            ),
        },
{
    let t = trimmed(s);
    match unhex(t.as_str()) {
        Some(bytes) => Ok(bytes),
        None => Err(invalid_params("charter_body_hex is not valid hex")),
    }
}

/// The bytes of a bundle handed over in hex.
pub fn parse_bundle_hex(s: &str) -> (r: Result<Vec<u8>, RpcError>)
    ensures
        match r {
            Ok(b) => is_hex(s@) && b@ == hex_bytes(s@),
            Err(e) => !is_hex(s@) && e.is_invalid("bundle_hex is not hex"@),
        },
{
    match unhex(s) {
        Some(bytes) => Ok(bytes),
        None => Err(invalid_params("bundle_hex is not hex")),
    }
}

/// An address that the caller sent, given what the address codec made of it.
pub fn parse_addr(s: &str, parsed: Result<String, String>) -> (r: Result<String, RpcError>)
    ensures
        match parsed {
            Ok(a) => r == Ok::<String, RpcError>(a),
            Err(m) => r matches Err(e) && e.is_invalid(
                "invalid address "@ + debug_text(s@) + ": "@ + m@,
            ),
        },
{
    match parsed {
        Ok(a) => Ok(a),
        Err(m) => {
            let shown = debug_of(s);
            let mut message = join3("invalid address ", shown.as_str(), ": ");
            message.append(m.as_str());
            Err(RpcError { code: ErrorCode::InvalidParams, message })
        },
    }
}

/// Whose balance or nonce is asked for: the named member's, or the station's own.
pub fn queried(address: Option<String>, own: &String) -> (r: String)
    ensures
        r == match address {
            Some(a) => a,
            None => *own,
        },
{
    match address {
        Some(a) => a,
        None => own.clone(),
    }
}

/// The evidence of a dispute, given what the hash codec made of it: an absent field
/// attaches none, a present one must be a hash.
pub fn parse_evidence_hash(parsed: Option<Result<Id, String>>) -> (r: Result<Option<Id>, RpcError>)
    ensures
        match parsed {
            None => r == Ok::<Option<Id>, RpcError>(None),
            Some(Ok(h)) => r == Ok::<Option<Id>, RpcError>(Some(h)),
            Some(Err(m)) => r matches Err(e) && e.is_invalid("invalid evidence hash: "@ + m@),
        },
{
    match parsed {
        None => Ok(None),
        Some(Ok(h)) => Ok(Some(h)),
        Some(Err(m)) => Err(
            RpcError {
                code: ErrorCode::InvalidParams,
                message: join2("invalid evidence hash: ", m.as_str()),
            },
        ),
    }
}

/// What a governance proposal is to become.
#[derive(Clone, Debug, PartialEq, Eq)]
pub enum ProposalKind {
    /// A statute.
    Statute,
    /// A rule within a scope.
    AdministrativeRule {
        /// The scope.
        scope: String,
    },
    /// A change of the charter.
    CharterAmendment,
    /// A measure with an end.
    Emergency {
        /// When it ends.
        expires_at: i64,
    },
}

/// Whether a word names an administrative rule.
pub open spec fn names_a_rule(kind: Seq<char>) -> bool {
    kind == "administrative_rule"@ || kind == "admin_rule"@ || kind == "admin-rule"@
}

/// Reads a proposal's kind with what the kind needs.
pub fn parse_proposal_kind(kind: &str, scope: Option<String>, expires_at: Option<i64>) -> (r: Result<
    ProposalKind,
    RpcError,
>)
    ensures
        if kind@ == "statute"@ {
            r == Ok::<ProposalKind, RpcError>(ProposalKind::Statute)
        } else if names_a_rule(kind@) {
            match scope {
                Some(s) => r == Ok::<ProposalKind, RpcError>(
                    ProposalKind::AdministrativeRule { scope: s },
                ),
                None => r matches Err(e) && e.is_invalid(
                    "an administrative_rule proposal needs a --scope"@,
                ),
            }
        } else if kind@ == "emergency"@ {
            match expires_at {
                Some(t) => r == Ok::<ProposalKind, RpcError>(
                    ProposalKind::Emergency { expires_at: t },
                ),
                None => r matches Err(e) && e.is_invalid(
                    "an emergency proposal needs --expires-at"@,
                ),
            }
        } else {
            r matches Err(e) && e.is_invalid(
                "unknown proposal kind "@ + debug_text(kind@)
                    + " (statute, administrative_rule, emergency)"@,
            )
        },
{
    if same_text(kind, "statute") {
        Ok(ProposalKind::Statute)
    } else if same_text(kind, "administrative_rule") || same_text(kind, "admin_rule") || same_text(
        kind,
        "admin-rule",
    ) {
        match scope {
            Some(scope) => Ok(ProposalKind::AdministrativeRule { scope }),
            None => Err(invalid_params("an administrative_rule proposal needs a --scope")),
        }
    } else if same_text(kind, "emergency") {
        match expires_at {
            Some(expires_at) => Ok(ProposalKind::Emergency { expires_at }),
            None => Err(invalid_params("an emergency proposal needs --expires-at")),
        }
    } else {
        let shown = debug_of(kind);
        Err(
            RpcError {
                code: ErrorCode::InvalidParams,
                message: join3(
                    "unknown proposal kind ",
                    shown.as_str(),
                    " (statute, administrative_rule, emergency)",
                ),
            },
        )
    }
}

/// A ballot.
#[derive(Clone, Copy, Debug, PartialEq, Eq, Structural)]
pub enum VoteChoice {
    /// In favour.
    Yes,
    /// Against.
    No,
    /// Neither.
    Abstain,
}

/// Reads a ballot.
pub fn parse_vote_choice(s: &str) -> (r: Result<VoteChoice, RpcError>)
    ensures
        if s@ == "yes"@ {
            r == Ok::<VoteChoice, RpcError>(VoteChoice::Yes)
        } else if s@ == "no"@ {
            r == Ok::<VoteChoice, RpcError>(VoteChoice::No)
        } else if s@ == "abstain"@ {
            r == Ok::<VoteChoice, RpcError>(VoteChoice::Abstain)
        } else {
            r matches Err(e) && e.is_invalid(
                "vote choice must be yes, no, or abstain, got "@ + debug_text(s@),
            )
        },
{
    if same_text(s, "yes") {
        Ok(VoteChoice::Yes)
    } else if same_text(s, "no") {
        Ok(VoteChoice::No)
    } else if same_text(s, "abstain") {
        Ok(VoteChoice::Abstain)
    } else {
        let shown = debug_of(s);
        Err(
            RpcError {
                code: ErrorCode::InvalidParams,
                message: join2("vote choice must be yes, no, or abstain, got ", shown.as_str()),
            },
        )
    }
}

/// Why a dispute goes to the electorate.
#[derive(Clone, Copy, Debug, PartialEq, Eq, Structural)]
pub enum EscalationReason {
    /// The jury's ruling is appealed.
    Appeal,
    /// No jury can be seated.
    CannotSeat,
}

/// The wire name of an escalation's reason.
pub open spec fn escalation_text(r: EscalationReason) -> Seq<char> {
    match r {
        EscalationReason::Appeal => "appeal"@,
        EscalationReason::CannotSeat => "cannot_seat"@,
    }
}

/// The wire name of an escalation's reason.
pub fn escalation_name(r: EscalationReason) -> (s: &'static str)
    ensures
        s@ == escalation_text(r),
{
    match r {
        EscalationReason::Appeal => "appeal",
        EscalationReason::CannotSeat => "cannot_seat",
    }
}

/// Reads the reason of an escalation.
pub fn parse_escalation_reason(s: &str) -> (r: Result<EscalationReason, RpcError>)
    ensures
        match r {
            Ok(reason) => s@ == escalation_text(reason),
            Err(e) => (forall|reason: EscalationReason| s@ != #[trigger] escalation_text(reason))
                && e.is_invalid("unknown escalation reason: "@ + s@),
        },
{
    if same_text(s, "appeal") {
        Ok(EscalationReason::Appeal)
    } else if same_text(s, "cannot_seat") {
        Ok(EscalationReason::CannotSeat)
    } else {
        Err(
            RpcError {
                code: ErrorCode::InvalidParams,
                message: join2("unknown escalation reason: ", s),
            },
        )
    }
}

/// A reason read from its wire name is the reason.
pub proof fn law_escalation_reasons_are_told_apart(a: EscalationReason, b: EscalationReason)
    ensures
        escalation_text(a) == escalation_text(b) <==> a == b,
{
    reveal_strlit("appeal");
    reveal_strlit("cannot_seat");
    assert("appeal"@.len() != "cannot_seat"@.len());
}

/// Bytes of secret data in a raw shard.
pub const SHARD_DATA_LEN: usize = 32;

/// A raw shard: its index and its share of the secret.
#[derive(Clone, Debug, PartialEq, Eq)]
pub struct RawShard {
    /// The shard's index.
    pub index: u8,
    /// Its share.
    pub data: Id,
}

/// Reads a shard file: an index byte and the share.
pub fn read_raw_shard(path: &str, bytes: &Vec<u8>) -> (r: Result<RawShard, RpcError>)
    ensures
        match r {
            Ok(s) => bytes@.len() == 33 && s.index == bytes@[0] && s.data@ == bytes@.skip(1),
            Err(e) => bytes@.len() != 33 && e.is_invalid(
                "shard "@ + debug_text(path@) + " is "@ + decimal(bytes@.len())
                    + " bytes, expected "@ + decimal(33),
            ),
        },
{
    if bytes.len() == 1 + SHARD_DATA_LEN {
        let rest = vstd::slice::slice_subrange(bytes.as_slice(), 1, 33);
        assert(rest@ =~= bytes@.skip(1));
        match to_id(rest) {
            Some(data) => {
                return Ok(RawShard { index: bytes[0], data });
            },
            None => {},
        }
    }
    let shown = debug_of(path);
    let mut message = join3("shard ", shown.as_str(), " is ");
    let got = decimal_u64(bytes.len() as u64);
    message.append(got.as_str());
    message.append(" bytes, expected ");
    let expected = decimal_u64(33);
    message.append(expected.as_str());
    Err(RpcError { code: ErrorCode::InvalidParams, message })
}

/// What was written as hex reads back: thirty-two bytes in hex are the id that they spell,
/// whichever kind of id is asked for, and bytes in a field are the bytes that were put there.
/// `text` is the hex of the id.
pub proof fn law_written_ids_read_back(
    id: Id,
    text: &str,
    tx: Result<Id, RpcError>,
    proposal: Result<Id, RpcError>,
    listing: Result<Id, RpcError>,
    inquiry: Result<Id, RpcError>,
    contract: Result<Id, RpcError>,
)
    requires
        text@ == hex_text(id@),
        call_ensures(parse_tx_id, (text,), tx),
        call_ensures(parse_proposal_id, (text,), proposal),
        call_ensures(parse_listing_id, (text,), listing),
        call_ensures(parse_inquiry_id, (text,), inquiry),
        call_ensures(parse_contract_id, (text,), contract),
    ensures
        tx matches Ok(i) && i@ == id@,
        proposal matches Ok(i) && i@ == id@,
        listing matches Ok(i) && i@ == id@,
        inquiry matches Ok(i) && i@ == id@,
        contract matches Ok(i) && i@ == id@,
{
    law_unhex_inverts_hex(id@);
}

/// A field that holds the hex of bytes gives these bytes; one that holds anything else, or
/// nothing, is refused.
pub proof fn law_a_hex_field_gives_its_bytes(
    bytes: Seq<u8>,
    s: String,
    field: &str,
    r: Result<Vec<u8>, RpcError>,
    other: Result<Option<String>, String>,
    refused: Result<Vec<u8>, RpcError>,
)
    requires
        s@ == hex_text(bytes),
        call_ensures(hex_field, (Ok::<Option<String>, String>(Some(s)), field), r),
        call_ensures(hex_field, (other, field), refused),
        !(other matches Ok(Some(t)) && is_hex(t@)),
    ensures
        r matches Ok(b) && b@ == bytes,
        refused is Err,
{
    law_unhex_inverts_hex(bytes);
}

} // verus!
