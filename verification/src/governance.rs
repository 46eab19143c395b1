//! The founding ceremony and the operator's governance writes: who founds, who signs,
//! and when a charter is still open to signatures.

use vstd::prelude::*;
use vstd::string::*;

use crate::governance_view::copy_texts;
use crate::rpc::{invalid_params, RpcError};
use crate::text::{join2, same_text};

verus! {

/// A charter as the station asks for it to be created.
#[derive(Debug, Clone, PartialEq, Eq)]
pub struct CharterDraft {
    /// The first version.
    pub version: u32,
    /// The community.
    pub community_id: String,
    /// The founding principles.
    pub founding_principles: Vec<String>,
    /// The rights guaranteed.
    pub rights_floor: Vec<String>,
    /// The founders' addresses.
    pub founders: Vec<String>,
    /// When it was created.
    pub created_at: i64,
}

/// A genesis charter: version one, with nothing before it.
pub fn draft_charter(
    community_id: String,
    founding_principles: Vec<String>,
    rights_floor: Vec<String>,
    founders: Vec<String>,
    now: i64,
) -> (r: CharterDraft)
    ensures
        r == (CharterDraft {
            version: 1,
            community_id,
            founding_principles,
            rights_floor,
            founders,
            created_at: now,
        }),
{
    CharterDraft {
        version: 1,
        community_id,
        founding_principles,
        rights_floor,
        founders,
        created_at: now,
    }
}

/// The founders of a charter that is published at once: those whose keys were handed
/// in, or the station alone where none were.
pub fn genesis_founders(handed_in: Vec<String>, me: &String) -> (r: Vec<String>)
    ensures
        r@ == if handed_in@.len() == 0 {
            seq![*me]
        } else {
            handed_in@
        },
{
    if handed_in.len() == 0 {
        let mut v: Vec<String> = Vec::new();
        v.push(me.clone());
        assert(v@ =~= seq![*me]);
        v
    } else {
        handed_in
    }
}

/// Whether an address is on a list.
pub open spec fn listed(list: Seq<String>, who: Seq<char>) -> bool {
    exists|i: int| 0 <= i < list.len() && (#[trigger] list[i])@ == who
}

/// Whether an address is on a list.
pub fn is_listed(list: &Vec<String>, who: &String) -> (r: bool)
    ensures
        r == listed(list@, who@),
{
    let mut i: usize = 0;
    while i < list.len()
        invariant
            i <= list.len(),
            forall|j: int| 0 <= j < i ==> (#[trigger] list@[j])@ != who@,
        decreases list.len() - i,
    {
        if same_text(list[i].as_str(), who.as_str()) {
            return true;
        }
        i = i + 1;
    }
    false
}

/// Opens a founding ceremony: there must be no charter yet, pending or published. The
/// station signs at once where it is itself a founder.
pub fn begin_ceremony(charter_exists: bool, founders: &Vec<String>, me: &String) -> (r: Result<
    bool,
    RpcError,
>)
    ensures
        match r {
            Ok(signs) => !charter_exists && signs == listed(founders@, me@),
            Err(e) => charter_exists && e.is_invalid(
                "a charter already exists for this community (pending or published)"@,
            ),
        },
{
    if charter_exists {
        return Err(
            invalid_params("a charter already exists for this community (pending or published)"),
        );
    }
    Ok(is_listed(founders, me))
}

/// Lets a founder's signature in: only into a charter that is pending. `latest` says
/// whether the latest charter has its threshold of signatures; there may be none.
pub fn require_open_ceremony(latest: Option<bool>) -> (r: Result<(), RpcError>)
    ensures
        match latest {
            None => r matches Err(e) && e.is_invalid(
                "no founding charter in progress; run governance charter-begin"@,
            ),
            Some(true) => r matches Err(e) && e.is_invalid(
                "the charter has already published; no more signatures are needed"@,
            ),
            Some(false) => r is Ok,
        },
{
    match latest {
        None => Err(
            invalid_params("no founding charter in progress; run governance charter-begin"),
        ),
        Some(true) => Err(
            invalid_params("the charter has already published; no more signatures are needed"),
        ),
        Some(false) => Ok(()),
    }
}

/// Lets a proposal be written only under a published charter.
pub fn require_charter(published: bool) -> (r: Result<(), RpcError>)
    ensures
        match r {
            Ok(_) => published,
            Err(e) => !published && e.is_invalid(
                "no charter published; run governance charter-init"@,
            ),
        },
{
    if published {
        Ok(())
    } else {
        Err(invalid_params("no charter published; run governance charter-init"))
    }
}

/// The refusal of a read that found no proposal.
pub fn no_proposal(proposal_id: &str) -> (r: RpcError)
    ensures
        r.is_invalid("no proposal "@ + proposal_id@),
{
    let m = join2("no proposal ", proposal_id);
    invalid_params(m.as_str())
}

/// The refusal of a read that found no live dispute.
pub fn no_dispute(tx_id: &str) -> (r: RpcError)
    ensures
        r.is_invalid("no live dispute for transaction "@ + tx_id@),
{
    let m = join2("no live dispute for transaction ", tx_id);
    invalid_params(m.as_str())
}

/// A charter and its signatures, as the ceremony knows them.
#[derive(Debug, Clone, PartialEq, Eq)]
pub struct Ceremony {
    /// Whether the threshold of signatures is reached.
    pub published: bool,
    /// The charter's hash.
    pub charter_hash: String,
    /// The charter.
    pub charter: CharterDraft,
    /// The founders who have signed.
    pub signed_founders: Vec<String>,
    /// How many signatures it takes.
    pub threshold: u64,
    /// The charter's canonical bytes, in hex.
    pub body_hex: String,
}

/// The state of the founding ceremony, for the wire.
#[derive(Debug, Clone, PartialEq, Eq)]
pub struct GovPendingCharterResult {
    /// Whether there is a charter.
    pub exists: bool,
    /// Whether it has published.
    pub published: bool,
    /// Its hash.
    pub charter_hash: String,
    /// The community.
    pub community_id: String,
    /// The founding principles.
    pub founding_principles: Vec<String>,
    /// The rights guaranteed.
    pub rights_floor: Vec<String>,
    /// The founders.
    pub founders: Vec<String>,
    /// The founders who have signed.
    pub signed_founders: Vec<String>,
    /// How many signatures it takes.
    pub threshold: u64,
    /// When it was created.
    pub created_at: i64,
    /// Its version.
    pub version: u32,
    /// The bytes to sign, in hex.
    pub body_hex: String,
}

/// Renders a charter, pending or published, as the ceremony view.
pub fn pending_charter_view(c: &Ceremony) -> (r: GovPendingCharterResult)
    ensures
        r.exists,
        r.published == c.published,
        r.charter_hash == c.charter_hash,
        r.community_id == c.charter.community_id,
        r.founding_principles@ == c.charter.founding_principles@,
        r.rights_floor@ == c.charter.rights_floor@,
        r.founders@ == c.charter.founders@,
        r.signed_founders@ == c.signed_founders@,
        r.threshold == c.threshold,
        r.created_at == c.charter.created_at,
        r.version == c.charter.version,
        r.body_hex == c.body_hex,
{
    GovPendingCharterResult {
        exists: true,
        published: c.published,
        charter_hash: c.charter_hash.clone(),
        community_id: c.charter.community_id.clone(),
        founding_principles: copy_texts(&c.charter.founding_principles),
        rights_floor: copy_texts(&c.charter.rights_floor),
        founders: copy_texts(&c.charter.founders),
        signed_founders: copy_texts(&c.signed_founders),
        threshold: c.threshold,
        created_at: c.charter.created_at,
        version: c.charter.version,
        body_hex: c.body_hex.clone(),
    }
}

/// The station signs the charter that it opens a ceremony for exactly where its own address
/// is one of the founders', at whatever place.
pub proof fn law_a_founding_station_signs(
    founders: &Vec<String>,
    me: &String,
    r: Result<bool, RpcError>,
)
    requires
        call_ensures(begin_ceremony, (false, founders, me), r),
    ensures
        r matches Ok(signs) && (signs <==> exists|i: int|
            0 <= i < founders@.len() && (#[trigger] founders@[i])@ == me@),
{
}

} // verus!
