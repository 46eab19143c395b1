//! The station's configuration: its sections, what they default to, and what is refused.
//!
//! A file names what it wants to change; every key that it leaves out takes its default,
//! and so does every section that it leaves out. A section as the file has it is a
//! `Raw..` value, with nothing under a key that is missing.
//!
//! A community's log has exactly one writer. A writer never pulls, so a writer with
//! peers is refused; peers are configured on a replica, the read-only second copy of the
//! writer's chain.

use vstd::prelude::*;
use vstd::string::*;

use crate::clock::{host_read, read_host};
use crate::text::{decimal, decimal_u64, join2, join3, same_text};

verus! {

/// The at-rest storage profile.
#[derive(Clone, Copy, Debug, PartialEq, Eq, Structural)]
pub enum AtRestProfile {
    /// Flat, unencrypted data directory.
    Plaintext,
    /// Member-keyed container unlocked by a boot ceremony.
    Encrypted,
}

/// The senders that the SMS carrier listens to.
#[derive(Clone, Copy, Debug, PartialEq, Eq, Structural)]
pub enum AllowedSenders {
    /// Only numbers that a binding record names.
    Paired,
    /// Any number.
    Open,
}

/// The station's place in the single-writer chain.
#[derive(Clone, Copy, Debug, PartialEq, Eq, Structural)]
pub enum StationRole {
    /// Owns the chain; admits at its front door; never pulls.
    Writer,
    /// A read-only copy of the writer's chain; pulls, never admits.
    Replica,
}

impl Default for AtRestProfile {
    fn default() -> (r: Self)
        ensures
            r == AtRestProfile::Plaintext,
    {
        AtRestProfile::Plaintext
    }
}

impl Default for AllowedSenders {
    fn default() -> (r: Self)
        ensures
            r == AllowedSenders::Paired,
    {
        AllowedSenders::Paired
    }
}

impl Default for StationRole {
    fn default() -> (r: Self)
        ensures
            r == StationRole::Writer,
    {
        StationRole::Writer
    }
}

impl StationRole {
    /// A replica takes its records from its peers.
    pub open spec fn takes_from_peers(self) -> bool {
        self == StationRole::Replica
    }

    /// A writer takes its records from its members.
    pub open spec fn takes_from_members(self) -> bool {
        self == StationRole::Writer
    }

    /// Whether this station pulls the log from its peers. Only a replica does.
    pub fn pulls(self) -> (r: bool)
        ensures
            r == self.takes_from_peers(),
    {
        match self {
            StationRole::Replica => true,
            StationRole::Writer => false,
        }
    }

    /// Whether this station admits records. Only a writer does.
    pub fn admits(self) -> (r: bool)
        ensures
            r == self.takes_from_members(),
    {
        match self {
            StationRole::Writer => true,
            StationRole::Replica => false,
        }
    }

    /// The wire spelling of a role.
    pub open spec fn text(self) -> Seq<char> {
        match self {
            StationRole::Writer => "writer"@,
            StationRole::Replica => "replica"@,
        }
    }

    /// The lowercase wire spelling.
    pub fn as_str(self) -> (r: &'static str)
        ensures
            r@ == self.text(),
    {
        match self {
            StationRole::Writer => "writer",
            StationRole::Replica => "replica",
        }
    }
}

/// The role that a word spells, if it spells one.
pub fn role_named(word: &str) -> (r: Option<StationRole>)
    ensures
        match r {
            Some(role) => word@ == role.text(),
            None => forall|role: StationRole| word@ != #[trigger] role.text(),
        },
{
    if same_text(word, "writer") {
        Some(StationRole::Writer)
    } else if same_text(word, "replica") {
        Some(StationRole::Replica)
    } else {
        None
    }
}

/// A role is read back from its spelling: the two roles are spelled differently, so a
/// word spells at most one. `read` is what [`role_named`] made of the spelling.
pub proof fn law_a_spelled_role_reads_back(role: StationRole, read: Option<StationRole>)
    requires
        match read {
            Some(other) => role.text() == other.text(),
            None => forall|other: StationRole| role.text() != #[trigger] other.text(),
        },
    ensures
        read == Some(role),
{
    reveal_strlit("writer");
    reveal_strlit("replica");
    assert("writer"@.len() == 6 && "replica"@.len() == 7);
    assert(role.text() == role.text());
}

/// The protocol's debt floor, in hundredths: twenty commons of debt.
pub const DEFAULT_DEBT_FLOOR_CENTI: i64 = -2000;

/// How long a headroom certificate stays valid: seven days.
pub const DEFAULT_CERT_VALIDITY_SECS: i64 = 604800;

/// The largest cap of a certificate, in hundredths: ten commons.
pub const DEFAULT_CERT_MAX_CAP_CENTI: i64 = 1000;

/// The delivery grace beyond a certificate's expiry: fourteen days.
pub const DEFAULT_CERT_DELIVERY_GRACE_SECS: i64 = 1209600;

/// How many certificates one member may hold at once.
pub const DEFAULT_CERT_MAX_OUTSTANDING: u32 = 4;

/// How long a confirmed Tier-1 transaction waits: twenty-four hours.
pub const DEFAULT_TIER1_WINDOW_SECONDS: u64 = 86400;

/// How long a confirmed Tier-2 transaction waits: forty-eight hours.
pub const DEFAULT_TIER2_WINDOW_SECONDS: u64 = 172800;

/// The default of `threshold`.
pub fn default_vmk_threshold() -> (r: u8)
    ensures
        r == 3,
{
    3
}

/// The default of `max_parts_per_message`.
pub fn default_sms_max_parts() -> (r: usize)
    ensures
        r == 4,
{
    4
}

/// The default of `max_inbound_per_hour`.
pub fn default_sms_max_inbound_per_hour() -> (r: u32)
    ensures
        r == 60,
{
    60
}

/// The default of `bandwidth_hz`.
pub fn default_lora_bandwidth_hz() -> (r: u64)
    ensures
        r == 125000,
{
    125000
}

/// The default of `spreading_factor`.
pub fn default_lora_spreading_factor() -> (r: u8)
    ensures
        r == 8,
{
    8
}

/// The default of `coding_rate`.
pub fn default_lora_coding_rate() -> (r: u8)
    ensures
        r == 5,
{
    5
}

/// The default of `raw_bytes_per_sec_bits`.
pub fn default_raw_bytes_per_sec() -> (r: u64)
    ensures
        r == 0x406f_4000_0000_0000,
{
    0x406f_4000_0000_0000
}

/// The default of `duty_cycle_percent_bits`.
pub fn default_duty_cycle_percent() -> (r: u64)
    ensures
        r == 0x3ff0_0000_0000_0000,
{
    0x3ff0_0000_0000_0000
}

/// The default of `burst_bytes`.
pub fn default_burst_bytes() -> (r: u32)
    ensures
        r == 500,
{
    500
}

/// The default of `frame_bytes`.
pub fn default_lora_frame_bytes() -> (r: usize)
    ensures
        r == 480,
{
    480
}

/// The default of `adapter_python`.
pub fn default_adapter_python() -> (r: String)
    ensures
        r@ == "python3"@,
{
    String::from_str("python3")
}

/// The default of `push_rescan_secs`.
pub fn default_push_rescan_secs() -> (r: i64)
    ensures
        r == 3600,
{
    3600
}

/// The default of `push_ttl_secs`.
pub fn default_push_ttl_secs() -> (r: i64)
    ensures
        r == 604800,
{
    604800
}

/// The default of `listen`.
pub fn default_mobile_listen() -> (r: String)
    ensures
        r@ == "0.0.0.0:7500"@,
{
    String::from_str("0.0.0.0:7500")
}

/// The default of `advertise`.
pub fn default_advertise() -> (r: bool)
    ensures
        r == true,
{
    true
}

/// The default of `subscribe_hold_secs`.
pub fn default_subscribe_hold_secs() -> (r: u64)
    ensures
        r == 30,
{
    30
}

/// The default of `tier1_window_seconds`.
pub fn default_tier1_window_seconds() -> (r: u64)
    ensures
        r == DEFAULT_TIER1_WINDOW_SECONDS,
{
    DEFAULT_TIER1_WINDOW_SECONDS
}

/// The default of `tier2_window_seconds`.
pub fn default_tier2_window_seconds() -> (r: u64)
    ensures
        r == DEFAULT_TIER2_WINDOW_SECONDS,
{
    DEFAULT_TIER2_WINDOW_SECONDS
}

/// The default of `debt_floor_centi`.
pub fn default_debt_floor_centi() -> (r: i64)
    ensures
        r == DEFAULT_DEBT_FLOOR_CENTI,
{
    DEFAULT_DEBT_FLOOR_CENTI
}

/// The default of `cert_validity_seconds`.
pub fn default_cert_validity_seconds() -> (r: i64)
    ensures
        r == DEFAULT_CERT_VALIDITY_SECS,
{
    DEFAULT_CERT_VALIDITY_SECS
}

/// The default of `cert_max_cap_centi`.
pub fn default_cert_max_cap_centi() -> (r: i64)
    ensures
        r == DEFAULT_CERT_MAX_CAP_CENTI,
{
    DEFAULT_CERT_MAX_CAP_CENTI
}

/// The default of `cert_delivery_grace_seconds`.
pub fn default_cert_delivery_grace_seconds() -> (r: i64)
    ensures
        r == DEFAULT_CERT_DELIVERY_GRACE_SECS,
{
    DEFAULT_CERT_DELIVERY_GRACE_SECS
}

/// The default of `cert_max_outstanding`.
pub fn default_cert_max_outstanding() -> (r: u32)
    ensures
        r == DEFAULT_CERT_MAX_OUTSTANDING,
{
    DEFAULT_CERT_MAX_OUTSTANDING
}

/// The default of `receipt_retention_secs`.
pub fn default_receipt_retention_secs() -> (r: u64)
    ensures
        r == 2592000,
{
    2592000
}

/// The default of `rnsd_path`.
pub fn default_rnsd_path() -> (r: String)
    ensures
        r@ == "rnsd"@,
{
    String::from_str("rnsd")
}

/// The default of `restart_backoff_secs`.
pub fn default_restart_backoff_secs() -> (r: u64)
    ensures
        r == 5,
{
    5
}

/// The default of `sweep_interval_secs`.
pub fn default_sweep_interval() -> (r: u64)
    ensures
        r == 30,
{
    30
}

/// The default of `gossip_interval_secs`.
pub fn default_gossip_interval() -> (r: u64)
    ensures
        r == 5,
{
    5
}

/// The default of `reputation_refresh_interval_secs`.
pub fn default_reputation_refresh_interval() -> (r: u64)
    ensures
        r == 3600,
{
    3600
}

/// The default of `listing_expiry_interval_secs`.
pub fn default_listing_expiry_interval() -> (r: u64)
    ensures
        r == 300,
{
    300
}

/// The default of `inquiry_expiry_interval_secs`.
pub fn default_inquiry_expiry_interval() -> (r: u64)
    ensures
        r == 3600,
{
    3600
}

/// The default of `contract_charge_interval_secs`.
pub fn default_contract_charge_interval() -> (r: u64)
    ensures
        r == 300,
{
    300
}

/// The default of `governance_implementation_interval_secs`.
pub fn default_governance_implementation_interval() -> (r: u64)
    ensures
        r == 3600,
{
    3600
}

/// The default of `dispute_resolution_interval_secs`.
pub fn default_dispute_resolution_interval() -> (r: u64)
    ensures
        r == 3600,
{
    3600
}

/// The default of `dtn_prune_interval_secs`.
pub fn default_dtn_prune_interval() -> (r: u64)
    ensures
        r == 3600,
{
    3600
}

/// The encrypted at-rest profile. The holder set is deliberately not kept here.
#[derive(Clone, Debug, PartialEq, Eq)]
pub struct EncryptedSection {
    /// Path to the container file; under the boot directory where omitted.
    pub container_path: Option<String>,
    /// The mount point of the decrypted container; under the boot directory where omitted.
    pub state_dir: Option<String>,
    /// How many holders must cooperate to unlock the volume.
    pub threshold: u8,
}

/// [`EncryptedSection`] as a file has it.
#[derive(Clone, Debug, PartialEq, Eq)]
pub struct RawEncrypted {
    /// Path to the container file; under the boot directory where omitted.
    pub container_path: Option<String>,
    /// The mount point of the decrypted container; under the boot directory where omitted.
    pub state_dir: Option<String>,
    /// How many holders must cooperate to unlock the volume.
    pub threshold: Option<u8>,
}

/// Whether a section is what a file says, with the defaults for what it leaves out.
pub open spec fn resolved_encrypted(r: EncryptedSection, raw: RawEncrypted) -> bool {
    &&& r.container_path == raw.container_path
    &&& r.state_dir == raw.state_dir
    &&& r.threshold == match raw.threshold {
        Some(v) => v,
        None => 3,
    }
}

/// Fills in the defaults.
pub fn resolve_encrypted(raw: RawEncrypted) -> (r: EncryptedSection)
    ensures
        resolved_encrypted(r, raw),
{
    EncryptedSection {
        container_path: raw.container_path,
        state_dir: raw.state_dir,
        threshold: match raw.threshold {
            Some(v) => v,
            None => default_vmk_threshold(),
        },
    }
}

/// The section of a file that says nothing of it.
pub open spec fn empty_encrypted() -> RawEncrypted {
    RawEncrypted {
        container_path: None, state_dir: None, threshold: None,
    }
}

impl Default for EncryptedSection {
    fn default() -> (r: Self)
        ensures
            resolved_encrypted(r, empty_encrypted()),
    {
        resolve_encrypted(RawEncrypted {
            container_path: None, state_dir: None, threshold: None,
        })
    }
}

/// SMS as a carrier for signed payloads. Off by default.
#[derive(Clone, Debug, PartialEq, Eq)]
pub struct SmsSection {
    /// Whether the SMS carrier is enabled at all.
    pub enabled: bool,
    /// The station's own phone number.
    pub station_msisdn: Option<String>,
    /// The most concatenated parts one message may span.
    pub max_parts_per_message: usize,
    /// Which inbound senders to process.
    pub allowed_senders: AllowedSenders,
    /// The most inbound texts one sender may send per hour.
    pub max_inbound_per_hour: u32,
}

/// [`SmsSection`] as a file has it.
#[derive(Clone, Debug, PartialEq, Eq)]
pub struct RawSms {
    /// Whether the SMS carrier is enabled at all.
    pub enabled: Option<bool>,
    /// The station's own phone number.
    pub station_msisdn: Option<String>,
    /// The most concatenated parts one message may span.
    pub max_parts_per_message: Option<usize>,
    /// Which inbound senders to process.
    pub allowed_senders: Option<AllowedSenders>,
    /// The most inbound texts one sender may send per hour.
    pub max_inbound_per_hour: Option<u32>,
}

/// Whether a section is what a file says, with the defaults for what it leaves out.
pub open spec fn resolved_sms(r: SmsSection, raw: RawSms) -> bool {
    &&& r.enabled == match raw.enabled {
        Some(v) => v,
        None => false,
    }
    &&& r.station_msisdn == raw.station_msisdn
    &&& r.max_parts_per_message == match raw.max_parts_per_message {
        Some(v) => v,
        None => 4,
    }
    &&& r.allowed_senders == match raw.allowed_senders {
        Some(v) => v,
        None => AllowedSenders::Paired,
    }
    &&& r.max_inbound_per_hour == match raw.max_inbound_per_hour {
        Some(v) => v,
        None => 60,
    }
}

/// Fills in the defaults.
pub fn resolve_sms(raw: RawSms) -> (r: SmsSection)
    ensures
        resolved_sms(r, raw),
{
    SmsSection {
        enabled: match raw.enabled {
            Some(v) => v,
            None => false,
        },
        station_msisdn: raw.station_msisdn,
        max_parts_per_message: match raw.max_parts_per_message {
            Some(v) => v,
            None => default_sms_max_parts(),
        },
        allowed_senders: match raw.allowed_senders {
            Some(v) => v,
            None => AllowedSenders::Paired,
        },
        max_inbound_per_hour: match raw.max_inbound_per_hour {
            Some(v) => v,
            None => default_sms_max_inbound_per_hour(),
        },
    }
}

/// The section of a file that says nothing of it.
pub open spec fn empty_sms() -> RawSms {
    RawSms {
        enabled: None, station_msisdn: None, max_parts_per_message: None, allowed_senders: None, max_inbound_per_hour: None,
    }
}

impl Default for SmsSection {
    fn default() -> (r: Self)
        ensures
            resolved_sms(r, empty_sms()),
    {
        resolve_sms(RawSms {
            enabled: None, station_msisdn: None, max_parts_per_message: None, allowed_senders: None, max_inbound_per_hour: None,
        })
    }
}

/// The physical radio interface. Frequency and power have no defaults: a radio is enabled only by a deliberate choice.
#[derive(Clone, Debug, PartialEq, Eq)]
pub struct RNodeSection {
    /// Serial port of the radio.
    pub port: String,
    /// Centre frequency in Hz.
    pub frequency_hz: u64,
    /// Transmit power in dBm.
    pub tx_power_dbm: i32,
    /// Channel bandwidth in Hz.
    pub bandwidth_hz: u64,
    /// Spreading factor.
    pub spreading_factor: u8,
    /// Coding-rate denominator.
    pub coding_rate: u8,
}

/// [`RNodeSection`] as a file has it.
#[derive(Clone, Debug, PartialEq, Eq)]
pub struct RawRNode {
    /// Serial port of the radio.
    pub port: String,
    /// Centre frequency in Hz.
    pub frequency_hz: u64,
    /// Transmit power in dBm.
    pub tx_power_dbm: i32,
    /// Channel bandwidth in Hz.
    pub bandwidth_hz: Option<u64>,
    /// Spreading factor.
    pub spreading_factor: Option<u8>,
    /// Coding-rate denominator.
    pub coding_rate: Option<u8>,
}

/// Whether a section is what a file says, with the defaults for what it leaves out.
pub open spec fn resolved_rnode(r: RNodeSection, raw: RawRNode) -> bool {
    &&& r.port == raw.port
    &&& r.frequency_hz == raw.frequency_hz
    &&& r.tx_power_dbm == raw.tx_power_dbm
    &&& r.bandwidth_hz == match raw.bandwidth_hz {
        Some(v) => v,
        None => 125000,
    }
    &&& r.spreading_factor == match raw.spreading_factor {
        Some(v) => v,
        None => 8,
    }
    &&& r.coding_rate == match raw.coding_rate {
        Some(v) => v,
        None => 5,
    }
}

/// Fills in the defaults.
pub fn resolve_rnode(raw: RawRNode) -> (r: RNodeSection)
    ensures
        resolved_rnode(r, raw),
{
    RNodeSection {
        port: raw.port,
        frequency_hz: raw.frequency_hz,
        tx_power_dbm: raw.tx_power_dbm,
        bandwidth_hz: match raw.bandwidth_hz {
            Some(v) => v,
            None => default_lora_bandwidth_hz(),
        },
        spreading_factor: match raw.spreading_factor {
            Some(v) => v,
            None => default_lora_spreading_factor(),
        },
        coding_rate: match raw.coding_rate {
            Some(v) => v,
            None => default_lora_coding_rate(),
        },
    }
}

/// The airtime budget that the radio transport paces to. The two rates are held as the bits of 64-bit floating-point numbers.
#[derive(Clone, Debug, PartialEq, Eq)]
pub struct LoraSection {
    /// Raw carrier throughput in bytes per second, as bits; 250 by default.
    pub raw_bytes_per_sec_bits: u64,
    /// Duty-cycle percentage, as bits; 1 by default.
    pub duty_cycle_percent_bits: u64,
    /// Token-bucket burst ceiling in bytes.
    pub burst_bytes: u32,
    /// The largest carrier frame in bytes.
    pub frame_bytes: usize,
    /// Path to the adapter script.
    pub adapter_script: Option<String>,
    /// The interpreter for the adapter.
    pub adapter_python: String,
    /// How often undelivered pushes are looked for, in seconds.
    pub push_rescan_secs: i64,
    /// How long an undelivered push is retried, in seconds.
    pub push_ttl_secs: i64,
    /// The physical radio interface.
    pub rnode: Option<RNodeSection>,
}

/// [`LoraSection`] as a file has it.
#[derive(Clone, Debug, PartialEq, Eq)]
pub struct RawLora {
    /// Raw carrier throughput in bytes per second, as bits; 250 by default.
    pub raw_bytes_per_sec_bits: Option<u64>,
    /// Duty-cycle percentage, as bits; 1 by default.
    pub duty_cycle_percent_bits: Option<u64>,
    /// Token-bucket burst ceiling in bytes.
    pub burst_bytes: Option<u32>,
    /// The largest carrier frame in bytes.
    pub frame_bytes: Option<usize>,
    /// Path to the adapter script.
    pub adapter_script: Option<String>,
    /// The interpreter for the adapter.
    pub adapter_python: Option<String>,
    /// How often undelivered pushes are looked for, in seconds.
    pub push_rescan_secs: Option<i64>,
    /// How long an undelivered push is retried, in seconds.
    pub push_ttl_secs: Option<i64>,
    /// The physical radio interface.
    pub rnode: Option<RawRNode>,
}

/// Whether a section is what a file says, with the defaults for what it leaves out.
pub open spec fn resolved_lora(r: LoraSection, raw: RawLora) -> bool {
    &&& r.raw_bytes_per_sec_bits == match raw.raw_bytes_per_sec_bits {
        Some(v) => v,
        None => 0x406f_4000_0000_0000,
    }
    &&& r.duty_cycle_percent_bits == match raw.duty_cycle_percent_bits {
        Some(v) => v,
        None => 0x3ff0_0000_0000_0000,
    }
    &&& r.burst_bytes == match raw.burst_bytes {
        Some(v) => v,
        None => 500,
    }
    &&& r.frame_bytes == match raw.frame_bytes {
        Some(v) => v,
        None => 480,
    }
    &&& r.adapter_script == raw.adapter_script
    &&& match raw.adapter_python {
        Some(v) => r.adapter_python == v,
        None => r.adapter_python@ == "python3"@,
    }
    &&& r.push_rescan_secs == match raw.push_rescan_secs {
        Some(v) => v,
        None => 3600,
    }
    &&& r.push_ttl_secs == match raw.push_ttl_secs {
        Some(v) => v,
        None => 604800,
    }
    &&& match raw.rnode {
        Some(v) => r.rnode is Some && resolved_rnode(r.rnode->0, v),
        None => r.rnode is None,
    }
}

/// Fills in the defaults.
pub fn resolve_lora(raw: RawLora) -> (r: LoraSection)
    ensures
        resolved_lora(r, raw),
{
    LoraSection {
        raw_bytes_per_sec_bits: match raw.raw_bytes_per_sec_bits {
            Some(v) => v,
            None => default_raw_bytes_per_sec(),
        },
        duty_cycle_percent_bits: match raw.duty_cycle_percent_bits {
            Some(v) => v,
            None => default_duty_cycle_percent(),
        },
        burst_bytes: match raw.burst_bytes {
            Some(v) => v,
            None => default_burst_bytes(),
        },
        frame_bytes: match raw.frame_bytes {
            Some(v) => v,
            None => default_lora_frame_bytes(),
        },
        adapter_script: raw.adapter_script,
        adapter_python: match raw.adapter_python {
            Some(v) => v,
            None => default_adapter_python(),
        },
        push_rescan_secs: match raw.push_rescan_secs {
            Some(v) => v,
            None => default_push_rescan_secs(),
        },
        push_ttl_secs: match raw.push_ttl_secs {
            Some(v) => v,
            None => default_push_ttl_secs(),
        },
        rnode: match raw.rnode {
            Some(v) => Some(resolve_rnode(v)),
            None => None,
        },
    }
}

/// The section of a file that says nothing of it.
pub open spec fn empty_lora() -> RawLora {
    RawLora {
        raw_bytes_per_sec_bits: None, duty_cycle_percent_bits: None, burst_bytes: None, frame_bytes: None, adapter_script: None, adapter_python: None, push_rescan_secs: None, push_ttl_secs: None, rnode: None,
    }
}

impl Default for LoraSection {
    fn default() -> (r: Self)
        ensures
            resolved_lora(r, empty_lora()),
    {
        resolve_lora(RawLora {
            raw_bytes_per_sec_bits: None, duty_cycle_percent_bits: None, burst_bytes: None, frame_bytes: None, adapter_script: None, adapter_python: None, push_rescan_secs: None, push_ttl_secs: None, rnode: None,
        })
    }
}

/// Who to gossip with.
#[derive(Clone, Debug, PartialEq, Eq)]
pub struct PeersConfig {
    /// `host:port` of each peer's gossip listener.
    pub list: Vec<String>,
}

/// [`PeersConfig`] as a file has it.
#[derive(Clone, Debug, PartialEq, Eq)]
pub struct RawPeers {
    /// `host:port` of each peer's gossip listener.
    pub list: Option<Vec<String>>,
}

/// Whether a section is what a file says, with the defaults for what it leaves out.
pub open spec fn resolved_peers(r: PeersConfig, raw: RawPeers) -> bool {
    &&& match raw.list {
        Some(v) => r.list == v,
        None => r.list@.len() == 0,
    }
}

/// Fills in the defaults.
pub fn resolve_peers(raw: RawPeers) -> (r: PeersConfig)
    ensures
        resolved_peers(r, raw),
{
    PeersConfig {
        list: match raw.list {
            Some(v) => v,
            None => Vec::new(),
        },
    }
}

/// The section of a file that says nothing of it.
pub open spec fn empty_peers() -> RawPeers {
    RawPeers {
        list: None,
    }
}

impl Default for PeersConfig {
    fn default() -> (r: Self)
        ensures
            resolved_peers(r, empty_peers()),
    {
        resolve_peers(RawPeers {
            list: None,
        })
    }
}

/// Where to accept incoming peer connections, and this station's role.
#[derive(Clone, Debug, PartialEq, Eq)]
pub struct NetworkConfig {
    /// `host:port` this station binds for inbound gossip.
    pub listen: String,
    /// This station's role in the community.
    pub role: StationRole,
}

/// [`NetworkConfig`] as a file has it.
#[derive(Clone, Debug, PartialEq, Eq)]
pub struct RawNetwork {
    /// `host:port` this station binds for inbound gossip.
    pub listen: String,
    /// This station's role in the community.
    pub role: Option<StationRole>,
}

/// Whether a section is what a file says, with the defaults for what it leaves out.
pub open spec fn resolved_network(r: NetworkConfig, raw: RawNetwork) -> bool {
    &&& r.listen == raw.listen
    &&& r.role == match raw.role {
        Some(v) => v,
        None => StationRole::Writer,
    }
}

/// Fills in the defaults.
pub fn resolve_network(raw: RawNetwork) -> (r: NetworkConfig)
    ensures
        resolved_network(r, raw),
{
    NetworkConfig {
        listen: raw.listen,
        role: match raw.role {
            Some(v) => v,
            None => StationRole::Writer,
        },
    }
}

/// How paired mobile clients reach this station.
#[derive(Clone, Debug, PartialEq, Eq)]
pub struct MobileConfig {
    /// `host:port` the mobile listener binds.
    pub listen: String,
    /// Overrides the advertised name.
    pub name: Option<String>,
    /// Whether to advertise on the local network at all.
    pub advertise: bool,
    /// How long a long-poll is held open, in seconds.
    pub subscribe_hold_secs: u64,
}

/// [`MobileConfig`] as a file has it.
#[derive(Clone, Debug, PartialEq, Eq)]
pub struct RawMobile {
    /// `host:port` the mobile listener binds.
    pub listen: Option<String>,
    /// Overrides the advertised name.
    pub name: Option<String>,
    /// Whether to advertise on the local network at all.
    pub advertise: Option<bool>,
    /// How long a long-poll is held open, in seconds.
    pub subscribe_hold_secs: Option<u64>,
}

/// Whether a section is what a file says, with the defaults for what it leaves out.
pub open spec fn resolved_mobile(r: MobileConfig, raw: RawMobile) -> bool {
    &&& match raw.listen {
        Some(v) => r.listen == v,
        None => r.listen@ == "0.0.0.0:7500"@,
    }
    &&& r.name == raw.name
    &&& r.advertise == match raw.advertise {
        Some(v) => v,
        None => true,
    }
    &&& r.subscribe_hold_secs == match raw.subscribe_hold_secs {
        Some(v) => v,
        None => 30,
    }
}

/// Fills in the defaults.
pub fn resolve_mobile(raw: RawMobile) -> (r: MobileConfig)
    ensures
        resolved_mobile(r, raw),
{
    MobileConfig {
        listen: match raw.listen {
            Some(v) => v,
            None => default_mobile_listen(),
        },
        name: raw.name,
        advertise: match raw.advertise {
            Some(v) => v,
            None => default_advertise(),
        },
        subscribe_hold_secs: match raw.subscribe_hold_secs {
            Some(v) => v,
            None => default_subscribe_hold_secs(),
        },
    }
}

/// The section of a file that says nothing of it.
pub open spec fn empty_mobile() -> RawMobile {
    RawMobile {
        listen: None, name: None, advertise: None, subscribe_hold_secs: None,
    }
}

impl Default for MobileConfig {
    fn default() -> (r: Self)
        ensures
            resolved_mobile(r, empty_mobile()),
    {
        resolve_mobile(RawMobile {
            listen: None, name: None, advertise: None, subscribe_hold_secs: None,
        })
    }
}

/// The settlement window, per oracle tier.
#[derive(Clone, Debug, PartialEq, Eq)]
pub struct SettlementSection {
    /// A uniform override applied to every tier.
    pub window_seconds: Option<u64>,
    /// Seconds a confirmed Tier-1 transaction waits before settling.
    pub tier1_window_seconds: u64,
    /// Seconds a confirmed Tier-2 transaction waits before settling.
    pub tier2_window_seconds: u64,
}

/// [`SettlementSection`] as a file has it.
#[derive(Clone, Debug, PartialEq, Eq)]
pub struct RawSettlement {
    /// A uniform override applied to every tier.
    pub window_seconds: Option<u64>,
    /// Seconds a confirmed Tier-1 transaction waits before settling.
    pub tier1_window_seconds: Option<u64>,
    /// Seconds a confirmed Tier-2 transaction waits before settling.
    pub tier2_window_seconds: Option<u64>,
}

/// Whether a section is what a file says, with the defaults for what it leaves out.
pub open spec fn resolved_settlement(r: SettlementSection, raw: RawSettlement) -> bool {
    &&& r.window_seconds == raw.window_seconds
    &&& r.tier1_window_seconds == match raw.tier1_window_seconds {
        Some(v) => v,
        None => DEFAULT_TIER1_WINDOW_SECONDS,
    }
    &&& r.tier2_window_seconds == match raw.tier2_window_seconds {
        Some(v) => v,
        None => DEFAULT_TIER2_WINDOW_SECONDS,
    }
}

/// Fills in the defaults.
pub fn resolve_settlement(raw: RawSettlement) -> (r: SettlementSection)
    ensures
        resolved_settlement(r, raw),
{
    SettlementSection {
        window_seconds: raw.window_seconds,
        tier1_window_seconds: match raw.tier1_window_seconds {
            Some(v) => v,
            None => default_tier1_window_seconds(),
        },
        tier2_window_seconds: match raw.tier2_window_seconds {
            Some(v) => v,
            None => default_tier2_window_seconds(),
        },
    }
}

/// The section of a file that says nothing of it.
pub open spec fn empty_settlement() -> RawSettlement {
    RawSettlement {
        window_seconds: None, tier1_window_seconds: None, tier2_window_seconds: None,
    }
}

impl Default for SettlementSection {
    fn default() -> (r: Self)
        ensures
            resolved_settlement(r, empty_settlement()),
    {
        resolve_settlement(RawSettlement {
            window_seconds: None, tier1_window_seconds: None, tier2_window_seconds: None,
        })
    }
}

/// How far into debt a member may sign themselves, and the offline-certificate parameters.
#[derive(Clone, Debug, PartialEq, Eq)]
pub struct CreditSection {
    /// The lowest projected balance a member may commit themselves down to, in hundredths.
    pub debt_floor_centi: i64,
    /// How long a certificate stays valid, in seconds.
    pub cert_validity_seconds: i64,
    /// The largest cap one certificate may reserve, in hundredths.
    pub cert_max_cap_centi: i64,
    /// The delivery grace beyond expiry, in seconds.
    pub cert_delivery_grace_seconds: i64,
    /// How many certificates one member may hold at once.
    pub cert_max_outstanding: u32,
}

/// [`CreditSection`] as a file has it.
#[derive(Clone, Debug, PartialEq, Eq)]
pub struct RawCredit {
    /// The lowest projected balance a member may commit themselves down to, in hundredths.
    pub debt_floor_centi: Option<i64>,
    /// How long a certificate stays valid, in seconds.
    pub cert_validity_seconds: Option<i64>,
    /// The largest cap one certificate may reserve, in hundredths.
    pub cert_max_cap_centi: Option<i64>,
    /// The delivery grace beyond expiry, in seconds.
    pub cert_delivery_grace_seconds: Option<i64>,
    /// How many certificates one member may hold at once.
    pub cert_max_outstanding: Option<u32>,
}

/// Whether a section is what a file says, with the defaults for what it leaves out.
pub open spec fn resolved_credit(r: CreditSection, raw: RawCredit) -> bool {
    &&& r.debt_floor_centi == match raw.debt_floor_centi {
        Some(v) => v,
        None => DEFAULT_DEBT_FLOOR_CENTI,
    }
    &&& r.cert_validity_seconds == match raw.cert_validity_seconds {
        Some(v) => v,
        None => DEFAULT_CERT_VALIDITY_SECS,
    }
    &&& r.cert_max_cap_centi == match raw.cert_max_cap_centi {
        Some(v) => v,
        None => DEFAULT_CERT_MAX_CAP_CENTI,
    }
    &&& r.cert_delivery_grace_seconds == match raw.cert_delivery_grace_seconds {
        Some(v) => v,
        None => DEFAULT_CERT_DELIVERY_GRACE_SECS,
    }
    &&& r.cert_max_outstanding == match raw.cert_max_outstanding {
        Some(v) => v,
        None => DEFAULT_CERT_MAX_OUTSTANDING,
    }
}

/// Fills in the defaults.
pub fn resolve_credit(raw: RawCredit) -> (r: CreditSection)
    ensures
        resolved_credit(r, raw),
{
    CreditSection {
        debt_floor_centi: match raw.debt_floor_centi {
            Some(v) => v,
            None => default_debt_floor_centi(),
        },
        cert_validity_seconds: match raw.cert_validity_seconds {
            Some(v) => v,
            None => default_cert_validity_seconds(),
        },
        cert_max_cap_centi: match raw.cert_max_cap_centi {
            Some(v) => v,
            None => default_cert_max_cap_centi(),
        },
        cert_delivery_grace_seconds: match raw.cert_delivery_grace_seconds {
            Some(v) => v,
            None => default_cert_delivery_grace_seconds(),
        },
        cert_max_outstanding: match raw.cert_max_outstanding {
            Some(v) => v,
            None => default_cert_max_outstanding(),
        },
    }
}

/// The section of a file that says nothing of it.
pub open spec fn empty_credit() -> RawCredit {
    RawCredit {
        debt_floor_centi: None, cert_validity_seconds: None, cert_max_cap_centi: None, cert_delivery_grace_seconds: None, cert_max_outstanding: None,
    }
}

impl Default for CreditSection {
    fn default() -> (r: Self)
        ensures
            resolved_credit(r, empty_credit()),
    {
        resolve_credit(RawCredit {
            debt_floor_centi: None, cert_validity_seconds: None, cert_max_cap_centi: None, cert_delivery_grace_seconds: None, cert_max_outstanding: None,
        })
    }
}

/// Delay-tolerant-networking retention.
#[derive(Clone, Debug, PartialEq, Eq)]
pub struct DtnSection {
    /// How long a confirmed delivery receipt is retained, in seconds.
    pub receipt_retention_secs: u64,
}

/// [`DtnSection`] as a file has it.
#[derive(Clone, Debug, PartialEq, Eq)]
pub struct RawDtn {
    /// How long a confirmed delivery receipt is retained, in seconds.
    pub receipt_retention_secs: Option<u64>,
}

/// Whether a section is what a file says, with the defaults for what it leaves out.
pub open spec fn resolved_dtn(r: DtnSection, raw: RawDtn) -> bool {
    &&& r.receipt_retention_secs == match raw.receipt_retention_secs {
        Some(v) => v,
        None => 2592000,
    }
}

/// Fills in the defaults.
pub fn resolve_dtn(raw: RawDtn) -> (r: DtnSection)
    ensures
        resolved_dtn(r, raw),
{
    DtnSection {
        receipt_retention_secs: match raw.receipt_retention_secs {
            Some(v) => v,
            None => default_receipt_retention_secs(),
        },
    }
}

/// The section of a file that says nothing of it.
pub open spec fn empty_dtn() -> RawDtn {
    RawDtn {
        receipt_retention_secs: None,
    }
}

impl Default for DtnSection {
    fn default() -> (r: Self)
        ensures
            resolved_dtn(r, empty_dtn()),
    {
        resolve_dtn(RawDtn {
            receipt_retention_secs: None,
        })
    }
}

/// The supervised carrier daemon. Off by default.
#[derive(Clone, Debug, PartialEq, Eq)]
pub struct SidecarSection {
    /// Whether to run the sidecar at all.
    pub enabled: bool,
    /// Path to (or name of) the daemon.
    pub rnsd_path: String,
    /// Directory of the generated configuration.
    pub config_dir: Option<String>,
    /// The version to run against; the one that the supervisor is validated against where
    /// omitted.
    pub pinned_version: Option<String>,
    /// Whether to run against another version anyway.
    pub allow_version_drift: bool,
    /// Base restart backoff in seconds.
    pub restart_backoff_secs: u64,
    /// `host:port` the daemon listens on.
    pub tcp_listen: Option<String>,
    /// `host:port` targets the daemon dials out to.
    pub tcp_peers: Vec<String>,
}

/// [`SidecarSection`] as a file has it.
#[derive(Clone, Debug, PartialEq, Eq)]
pub struct RawSidecar {
    /// Whether to run the sidecar at all.
    pub enabled: Option<bool>,
    /// Path to (or name of) the daemon.
    pub rnsd_path: Option<String>,
    /// Directory of the generated configuration.
    pub config_dir: Option<String>,
    /// The version to run against; the one that the supervisor is validated against where
    /// omitted.
    pub pinned_version: Option<String>,
    /// Whether to run against another version anyway.
    pub allow_version_drift: Option<bool>,
    /// Base restart backoff in seconds.
    pub restart_backoff_secs: Option<u64>,
    /// `host:port` the daemon listens on.
    pub tcp_listen: Option<String>,
    /// `host:port` targets the daemon dials out to.
    pub tcp_peers: Option<Vec<String>>,
}

/// Whether a section is what a file says, with the defaults for what it leaves out.
pub open spec fn resolved_sidecar(r: SidecarSection, raw: RawSidecar) -> bool {
    &&& r.enabled == match raw.enabled {
        Some(v) => v,
        None => false,
    }
    &&& match raw.rnsd_path {
        Some(v) => r.rnsd_path == v,
        None => r.rnsd_path@ == "rnsd"@,
    }
    &&& r.config_dir == raw.config_dir
    &&& r.pinned_version == raw.pinned_version
    &&& r.allow_version_drift == match raw.allow_version_drift {
        Some(v) => v,
        None => false,
    }
    &&& r.restart_backoff_secs == match raw.restart_backoff_secs {
        Some(v) => v,
        None => 5,
    }
    &&& r.tcp_listen == raw.tcp_listen
    &&& match raw.tcp_peers {
        Some(v) => r.tcp_peers == v,
        None => r.tcp_peers@.len() == 0,
    }
}

/// Fills in the defaults.
pub fn resolve_sidecar(raw: RawSidecar) -> (r: SidecarSection)
    ensures
        resolved_sidecar(r, raw),
{
    SidecarSection {
        enabled: match raw.enabled {
            Some(v) => v,
            None => false,
        },
        rnsd_path: match raw.rnsd_path {
            Some(v) => v,
            None => default_rnsd_path(),
        },
        config_dir: raw.config_dir,
        pinned_version: raw.pinned_version,
        allow_version_drift: match raw.allow_version_drift {
            Some(v) => v,
            None => false,
        },
        restart_backoff_secs: match raw.restart_backoff_secs {
            Some(v) => v,
            None => default_restart_backoff_secs(),
        },
        tcp_listen: raw.tcp_listen,
        tcp_peers: match raw.tcp_peers {
            Some(v) => v,
            None => Vec::new(),
        },
    }
}

/// The section of a file that says nothing of it.
pub open spec fn empty_sidecar() -> RawSidecar {
    RawSidecar {
        enabled: None, rnsd_path: None, config_dir: None, pinned_version: None, allow_version_drift: None, restart_backoff_secs: None, tcp_listen: None, tcp_peers: None,
    }
}

impl Default for SidecarSection {
    fn default() -> (r: Self)
        ensures
            resolved_sidecar(r, empty_sidecar()),
    {
        resolve_sidecar(RawSidecar {
            enabled: None, rnsd_path: None, config_dir: None, pinned_version: None, allow_version_drift: None, restart_backoff_secs: None, tcp_listen: None, tcp_peers: None,
        })
    }
}

/// How often the background loops fire.
#[derive(Clone, Debug, PartialEq, Eq)]
pub struct TimersSection {
    /// Settlement-sweep interval in seconds.
    pub sweep_interval_secs: u64,
    /// Gossip-round interval in seconds.
    pub gossip_interval_secs: u64,
    /// Reputation-snapshot refresh interval in seconds.
    pub reputation_refresh_interval_secs: u64,
    /// Listing-expiry sweep interval in seconds.
    pub listing_expiry_interval_secs: u64,
    /// Inquiry-expiry sweep interval in seconds.
    pub inquiry_expiry_interval_secs: u64,
    /// Service-contract charge sweep interval in seconds.
    pub contract_charge_interval_secs: u64,
    /// Governance-enactment sweep interval in seconds.
    pub governance_implementation_interval_secs: u64,
    /// Dispute-resolution sweep interval in seconds.
    pub dispute_resolution_interval_secs: u64,
    /// Receipt prune interval in seconds.
    pub dtn_prune_interval_secs: u64,
}

/// [`TimersSection`] as a file has it.
#[derive(Clone, Debug, PartialEq, Eq)]
pub struct RawTimers {
    /// Settlement-sweep interval in seconds.
    pub sweep_interval_secs: Option<u64>,
    /// Gossip-round interval in seconds.
    pub gossip_interval_secs: Option<u64>,
    /// Reputation-snapshot refresh interval in seconds.
    pub reputation_refresh_interval_secs: Option<u64>,
    /// Listing-expiry sweep interval in seconds.
    pub listing_expiry_interval_secs: Option<u64>,
    /// Inquiry-expiry sweep interval in seconds.
    pub inquiry_expiry_interval_secs: Option<u64>,
    /// Service-contract charge sweep interval in seconds.
    pub contract_charge_interval_secs: Option<u64>,
    /// Governance-enactment sweep interval in seconds.
    pub governance_implementation_interval_secs: Option<u64>,
    /// Dispute-resolution sweep interval in seconds.
    pub dispute_resolution_interval_secs: Option<u64>,
    /// Receipt prune interval in seconds.
    pub dtn_prune_interval_secs: Option<u64>,
}

/// Whether a section is what a file says, with the defaults for what it leaves out.
pub open spec fn resolved_timers(r: TimersSection, raw: RawTimers) -> bool {
    &&& r.sweep_interval_secs == match raw.sweep_interval_secs {
        Some(v) => v,
        None => 30,
    }
    &&& r.gossip_interval_secs == match raw.gossip_interval_secs {
        Some(v) => v,
        None => 5,
    }
    &&& r.reputation_refresh_interval_secs == match raw.reputation_refresh_interval_secs {
        Some(v) => v,
        None => 3600,
    }
    &&& r.listing_expiry_interval_secs == match raw.listing_expiry_interval_secs {
        Some(v) => v,
        None => 300,
    }
    &&& r.inquiry_expiry_interval_secs == match raw.inquiry_expiry_interval_secs {
        Some(v) => v,
        None => 3600,
    }
    &&& r.contract_charge_interval_secs == match raw.contract_charge_interval_secs {
        Some(v) => v,
        None => 300,
    }
    &&& r.governance_implementation_interval_secs == match raw.governance_implementation_interval_secs {
        Some(v) => v,
        None => 3600,
    }
    &&& r.dispute_resolution_interval_secs == match raw.dispute_resolution_interval_secs {
        Some(v) => v,
        None => 3600,
    }
    &&& r.dtn_prune_interval_secs == match raw.dtn_prune_interval_secs {
        Some(v) => v,
        None => 3600,
    }
}

/// Fills in the defaults.
pub fn resolve_timers(raw: RawTimers) -> (r: TimersSection)
    ensures
        resolved_timers(r, raw),
{
    TimersSection {
        sweep_interval_secs: match raw.sweep_interval_secs {
            Some(v) => v,
            None => default_sweep_interval(),
        },
        gossip_interval_secs: match raw.gossip_interval_secs {
            Some(v) => v,
            None => default_gossip_interval(),
        },
        reputation_refresh_interval_secs: match raw.reputation_refresh_interval_secs {
            Some(v) => v,
            None => default_reputation_refresh_interval(),
        },
        listing_expiry_interval_secs: match raw.listing_expiry_interval_secs {
            Some(v) => v,
            None => default_listing_expiry_interval(),
        },
        inquiry_expiry_interval_secs: match raw.inquiry_expiry_interval_secs {
            Some(v) => v,
            None => default_inquiry_expiry_interval(),
        },
        contract_charge_interval_secs: match raw.contract_charge_interval_secs {
            Some(v) => v,
            None => default_contract_charge_interval(),
        },
        governance_implementation_interval_secs: match raw.governance_implementation_interval_secs {
            Some(v) => v,
            None => default_governance_implementation_interval(),
        },
        dispute_resolution_interval_secs: match raw.dispute_resolution_interval_secs {
            Some(v) => v,
            None => default_dispute_resolution_interval(),
        },
        dtn_prune_interval_secs: match raw.dtn_prune_interval_secs {
            Some(v) => v,
            None => default_dtn_prune_interval(),
        },
    }
}

/// The section of a file that says nothing of it.
pub open spec fn empty_timers() -> RawTimers {
    RawTimers {
        sweep_interval_secs: None, gossip_interval_secs: None, reputation_refresh_interval_secs: None, listing_expiry_interval_secs: None, inquiry_expiry_interval_secs: None, contract_charge_interval_secs: None, governance_implementation_interval_secs: None, dispute_resolution_interval_secs: None, dtn_prune_interval_secs: None,
    }
}

impl Default for TimersSection {
    fn default() -> (r: Self)
        ensures
            resolved_timers(r, empty_timers()),
    {
        resolve_timers(RawTimers {
            sweep_interval_secs: None, gossip_interval_secs: None, reputation_refresh_interval_secs: None, listing_expiry_interval_secs: None, inquiry_expiry_interval_secs: None, contract_charge_interval_secs: None, governance_implementation_interval_secs: None, dispute_resolution_interval_secs: None, dtn_prune_interval_secs: None,
        })
    }
}

/// The at-rest encryption profile.
#[derive(Clone, Debug, PartialEq, Eq)]
pub struct StorageSection {
    /// Which at-rest profile this station runs.
    pub at_rest: AtRestProfile,
    /// The encrypted-profile parameters.
    pub encrypted: Option<EncryptedSection>,
}

/// [`StorageSection`] as a file has it.
#[derive(Clone, Debug, PartialEq, Eq)]
pub struct RawStorage {
    /// Which at-rest profile this station runs.
    pub at_rest: Option<AtRestProfile>,
    /// The encrypted-profile parameters.
    pub encrypted: Option<RawEncrypted>,
}

/// Whether a section is what a file says, with the defaults for what it leaves out.
pub open spec fn resolved_storage(r: StorageSection, raw: RawStorage) -> bool {
    &&& r.at_rest == match raw.at_rest {
        Some(v) => v,
        None => AtRestProfile::Plaintext,
    }
    &&& match raw.encrypted {
        Some(v) => r.encrypted is Some && resolved_encrypted(r.encrypted->0, v),
        None => r.encrypted is None,
    }
}

/// Fills in the defaults.
pub fn resolve_storage(raw: RawStorage) -> (r: StorageSection)
    ensures
        resolved_storage(r, raw),
{
    StorageSection {
        at_rest: match raw.at_rest {
            Some(v) => v,
            None => AtRestProfile::Plaintext,
        },
        encrypted: match raw.encrypted {
            Some(v) => Some(resolve_encrypted(v)),
            None => None,
        },
    }
}

/// The section of a file that says nothing of it.
pub open spec fn empty_storage() -> RawStorage {
    RawStorage {
        at_rest: None, encrypted: None,
    }
}

impl Default for StorageSection {
    fn default() -> (r: Self)
        ensures
            resolved_storage(r, empty_storage()),
    {
        resolve_storage(RawStorage {
            at_rest: None, encrypted: None,
        })
    }
}

/// The station's configuration.
#[derive(Clone, Debug, PartialEq, Eq)]
pub struct StationConfig {
    /// Static peer list.
    pub peers: PeersConfig,
    /// Inbound peer-network binding.
    pub network: NetworkConfig,
    /// The mobile-facing surface.
    pub mobile: MobileConfig,
    /// Settlement tuning.
    pub settlement: SettlementSection,
    /// Credit tuning.
    pub credit: CreditSection,
    /// Background-loop intervals.
    pub timers: TimersSection,
    /// Delay-tolerant-networking tuning.
    pub dtn: DtnSection,
    /// The supervised carrier daemon.
    pub sidecar: SidecarSection,
    /// The radio transport.
    pub lora: LoraSection,
    /// The SMS carrier.
    pub sms: SmsSection,
    /// The at-rest encryption profile.
    pub storage: StorageSection,
}

/// The configuration as a file has it. Only the network section is required.
#[derive(Clone, Debug, PartialEq, Eq)]
pub struct RawConfig {
    /// Static peer list.
    pub peers: Option<RawPeers>,
    /// Inbound peer-network binding.
    pub network: RawNetwork,
    /// The mobile-facing surface.
    pub mobile: Option<RawMobile>,
    /// Settlement tuning.
    pub settlement: Option<RawSettlement>,
    /// Credit tuning.
    pub credit: Option<RawCredit>,
    /// Background-loop intervals.
    pub timers: Option<RawTimers>,
    /// Delay-tolerant-networking tuning.
    pub dtn: Option<RawDtn>,
    /// The supervised carrier daemon.
    pub sidecar: Option<RawSidecar>,
    /// The radio transport.
    pub lora: Option<RawLora>,
    /// The SMS carrier.
    pub sms: Option<RawSms>,
    /// The at-rest encryption profile.
    pub storage: Option<RawStorage>,
}

/// Whether a configuration is what a file says, with the defaults for every section and
/// key that it leaves out.
pub open spec fn resolved(r: StationConfig, raw: RawConfig) -> bool {
    &&& resolved_network(r.network, raw.network)
    &&& resolved_peers(
        r.peers,
        match raw.peers {
            Some(v) => v,
            None => empty_peers(),
        },
    )
    &&& resolved_mobile(
        r.mobile,
        match raw.mobile {
            Some(v) => v,
            None => empty_mobile(),
        },
    )
    &&& resolved_settlement(
        r.settlement,
        match raw.settlement {
            Some(v) => v,
            None => empty_settlement(),
        },
    )
    &&& resolved_credit(
        r.credit,
        match raw.credit {
            Some(v) => v,
            None => empty_credit(),
        },
    )
    &&& resolved_timers(
        r.timers,
        match raw.timers {
            Some(v) => v,
            None => empty_timers(),
        },
    )
    &&& resolved_dtn(
        r.dtn,
        match raw.dtn {
            Some(v) => v,
            None => empty_dtn(),
        },
    )
    &&& resolved_sidecar(
        r.sidecar,
        match raw.sidecar {
            Some(v) => v,
            None => empty_sidecar(),
        },
    )
    &&& resolved_lora(
        r.lora,
        match raw.lora {
            Some(v) => v,
            None => empty_lora(),
        },
    )
    &&& resolved_sms(
        r.sms,
        match raw.sms {
            Some(v) => v,
            None => empty_sms(),
        },
    )
    &&& resolved_storage(
        r.storage,
        match raw.storage {
            Some(v) => v,
            None => empty_storage(),
        },
    )
}

/// What the SMS relay is told. `B` is the budget that outbound messages are paced to.
#[derive(Clone, Copy, Debug, PartialEq, Eq)]
pub struct SmsRelayConfig<B> {
    /// The bytes of a chunk that fit one message.
    pub chunk_budget_bytes: usize,
    /// Which inbound senders to process.
    pub allowed_senders: AllowedSenders,
    /// The most inbound texts one sender may send per hour.
    pub max_inbound_per_hour: u32,
    /// How outbound messages are paced.
    pub message_budget: B,
}

impl SmsSection {
    /// The relay configuration this section describes: the chunk budget that
    /// `chunk_budget` derives from the parts a message may span, the registry mode, and
    /// the inbound rate cap. Outbound pacing takes its default.
    pub fn relay_config<B: Default, F: Fn(usize) -> usize>(&self, chunk_budget: F) -> (r:
        SmsRelayConfig<B>)
        requires
            call_requires(chunk_budget, (self.max_parts_per_message,)),
        ensures
            call_ensures(chunk_budget, (self.max_parts_per_message,), r.chunk_budget_bytes),
            r.allowed_senders == self.allowed_senders,
            r.max_inbound_per_hour == self.max_inbound_per_hour,
            call_ensures(B::default, (), r.message_budget),
    {
        SmsRelayConfig {
            chunk_budget_bytes: chunk_budget(self.max_parts_per_message),
            allowed_senders: self.allowed_senders,
            max_inbound_per_hour: self.max_inbound_per_hour,
            message_budget: B::default(),
        }
    }
}

/// Errors loading or creating the configuration.
#[derive(Clone, Debug, PartialEq, Eq)]
pub enum ConfigError {
    /// The file could not be read or written.
    Io {
        /// The path involved.
        path: String,
        /// What the system said.
        source: String,
    },
    /// The file was present but not valid.
    Parse {
        /// The path involved.
        path: String,
        /// What the parser said.
        message: String,
    },
}

impl ConfigError {
    /// What went wrong, in words.
    pub fn message(&self) -> (r: String)
        ensures
            r@ == match self {
                ConfigError::Io { path, source } => "config i/o at "@ + path@ + ": "@ + source@,
                ConfigError::Parse { path, message } => "malformed config at "@ + path@ + ": "@
                    + message@,
            },
    {
        match self {
            ConfigError::Io { path, source } => {
                let mut s = join3("config i/o at ", path.as_str(), ": ");
                s.append(source.as_str());
                s
            },
            ConfigError::Parse { path, message } => {
                let mut s = join3("malformed config at ", path.as_str(), ": ");
                s.append(message.as_str());
                s
            },
        }
    }
}

/// The port that a count of nanoseconds picks, in `7400..=7499`.
pub fn port_for(nanos: Option<u32>) -> (r: u16)
    ensures
        r == 7400 + (match nanos {
            Some(n) => n,
            None => 0,
        }) % 100,
        7400 <= r <= 7499,
{
    let n: u32 = match nanos {
        Some(n) => n,
        None => 0,
    };
    7400 + (n % 100) as u16
}

/// The nanoseconds of a time since the epoch, beyond its whole seconds; none of a clock
/// that stands before it.
pub open spec fn nanos_of(since_epoch: Option<(u64, u32)>) -> u32 {
    match since_epoch {
        Some(t) => t.1,
        None => 0,
    }
}

/// A port in `7400..=7499` that the clock picks: good enough to keep two fresh stations
/// on one host apart. Which time the host clock shows is not stated.
pub fn random_port() -> (r: u16)
    ensures
        exists|t: Option<(u64, u32)>| #[trigger] host_read(t) && r == 7400 + nanos_of(t) % 100,
        7400 <= r <= 7499,
{
    match read_host() {
        Some(t) => port_for(Some(t.1)),
        None => port_for(None),
    }
}

/// Said where a writer has peers.
pub open spec fn writer_with_peers(n: nat) -> Seq<char> {
    "[network] role is \"writer\" but [peers] list has "@ + decimal(n) + " entr"@ + (if n == 1 {
        "y"@
    } else {
        "ies"@
    }) + " — a writer never pulls (ADR-0020 §1). Remove the [peers] list, or set [network] role = \"replica\" to run this station as a read-only copy of the writer's chain."@
}

/// Whether a station with this configuration may start: a writer has no peers.
pub open spec fn role_fits_peers(c: StationConfig) -> bool {
    c.network.role == StationRole::Writer ==> c.peers.list@.len() == 0
}

impl StationConfig {
    /// Fills in the defaults of a file.
    pub fn resolve(raw: RawConfig) -> (r: Self)
        ensures
            resolved(r, raw),
    {
        StationConfig {
            network: resolve_network(raw.network),
            peers: match raw.peers {
                Some(v) => resolve_peers(v),
                None => PeersConfig::default(),
            },
            mobile: match raw.mobile {
                Some(v) => resolve_mobile(v),
                None => MobileConfig::default(),
            },
            settlement: match raw.settlement {
                Some(v) => resolve_settlement(v),
                None => SettlementSection::default(),
            },
            credit: match raw.credit {
                Some(v) => resolve_credit(v),
                None => CreditSection::default(),
            },
            timers: match raw.timers {
                Some(v) => resolve_timers(v),
                None => TimersSection::default(),
            },
            dtn: match raw.dtn {
                Some(v) => resolve_dtn(v),
                None => DtnSection::default(),
            },
            sidecar: match raw.sidecar {
                Some(v) => resolve_sidecar(v),
                None => SidecarSection::default(),
            },
            lora: match raw.lora {
                Some(v) => resolve_lora(v),
                None => LoraSection::default(),
            },
            sms: match raw.sms {
                Some(v) => resolve_sms(v),
                None => SmsSection::default(),
            },
            storage: match raw.storage {
                Some(v) => resolve_storage(v),
                None => StorageSection::default(),
            },
        }
    }

    /// Validates the network role against the peer list: a writer never pulls, so a
    /// writer with peers is refused, with words that name the fix. A replica without
    /// peers is valid.
    pub fn check_role_peers(&self) -> (r: Result<(), String>)
        ensures
            match r {
                Ok(_) => role_fits_peers(*self),
                Err(m) => !role_fits_peers(*self) && m@ == writer_with_peers(
                    self.peers.list@.len(),
                ),
            },
    {
        if self.network.role == StationRole::Writer && self.peers.list.len() > 0 {
            let n: usize = self.peers.list.len();
            let shown = decimal_u64(n as u64);
            let mut m = join3(
                "[network] role is \"writer\" but [peers] list has ",
                shown.as_str(),
                " entr",
            );
            if n == 1 {
                m.append("y");
            } else {
                m.append("ies");
            }
            m.append(
                " — a writer never pulls (ADR-0020 §1). Remove the [peers] list, or set [network] role = \"replica\" to run this station as a read-only copy of the writer's chain.",
            );
            return Err(m);
        }
        Ok(())
    }

    /// The configuration as the file that keeps it has it.
    pub fn into_raw(self) -> (r: RawConfig)
        ensures
            r == raw_of(self),
    {
        RawConfig {
            peers: Some(
                RawPeers {
                    list: Some(self.peers.list),
                },
            ),
            network: RawNetwork {
                listen: self.network.listen,
                role: Some(self.network.role),
            },
            mobile: Some(
                RawMobile {
                    listen: Some(self.mobile.listen),
                    name: self.mobile.name,
                    advertise: Some(self.mobile.advertise),
                    subscribe_hold_secs: Some(self.mobile.subscribe_hold_secs),
                },
            ),
            settlement: Some(
                RawSettlement {
                    window_seconds: self.settlement.window_seconds,
                    tier1_window_seconds: Some(self.settlement.tier1_window_seconds),
                    tier2_window_seconds: Some(self.settlement.tier2_window_seconds),
                },
            ),
            credit: Some(
                RawCredit {
                    debt_floor_centi: Some(self.credit.debt_floor_centi),
                    cert_validity_seconds: Some(self.credit.cert_validity_seconds),
                    cert_max_cap_centi: Some(self.credit.cert_max_cap_centi),
                    cert_delivery_grace_seconds: Some(self.credit.cert_delivery_grace_seconds),
                    cert_max_outstanding: Some(self.credit.cert_max_outstanding),
                },
            ),
            timers: Some(
                RawTimers {
                    sweep_interval_secs: Some(self.timers.sweep_interval_secs),
                    gossip_interval_secs: Some(self.timers.gossip_interval_secs),
                    reputation_refresh_interval_secs: Some(self.timers.reputation_refresh_interval_secs),
                    listing_expiry_interval_secs: Some(self.timers.listing_expiry_interval_secs),
                    inquiry_expiry_interval_secs: Some(self.timers.inquiry_expiry_interval_secs),
                    contract_charge_interval_secs: Some(self.timers.contract_charge_interval_secs),
                    governance_implementation_interval_secs: Some(self.timers.governance_implementation_interval_secs),
                    dispute_resolution_interval_secs: Some(self.timers.dispute_resolution_interval_secs),
                    dtn_prune_interval_secs: Some(self.timers.dtn_prune_interval_secs),
                },
            ),
            dtn: Some(
                RawDtn {
                    receipt_retention_secs: Some(self.dtn.receipt_retention_secs),
                },
            ),
            sidecar: Some(
                RawSidecar {
                    enabled: Some(self.sidecar.enabled),
                    rnsd_path: Some(self.sidecar.rnsd_path),
                    config_dir: self.sidecar.config_dir,
                    pinned_version: self.sidecar.pinned_version,
                    allow_version_drift: Some(self.sidecar.allow_version_drift),
                    restart_backoff_secs: Some(self.sidecar.restart_backoff_secs),
                    tcp_listen: self.sidecar.tcp_listen,
                    tcp_peers: Some(self.sidecar.tcp_peers),
                },
            ),
            lora: Some(
                RawLora {
                    raw_bytes_per_sec_bits: Some(self.lora.raw_bytes_per_sec_bits),
                    duty_cycle_percent_bits: Some(self.lora.duty_cycle_percent_bits),
                    burst_bytes: Some(self.lora.burst_bytes),
                    frame_bytes: Some(self.lora.frame_bytes),
                    adapter_script: self.lora.adapter_script,
                    adapter_python: Some(self.lora.adapter_python),
                    push_rescan_secs: Some(self.lora.push_rescan_secs),
                    push_ttl_secs: Some(self.lora.push_ttl_secs),
                    rnode: match self.lora.rnode {
                        Some(n) => Some(
                            RawRNode {
                                port: n.port,
                                frequency_hz: n.frequency_hz,
                                tx_power_dbm: n.tx_power_dbm,
                                bandwidth_hz: Some(n.bandwidth_hz),
                                spreading_factor: Some(n.spreading_factor),
                                coding_rate: Some(n.coding_rate),
                            },
                        ),
                        None => None,
                    },
                },
            ),
            sms: Some(
                RawSms {
                    enabled: Some(self.sms.enabled),
                    station_msisdn: self.sms.station_msisdn,
                    max_parts_per_message: Some(self.sms.max_parts_per_message),
                    allowed_senders: Some(self.sms.allowed_senders),
                    max_inbound_per_hour: Some(self.sms.max_inbound_per_hour),
                },
            ),
            storage: Some(
                RawStorage {
                    at_rest: Some(self.storage.at_rest),
                    encrypted: match self.storage.encrypted {
                        Some(n) => Some(
                            RawEncrypted {
                                container_path: n.container_path,
                                state_dir: n.state_dir,
                                threshold: Some(n.threshold),
                            },
                        ),
                        None => None,
                    },
                },
            ),
        }
    }

    /// A fresh configuration that listens on a port of the loopback: no peers, every
    /// section at its defaults.
    pub fn default_on(port: u16) -> (r: Self)
        ensures
            r.network.listen@ == "127.0.0.1:"@ + decimal(port as nat),
            r.network.role == StationRole::Writer,
            sections_at_defaults(r),
    {
        let shown = decimal_u64(port as u64);
        StationConfig {
            network: NetworkConfig {
                listen: join2("127.0.0.1:", shown.as_str()),
                role: StationRole::Writer,
            },
            peers: PeersConfig::default(),
            mobile: MobileConfig::default(),
            settlement: SettlementSection::default(),
            credit: CreditSection::default(),
            timers: TimersSection::default(),
            dtn: DtnSection::default(),
            sidecar: SidecarSection::default(),
            lora: LoraSection::default(),
            sms: SmsSection::default(),
            storage: StorageSection::default(),
        }
    }

    /// A fresh default: no peers, a loopback port that the clock picks, every section at
    /// its defaults.
    pub fn default_config() -> (r: Self)
        ensures
            fresh(r),
    {
        let port = random_port();
        let c = StationConfig::default_on(port);
        assert(c.network.listen@ == "127.0.0.1:"@ + decimal(port as nat));
        c
    }
}

/// A configuration as the file that keeps it has it: every key that has a value is
/// written.
pub open spec fn raw_of(c: StationConfig) -> RawConfig {
    RawConfig {
        peers: Some(
            RawPeers {
                list: Some(c.peers.list),
            },
        ),
        network: RawNetwork {
            listen: c.network.listen,
            role: Some(c.network.role),
        },
        mobile: Some(
            RawMobile {
                listen: Some(c.mobile.listen),
                name: c.mobile.name,
                advertise: Some(c.mobile.advertise),
                subscribe_hold_secs: Some(c.mobile.subscribe_hold_secs),
            },
        ),
        settlement: Some(
            RawSettlement {
                window_seconds: c.settlement.window_seconds,
                tier1_window_seconds: Some(c.settlement.tier1_window_seconds),
                tier2_window_seconds: Some(c.settlement.tier2_window_seconds),
            },
        ),
        credit: Some(
            RawCredit {
                debt_floor_centi: Some(c.credit.debt_floor_centi),
                cert_validity_seconds: Some(c.credit.cert_validity_seconds),
                cert_max_cap_centi: Some(c.credit.cert_max_cap_centi),
                cert_delivery_grace_seconds: Some(c.credit.cert_delivery_grace_seconds),
                cert_max_outstanding: Some(c.credit.cert_max_outstanding),
            },
        ),
        timers: Some(
            RawTimers {
                sweep_interval_secs: Some(c.timers.sweep_interval_secs),
                gossip_interval_secs: Some(c.timers.gossip_interval_secs),
                reputation_refresh_interval_secs: Some(c.timers.reputation_refresh_interval_secs),
                listing_expiry_interval_secs: Some(c.timers.listing_expiry_interval_secs),
                inquiry_expiry_interval_secs: Some(c.timers.inquiry_expiry_interval_secs),
                contract_charge_interval_secs: Some(c.timers.contract_charge_interval_secs),
                governance_implementation_interval_secs: Some(c.timers.governance_implementation_interval_secs),
                dispute_resolution_interval_secs: Some(c.timers.dispute_resolution_interval_secs),
                dtn_prune_interval_secs: Some(c.timers.dtn_prune_interval_secs),
            },
        ),
        dtn: Some(
            RawDtn {
                receipt_retention_secs: Some(c.dtn.receipt_retention_secs),
            },
        ),
        sidecar: Some(
            RawSidecar {
                enabled: Some(c.sidecar.enabled),
                rnsd_path: Some(c.sidecar.rnsd_path),
                config_dir: c.sidecar.config_dir,
                pinned_version: c.sidecar.pinned_version,
                allow_version_drift: Some(c.sidecar.allow_version_drift),
                restart_backoff_secs: Some(c.sidecar.restart_backoff_secs),
                tcp_listen: c.sidecar.tcp_listen,
                tcp_peers: Some(c.sidecar.tcp_peers),
            },
        ),
        lora: Some(
            RawLora {
                raw_bytes_per_sec_bits: Some(c.lora.raw_bytes_per_sec_bits),
                duty_cycle_percent_bits: Some(c.lora.duty_cycle_percent_bits),
                burst_bytes: Some(c.lora.burst_bytes),
                frame_bytes: Some(c.lora.frame_bytes),
                adapter_script: c.lora.adapter_script,
                adapter_python: Some(c.lora.adapter_python),
                push_rescan_secs: Some(c.lora.push_rescan_secs),
                push_ttl_secs: Some(c.lora.push_ttl_secs),
                rnode: match c.lora.rnode {
                    Some(n) => Some(
                        RawRNode {
                            port: n.port,
                            frequency_hz: n.frequency_hz,
                            tx_power_dbm: n.tx_power_dbm,
                            bandwidth_hz: Some(n.bandwidth_hz),
                            spreading_factor: Some(n.spreading_factor),
                            coding_rate: Some(n.coding_rate),
                        },
                    ),
                    None => None,
                },
            },
        ),
        sms: Some(
            RawSms {
                enabled: Some(c.sms.enabled),
                station_msisdn: c.sms.station_msisdn,
                max_parts_per_message: Some(c.sms.max_parts_per_message),
                allowed_senders: Some(c.sms.allowed_senders),
                max_inbound_per_hour: Some(c.sms.max_inbound_per_hour),
            },
        ),
        storage: Some(
            RawStorage {
                at_rest: Some(c.storage.at_rest),
                encrypted: match c.storage.encrypted {
                    Some(n) => Some(
                        RawEncrypted {
                            container_path: n.container_path,
                            state_dir: n.state_dir,
                            threshold: Some(n.threshold),
                        },
                    ),
                    None => None,
                },
            },
        ),
    }
}

/// Whether a configuration is a fresh default: a writer without peers that listens on a
/// loopback port which a reading of the host clock picked, every section at its defaults.
pub open spec fn fresh(c: StationConfig) -> bool {
    &&& exists|t: Option<(u64, u32)>| #[trigger]
        host_read(t) && c.network.listen@ == "127.0.0.1:"@ + decimal(
            (7400 + nanos_of(t) % 100) as nat,
        )
    &&& c.network.role == StationRole::Writer
    &&& sections_at_defaults(c)
}

/// Whether every section but the network's is at its defaults.
pub open spec fn sections_at_defaults(c: StationConfig) -> bool {
    &&& resolved_peers(c.peers, empty_peers())
    &&& resolved_mobile(c.mobile, empty_mobile())
    &&& resolved_settlement(c.settlement, empty_settlement())
    &&& resolved_credit(c.credit, empty_credit())
    &&& resolved_timers(c.timers, empty_timers())
    &&& resolved_dtn(c.dtn, empty_dtn())
    &&& resolved_sidecar(c.sidecar, empty_sidecar())
    &&& resolved_lora(c.lora, empty_lora())
    &&& resolved_sms(c.sms, empty_sms())
    &&& resolved_storage(c.storage, empty_storage())
}

/// A station pulls or admits, never both and never neither.
pub proof fn law_a_station_pulls_or_admits(role: StationRole)
    ensures
        role.takes_from_peers() != role.takes_from_members(),
{
}

/// A file that names only where to listen gives every other section its defaults, and a
/// writer that may start.
pub proof fn law_a_minimal_file_is_a_default_writer(c: StationConfig, raw: RawConfig)
    requires
        resolved(c, raw),
        raw.network.role is None,
        raw.peers is None,
        raw.mobile is None,
        raw.settlement is None,
        raw.credit is None,
        raw.timers is None,
        raw.dtn is None,
        raw.sidecar is None,
        raw.lora is None,
        raw.sms is None,
        raw.storage is None,
    ensures
        sections_at_defaults(c),
        c.network.role == StationRole::Writer,
        role_fits_peers(c),
{
}

/// A generated configuration may start.
pub proof fn law_a_fresh_station_may_start(c: StationConfig)
    requires
        sections_at_defaults(c),
    ensures
        role_fits_peers(c),
{
}

/// What was found where the configuration file should be.
#[derive(Debug, PartialEq, Eq)]
pub enum ConfigFile {
    /// There is no file.
    Missing,
    /// The file could not be read, and what the system said.
    Unreadable(String),
    /// The file was read: what it says, or what the parser said.
    Text(Result<RawConfig, String>),
}

/// What comes of it.
#[derive(Debug, PartialEq, Eq)]
pub enum LoadStep {
    /// The configuration of the file, which is left as it is.
    Use(StationConfig),
    /// A fresh configuration, to be written to the file.
    Create(StationConfig),
    /// An error; the file is left as it is.
    Fail(ConfigError),
}

/// Whether a step is what comes of what was found at a path.
pub open spec fn loads(step: LoadStep, path: Seq<char>, found: ConfigFile) -> bool {
    match found {
        ConfigFile::Missing => step matches LoadStep::Create(c) && fresh(c),
        ConfigFile::Unreadable(e) => step matches LoadStep::Fail(
            ConfigError::Io { path: p, source },
        ) && p@ == path && source == e,
        ConfigFile::Text(Ok(raw)) => step matches LoadStep::Use(c) && resolved(c, raw),
        ConfigFile::Text(Err(e)) => step matches LoadStep::Fail(
            ConfigError::Parse { path: p, message },
        ) && p@ == path && message == e,
    }
}

/// Loads the configuration, or makes a default to be written where the file is missing.
/// A malformed file is an error, and is not written over.
pub fn load_step(path: &str, found: ConfigFile) -> (r: LoadStep)
    ensures
        loads(r, path@, found),
{
    match found {
        ConfigFile::Missing => LoadStep::Create(StationConfig::default_config()),
        ConfigFile::Unreadable(source) => LoadStep::Fail(
            ConfigError::Io { path: path.to_owned(), source },
        ),
        ConfigFile::Text(Ok(raw)) => LoadStep::Use(StationConfig::resolve(raw)),
        ConfigFile::Text(Err(message)) => LoadStep::Fail(
            ConfigError::Parse { path: path.to_owned(), message },
        ),
    }
}

/// What stands at the path after a step, if what was written can be read back.
pub open spec fn left_behind(found: ConfigFile, step: LoadStep) -> ConfigFile {
    match step {
        LoadStep::Create(c) => ConfigFile::Text(Ok(raw_of(c))),
        _ => found,
    }
}

/// A file that is there is left as it was, and a malformed one is an error that says what
/// the parser said.
pub proof fn law_a_config_that_is_there_is_left_alone(
    step: LoadStep,
    path: Seq<char>,
    found: ConfigFile,
)
    requires
        loads(step, path, found),
        found !is Missing,
    ensures
        left_behind(found, step) == found,
        found matches ConfigFile::Text(Err(e)) ==> step matches LoadStep::Fail(
            ConfigError::Parse { path: p, message },
        ) && p@ == path && message == e,
{
}

/// A missing file is created, with a fresh configuration that may start, and the next load
/// reads back the one that was written.
pub proof fn law_a_missing_config_is_created_once(
    first: LoadStep,
    second: LoadStep,
    path: Seq<char>,
)
    requires
        loads(first, path, ConfigFile::Missing),
        loads(second, path, left_behind(ConfigFile::Missing, first)),
    ensures
        first matches LoadStep::Create(c) && fresh(c) && role_fits_peers(c) && second
            == LoadStep::Use(c),
{
    let c = first->Create_0;
    let again = second->Use_0;
    law_a_saved_config_reads_back(c, again);
}

/// A configuration that was saved is the one that its file resolves to.
pub proof fn law_a_saved_config_reads_back(c: StationConfig, again: StationConfig)
    requires
        resolved(again, raw_of(c)),
    ensures
        again == c,
{
    assert(again.lora.rnode == c.lora.rnode);
    assert(again.storage.encrypted == c.storage.encrypted);
}

/// What a file says of the encrypted profile stands, key by key, whatever it leaves out.
pub proof fn law_set_keys_of_encrypted_stand(raw: RawEncrypted, r: EncryptedSection)
    requires
        call_ensures(resolve_encrypted, (raw,), r),
    ensures
        r.container_path == raw.container_path,
        r.state_dir == raw.state_dir,
        raw.threshold matches Some(v) ==> r.threshold == v,
{
}

/// What a file says of the SMS carrier stands, key by key, whatever it leaves out.
pub proof fn law_set_keys_of_sms_stand(raw: RawSms, r: SmsSection)
    requires
        call_ensures(resolve_sms, (raw,), r),
    ensures
        raw.enabled matches Some(v) ==> r.enabled == v,
        r.station_msisdn == raw.station_msisdn,
        raw.max_parts_per_message matches Some(v) ==> r.max_parts_per_message == v,
        raw.allowed_senders matches Some(v) ==> r.allowed_senders == v,
        raw.max_inbound_per_hour matches Some(v) ==> r.max_inbound_per_hour == v,
{
}

/// What a file says of the radio stands, key by key, whatever it leaves out.
pub proof fn law_set_keys_of_rnode_stand(raw: RawRNode, r: RNodeSection)
    requires
        call_ensures(resolve_rnode, (raw,), r),
    ensures
        r.port == raw.port,
        r.frequency_hz == raw.frequency_hz,
        r.tx_power_dbm == raw.tx_power_dbm,
        raw.bandwidth_hz matches Some(v) ==> r.bandwidth_hz == v,
        raw.spreading_factor matches Some(v) ==> r.spreading_factor == v,
        raw.coding_rate matches Some(v) ==> r.coding_rate == v,
{
}

/// What a file says of the radio transport stands, key by key, whatever it leaves out.
pub proof fn law_set_keys_of_lora_stand(raw: RawLora, r: LoraSection)
    requires
        call_ensures(resolve_lora, (raw,), r),
    ensures
        raw.raw_bytes_per_sec_bits matches Some(v) ==> r.raw_bytes_per_sec_bits == v,
        raw.duty_cycle_percent_bits matches Some(v) ==> r.duty_cycle_percent_bits == v,
        raw.burst_bytes matches Some(v) ==> r.burst_bytes == v,
        raw.frame_bytes matches Some(v) ==> r.frame_bytes == v,
        r.adapter_script == raw.adapter_script,
        raw.adapter_python matches Some(v) ==> r.adapter_python == v,
        raw.push_rescan_secs matches Some(v) ==> r.push_rescan_secs == v,
        raw.push_ttl_secs matches Some(v) ==> r.push_ttl_secs == v,
        r.rnode is Some <==> raw.rnode is Some,
{
}

/// What a file says of the peer list stands, key by key, whatever it leaves out.
pub proof fn law_set_keys_of_peers_stand(raw: RawPeers, r: PeersConfig)
    requires
        call_ensures(resolve_peers, (raw,), r),
    ensures
        raw.list matches Some(v) ==> r.list == v,
{
}

/// What a file says of the network stands, key by key, whatever it leaves out.
pub proof fn law_set_keys_of_network_stand(raw: RawNetwork, r: NetworkConfig)
    requires
        call_ensures(resolve_network, (raw,), r),
    ensures
        r.listen == raw.listen,
        raw.role matches Some(v) ==> r.role == v,
{
}

/// What a file says of the mobile surface stands, key by key, whatever it leaves out.
pub proof fn law_set_keys_of_mobile_stand(raw: RawMobile, r: MobileConfig)
    requires
        call_ensures(resolve_mobile, (raw,), r),
    ensures
        raw.listen matches Some(v) ==> r.listen == v,
        r.name == raw.name,
        raw.advertise matches Some(v) ==> r.advertise == v,
        raw.subscribe_hold_secs matches Some(v) ==> r.subscribe_hold_secs == v,
{
}

/// What a file says of settlement stands, key by key, whatever it leaves out.
pub proof fn law_set_keys_of_settlement_stand(raw: RawSettlement, r: SettlementSection)
    requires
        call_ensures(resolve_settlement, (raw,), r),
    ensures
        r.window_seconds == raw.window_seconds,
        raw.tier1_window_seconds matches Some(v) ==> r.tier1_window_seconds == v,
        raw.tier2_window_seconds matches Some(v) ==> r.tier2_window_seconds == v,
{
}

/// What a file says of credit stands, key by key, whatever it leaves out.
pub proof fn law_set_keys_of_credit_stand(raw: RawCredit, r: CreditSection)
    requires
        call_ensures(resolve_credit, (raw,), r),
    ensures
        raw.debt_floor_centi matches Some(v) ==> r.debt_floor_centi == v,
        raw.cert_validity_seconds matches Some(v) ==> r.cert_validity_seconds == v,
        raw.cert_max_cap_centi matches Some(v) ==> r.cert_max_cap_centi == v,
        raw.cert_delivery_grace_seconds matches Some(v) ==> r.cert_delivery_grace_seconds == v,
        raw.cert_max_outstanding matches Some(v) ==> r.cert_max_outstanding == v,
{
}

/// What a file says of delivery stands, key by key, whatever it leaves out.
pub proof fn law_set_keys_of_dtn_stand(raw: RawDtn, r: DtnSection)
    requires
        call_ensures(resolve_dtn, (raw,), r),
    ensures
        raw.receipt_retention_secs matches Some(v) ==> r.receipt_retention_secs == v,
{
}

/// What a file says of the carrier daemon stands, key by key, whatever it leaves out.
pub proof fn law_set_keys_of_sidecar_stand(raw: RawSidecar, r: SidecarSection)
    requires
        call_ensures(resolve_sidecar, (raw,), r),
    ensures
        raw.enabled matches Some(v) ==> r.enabled == v,
        raw.rnsd_path matches Some(v) ==> r.rnsd_path == v,
        r.config_dir == raw.config_dir,
        r.pinned_version == raw.pinned_version,
        raw.allow_version_drift matches Some(v) ==> r.allow_version_drift == v,
        raw.restart_backoff_secs matches Some(v) ==> r.restart_backoff_secs == v,
        r.tcp_listen == raw.tcp_listen,
        raw.tcp_peers matches Some(v) ==> r.tcp_peers == v,
{
}

/// What a file says of the timers stands, key by key, whatever it leaves out.
pub proof fn law_set_keys_of_timers_stand(raw: RawTimers, r: TimersSection)
    requires
        call_ensures(resolve_timers, (raw,), r),
    ensures
        raw.sweep_interval_secs matches Some(v) ==> r.sweep_interval_secs == v,
        raw.gossip_interval_secs matches Some(v) ==> r.gossip_interval_secs == v,
        raw.reputation_refresh_interval_secs matches Some(v) ==> r.reputation_refresh_interval_secs == v,
        raw.listing_expiry_interval_secs matches Some(v) ==> r.listing_expiry_interval_secs == v,
        raw.inquiry_expiry_interval_secs matches Some(v) ==> r.inquiry_expiry_interval_secs == v,
        raw.contract_charge_interval_secs matches Some(v) ==> r.contract_charge_interval_secs == v,
        raw.governance_implementation_interval_secs matches Some(v) ==> r.governance_implementation_interval_secs == v,
        raw.dispute_resolution_interval_secs matches Some(v) ==> r.dispute_resolution_interval_secs == v,
        raw.dtn_prune_interval_secs matches Some(v) ==> r.dtn_prune_interval_secs == v,
{
}

/// What a file says of the storage stands, key by key, whatever it leaves out.
pub proof fn law_set_keys_of_storage_stand(raw: RawStorage, r: StorageSection)
    requires
        call_ensures(resolve_storage, (raw,), r),
    ensures
        raw.at_rest matches Some(v) ==> r.at_rest == v,
        r.encrypted is Some <==> raw.encrypted is Some,
{
}

/// A configuration that is turned into its file and read from it again is the same.
pub proof fn law_a_config_survives_its_file(c: StationConfig, raw: RawConfig, again: StationConfig)
    requires
        call_ensures(StationConfig::into_raw, (c,), raw),
        call_ensures(StationConfig::resolve, (raw,), again),
    ensures
        again == c,
{
    law_a_saved_config_reads_back(c, again);
}

/// A station may start exactly where it is a replica or has no peers.
pub proof fn law_only_a_replica_has_peers(c: StationConfig, r: Result<(), String>)
    requires
        call_ensures(StationConfig::check_role_peers, (&c,), r),
    ensures
        r is Ok <==> c.network.role == StationRole::Replica || c.peers.list@.len() == 0,
{
}

} // verus!
