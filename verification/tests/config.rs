use rrn_station::config::{
    load_step, port_for, random_port, role_named, AllowedSenders, AtRestProfile, ConfigError,
    ConfigFile, LoadStep, RawConfig, RawCredit, RawDtn, RawEncrypted, RawLora, RawMobile, RawNetwork, RawPeers, RawRNode, RawSettlement,
    RawSidecar, RawSms, RawStorage, RawTimers, StationConfig, StationRole,
    DEFAULT_CERT_DELIVERY_GRACE_SECS, DEFAULT_CERT_MAX_CAP_CENTI, DEFAULT_CERT_MAX_OUTSTANDING,
    DEFAULT_CERT_VALIDITY_SECS, DEFAULT_DEBT_FLOOR_CENTI,
    DEFAULT_TIER1_WINDOW_SECONDS, DEFAULT_TIER2_WINDOW_SECONDS,
};

/// One table of a file.
struct Section(Option<toml::Table>);

impl Section {
    fn of(table: &toml::Table, name: &str) -> Section {
        Section(table.get(name).map(|v| v.as_table().unwrap().clone()))
    }

    fn value(&self, key: &str) -> Option<toml::Value> {
        self.0.as_ref().and_then(|t| t.get(key).cloned())
    }

    fn text(&self, key: &str) -> Option<String> {
        self.value(key).map(|v| v.as_str().unwrap().to_string())
    }

    fn flag(&self, key: &str) -> Option<bool> {
        self.value(key).map(|v| v.as_bool().unwrap())
    }

    fn number(&self, key: &str) -> Option<i64> {
        self.value(key).map(|v| v.as_integer().unwrap())
    }

    fn count(&self, key: &str) -> Option<u64> {
        self.number(key).map(|n| n as u64)
    }

    fn rate(&self, key: &str) -> Option<u64> {
        self.value(key).map(|v| v.as_float().unwrap().to_bits())
    }

    fn list(&self, key: &str) -> Option<Vec<String>> {
        self.value(key).map(|v| {
            v.as_array().unwrap().iter().map(|x| x.as_str().unwrap().to_string()).collect()
        })
    }

    fn section(&self, key: &str) -> Section {
        Section(self.value(key).map(|v| v.as_table().unwrap().clone()))
    }

    fn if_there<T>(&self, value: T) -> Option<T> {
        if self.0.is_some() {
            Some(value)
        } else {
            None
        }
    }
}

/// Reads a file and fills in its defaults.
fn parse(text: &str) -> StationConfig {
    let file: toml::Table = text.parse().unwrap();
    let network = Section::of(&file, "network");
    let peers = Section::of(&file, "peers");
    let mobile = Section::of(&file, "mobile");
    let settlement = Section::of(&file, "settlement");
    let credit = Section::of(&file, "credit");
    let timers = Section::of(&file, "timers");
    let dtn = Section::of(&file, "dtn");
    let sidecar = Section::of(&file, "sidecar");
    let lora = Section::of(&file, "lora");
    let rnode = lora.section("rnode");
    let sms = Section::of(&file, "sms");
    let storage = Section::of(&file, "storage");
    let encrypted = storage.section("encrypted");
    StationConfig::resolve(RawConfig {
        network: RawNetwork {
            listen: network.text("listen").unwrap(),
            role: network.text("role").map(|r| match r.as_str() {
                "writer" => StationRole::Writer,
                "replica" => StationRole::Replica,
                other => panic!("{other}"),
            }),
        },
        peers: peers.if_there(RawPeers { list: peers.list("list") }),
        mobile: mobile.if_there(RawMobile {
            listen: mobile.text("listen"),
            name: mobile.text("name"),
            advertise: mobile.flag("advertise"),
            subscribe_hold_secs: mobile.count("subscribe_hold_secs"),
        }),
        settlement: settlement.if_there(RawSettlement {
            window_seconds: settlement.count("window_seconds"),
            tier1_window_seconds: settlement.count("tier1_window_seconds"),
            tier2_window_seconds: settlement.count("tier2_window_seconds"),
        }),
        credit: credit.if_there(RawCredit {
            debt_floor_centi: credit.number("debt_floor_centi"),
            cert_validity_seconds: credit.number("cert_validity_seconds"),
            cert_max_cap_centi: credit.number("cert_max_cap_centi"),
            cert_delivery_grace_seconds: credit.number("cert_delivery_grace_seconds"),
            cert_max_outstanding: credit.number("cert_max_outstanding").map(|n| n as u32),
        }),
        timers: timers.if_there(RawTimers {
            sweep_interval_secs: timers.count("sweep_interval_secs"),
            gossip_interval_secs: timers.count("gossip_interval_secs"),
            reputation_refresh_interval_secs: timers.count("reputation_refresh_interval_secs"),
            listing_expiry_interval_secs: timers.count("listing_expiry_interval_secs"),
            inquiry_expiry_interval_secs: timers.count("inquiry_expiry_interval_secs"),
            contract_charge_interval_secs: timers.count("contract_charge_interval_secs"),
            governance_implementation_interval_secs: timers
                .count("governance_implementation_interval_secs"),
            dispute_resolution_interval_secs: timers.count("dispute_resolution_interval_secs"),
            dtn_prune_interval_secs: timers.count("dtn_prune_interval_secs"),
        }),
        dtn: dtn.if_there(RawDtn { receipt_retention_secs: dtn.count("receipt_retention_secs") }),
        sidecar: sidecar.if_there(RawSidecar {
            enabled: sidecar.flag("enabled"),
            rnsd_path: sidecar.text("rnsd_path"),
            config_dir: sidecar.text("config_dir"),
            pinned_version: sidecar.text("pinned_version"),
            allow_version_drift: sidecar.flag("allow_version_drift"),
            restart_backoff_secs: sidecar.count("restart_backoff_secs"),
            tcp_listen: sidecar.text("tcp_listen"),
            tcp_peers: sidecar.list("tcp_peers"),
        }),
        lora: lora.if_there(RawLora {
            raw_bytes_per_sec_bits: lora.rate("raw_bytes_per_sec"),
            duty_cycle_percent_bits: lora.rate("duty_cycle_percent"),
            burst_bytes: lora.number("burst_bytes").map(|n| n as u32),
            frame_bytes: lora.number("frame_bytes").map(|n| n as usize),
            adapter_script: lora.text("adapter_script"),
            adapter_python: lora.text("adapter_python"),
            push_rescan_secs: lora.number("push_rescan_secs"),
            push_ttl_secs: lora.number("push_ttl_secs"),
            rnode: match &rnode.0 {
                None => None,
                Some(_) => Some(RawRNode {
                    port: rnode.text("port").unwrap(),
                    frequency_hz: rnode.count("frequency_hz").unwrap(),
                    tx_power_dbm: rnode.number("tx_power_dbm").unwrap() as i32,
                    bandwidth_hz: rnode.count("bandwidth_hz"),
                    spreading_factor: rnode.number("spreading_factor").map(|n| n as u8),
                    coding_rate: rnode.number("coding_rate").map(|n| n as u8),
                }),
            },
        }),
        sms: sms.if_there(RawSms {
            enabled: sms.flag("enabled"),
            station_msisdn: sms.text("station_msisdn"),
            max_parts_per_message: sms.number("max_parts_per_message").map(|n| n as usize),
            allowed_senders: sms.text("allowed_senders").map(|s| match s.as_str() {
                "paired" => AllowedSenders::Paired,
                "open" => AllowedSenders::Open,
                other => panic!("{other}"),
            }),
            max_inbound_per_hour: sms.number("max_inbound_per_hour").map(|n| n as u32),
        }),
        storage: storage.if_there(RawStorage {
            at_rest: storage.text("at_rest").map(|s| match s.as_str() {
                "plaintext" => AtRestProfile::Plaintext,
                "encrypted" => AtRestProfile::Encrypted,
                other => panic!("{other}"),
            }),
            encrypted: encrypted.if_there(RawEncrypted {
                container_path: encrypted.text("container_path"),
                state_dir: encrypted.text("state_dir"),
                threshold: encrypted.number("threshold").map(|n| n as u8),
            }),
        }),
    })
}

#[test]
fn minimal_file_parses_with_defaults() {
    let text = r#"
        [peers]
        list = ["127.0.0.1:7412"]

        [network]
        listen = "127.0.0.1:7411"
    "#;
    let cfg = parse(text);
    assert_eq!(cfg.peers.list, vec!["127.0.0.1:7412"]);
    assert_eq!(cfg.network.listen, "127.0.0.1:7411");
    // A config written before [network] role existed is a writer.
    assert_eq!(cfg.network.role, StationRole::Writer);
    // Optional sections fall back to defaults.
    assert_eq!(cfg.settlement.window_seconds, None);
    assert_eq!(cfg.settlement.tier1_window_seconds, DEFAULT_TIER1_WINDOW_SECONDS);
    assert_eq!(cfg.settlement.tier2_window_seconds, DEFAULT_TIER2_WINDOW_SECONDS);
    assert_eq!(cfg.timers.sweep_interval_secs, 30);
    assert_eq!(cfg.timers.gossip_interval_secs, 5);
    // DTN retention/prune fall back to their protocol defaults.
    assert_eq!(cfg.timers.dtn_prune_interval_secs, 3600);
    assert_eq!(cfg.dtn.receipt_retention_secs, 30 * 24 * 60 * 60);
    // Credit/certificate parameters fall back to the protocol defaults.
    assert_eq!(cfg.credit.debt_floor_centi, DEFAULT_DEBT_FLOOR_CENTI);
    assert_eq!(cfg.credit.cert_validity_seconds, DEFAULT_CERT_VALIDITY_SECS);
    assert_eq!(cfg.credit.cert_max_cap_centi, DEFAULT_CERT_MAX_CAP_CENTI);
    assert_eq!(cfg.credit.cert_delivery_grace_seconds, DEFAULT_CERT_DELIVERY_GRACE_SECS);
    assert_eq!(cfg.credit.cert_max_outstanding, DEFAULT_CERT_MAX_OUTSTANDING);
    // A config written before [mobile] existed still parses, and advertises
    // on all interfaces with a derived name.
    assert_eq!(cfg.mobile.listen, "0.0.0.0:7500");
    assert!(cfg.mobile.advertise);
    assert_eq!(cfg.mobile.name, None);
}

#[test]
fn role_replica_parses_and_role_peers_validation() {
    // A replica config parses the role and keeps its peers.
    let replica = parse(
        r#"
            [peers]
            list = ["127.0.0.1:7411"]

            [network]
            listen = "127.0.0.1:7412"
            role = "replica"
        "#,
    );
    assert_eq!(replica.network.role, StationRole::Replica);
    assert_eq!(replica.peers.list, vec!["127.0.0.1:7411"]);
    // A replica may name peers (that is the whole point).
    assert!(replica.check_role_peers().is_ok());

    // A writer with peers is refused, and the message names the fix.
    let writer_with_peers = parse(
        r#"
            [peers]
            list = ["127.0.0.1:7411"]

            [network]
            listen = "127.0.0.1:7412"
        "#,
    );
    assert_eq!(writer_with_peers.network.role, StationRole::Writer);
    let err = writer_with_peers.check_role_peers().unwrap_err();
    assert!(err.contains("writer never pulls"), "message: {err}");
    assert!(err.contains("role = \"replica\""), "message: {err}");

    // A writer with no peers is the normal case and is valid.
    let writer = parse(
        r#"
            [network]
            listen = "127.0.0.1:7411"
        "#,
    );
    assert!(writer.check_role_peers().is_ok());

    // The generated default is a valid (peerless) writer.
    assert!(StationConfig::default_config().check_role_peers().is_ok());
}

#[test]
fn mobile_section_overrides_defaults() {
    let text = r#"
        [network]
        listen = "127.0.0.1:7411"

        [mobile]
        listen = "192.168.1.9:9000"
        name = "Railroad Station — Blue Ridge"
        advertise = false
    "#;
    let cfg = parse(text);
    assert_eq!(cfg.mobile.listen, "192.168.1.9:9000");
    assert_eq!(cfg.mobile.name.as_deref(), Some("Railroad Station — Blue Ridge"));
    assert!(!cfg.mobile.advertise);
}

#[test]
fn credit_section_overrides_certificate_defaults() {
    let text = r#"
        [network]
        listen = "127.0.0.1:7411"

        [credit]
        debt_floor_centi = -3000
        cert_validity_seconds = 86400
        cert_max_cap_centi = 2500
        cert_delivery_grace_seconds = 172800
        cert_max_outstanding = 2
    "#;
    let cfg = parse(text);
    assert_eq!(cfg.credit.debt_floor_centi, -3000);
    assert_eq!(cfg.credit.cert_validity_seconds, 86400);
    assert_eq!(cfg.credit.cert_max_cap_centi, 2500);
    assert_eq!(cfg.credit.cert_delivery_grace_seconds, 172800);
    assert_eq!(cfg.credit.cert_max_outstanding, 2);
}

#[test]
fn credit_section_partial_override_keeps_other_cert_defaults() {
    // A file written before the certificate keys existed (only debt_floor)
    // still parses, and the certificate keys take their protocol defaults.
    let text = r#"
        [network]
        listen = "127.0.0.1:7411"

        [credit]
        debt_floor_centi = -1000
    "#;
    let cfg = parse(text);
    assert_eq!(cfg.credit.debt_floor_centi, -1000);
    assert_eq!(cfg.credit.cert_max_cap_centi, DEFAULT_CERT_MAX_CAP_CENTI);
    assert_eq!(cfg.credit.cert_max_outstanding, DEFAULT_CERT_MAX_OUTSTANDING);
}

#[test]
fn dtn_section_overrides_defaults() {
    let text = r#"
        [network]
        listen = "127.0.0.1:7411"

        [dtn]
        receipt_retention_secs = 120

        [timers]
        dtn_prune_interval_secs = 15
    "#;
    let cfg = parse(text);
    assert_eq!(cfg.dtn.receipt_retention_secs, 120);
    assert_eq!(cfg.timers.dtn_prune_interval_secs, 15);
}

#[test]
fn sidecar_defaults_to_disabled() {
    // A config written before [sidecar] existed still parses, and the
    // sidecar is off with the pinned defaults.
    let text = r#"
        [network]
        listen = "127.0.0.1:7411"
    "#;
    let cfg = parse(text);
    assert!(!cfg.sidecar.enabled);
    assert_eq!(cfg.sidecar.rnsd_path, "rnsd");
    assert_eq!(cfg.sidecar.config_dir, None);
    assert_eq!(cfg.sidecar.pinned_version, None);
    assert!(!cfg.sidecar.allow_version_drift);
    assert_eq!(cfg.sidecar.restart_backoff_secs, 5);
    assert_eq!(cfg.sidecar.tcp_listen, None);
    assert!(cfg.sidecar.tcp_peers.is_empty());
}

#[test]
fn sidecar_section_overrides_defaults() {
    let text = r#"
        [network]
        listen = "127.0.0.1:7411"

        [sidecar]
        enabled = true
        rnsd_path = "/opt/reticulum/bin/rnsd"
        config_dir = "/var/lib/rrn/reticulum"
        pinned_version = "0.9.6"
        allow_version_drift = true
        restart_backoff_secs = 10
        tcp_listen = "0.0.0.0:4242"
        tcp_peers = ["203.0.113.7:4242", "198.51.100.9:4242"]
    "#;
    let cfg = parse(text);
    assert!(cfg.sidecar.enabled);
    assert_eq!(cfg.sidecar.rnsd_path, "/opt/reticulum/bin/rnsd");
    assert_eq!(cfg.sidecar.config_dir.as_deref(), Some("/var/lib/rrn/reticulum"));
    assert_eq!(cfg.sidecar.pinned_version.as_deref(), Some("0.9.6"));
    assert!(cfg.sidecar.allow_version_drift);
    assert_eq!(cfg.sidecar.restart_backoff_secs, 10);
    assert_eq!(cfg.sidecar.tcp_listen.as_deref(), Some("0.0.0.0:4242"));
    assert_eq!(cfg.sidecar.tcp_peers, vec!["203.0.113.7:4242", "198.51.100.9:4242"]);
}

#[test]
fn rnode_absent_by_default() {
    // A config with no [lora.rnode] leaves the radio interface unconfigured.
    let text = r#"
        [network]
        listen = "127.0.0.1:7411"
    "#;
    let cfg = parse(text);
    assert!(cfg.lora.rnode.is_none());
}

#[test]
fn rnode_parses_with_required_fields_and_radio_defaults() {
    let text = r#"
        [network]
        listen = "127.0.0.1:7411"
        [lora.rnode]
        port = "/dev/ttyUSB0"
        frequency_hz = 915000000
        tx_power_dbm = 5
    "#;
    let cfg = parse(text);
    let r = cfg.lora.rnode.expect("rnode configured");
    assert_eq!(r.port, "/dev/ttyUSB0");
    assert_eq!(r.frequency_hz, 915_000_000);
    assert_eq!(r.tx_power_dbm, 5);
    // Radio defaults fill in when omitted.
    assert_eq!(r.bandwidth_hz, 125_000);
    assert_eq!(r.spreading_factor, 8);
    assert_eq!(r.coding_rate, 5);
}

#[test]
fn radio_rates_default_to_a_quarter_kilobyte_at_one_percent() {
    let cfg = parse("[network]\nlisten = \"127.0.0.1:7411\"\n");
    assert_eq!(f64::from_bits(cfg.lora.raw_bytes_per_sec_bits), 250.0);
    assert_eq!(f64::from_bits(cfg.lora.duty_cycle_percent_bits), 1.0);
    assert_eq!(cfg.lora.burst_bytes, 500);
    assert_eq!(cfg.lora.frame_bytes, 480);
    let overridden = parse(
        "[network]\nlisten = \"127.0.0.1:7411\"\n[lora]\nduty_cycle_percent = 10.0\nraw_bytes_per_sec = 300.0\n",
    );
    assert_eq!(f64::from_bits(overridden.lora.raw_bytes_per_sec_bits), 300.0);
    assert_eq!(f64::from_bits(overridden.lora.duty_cycle_percent_bits), 10.0);
}

/// Messages an hour, as some pacer counts them.
#[derive(Debug, PartialEq)]
struct Pacing(u32);

impl Default for Pacing {
    fn default() -> Self {
        Pacing(9)
    }
}

/// The bytes that fit a message of some parts.
fn chunk_budget(parts: usize) -> usize {
    (153 * parts - 22) * 3 / 4
}

#[test]
fn a_relay_is_paced_by_default_and_keeps_its_limits() {
    let cfg = parse("[network]\nlisten = \"127.0.0.1:7411\"\n[sms]\nallowed_senders = \"open\"\n");
    let relay = cfg.sms.relay_config::<Pacing, _>(|parts| parts + 1);
    assert_eq!(relay.chunk_budget_bytes, 5);
    assert_eq!(relay.allowed_senders, AllowedSenders::Open);
    assert_eq!(relay.max_inbound_per_hour, 60);
    assert_eq!(relay.message_budget, Pacing(9));
}

#[test]
fn sms_defaults_to_disabled() {
    // A config written before [sms] existed still parses, and the carrier is
    // off with the protocol defaults.
    let text = r#"
        [network]
        listen = "127.0.0.1:7411"
    "#;
    let cfg = parse(text);
    assert!(!cfg.sms.enabled);
    assert_eq!(cfg.sms.station_msisdn, None);
    assert_eq!(cfg.sms.max_parts_per_message, 4);
    assert_eq!(cfg.sms.allowed_senders, AllowedSenders::Paired);
    assert_eq!(cfg.sms.max_inbound_per_hour, 60);
    // The derived relay config sizes the chunk budget from max_parts (442 @ 4).
    assert_eq!(cfg.sms.relay_config::<Pacing, _>(chunk_budget).chunk_budget_bytes, 442);
}

#[test]
fn sms_section_overrides_defaults() {
    let text = r#"
        [network]
        listen = "127.0.0.1:7411"

        [sms]
        enabled = true
        station_msisdn = "+15550001111"
        max_parts_per_message = 6
        allowed_senders = "open"
        max_inbound_per_hour = 120
    "#;
    let cfg = parse(text);
    assert!(cfg.sms.enabled);
    assert_eq!(cfg.sms.station_msisdn.as_deref(), Some("+15550001111"));
    assert_eq!(cfg.sms.max_parts_per_message, 6);
    assert_eq!(cfg.sms.allowed_senders, AllowedSenders::Open);
    assert_eq!(cfg.sms.max_inbound_per_hour, 120);
    // 153×6 = 918 chars − 22 header = 896 data chars → floor(896×3/4) = 672.
    assert_eq!(cfg.sms.relay_config::<Pacing, _>(chunk_budget).chunk_budget_bytes, 672);
}

#[test]
fn storage_defaults_to_plaintext_profile() {
    // A config written before [storage] existed still parses, and the station
    // runs the plaintext (today's) profile with no encrypted parameters.
    let text = r#"
        [network]
        listen = "127.0.0.1:7411"
    "#;
    let cfg = parse(text);
    assert_eq!(cfg.storage.at_rest, AtRestProfile::Plaintext);
    assert!(cfg.storage.encrypted.is_none());
}

#[test]
fn storage_encrypted_profile_parses() {
    let text = r#"
        [network]
        listen = "127.0.0.1:7411"

        [storage]
        at_rest = "encrypted"

        [storage.encrypted]
        container_path = "/var/lib/rrn/state.img"
        state_dir = "/run/rrn/state"
        threshold = 3
    "#;
    let cfg = parse(text);
    assert_eq!(cfg.storage.at_rest, AtRestProfile::Encrypted);
    let enc = cfg.storage.encrypted.expect("encrypted section present");
    assert_eq!(enc.container_path.as_deref(), Some("/var/lib/rrn/state.img"));
    assert_eq!(enc.state_dir.as_deref(), Some("/run/rrn/state"));
    assert_eq!(enc.threshold, 3);
}

#[test]
fn storage_encrypted_threshold_defaults_to_three() {
    // [storage.encrypted] with no explicit threshold takes the default of 3.
    let text = r#"
        [network]
        listen = "127.0.0.1:7411"

        [storage]
        at_rest = "encrypted"

        [storage.encrypted]
        state_dir = "/run/rrn/state"
    "#;
    let cfg = parse(text);
    let enc = cfg.storage.encrypted.expect("encrypted section present");
    assert_eq!(enc.threshold, 3);
}

#[test]
fn a_generated_config_listens_on_a_port_in_range() {
    for _ in 0..5 {
        let cfg = StationConfig::default_config();
        assert!(cfg.peers.list.is_empty());
        let port: u16 = cfg.network.listen.rsplit(':').next().unwrap().parse().unwrap();
        assert!((7400..=7499).contains(&port));
        assert!((7400..=7499).contains(&random_port()));
    }
    assert_eq!(port_for(None), 7400);
    assert_eq!(port_for(Some(123_456_789)), 7489);
    assert_eq!(StationConfig::default_on(7411).network.listen, "127.0.0.1:7411");
}

#[test]
fn missing_file_creates_default() {
    let cfg = match load_step("config.toml", ConfigFile::Missing) {
        LoadStep::Create(cfg) => cfg,
        other => panic!("expected a new file, got {other:?}"),
    };
    assert!(cfg.peers.list.is_empty());
    assert_eq!(cfg.network.role, StationRole::Writer);
    let port: u16 = cfg.network.listen.rsplit(':').next().unwrap().parse().unwrap();
    assert!((7400..=7499).contains(&port));
    // Re-loading reads back the written file (no overwrite).
    let written = ConfigFile::Text(Ok(cfg.clone().into_raw()));
    assert_eq!(load_step("config.toml", written), LoadStep::Use(cfg));
}

#[test]
fn malformed_file_errors_with_location() {
    let text = "this is = = not valid toml\n[network\n";
    let said = text.parse::<toml::Table>().unwrap_err().to_string();
    match load_step("/c", ConfigFile::Text(Err(said))) {
        LoadStep::Fail(ConfigError::Parse { path, message }) => {
            assert_eq!(path, "/c");
            // `toml` reports a line/column; assert it mentions a line.
            assert!(message.contains("line"), "message was: {message}");
        }
        other => panic!("expected parse error, got {other:?}"),
    }
}

#[test]
fn a_file_that_cannot_be_read_is_an_error() {
    assert_eq!(
        load_step("/c", ConfigFile::Unreadable("denied".into())),
        LoadStep::Fail(ConfigError::Io { path: "/c".into(), source: "denied".into() })
    );
}

#[test]
fn a_saved_config_reads_back() {
    let text = r#"
        [network]
        listen = "127.0.0.1:7411"
        role = "replica"

        [peers]
        list = ["a:1", "b:2"]

        [storage]
        at_rest = "encrypted"

        [storage.encrypted]
        threshold = 2
    "#;
    let cfg = parse(text);
    assert_eq!(StationConfig::resolve(cfg.clone().into_raw()), cfg);
}

#[test]
fn roles_read_back_from_their_spelling() {
    for role in [StationRole::Writer, StationRole::Replica] {
        assert_eq!(role_named(role.as_str()), Some(role));
    }
    assert_eq!(role_named("Writer"), None);
    assert_eq!(role_named(""), None);
}

#[test]
fn roles_pull_or_admit() {
    assert!(StationRole::Replica.pulls());
    assert!(!StationRole::Replica.admits());
    assert!(StationRole::Writer.admits());
    assert!(!StationRole::Writer.pulls());
    assert_eq!(StationRole::Writer.as_str(), "writer");
    assert_eq!(StationRole::Replica.as_str(), "replica");
}

#[test]
fn config_errors_name_the_file() {
    assert_eq!(
        ConfigError::Io { path: "/c".into(), source: "denied".into() }.message(),
        "config i/o at /c: denied"
    );
    assert_eq!(
        ConfigError::Parse { path: "/c".into(), message: "line 1".into() }.message(),
        "malformed config at /c: line 1"
    );
}
