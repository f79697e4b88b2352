use pumper_routes::clock::Instant;
use pumper_routes::doctor::{configured_window, ms, retention_key_for, total_bytes, StorageConfig};
use pumper_routes::ident::hex;
use pumper_routes::json::Json;
use pumper_routes::mesh::{
    checked_sum, get_mesh, get_node, mesh_metrics_lines, mesh_state_key, mesh_totals,
    peer_schedule_id, trust_for, MeshPeer, MeshStream, MeshTotals, NodeIdentity, PeerKey,
};

fn peer_with(key: Option<&str>, allow_unsigned: bool) -> PeerKey {
    PeerKey {
        public_key: key.unwrap_or_default().to_string(),
        fingerprint: key.map(|k| format!("fp-{k}")),
        allow_unsigned,
    }
}

#[test]
fn a_node_with_no_peers_keeps_the_pre_mesh_import_behaviour() {
    let trust = trust_for(&[], Some("whatever"));
    assert!(
        trust.allow_unsigned,
        "a node that is not in a mesh must still accept a hand-curled bundle"
    );
    assert!(trust.public_key.is_none());
}

#[test]
fn a_pinned_peer_is_matched_by_its_key_fingerprint_not_by_url_or_order() {
    let key = hex(&[9u8; 32]);
    let id = format!("fp-{key}");
    let peers = vec![peer_with(Some(&hex(&[1u8; 32])), false), peer_with(Some(&key), true)];
    let trust = trust_for(&peers, Some(&id));
    assert_eq!(trust.public_key.as_deref(), Some(key.as_str()));
    assert!(trust.allow_unsigned, "the matched peer's own rule applies");
}

#[test]
fn once_keys_are_pinned_an_anonymous_bundle_is_refused_not_waved_through() {
    let peers = vec![peer_with(Some(&hex(&[1u8; 32])), false)];
    let trust = trust_for(&peers, None);
    assert!(
        !trust.allow_unsigned,
        "an operator who pinned keys has said anonymous bundles are unwelcome"
    );
    assert!(!trust_for(&peers, Some("deadbeef")).allow_unsigned);
}

#[test]
fn one_peer_opting_into_unsigned_keeps_legacy_imports_working() {
    let peers = vec![peer_with(Some(&hex(&[1u8; 32])), false), peer_with(None, true)];
    assert!(trust_for(&peers, Some("legacy-hash-id")).allow_unsigned);
}

#[test]
fn mesh_series_are_emitted_at_zero_not_omitted() {
    let lines = mesh_metrics_lines(&MeshTotals::default());
    for name in [
        "pumper_mesh_peers",
        "pumper_mesh_streams",
        "pumper_mesh_pulls_total",
        "pumper_mesh_signature_failures_total",
        "pumper_mesh_ghosts_removed_total",
    ] {
        assert!(
            lines.contains(&format!("{name} 0\n")),
            "{name} must be present at zero on a node with no peers:\n{lines}"
        );
        assert!(lines.contains(&format!("# TYPE {name} ")));
    }
}

#[test]
fn keys_and_schedule_ids_are_stable_and_stream_scoped() {
    assert_eq!(mesh_state_key("vps", "weather"), "vps|weather");
    assert_eq!(peer_schedule_id("vps", "weather"), "peer-vps-weather");
    assert_ne!(
        peer_schedule_id("vps", "weather"),
        peer_schedule_id("vps", "recipes"),
        "one peer's streams must not share a schedule row"
    );
}

fn mesh_peer() -> MeshPeer {
    let mut record = Json::object();
    record.set("pulls", Json::integer(7));
    record.set("signature_failures", Json::integer(1));
    record.set("ghosts_removed", Json::integer(2));
    record.set("last_success_at", Json::text("2026-01-01T00:00:00+00:00"));
    MeshPeer {
        label: "vps".to_string(),
        url: "https://a.example".to_string(),
        public_key: "abc".to_string(),
        allow_unsigned: false,
        every: "15m".to_string(),
        every_secs: 900,
        enabled: true,
        streams: vec![
            MeshStream { slug: "weather".to_string(), record: Some(record) },
            MeshStream { slug: "recipes".to_string(), record: None },
        ],
    }
}

#[test]
fn the_totals_add_what_the_streams_recorded() {
    let totals = mesh_totals(&[mesh_peer()]).unwrap();
    assert_eq!(totals.peers, 1);
    assert_eq!(totals.streams, 2);
    assert_eq!(totals.pulls, 7);
    assert_eq!(totals.signature_failures, 1);
    assert_eq!(totals.ghosts_removed, 2);
    assert_eq!(checked_sum(&[i64::MAX, 1]), None);
    assert_eq!(checked_sum(&[2, 3]), Some(5));
}

#[test]
fn the_mesh_page_joins_peers_streams_and_schedules() {
    let now = Instant::new(1_767_225_660, 0).unwrap();
    let page = get_mesh("node-1", &[mesh_peer()], &["peer-vps-weather".to_string()], now).unwrap();
    assert_eq!(page.text_at("node_id"), Some("node-1"));
    let peers = match page.get("peers") {
        Some(Json::Array(peers)) => peers,
        other => panic!("peers: {other:?}"),
    };
    assert_eq!(peers.len(), 1);
    assert_eq!(peers[0].text_at("url"), Some("https://a.example"));
}

#[test]
fn an_identity_is_shown_or_said_to_be_unavailable() {
    let shown = get_node(Ok(NodeIdentity {
        node_id: "n".to_string(),
        legacy_id: "l".to_string(),
        public_key: "k".to_string(),
        key_path: "/data/node.key".to_string(),
        key_created: true,
    }))
    .unwrap();
    assert_eq!(shown.text_at("algo"), Some("ed25519"));
    assert_eq!(shown.text_at("key_path"), Some("/data/node.key"));
    let e = get_node(Err("no key".to_string())).unwrap_err();
    assert_eq!((e.status, e.message.as_str()), (500, "node identity unavailable: no key"));
}

#[test]
fn every_ledger_table_names_the_key_that_bounds_it() {
    let cfg = StorageConfig::default();
    for table in [
        "cost_events",
        "webhook_deliveries",
        "job_yield",
        "saved_search_seen",
        "record_revisions",
    ] {
        assert!(!retention_key_for(table).is_empty(), "no [storage] key mapped for {table}");
        assert_eq!(configured_window(&cfg, table), 0, "{table} must be unbounded by default");
    }
    assert_eq!(retention_key_for("jobs"), "");
}

#[test]
fn deliveries_count_as_bounded_only_when_both_knobs_are_set() {
    let mut cfg =
        StorageConfig { webhook_delivery_retention_days: 30, ..StorageConfig::default() };
    assert_eq!(configured_window(&cfg, "webhook_deliveries"), 0);
    cfg.webhook_dead_letter_retention_days = 90;
    assert_eq!(configured_window(&cfg, "webhook_deliveries"), 30);
}

#[test]
fn milliseconds_are_exact_decimals() {
    assert_eq!(ms(7_000).parse::<f64>().unwrap(), 7.0);
    assert_eq!(ms(5_000).parse::<f64>().unwrap(), 5.0);
    assert_eq!(ms(1).parse::<f64>().unwrap(), 0.001);
    assert_eq!(total_bytes(&[1, 2, 3]), Some(6));
    assert_eq!(total_bytes(&[u64::MAX, 1]), None);
}
