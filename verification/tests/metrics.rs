use pumper_routes::clock::Instant;
use pumper_routes::mesh::{mesh_metrics_lines, MeshTotals};
use pumper_routes::metrics::{
    activity_metrics, checkpoint_metrics, claim_failure_metrics, egress_metrics,
    maintenance_metrics, metrics, pass_counts, queue_age_metrics, secs, store_op_metrics,
    store_size_metrics, webhook_metrics, CheckpointFailures, CostEntry, DeliveryHealth,
    EgressCounters, KeyReport, MetricsCache, MetricsFacts, QueueAges, StoreSize, TaskTally, TimingStats,
};

fn at(secs: i64) -> Instant {
    Instant::new(secs, 0).expect("valid timestamp")
}

fn key(op: &str, table: &str, phase: &str, slow_line_micros: u64) -> KeyReport {
    KeyReport {
        op: op.to_string(),
        table: table.to_string(),
        phase: phase.to_string(),
        lifetime: 0,
        slow_lifetime: 0,
        slow_line_micros,
        busy_lifetime: 0,
        errors_lifetime: 0,
        rows_lifetime: 0,
        p50_micros: 0,
        p95_micros: 0,
        samples: 0,
        wrapped: false,
        window_secs: 0,
        window_rows: 0,
        worst_micros: 0,
    }
}

fn with_traffic() -> Vec<KeyReport> {
    let mut claim = key("job_claim", "jobs", "execute", 5_000);
    claim.lifetime = 10;
    claim.slow_lifetime = 1;
    claim.rows_lifetime = 10;
    claim.p50_micros = 400;
    claim.p95_micros = 90_000;
    claim.samples = 10;
    claim.worst_micros = 90_000;
    let mut write = key("dataset_write", "records", "execute", 50_000);
    write.lifetime = 1;
    write.slow_lifetime = 1;
    write.busy_lifetime = 1;
    write.rows_lifetime = 500;
    write.p95_micros = 120_000;
    write.samples = 1;
    write.worst_micros = 120_000;
    vec![
        key("job_claim", "jobs", "acquire", 2_000),
        claim,
        write,
        key("job_recovery", "jobs", "acquire", 2_000),
    ]
}

#[test]
fn metrics_carry_every_delivery_status_not_just_a_total() {
    let health = DeliveryHealth {
        pending: 1,
        delivered: 7,
        failed: 2,
        dead: 3,
        attempts: 19,
        oldest_undelivered: Some(at(1_000)),
    };
    let body = webhook_metrics(&health, at(21_600 + 1_000));
    for expect in [
        "pumper_webhook_deliveries{status=\"pending\"} 1",
        "pumper_webhook_deliveries{status=\"delivered\"} 7",
        "pumper_webhook_deliveries{status=\"failed\"} 2",
        "pumper_webhook_deliveries{status=\"dead\"} 3",
        "pumper_webhook_oldest_undelivered_seconds 21600",
        "pumper_webhook_delivery_attempts_total 19",
        "pumper_webhook_deliveries_succeeded_total 7",
    ] {
        assert!(body.contains(expect), "missing {expect:?} in:\n{body}");
    }
    assert_eq!(body.matches("# HELP ").count(), 4);
    assert_eq!(body.matches("# TYPE ").count(), 4);
}

#[test]
fn a_silent_fallback_to_local_egress_is_not_invisible_to_a_dashboard() {
    let counters = EgressCounters { peer_served: 0, local_fallback: 0 };
    let body = egress_metrics(&counters);
    assert!(body.contains("pumper_remote_egress_fetches{served_by=\"peer\"} 0\n"), "{body}");
    assert!(
        body.contains("pumper_remote_egress_fetches{served_by=\"local_fallback\"} 0\n"),
        "{body}"
    );
    assert_eq!(body.matches("# HELP ").count(), 1);
    assert_eq!(body.matches("# TYPE ").count(), 1);
}

#[test]
fn a_dropped_checkpoint_is_not_invisible_to_a_dashboard() {
    let body = checkpoint_metrics(CheckpointFailures { stale_lineage: 2, storage_error: 5 });
    assert!(
        body.contains("pumper_checkpoint_failures_total{reason=\"stale_lineage\"} 2\n"),
        "{body}"
    );
    assert!(
        body.contains("pumper_checkpoint_failures_total{reason=\"storage_error\"} 5\n"),
        "{body}"
    );
    let quiet = checkpoint_metrics(CheckpointFailures::default());
    assert!(
        quiet.contains("pumper_checkpoint_failures_total{reason=\"stale_lineage\"} 0\n"),
        "{quiet}"
    );
    assert!(
        quiet.contains("pumper_checkpoint_failures_total{reason=\"storage_error\"} 0\n"),
        "{quiet}"
    );
    assert_eq!(quiet.matches("# HELP ").count(), 1);
    assert_eq!(quiet.matches("# TYPE ").count(), 1);
    assert!(quiet.contains("reset on restart"), "{quiet}");
}

#[test]
fn a_rate_limited_claim_outage_still_has_a_full_count() {
    let body = claim_failure_metrics(150);
    assert!(body.contains("pumper_worker_claim_failures_total 150\n"), "{body}");
    let quiet = claim_failure_metrics(0);
    assert!(quiet.contains("pumper_worker_claim_failures_total 0\n"), "{quiet}");
    assert_eq!(quiet.matches("# HELP ").count(), 1);
    assert_eq!(quiet.matches("# TYPE ").count(), 1);
    assert!(quiet.contains("rate-limited"), "{quiet}");
}

#[test]
fn an_empty_backlog_reports_zero_age_not_a_stale_one() {
    let body = webhook_metrics(&DeliveryHealth::default(), at(9_999));
    assert!(body.contains("pumper_webhook_oldest_undelivered_seconds 0\n"));
    assert!(body.contains("pumper_webhook_deliveries{status=\"dead\"} 0\n"));
}

#[test]
fn store_telemetry_names_its_table_its_phase_and_its_slow_line() {
    let body = store_op_metrics(&with_traffic());
    for expect in [
        "pumper_store_ops_total{op=\"job_claim\",table=\"jobs\",phase=\"execute\"} 10",
        "pumper_store_slow_ops_total{op=\"job_claim\",table=\"jobs\",phase=\"execute\"} 1",
        "pumper_store_slow_line_seconds{op=\"job_claim\",table=\"jobs\",phase=\"execute\"} 0.005000",
        "pumper_store_rows_total{op=\"dataset_write\",table=\"records\",phase=\"execute\"} 500",
        "pumper_store_busy_total{op=\"dataset_write\",table=\"records\",phase=\"execute\"} 1",
        "pumper_store_duration_p95_seconds{op=\"job_claim\",table=\"jobs\",phase=\"execute\"} 0.090000",
        "pumper_store_window_samples{op=\"job_claim\",table=\"jobs\",phase=\"execute\"} 10",
    ] {
        assert!(body.contains(expect), "missing {expect:?} in:\n{body}");
    }
    assert!(body.contains(
        "pumper_store_slow_line_seconds{op=\"job_claim\",table=\"jobs\",phase=\"acquire\"} 0.002000"
    ));
    assert!(body.contains(
        "pumper_store_ops_total{op=\"job_recovery\",table=\"jobs\",phase=\"acquire\"} 0"
    ));
    assert_eq!(body.matches("# HELP ").count(), 10);
    assert_eq!(body.matches("# TYPE ").count(), 10);
    assert!(body.contains("PARTIAL census"), "{body}");
}

#[test]
fn queue_ages_complement_the_depth_and_resolve_to_zero_when_empty() {
    let body = queue_age_metrics(&QueueAges {
        oldest_queued_secs: format!("{:.3}", 942.0),
        oldest_running_secs: format!("{:.3}", 0.0),
    });
    assert!(body.contains("pumper_jobs_oldest_queued_age_seconds 942.000"), "{body}");
    assert!(
        body.contains("pumper_jobs_oldest_running_age_seconds 0.000"),
        "an empty running set reads 0, not absent: {body}"
    );
    assert_eq!(body.matches("# HELP ").count(), 2);
    assert_eq!(body.matches("# TYPE ").count(), 2);
}

#[test]
fn the_size_report_separates_allocated_free_and_sidecar_bytes() {
    let body = store_size_metrics(&StoreSize {
        page_size: 4096,
        page_count: 1000,
        freelist_pages: 250,
        main_bytes: 4_096_000,
        free_bytes: 1_024_000,
        wal_bytes: 67_108_864,
    });
    for expect in [
        "pumper_store_bytes{part=\"main\"} 4096000",
        "pumper_store_bytes{part=\"free\"} 1024000",
        "pumper_store_bytes{part=\"wal\"} 67108864",
        "pumper_store_pages{kind=\"total\"} 1000",
        "pumper_store_pages{kind=\"free\"} 250",
        "pumper_store_page_size_bytes 4096",
    ] {
        assert!(body.contains(expect), "missing {expect:?} in:\n{body}");
    }
    let fresh = store_size_metrics(&StoreSize::default());
    assert!(fresh.contains("pumper_store_bytes{part=\"wal\"} 0"), "{fresh}");
    assert_eq!(fresh.matches("# HELP ").count(), 3);
    assert_eq!(fresh.matches("# TYPE ").count(), 3);
}

#[test]
fn maintenance_reports_deferred_as_loudly_as_it_reports_ran() {
    let tallies = vec![
        TaskTally { task: "wal_checkpoint".to_string(), ran: 0, deferred: 4, failed: 0 },
        TaskTally { task: "optimize".to_string(), ran: 0, deferred: 0, failed: 0 },
    ];
    let body = maintenance_metrics(&pass_counts(&tallies));
    assert!(
        body.contains(
            "pumper_store_maintenance_passes_total{task=\"wal_checkpoint\",outcome=\"deferred\"} 4"
        ),
        "{body}"
    );
    assert!(
        body.contains(
            "pumper_store_maintenance_passes_total{task=\"wal_checkpoint\",outcome=\"ran\"} 0"
        ),
        "{body}"
    );
    assert!(
        body.contains(
            "pumper_store_maintenance_passes_total{task=\"wal_checkpoint\",outcome=\"failed\"} 0"
        ),
        "{body}"
    );
    assert_eq!(
        body.matches("pumper_store_maintenance_passes_total{").count(),
        tallies.len() * 3
    );
    assert_eq!(body.matches("# HELP ").count(), 1);
}

#[test]
fn future_stamped_row_reads_zero_not_negative() {
    let health = DeliveryHealth { oldest_undelivered: Some(at(5_000)), ..Default::default() };
    assert_eq!(health.oldest_undelivered_secs(at(4_000)), 0);
}

#[test]
fn seconds_are_written_to_the_microsecond() {
    assert_eq!(secs(0), "0.000000");
    assert_eq!(secs(7), "0.000007");
    assert_eq!(secs(1_000_000), "1.000000");
    assert_eq!(secs(90_000), format!("{:.6}", 90_000 as f64 / 1_000_000.0));
    assert_eq!(secs(1_234_567), format!("{:.6}", 1_234_567 as f64 / 1_000_000.0));
}

#[test]
fn the_activity_gauge_and_the_saturation_flag_are_both_present() {
    let idle = activity_metrics(0, false);
    assert!(idle.contains("pumper_store_activity_gauge 0\n"), "{idle}");
    assert!(idle.contains("pumper_store_pool_saturated 0\n"), "{idle}");
    let busy = activity_metrics(3, true);
    assert!(busy.contains("pumper_store_activity_gauge 3\n"), "{busy}");
    assert!(busy.contains("pumper_store_pool_saturated 1\n"), "{busy}");
    assert_eq!(busy.matches("# HELP ").count(), 2);
}

fn scrape_facts() -> MetricsFacts {
    MetricsFacts {
        status_counts: vec![("queued".to_string(), 4), ("failed".to_string(), 2)],
        failures: vec![("grants-gov".to_string(), 2)],
        timing: TimingStats {
            duration_sum: "1.5".to_string(),
            duration_count: 3,
            duration_max: "0.75".to_string(),
            wait_sum: "0".to_string(),
            wait_count: 3,
            wait_max: "0".to_string(),
        },
        costs: vec![CostEntry {
            app: "research".to_string(),
            engine: "llm".to_string(),
            cost_usd: "0.25".to_string(),
        }],
        apps: vec![vec![true, true], vec![true, false], vec![]],
        schedules: vec![true, false, true],
        deliveries: DeliveryHealth::default(),
        egress: EgressCounters { peer_served: 1, local_fallback: 2 },
        checkpoints: CheckpointFailures::default(),
        claim_failures: 0,
        store: with_traffic(),
        queue: QueueAges {
            oldest_queued_secs: "0.000".to_string(),
            oldest_running_secs: "0.000".to_string(),
        },
        size: StoreSize::default(),
        passes: vec![],
        activity: 0,
        pool_saturated: false,
        now: at(9_999),
    }
}

#[test]
fn a_scrape_holds_every_block_once() {
    let body = metrics(&scrape_facts());
    assert!(body.starts_with("# HELP pumper_jobs Jobs by status\n# TYPE pumper_jobs gauge\n"));
    for expect in [
        "pumper_jobs{status=\"queued\"} 4\n",
        "pumper_jobs{status=\"running\"} 0\n",
        "pumper_jobs{status=\"succeeded\"} 0\n",
        "pumper_jobs{status=\"failed\"} 2\n",
        "pumper_jobs{status=\"cancelled\"} 0\n",
        "pumper_job_failures_total{app=\"grants-gov\"} 2\n",
        "pumper_job_duration_seconds_sum 1.5\npumper_job_duration_seconds_count 3\n",
        "pumper_cost_usd{app=\"research\",engine=\"llm\"} 0.25\n",
        "pumper_schedules{enabled=\"true\"} 2\n",
        "pumper_schedules{enabled=\"false\"} 1\n",
        "pumper_remote_egress_fetches{served_by=\"peer\"} 1\n",
        "pumper_worker_claim_failures_total 0\n",
        "pumper_store_activity_gauge 0\n",
    ] {
        assert_eq!(body.matches(expect).count(), 1, "{expect:?} in:\n{body}");
    }
    assert!(body.contains("pumper_apps{ready=\"true\"} 2\n"), "{body}");
    assert!(body.contains("pumper_apps{ready=\"false\"} 1\n"), "{body}");
}

#[test]
fn a_rendered_scrape_is_served_for_five_seconds() {
    let mut cache = MetricsCache::new();
    assert_eq!(cache.serve(0), None);
    let mut facts = scrape_facts();
    let mesh = MeshTotals::default();
    let body = cache.render(100, &facts, &mesh);
    assert_eq!(body, metrics(&facts) + &mesh_metrics_lines(&mesh));
    facts.status_counts = vec![("queued".to_string(), 9)];
    assert_eq!(cache.serve(100), Some(body.clone()));
    assert_eq!(cache.serve(5_099), Some(body.clone()));
    assert_eq!(cache.serve(5_100), None);
    let later = cache.render(5_100, &facts, &mesh);
    assert!(later.contains("pumper_jobs{status=\"queued\"} 9\n"), "{later}");
    assert_ne!(later, body);
    assert_eq!(cache.serve(10_099), Some(later));
}
