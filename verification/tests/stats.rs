use dockwatch::stats::{
    compute_container_stats, BlockOpIo, NetInterfaceIo, RawCounterSnapshot,
};
use dockwatch::errors::TelemetryError;
use dockwatch::telemetry::{stats_from_sample, StatsSample};

fn snapshot(cpu_total: u64, system_total: Option<u64>) -> RawCounterSnapshot {
    RawCounterSnapshot {
        cpu_total,
        system_total,
        online_cpus: None,
        memory_usage: None,
        memory_limit: None,
        networks: None,
        block_ops: None,
    }
}

#[test]
fn cpu_formula_with_four_cores() {
    // cpu_delta = 200, system_delta = 1000, online_cpus = 4:
    // (200 / 1000) * 4 * 100 = 80.00%
    let prev = snapshot(100, Some(5000));
    let mut curr = snapshot(300, Some(6000));
    curr.online_cpus = Some(4);
    let stats = compute_container_stats("id".to_string(), "name".to_string(), &prev, &curr);
    assert_eq!(stats.cpu_percentage_bp, 8000);
}

#[test]
fn cpu_is_zero_when_cpu_counter_does_not_advance() {
    let prev = snapshot(300, Some(5000));
    let curr = snapshot(300, Some(6000));
    let stats = compute_container_stats("id".to_string(), "name".to_string(), &prev, &curr);
    assert_eq!(stats.cpu_percentage_bp, 0);

    let prev = snapshot(400, Some(5000));
    let curr = snapshot(300, Some(6000));
    let stats = compute_container_stats("id".to_string(), "name".to_string(), &prev, &curr);
    assert_eq!(stats.cpu_percentage_bp, 0);
}

#[test]
fn cpu_is_zero_when_system_counter_does_not_advance() {
    let prev = snapshot(100, Some(6000));
    let curr = snapshot(300, Some(6000));
    let stats = compute_container_stats("id".to_string(), "name".to_string(), &prev, &curr);
    assert_eq!(stats.cpu_percentage_bp, 0);

    let prev = snapshot(100, Some(7000));
    let curr = snapshot(300, Some(6000));
    let stats = compute_container_stats("id".to_string(), "name".to_string(), &prev, &curr);
    assert_eq!(stats.cpu_percentage_bp, 0);
}

#[test]
fn online_cpus_default_to_one() {
    // (200 / 1000) * 1 * 100 = 20.00%
    let prev = snapshot(100, Some(5000));
    let curr = snapshot(300, Some(6000));
    let stats = compute_container_stats("id".to_string(), "name".to_string(), &prev, &curr);
    assert_eq!(stats.cpu_percentage_bp, 2000);
}

#[test]
fn unreported_system_counter_defaults_to_zero() {
    let prev = snapshot(100, None);
    let curr = snapshot(300, None);
    let stats = compute_container_stats("id".to_string(), "name".to_string(), &prev, &curr);
    assert_eq!(stats.cpu_percentage_bp, 0);
}

#[test]
fn memory_percentage_formula() {
    // 256 MiB of 1024 MiB = 25.00%
    let prev = snapshot(0, Some(0));
    let mut curr = snapshot(0, Some(0));
    curr.memory_usage = Some(256 * 1024 * 1024);
    curr.memory_limit = Some(1024 * 1024 * 1024);
    let stats = compute_container_stats("id".to_string(), "name".to_string(), &prev, &curr);
    assert_eq!(stats.memory_percentage_bp, 2500);
    assert_eq!(stats.memory_usage, 256 * 1024 * 1024);
    assert_eq!(stats.memory_limit, 1024 * 1024 * 1024);
}

#[test]
fn memory_percentage_is_zero_without_a_limit() {
    let prev = snapshot(0, Some(0));
    let mut curr = snapshot(0, Some(0));
    curr.memory_usage = Some(256 * 1024 * 1024);
    curr.memory_limit = Some(0);
    let stats = compute_container_stats("id".to_string(), "name".to_string(), &prev, &curr);
    assert_eq!(stats.memory_percentage_bp, 0);

    curr.memory_limit = None;
    let stats = compute_container_stats("id".to_string(), "name".to_string(), &prev, &curr);
    assert_eq!(stats.memory_percentage_bp, 0);
}

#[test]
fn network_totals_sum_all_interfaces() {
    let prev = snapshot(0, Some(0));
    let mut curr = snapshot(0, Some(0));
    curr.networks = Some(vec![
        NetInterfaceIo { rx_bytes: 100, tx_bytes: 10 },
        NetInterfaceIo { rx_bytes: 250, tx_bytes: 40 },
        NetInterfaceIo { rx_bytes: 0, tx_bytes: 7 },
    ]);
    let stats = compute_container_stats("id".to_string(), "name".to_string(), &prev, &curr);
    assert_eq!(stats.network_rx, 350);
    assert_eq!(stats.network_tx, 57);
}

#[test]
fn missing_networks_mean_zero_totals() {
    let prev = snapshot(0, Some(0));
    let curr = snapshot(0, Some(0));
    let stats = compute_container_stats("id".to_string(), "name".to_string(), &prev, &curr);
    assert_eq!(stats.network_rx, 0);
    assert_eq!(stats.network_tx, 0);
}

#[test]
fn block_totals_partition_by_kind_ignoring_case() {
    let prev = snapshot(0, Some(0));
    let mut curr = snapshot(0, Some(0));
    curr.block_ops = Some(vec![
        BlockOpIo { op_kind: b"read".to_vec(), bytes: 10 },
        BlockOpIo { op_kind: b"Read".to_vec(), bytes: 20 },
        BlockOpIo { op_kind: b"WRITE".to_vec(), bytes: 5 },
        BlockOpIo { op_kind: b"write".to_vec(), bytes: 7 },
        BlockOpIo { op_kind: b"total".to_vec(), bytes: 1000 },
        BlockOpIo { op_kind: b"discard".to_vec(), bytes: 999 },
    ]);
    let stats = compute_container_stats("id".to_string(), "name".to_string(), &prev, &curr);
    assert_eq!(stats.block_read, 30);
    assert_eq!(stats.block_write, 12);
}

#[test]
fn saturating_sums_stop_at_the_top() {
    let prev = snapshot(0, Some(0));
    let mut curr = snapshot(0, Some(0));
    curr.networks = Some(vec![
        NetInterfaceIo { rx_bytes: u64::MAX, tx_bytes: 1 },
        NetInterfaceIo { rx_bytes: 5, tx_bytes: 2 },
    ]);
    let stats = compute_container_stats("id".to_string(), "name".to_string(), &prev, &curr);
    assert_eq!(stats.network_rx, u64::MAX);
    assert_eq!(stats.network_tx, 3);
}

#[test]
fn identity_is_attached_to_the_answer() {
    let prev = snapshot(0, Some(0));
    let curr = snapshot(0, Some(0));
    let stats =
        compute_container_stats("abc123".to_string(), "web".to_string(), &prev, &curr);
    assert_eq!(stats.id, "abc123");
    assert_eq!(stats.name, "web");
}

#[test]
fn sample_pair_yields_stats() {
    let sample = StatsSample {
        previous: snapshot(100, Some(5000)),
        current: {
            let mut c = snapshot(300, Some(6000));
            c.online_cpus = Some(4);
            c
        },
    };
    let r = stats_from_sample("id".to_string(), "db".to_string(), Some(sample));
    let stats = r.expect("a delivered sample must yield stats");
    assert_eq!(stats.cpu_percentage_bp, 8000);
    assert_eq!(stats.name, "db");
}

#[test]
fn empty_feed_is_a_lookup_error() {
    let r = stats_from_sample("id".to_string(), "db".to_string(), None);
    let err = match r {
        Ok(_) => panic!("an empty feed must not yield stats"),
        Err(e) => e,
    };
    assert_eq!(err.message(), "Failed to get container stats");
}

#[test]
fn error_messages_carry_their_text() {
    let c = TelemetryError::Connection("socket unreachable".to_string());
    assert_eq!(c.message(), "socket unreachable");
    let l = TelemetryError::Lookup("no such container".to_string());
    assert_eq!(l.message(), "no such container");
    let e = TelemetryError::Execution("exit status 1".to_string());
    assert_eq!(e.message(), "exit status 1");
}
