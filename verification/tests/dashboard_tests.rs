use vibes::dashboard::containers::{containers_for_services, ContainerSummary};
use vibes::dashboard::format::{format_bytes, truncate};
use vibes::dashboard::history::{ContainerHistory, HistoryTable, HISTORY_LEN};
use vibes::dashboard::selection::{clamp_selection, next, previous};
use vibes::dashboard::stats::{read_sample, RawStats};

fn float_text(bytes: u64) -> String {
    const KB: u64 = 1024;
    const MB: u64 = KB * 1024;
    const GB: u64 = MB * 1024;
    if bytes >= GB {
        format!("{:.2} GB", bytes as f64 / GB as f64)
    } else if bytes >= MB {
        format!("{:.2} MB", bytes as f64 / MB as f64)
    } else if bytes >= KB {
        format!("{:.2} KB", bytes as f64 / KB as f64)
    } else {
        format!("{bytes} B")
    }
}

#[test]
fn format_bytes_examples() {
    assert_eq!(format_bytes(0), "0 B");
    assert_eq!(format_bytes(1023), "1023 B");
    assert_eq!(format_bytes(1024), "1.00 KB");
    assert_eq!(format_bytes(1536), "1.50 KB");
    assert_eq!(format_bytes(1048576), "1.00 MB");
    assert_eq!(format_bytes(1073741824), "1.00 GB");
    assert_eq!(format_bytes(5 * 1073741824 + 536870912), "5.50 GB");
}

#[test]
fn format_bytes_matches_float_formatting() {
    let mut samples: Vec<u64> = Vec::new();
    for b in 0..5000u64 {
        samples.push(b);
    }
    for k in 1..2000u64 {
        samples.push(k * 128);
        samples.push(1024 + k * 5);
        samples.push(1048576 * k / 7);
        samples.push(1073741824u64.wrapping_mul(k) / 3 + k);
    }
    samples.push(u64::MAX);
    samples.push(u64::MAX - 1);
    samples.push(1 << 53);
    samples.push((1 << 53) + 1);
    samples.push((1 << 60) + 12345);
    samples.push(9_007_199_254_740_993 * 3);
    for b in samples {
        assert_eq!(format_bytes(b), float_text(b), "bytes = {}", b);
    }
}

#[test]
fn truncate_cuts_long_names() {
    assert_eq!(truncate("short", 30), "short");
    assert_eq!(truncate("abcdefghij", 5), "abcd\u{2026}");
    assert_eq!(truncate("exactly", 7), "exactly");
}

#[test]
fn selection_wraps_around() {
    assert_eq!(next(0, 3), 1);
    assert_eq!(next(2, 3), 0);
    assert_eq!(previous(0, 3), 2);
    assert_eq!(previous(2, 3), 1);
    assert_eq!(next(4, 0), 4);
    assert_eq!(previous(4, 0), 4);
    assert_eq!(previous(next(1, 5), 5), 1);
    let mut s = 2;
    for _ in 0..7 {
        s = next(s, 7);
    }
    assert_eq!(s, 2);
}

#[test]
fn selection_is_clamped_after_refresh() {
    assert_eq!(clamp_selection(5, 3), 2);
    assert_eq!(clamp_selection(1, 3), 1);
    assert_eq!(clamp_selection(5, 0), 5);
}

#[test]
fn history_keeps_a_window() {
    let mut h: ContainerHistory<f64> = ContainerHistory::new();
    for i in 0..(HISTORY_LEN + 5) {
        h.push_cpu(i as f64);
    }
    assert_eq!(h.cpu.len(), HISTORY_LEN);
    assert_eq!(h.cpu[0], 5.0);
    assert_eq!(*h.cpu.back().unwrap(), (HISTORY_LEN + 4) as f64);
    assert!(h.mem.is_empty());
}

#[test]
fn history_repeats_missing_samples() {
    let mut t: HistoryTable<f64> = HistoryTable::new();
    let known = vec![("id1".to_string(), "web".to_string()), ("id2".to_string(), "db".to_string())];
    t.record(&vec![("web".to_string(), 10.0, 20.0), ("db".to_string(), 1.0, 2.0)], &known, 0.0);
    t.record(&vec![("web".to_string(), 11.0, 21.0)], &known, 0.0);
    let db = t.get("db").unwrap();
    assert_eq!(db.cpu.iter().copied().collect::<Vec<f64>>(), vec![1.0, 1.0]);
    assert_eq!(db.mem.iter().copied().collect::<Vec<f64>>(), vec![2.0, 2.0]);
    let web = t.get("web").unwrap();
    assert_eq!(web.cpu.iter().copied().collect::<Vec<f64>>(), vec![10.0, 11.0]);
    assert!(t.get("cache").is_none());
}

#[test]
fn containers_match_services() {
    let containers = vec![
        ContainerSummary { id: "a".to_string(), names: vec!["/proj-web-1".to_string()] },
        ContainerSummary { id: "b".to_string(), names: vec!["/other".to_string(), "/proj-db-1".to_string()] },
        ContainerSummary { id: "c".to_string(), names: vec!["/unrelated".to_string()] },
    ];
    let services = vec!["web".to_string(), "db".to_string()];
    let found = containers_for_services(&containers, &services);
    assert_eq!(
        found,
        vec![("a".to_string(), "proj-web-1".to_string()), ("b".to_string(), "proj-db-1".to_string())]
    );
    let all = containers_for_services(&containers, &vec![]);
    assert_eq!(all.len(), 3);
    assert_eq!(all[1].1, "other");
}

#[test]
fn sample_readings() {
    let raw = RawStats {
        cpu_total: 500,
        precpu_total: 300,
        system_cpu: Some(10_000),
        presystem_cpu: Some(9_000),
        online_cpus: None,
        mem_usage: Some(1000),
        mem_cache: Some(1200),
        mem_limit: Some(4096),
        networks: Some(vec![(10, 20), (5, 1)]),
        block_io: Some(vec![("Read".to_string(), 7), ("write".to_string(), 3), ("sync".to_string(), 99), ("READ".to_string(), 1)]),
    };
    let r = read_sample(&raw);
    assert_eq!(r.cpu_delta, 200);
    assert_eq!(r.system_delta, 1000);
    assert_eq!(r.num_cpus, 1);
    assert_eq!(r.mem_usage, 0);
    assert_eq!(r.mem_limit, 4096);
    assert_eq!((r.net_rx, r.net_tx), (15, 21));
    assert_eq!((r.block_read, r.block_write), (8, 3));
}
