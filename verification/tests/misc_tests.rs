use piper::analytics::AnalyticsHistory;
use piper::config::Config;
use piper::fmt::format_size;
use piper::scanner::{is_hidden, scan_logs, ScanResult};
use piper::crawler::{NodeKind, TreeNode};

fn p(s: &str) -> Vec<u8> {
    s.as_bytes().to_vec()
}

fn file(name: &str, size: u64) -> TreeNode {
    TreeNode { name: p(name), kind: NodeKind::File { size, accessed_secs_ago: 0 } }
}

fn dir(name: &str, children: Vec<TreeNode>) -> TreeNode {
    TreeNode { name: p(name), kind: NodeKind::Dir { children } }
}

#[test]
fn test_format_size_bytes_and_units() {
    assert_eq!(format_size(0), "0 B");
    assert_eq!(format_size(512), "512 B");
    assert_eq!(format_size(1023), "1023 B");
    assert_eq!(format_size(1024), "1.00 KB");
    assert_eq!(format_size(1536), "1.50 KB");
    assert_eq!(format_size(1048576), "1.00 MB");
    assert_eq!(format_size(2621440), "2.50 MB");
    assert_eq!(format_size(1073741824), "1.00 GB");
    assert_eq!(format_size(5 * 1073741824 + 536870912), "5.50 GB");
}

#[test]
fn test_format_size_rounds_half_up() {
    // 1075 / 1024 = 1.0498...: rounds to 1.05.
    assert_eq!(format_size(1075), "1.05 KB");
    // 1070 / 1024 = 1.0449...: rounds to 1.04.
    assert_eq!(format_size(1070), "1.04 KB");
}

#[test]
fn test_history_add_entry_and_savings() {
    let mut h = AnalyticsHistory::new();
    assert_eq!(h.entries.len(), 0);
    h.add_entry("2024-01-01 10:00".to_string(), 1000, 400);
    h.add_entry("2024-01-02 11:00".to_string(), 500, 900);
    assert_eq!(h.entries.len(), 2);
    assert_eq!(h.entries[0].savings, 600);
    assert_eq!(h.entries[1].savings, 0, "savings never go below zero");
    assert_eq!(h.entries[0].timestamp, "2024-01-01 10:00");
    assert_eq!(h.all_time_savings(), 600);
}

#[test]
fn test_config_effective_level() {
    let c = Config { scan: None, compression_level: Some(9) };
    assert_eq!(c.effective_compression_level(), 9);
    let d = Config { scan: Some("/tmp".to_string()), compression_level: None };
    assert_eq!(d.effective_compression_level(), 15);
}

#[test]
fn test_is_hidden_names() {
    assert!(is_hidden(&p(".git")));
    assert!(is_hidden(&p(".cache")));
    assert!(!is_hidden(&p(".venv")), ".venv is deliberately not hidden");
    assert!(!is_hidden(&p("src")));
    assert!(!is_hidden(&p("")));
}

#[test]
fn test_scan_logs_reports_heavy_and_large_logs() {
    let tree = dir(
        "work",
        vec![
            dir("node_modules", vec![file("big.log", 5000)]),
            dir(".cache", vec![file("z.log", 9999)]),
            file("notes.txt", 2000),
            file("small.txt", 500),
        ],
    );
    let results: Vec<ScanResult> = scan_logs(&tree, &p("/work"));
    // The heavy directory is reported and still descended into; the
    // hidden .cache subtree is skipped whole; small files are skipped.
    assert_eq!(results.len(), 3);
    assert_eq!(results[0].path, p("/work/node_modules"));
    assert_eq!(results[0].size, 5000);
    assert_eq!(results[1].path, p("/work/node_modules/big.log"));
    assert_eq!(results[1].size, 5000);
    assert_eq!(results[2].path, p("/work/notes.txt"));
    assert_eq!(results[2].size, 2000);
}
