use piper::crawler::{subtree_size, NodeKind, Reason, ScannedItem, Spyder, TreeNode};

fn p(s: &str) -> Vec<u8> {
    s.as_bytes().to_vec()
}

fn file(name: &str, size: u64, accessed_secs_ago: u64) -> TreeNode {
    TreeNode { name: p(name), kind: NodeKind::File { size, accessed_secs_ago } }
}

fn dir(name: &str, children: Vec<TreeNode>) -> TreeNode {
    TreeNode { name: p(name), kind: NodeKind::Dir { children } }
}

const DAY: u64 = 24 * 60 * 60;

#[test]
fn test_nested_heavy_dirs_single_candidate() {
    // A heavy directory nested inside another heavy directory yields
    // exactly one candidate: the outer one, with the aggregate size.
    let tree = dir(
        "projects",
        vec![dir(
            "node_modules",
            vec![
                dir("node_modules", vec![file("big.bin", 4096, 0)]),
                file("x.js", 100, 0),
            ],
        )],
    );
    let spyder = Spyder::new(p("/tmp/projects"));
    let items: Vec<ScannedItem> = spyder.crawl(&tree);
    assert_eq!(items.len(), 1);
    assert_eq!(items[0].path, p("/tmp/projects/node_modules"));
    assert_eq!(items[0].size, 4196);
    assert!(matches!(items[0].reason, Reason::HeavyDependencyFolder));
}

#[test]
fn test_stale_log_is_candidate() {
    // A 2 MiB log last accessed 40 days ago is a candidate; an otherwise
    // identical file accessed 2 days ago is not.
    let stale = dir("logs", vec![file("server.log", 2 * 1024 * 1024, 40 * DAY)]);
    let spyder = Spyder::new(p("/var/logs"));
    let items = spyder.crawl(&stale);
    assert_eq!(items.len(), 1);
    assert_eq!(items[0].path, p("/var/logs/server.log"));
    assert_eq!(items[0].size, 2 * 1024 * 1024);
    assert!(matches!(items[0].reason, Reason::StaleLogFile));

    let fresh = dir("logs", vec![file("server.log", 2 * 1024 * 1024, 2 * DAY)]);
    let items = spyder.crawl(&fresh);
    assert_eq!(items.len(), 0);
}

#[test]
fn test_small_or_wrong_extension_not_candidate() {
    let tree = dir(
        "stuff",
        vec![
            file("small.log", 500 * 1024, 40 * DAY),
            file("code.rs", 2 * 1024 * 1024, 40 * DAY),
        ],
    );
    let spyder = Spyder::new(p("/stuff"));
    assert_eq!(spyder.crawl(&tree).len(), 0);
}

#[test]
fn test_old_and_txt_extensions_count() {
    let tree = dir(
        "stuff",
        vec![
            file("dump.old", 2 * 1024 * 1024, 40 * DAY),
            file("huge.txt", 3 * 1024 * 1024, 40 * DAY),
        ],
    );
    let spyder = Spyder::new(p("/stuff"));
    assert_eq!(spyder.crawl(&tree).len(), 2);
}

#[test]
fn test_git_dir_never_reported_or_entered() {
    // Version-control metadata is excluded even when it holds what would
    // otherwise match.
    let tree = dir(
        "repo",
        vec![dir(
            ".git",
            vec![
                dir("node_modules", vec![file("a.bin", 9999, 0)]),
                file("old.log", 2 * 1024 * 1024, 40 * DAY),
            ],
        )],
    );
    let spyder = Spyder::new(p("/repo"));
    assert_eq!(spyder.crawl(&tree).len(), 0);
}

#[test]
fn test_results_sorted_by_size_descending() {
    let tree = dir(
        "root",
        vec![
            file("a.log", 2 * 1024 * 1024, 40 * DAY),
            dir("node_modules", vec![file("m.bin", 9 * 1024 * 1024, 0)]),
            file("b.log", 5 * 1024 * 1024, 40 * DAY),
        ],
    );
    let spyder = Spyder::new(p("/root"));
    let items = spyder.crawl(&tree);
    assert_eq!(items.len(), 3);
    assert_eq!(items[0].size, 9 * 1024 * 1024);
    assert_eq!(items[1].size, 5 * 1024 * 1024);
    assert_eq!(items[2].size, 2 * 1024 * 1024);
    assert_eq!(items[0].path, p("/root/node_modules"));
}

#[test]
fn test_subtree_size_sums_files() {
    let tree = dir(
        "d",
        vec![
            file("a", 10, 0),
            dir("e", vec![file("b", 20, 0), file("c", 30, 0)]),
        ],
    );
    assert_eq!(subtree_size(&tree), 60);
    assert_eq!(subtree_size(&file("x", 7, 0)), 7);
}
