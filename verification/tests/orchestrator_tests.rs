use piper::archiver::CompressionStats;
use piper::crawler::Reason;
use piper::orchestrator::{App, AppMessage, AppTab, FileItem, FileStatus, JobState};

fn p(s: &str) -> Vec<u8> {
    s.as_bytes().to_vec()
}

fn found(path: &str, size: u64) -> FileItem {
    FileItem {
        path: p(path),
        original_size: size,
        compressed_size: None,
        status: FileStatus::Found,
        reason: Reason::StaleLogFile,
        selected: false,
    }
}

fn ok_stats(orig: u64, comp: u64, path: &str) -> Result<CompressionStats, String> {
    Ok(CompressionStats { original_size: orig, compressed_size: comp, output_path: p(path) })
}

fn app_with_items(items: Vec<FileItem>) -> App {
    let mut app = App::new(p("/root"), 15);
    assert!(app.start_scan());
    assert_eq!(app.job, JobState::Scanning);
    app.apply_message(AppMessage::ScanComplete(items));
    assert_eq!(app.job, JobState::Idle);
    app
}

#[test]
fn test_scan_complete_replaces_items() {
    let app = app_with_items(vec![found("a.log", 10), found("b.log", 20)]);
    assert_eq!(app.items.len(), 2);
    assert_eq!(app.cursor, Some(0));
    // All items still untouched: ratio 1, score 2.60.
    assert_eq!(app.score_centi, 260);
}

#[test]
fn test_score_independent_of_message_order() {
    // Three workers report in different orders; the final score is the
    // formula over the items either way, and a session sees exactly one
    // progress message per item followed by one done message.
    let items = vec![found("a", 1000), found("b", 2000), found("c", 3000)];
    let msgs = |order: &[usize]| -> Vec<AppMessage> {
        order
            .iter()
            .map(|&i| match i {
                0 => AppMessage::CompressionProgress(0, ok_stats(1000, 100, "a.zst")),
                1 => AppMessage::CompressionProgress(1, ok_stats(2000, 200, "b.zst")),
                _ => AppMessage::CompressionProgress(2, Err("worker failed".to_string())),
            })
            .collect()
    };

    let mut first = app_with_items(clone_items(&items));
    let targets = first.start_compression();
    assert_eq!(targets.len(), 3);
    let mut progress_count = 0;
    for m in msgs(&[0, 1, 2]) {
        assert!(!first.apply_message(m));
        progress_count += 1;
    }
    assert_eq!(progress_count, 3);
    assert!(first.apply_message(AppMessage::CompressionDone));
    assert_eq!(first.job, JobState::Idle);

    let mut second = app_with_items(items);
    second.start_compression();
    for m in msgs(&[2, 1, 0]) {
        second.apply_message(m);
    }
    assert!(second.apply_message(AppMessage::CompressionDone));

    // sum original = 6000; effective = 100 + 200 + 3000 = 3300;
    // score = 6000 * 260 / 3300 = 472 hundredths.
    assert_eq!(first.score_centi, 472);
    assert_eq!(second.score_centi, first.score_centi);
    assert_eq!(first.total_savings, 900 + 1800);
    assert_eq!(second.total_savings, first.total_savings);
}

fn clone_items(v: &[FileItem]) -> Vec<FileItem> {
    v.iter()
        .map(|i| FileItem {
            path: i.path.clone(),
            original_size: i.original_size,
            compressed_size: i.compressed_size,
            status: i.status,
            reason: i.reason,
            selected: i.selected,
        })
        .collect()
}

#[test]
fn test_selection_scopes_compression() {
    // With one item selected, compression touches only that item.
    let mut items = vec![found("a", 100), found("b", 200)];
    items[0].selected = true;
    let mut app = app_with_items(items);
    let targets = app.start_compression();
    assert_eq!(targets.len(), 1);
    assert_eq!(targets[0].0, 0);
    assert_eq!(targets[0].1, p("a"));
    assert_eq!(app.items[0].status, FileStatus::Compressing);
    assert_eq!(app.items[1].status, FileStatus::Found, "unselected item stays Found");
}

#[test]
fn test_compression_targets_all_found_without_selection() {
    let mut items = vec![found("a", 100), found("b", 200), found("c", 300)];
    items[1].status = FileStatus::Done;
    let mut app = app_with_items(items);
    let targets = app.start_compression();
    assert_eq!(targets.len(), 2);
    assert_eq!(targets[0].0, 0);
    assert_eq!(targets[1].0, 2);
    assert_eq!(app.items[1].status, FileStatus::Done);
}

#[test]
fn test_only_idle_starts_a_job() {
    let mut app = app_with_items(vec![found("a", 100)]);
    assert!(app.start_scan());
    assert_eq!(app.job, JobState::Scanning);
    assert!(!app.start_scan(), "a second scan is refused");
    let targets = app.start_compression();
    assert_eq!(targets.len(), 0, "compression refused while scanning");
    assert!(app.start_restore().is_none(), "restore refused while scanning");
}

#[test]
fn test_spurious_report_is_ignored() {
    // A progress report for an item that was never marked for compression
    // does not move it: only busy items accept completion reports.
    let mut items = vec![found("a", 100), found("b", 200)];
    items[0].selected = true;
    let mut app = app_with_items(items);
    let targets = app.start_compression();
    assert_eq!(targets.len(), 1, "only the selected item is a target");
    app.apply_message(AppMessage::CompressionProgress(1, ok_stats(200, 20, "b.zst")));
    assert_eq!(app.items[1].status, FileStatus::Found, "unmarked item is untouched");
    assert_eq!(app.items[1].compressed_size, None);
    assert_eq!(app.total_savings, 0);
}

#[test]
fn test_duplicate_report_counted_once() {
    // A second report for the same item is ignored: the first moved it out
    // of the busy state, so its savings are credited exactly once.
    let mut app = app_with_items(vec![found("a", 1000)]);
    app.start_compression();
    app.apply_message(AppMessage::CompressionProgress(0, ok_stats(1000, 100, "a.zst")));
    app.apply_message(AppMessage::CompressionProgress(0, ok_stats(1000, 100, "a.zst")));
    assert_eq!(app.items[0].status, FileStatus::Done);
    assert_eq!(app.total_savings, 900, "savings counted once");
    // One item: 1000 original over 100 effective, times 2.6.
    assert_eq!(app.score_centi, 2600);
}

#[test]
fn test_no_savings_marks_error() {
    let mut app = app_with_items(vec![found("a", 100)]);
    app.start_compression();
    app.apply_message(AppMessage::CompressionProgress(0, ok_stats(100, 100, "a")));
    assert_eq!(app.items[0].status, FileStatus::Error);
    assert!(matches!(app.items[0].reason, Reason::NoSavings));
    assert_eq!(app.items[0].compressed_size, Some(100));
    assert_eq!(app.total_savings, 0);
}

#[test]
fn test_worker_failure_marks_error_without_sizes() {
    let mut app = app_with_items(vec![found("a", 100)]);
    app.start_compression();
    app.apply_message(AppMessage::CompressionProgress(0, Err("denied".to_string())));
    assert_eq!(app.items[0].status, FileStatus::Error);
    assert_eq!(app.items[0].compressed_size, None);
}

#[test]
fn test_restore_flow() {
    let mut app = app_with_items(vec![found("a.log", 1000)]);
    app.start_compression();
    app.apply_message(AppMessage::CompressionProgress(0, ok_stats(1000, 100, "a.log.zst")));
    assert!(app.apply_message(AppMessage::CompressionDone));
    assert_eq!(app.items[0].status, FileStatus::Done);
    assert_eq!(app.total_savings, 900);

    let r = app.start_restore();
    assert_eq!(r, Some((0, p("a.log"))));
    assert_eq!(app.job, JobState::Restoring);
    assert_eq!(app.items[0].status, FileStatus::Compressing);

    app.apply_message(AppMessage::RestorationDone(0, true));
    assert_eq!(app.job, JobState::Idle);
    assert_eq!(app.items[0].status, FileStatus::Restored);
    assert_eq!(app.items[0].compressed_size, None);
    assert_eq!(app.total_savings, 0, "credited savings reverted");
}

#[test]
fn test_restore_failure_marks_error() {
    let mut app = app_with_items(vec![found("a.log", 1000)]);
    app.start_compression();
    app.apply_message(AppMessage::CompressionProgress(0, ok_stats(1000, 100, "a.log.zst")));
    app.apply_message(AppMessage::CompressionDone);
    app.start_restore();
    app.apply_message(AppMessage::RestorationDone(0, false));
    assert_eq!(app.job, JobState::Idle);
    assert_eq!(app.items[0].status, FileStatus::Error);
}

#[test]
fn test_restore_needs_done_item() {
    let mut app = app_with_items(vec![found("a.log", 1000)]);
    assert!(app.start_restore().is_none(), "a Found item cannot be restored");
    assert_eq!(app.job, JobState::Idle);
}

#[test]
fn test_delete_flow() {
    let mut app = app_with_items(vec![found("a.log", 1000)]);
    let targets = app.delete_targets();
    assert_eq!(targets, vec![0], "cursor item is the target without a selection");
    app.apply_delete_result(0, true);
    assert_eq!(app.items[0].status, FileStatus::Deleted);
    assert_eq!(app.items[0].compressed_size, Some(0));
    assert_eq!(app.total_savings, 1000, "deletion counts as full savings");
    assert_eq!(app.score_centi, 0, "zero effective size gives score 0");
}

#[test]
fn test_delete_targets_selection_and_guard() {
    let mut items = vec![found("a", 1), found("b", 2), found("c", 3)];
    items[0].selected = true;
    items[2].selected = true;
    let mut app = app_with_items(items);
    assert_eq!(app.delete_targets(), vec![0, 2]);
    app.start_compression();
    assert_eq!(app.delete_targets(), Vec::<usize>::new(), "no deletion while compressing");
}

#[test]
fn test_delete_failure_marks_error() {
    let mut app = app_with_items(vec![found("a", 10)]);
    app.apply_delete_result(0, false);
    assert_eq!(app.items[0].status, FileStatus::Error);
    assert_eq!(app.total_savings, 0);
}

#[test]
fn test_cursor_navigation_wraps() {
    let mut app = app_with_items(vec![found("a", 1), found("b", 2), found("c", 3)]);
    assert_eq!(app.cursor, Some(0));
    app.next();
    assert_eq!(app.cursor, Some(1));
    app.next();
    app.next();
    assert_eq!(app.cursor, Some(0), "next wraps to the top");
    app.previous();
    assert_eq!(app.cursor, Some(2), "previous wraps to the bottom");
}

#[test]
fn test_toggle_selection_and_details() {
    let mut app = app_with_items(vec![found("a", 1)]);
    assert!(!app.items[0].selected);
    app.toggle_selection();
    assert!(app.items[0].selected);
    app.toggle_selection();
    assert!(!app.items[0].selected);
    assert!(!app.show_details);
    app.toggle_details();
    assert!(app.show_details);

    let mut empty = App::new(p("/x"), 3);
    empty.toggle_details();
    assert!(!empty.show_details, "no details popup on an empty list");
}

#[test]
fn test_next_tab_cycles() {
    let mut app = App::new(p("/x"), 3);
    assert_eq!(app.current_tab, AppTab::Scanner);
    app.next_tab();
    assert_eq!(app.current_tab, AppTab::Analytics);
    app.next_tab();
    assert_eq!(app.current_tab, AppTab::Status);
    app.next_tab();
    assert_eq!(app.current_tab, AppTab::Scanner);
}

#[test]
fn test_new_app_defaults() {
    let app = App::new(p("/root"), 15);
    assert_eq!(app.job, JobState::Idle);
    assert_eq!(app.score_centi, 520, "the display default score is 5.20");
    assert_eq!(app.compression_level, 15);
    assert_eq!(app.items.len(), 0);
}
