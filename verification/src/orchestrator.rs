//! The job orchestrator: the single writer of the managed item list and of
//! the one job-state flag.  Commands that need an incompatible job state
//! are silent no-ops; background workers report back only through
//! messages, each applied here as one atomic step; the aggregate score is
//! recomputed after every state change.

use vstd::prelude::*;

use crate::archiver::CompressionStats;
use crate::bytes::clone_bytes;
use crate::crawler::Reason;
use crate::fsmodel::sat_u64;

verus! {

/// The lifecycle of one managed item.
#[derive(Clone, Copy, Debug, PartialEq, Eq, Structural)]
pub enum FileStatus {
    Found,
    Compressing,
    Done,
    Error,
    Deleted,
    Restored,
}

/// The one process-wide job state: only `Idle` may move to a non-idle
/// state, and a job's completion message is what returns it to `Idle`.
#[derive(Clone, Copy, Debug, PartialEq, Eq, Structural)]
pub enum JobState {
    Idle,
    Scanning,
    Compressing,
    Restoring,
}

/// The dashboard tabs.
#[derive(Clone, Copy, Debug, PartialEq, Eq, Structural)]
pub enum AppTab {
    Scanner,
    Analytics,
    Status,
}

/// The two screens.
#[derive(Clone, Copy, Debug, PartialEq, Eq, Structural)]
pub enum AppView {
    Home,
    Dashboard,
}

/// One managed item: created from a crawler candidate when a scan
/// completes, mutated only by the orchestrator.
pub struct FileItem {
    pub path: Vec<u8>,
    pub original_size: u64,
    pub compressed_size: Option<u64>,
    pub status: FileStatus,
    pub reason: Reason,
    pub selected: bool,
}

/// The mathematical shape of a `FileItem`.
pub struct FileItemV {
    pub path: Seq<u8>,
    pub original_size: u64,
    pub compressed_size: Option<u64>,
    pub status: FileStatus,
    pub reason: Reason,
    pub selected: bool,
}

impl View for FileItem {
    type V = FileItemV;

    open spec fn view(&self) -> FileItemV {
        FileItemV {
            path: self.path@,
            original_size: self.original_size,
            compressed_size: self.compressed_size,
            status: self.status,
            reason: self.reason,
            selected: self.selected,
        }
    }
}

/// The views of a sequence of managed items.
pub open spec fn file_items_view(s: Seq<FileItem>) -> Seq<FileItemV> {
    s.map_values(|i: FileItem| i@)
}

/// The mathematical shape of a `CompressionStats`.
pub struct StatsV {
    pub original_size: u64,
    pub compressed_size: u64,
    pub output_path: Seq<u8>,
}

impl View for CompressionStats {
    type V = StatsV;

    open spec fn view(&self) -> StatsV {
        StatsV {
            original_size: self.original_size,
            compressed_size: self.compressed_size,
            output_path: self.output_path@,
        }
    }
}

/// One message a background worker posts to the orchestrator.
pub enum AppMessage {
    ScanComplete(Vec<FileItem>),
    CompressionProgress(usize, Result<CompressionStats, String>),
    CompressionDone,
    RestorationDone(usize, bool),
}

/// The mathematical shape of an `AppMessage`.
pub enum AppMessageV {
    ScanComplete(Seq<FileItemV>),
    CompressionProgress(int, Result<StatsV, Seq<char>>),
    CompressionDone,
    RestorationDone(int, bool),
}

impl View for AppMessage {
    type V = AppMessageV;

    open spec fn view(&self) -> AppMessageV {
        match self {
            AppMessage::ScanComplete(v) => AppMessageV::ScanComplete(file_items_view(v@)),
            AppMessage::CompressionProgress(idx, res) => AppMessageV::CompressionProgress(
                *idx as int,
                match res {
                    Ok(st) => Ok(st@),
                    Err(e) => Err(e@),
                },
            ),
            AppMessage::CompressionDone => AppMessageV::CompressionDone,
            AppMessage::RestorationDone(idx, ok) => AppMessageV::RestorationDone(*idx as int, *ok),
        }
    }
}

/// The orchestrator state: the managed item list, the job flag, the cursor
/// and selection state, and the aggregate metrics.
pub struct App {
    pub current_view: AppView,
    pub items: Vec<FileItem>,
    pub cursor: Option<usize>,
    pub job: JobState,
    pub score_centi: u128,
    pub total_savings: u64,
    pub show_details: bool,
    pub spinner_state: u8,
    pub scan_path: Vec<u8>,
    pub compression_level: i32,
    pub current_tab: AppTab,
    pub session_savings: u64,
    pub session_original: u64,
    pub session_compressed: u64,
}

/// The mathematical shape of the orchestrator state.
pub struct AppV {
    pub current_view: AppView,
    pub items: Seq<FileItemV>,
    pub cursor: Option<usize>,
    pub job: JobState,
    pub score_centi: u128,
    pub total_savings: u64,
    pub show_details: bool,
    pub spinner_state: u8,
    pub scan_path: Seq<u8>,
    pub compression_level: i32,
    pub current_tab: AppTab,
    pub session_savings: u64,
    pub session_original: u64,
    pub session_compressed: u64,
}

impl View for App {
    type V = AppV;

    open spec fn view(&self) -> AppV {
        AppV {
            current_view: self.current_view,
            items: file_items_view(self.items@),
            cursor: self.cursor,
            job: self.job,
            score_centi: self.score_centi,
            total_savings: self.total_savings,
            show_details: self.show_details,
            spinner_state: self.spinner_state,
            scan_path: self.scan_path@,
            compression_level: self.compression_level,
            current_tab: self.current_tab,
            session_savings: self.session_savings,
            session_original: self.session_original,
            session_compressed: self.session_compressed,
        }
    }
}

/// Addition of `u64` values saturating at the top of the range.
pub open spec fn sat_add(a: u64, b: u64) -> u64 {
    if a + b > u64::MAX {
        u64::MAX
    } else {
        (a + b) as u64
    }
}

/// Subtraction of `u64` values saturating at zero.
pub open spec fn sat_sub(a: u64, b: u64) -> u64 {
    if a < b {
        0u64
    } else {
        (a - b) as u64
    }
}

/// The size an item still occupies: its compressed size once one is
/// recorded, else its original size.
pub open spec fn effective_size(item: FileItemV) -> int {
    match item.compressed_size {
        Some(c) => c as int,
        None => item.original_size as int,
    }
}

/// The sum of the items' original sizes.
pub open spec fn sum_original(items: Seq<FileItemV>) -> int
    decreases items.len(),
{
    if items.len() == 0 {
        0
    } else {
        sum_original(items.drop_last()) + items.last().original_size
    }
}

/// The sum of the items' effective sizes.
pub open spec fn sum_effective(items: Seq<FileItemV>) -> int
    decreases items.len(),
{
    if items.len() == 0 {
        0
    } else {
        sum_effective(items.drop_last()) + effective_size(items.last())
    }
}

/// The aggregate score in hundredths: the ratio of total original size to
/// total effective size, times 2.6, each sum clamped to `u64`; zero when
/// the denominator is zero.
pub open spec fn score_centi_spec(items: Seq<FileItemV>) -> int {
    let so = sat_u64(sum_original(items));
    let se = sat_u64(sum_effective(items));
    if se == 0 {
        0
    } else {
        so * 260 / se
    }
}

proof fn lemma_sum_original_nonneg(items: Seq<FileItemV>)
    ensures
        sum_original(items) >= 0,
    decreases items.len(),
{
    if items.len() > 0 {
        lemma_sum_original_nonneg(items.drop_last());
    }
}

proof fn lemma_sum_effective_nonneg(items: Seq<FileItemV>)
    ensures
        sum_effective(items) >= 0,
    decreases items.len(),
{
    if items.len() > 0 {
        lemma_sum_effective_nonneg(items.drop_last());
    }
}

proof fn lemma_sat_add_int(a: int, b: int)
    requires
        a >= 0,
        b >= 0,
    ensures
        sat_u64(sat_u64(a) + sat_u64(b)) == sat_u64(a + b),
{
}

impl App {
    /// A fresh orchestrator over the given scan root and compression
    /// level.  The score starts at its display default of 5.20.
    pub fn new(scan_path: Vec<u8>, compression_level: i32) -> (app: App)
        ensures
            app@ == (AppV {
                current_view: AppView::Home,
                items: Seq::empty(),
                cursor: Some(0usize),
                job: JobState::Idle,
                score_centi: 520u128,
                total_savings: 0u64,
                show_details: false,
                spinner_state: 0u8,
                scan_path: scan_path@,
                compression_level,
                current_tab: AppTab::Scanner,
                session_savings: 0u64,
                session_original: 0u64,
                session_compressed: 0u64,
            }),
    {
        let app = App {
            current_view: AppView::Home,
            items: Vec::new(),
            cursor: Some(0),
            job: JobState::Idle,
            score_centi: 520,
            total_savings: 0,
            show_details: false,
            spinner_state: 0,
            scan_path,
            compression_level,
            current_tab: AppTab::Scanner,
            session_savings: 0,
            session_original: 0,
            session_compressed: 0,
        };
        proof {
            assert(file_items_view(app.items@) =~= Seq::<FileItemV>::empty());
        }
        app
    }

    /// Recompute the aggregate score from the item list; nothing else
    /// changes.
    pub fn calculate_score(&mut self)
        ensures
            final(self)@ == (AppV { score_centi: score_centi_spec(old(self)@.items) as u128,
                ..old(self)@ }),
    {
        let ghost itemsv = self@.items;
        let mut so: u64 = 0;
        let mut se: u64 = 0;
        let n = self.items.len();
        let mut i: usize = 0;
        while i < n
            invariant
                0 <= i <= n,
                n == self.items@.len(),
                itemsv == file_items_view(self.items@),
                so == sat_u64(sum_original(itemsv.subrange(0, i as int))),
                se == sat_u64(sum_effective(itemsv.subrange(0, i as int))),
            decreases n - i,
        {
            proof {
                let pre = itemsv.subrange(0, i as int);
                let post = itemsv.subrange(0, i + 1);
                assert(post.drop_last() =~= pre);
                assert(post.last() == itemsv[i as int]);
                lemma_sum_original_nonneg(pre);
                lemma_sum_effective_nonneg(pre);
                lemma_sat_add_int(sum_original(pre), itemsv[i as int].original_size as int);
                lemma_sat_add_int(sum_effective(pre), effective_size(itemsv[i as int]));
            }
            so = so.saturating_add(self.items[i].original_size);
            let eff: u64 = match self.items[i].compressed_size {
                Some(c) => c,
                None => self.items[i].original_size,
            };
            se = se.saturating_add(eff);
            i = i + 1;
        }
        proof {
            assert(itemsv.subrange(0, n as int) =~= itemsv);
        }
        if se == 0 {
            self.score_centi = 0;
        } else {
            self.score_centi = (so as u128) * 260 / (se as u128);
        }
    }
}

/// How one progress report changes the one item it concerns: a result
/// with savings marks it done; one without savings marks it failed with
/// the no-savings reason; a failure marks it failed.  A recorded
/// compressed size is kept either way.
pub open spec fn apply_progress_item(item: FileItemV, result: Result<StatsV, Seq<char>>) -> FileItemV {
    match result {
        Ok(st) => {
            if st.original_size > st.compressed_size {
                FileItemV {
                    compressed_size: Some(st.compressed_size),
                    status: FileStatus::Done,
                    ..item
                }
            } else {
                FileItemV {
                    compressed_size: Some(st.compressed_size),
                    status: FileStatus::Error,
                    reason: Reason::NoSavings,
                    ..item
                }
            }
        },
        Err(_) => FileItemV { status: FileStatus::Error, ..item },
    }
}

/// The one-step transition of the orchestrator on one message, and whether
/// the message ended a compression session.  A message that does not match
/// the current job state changes nothing.
pub open spec fn step(app: AppV, msg: AppMessageV) -> (AppV, bool) {
    match msg {
        AppMessageV::ScanComplete(v) => {
            if app.job == JobState::Scanning {
                (
                    AppV {
                        items: v,
                        job: JobState::Idle,
                        cursor: if v.len() > 0 {
                            Some(0usize)
                        } else {
                            app.cursor
                        },
                        score_centi: score_centi_spec(v) as u128,
                        ..app
                    },
                    false,
                )
            } else {
                (app, false)
            }
        },
        AppMessageV::CompressionProgress(idx, result) => {
            if app.job == JobState::Compressing && 0 <= idx < app.items.len()
                && app.items[idx].status == FileStatus::Compressing {
                let items2 = app.items.update(idx, apply_progress_item(app.items[idx], result));
                match result {
                    Ok(st) => {
                        if st.original_size > st.compressed_size {
                            let delta = (st.original_size - st.compressed_size) as u64;
                            (
                                AppV {
                                    items: items2,
                                    total_savings: sat_add(app.total_savings, delta),
                                    session_savings: sat_add(app.session_savings, delta),
                                    session_original: sat_add(
                                        app.session_original,
                                        st.original_size,
                                    ),
                                    session_compressed: sat_add(
                                        app.session_compressed,
                                        st.compressed_size,
                                    ),
                                    score_centi: score_centi_spec(items2) as u128,
                                    ..app
                                },
                                false,
                            )
                        } else {
                            (
                                AppV {
                                    items: items2,
                                    score_centi: score_centi_spec(items2) as u128,
                                    ..app
                                },
                                false,
                            )
                        }
                    },
                    Err(_) => (
                        AppV { items: items2, score_centi: score_centi_spec(items2) as u128, ..app },
                        false,
                    ),
                }
            } else {
                (app, false)
            }
        },
        AppMessageV::CompressionDone => {
            if app.job == JobState::Compressing {
                (AppV { job: JobState::Idle, ..app }, true)
            } else {
                (app, false)
            }
        },
        AppMessageV::RestorationDone(idx, ok) => {
            if app.job == JobState::Restoring {
                if 0 <= idx < app.items.len() && app.items[idx].status == FileStatus::Compressing
                    && ok {
                    let item = app.items[idx];
                    let items2 = app.items.update(
                        idx,
                        FileItemV { status: FileStatus::Restored, compressed_size: None, ..item },
                    );
                    let reverted = match item.compressed_size {
                        Some(c) => {
                            if item.original_size > c {
                                sat_sub(app.total_savings, (item.original_size - c) as u64)
                            } else {
                                app.total_savings
                            }
                        },
                        None => app.total_savings,
                    };
                    (
                        AppV {
                            items: items2,
                            total_savings: reverted,
                            score_centi: score_centi_spec(items2) as u128,
                            job: JobState::Idle,
                            ..app
                        },
                        false,
                    )
                } else if 0 <= idx < app.items.len() && app.items[idx].status
                    == FileStatus::Compressing {
                    let items2 = app.items.update(
                        idx,
                        FileItemV { status: FileStatus::Error, ..app.items[idx] },
                    );
                    (
                        AppV {
                            items: items2,
                            score_centi: score_centi_spec(items2) as u128,
                            job: JobState::Idle,
                            ..app
                        },
                        false,
                    )
                } else {
                    (AppV { job: JobState::Idle, ..app }, false)
                }
            } else {
                (app, false)
            }
        },
    }
}

impl App {
    /// Apply one worker message as one atomic step, per `step`; the result
    /// says whether the message ended a compression session (so that the
    /// session's totals may be handed to a history sink).
    pub fn apply_message(&mut self, msg: AppMessage) -> (finished: bool)
        ensures
            final(self)@ == step(old(self)@, msg@).0,
            finished == step(old(self)@, msg@).1,
    {
        match msg {
            AppMessage::ScanComplete(v) => {
                let ghost msgv = AppMessageV::ScanComplete(file_items_view(v@));
                if self.job == JobState::Scanning {
                    self.items = v;
                    self.job = JobState::Idle;
                    if self.items.len() > 0 {
                        self.cursor = Some(0);
                    }
                    self.calculate_score();
                }
                false
            },
            AppMessage::CompressionProgress(idx, result) => {
                if self.job == JobState::Compressing && idx < self.items.len()
                    && self.items[idx].status == FileStatus::Compressing {
                    let ghost itemsv = self@.items;
                    let path = clone_bytes(&self.items[idx].path);
                    let original_size = self.items[idx].original_size;
                    let compressed_size = self.items[idx].compressed_size;
                    let status = self.items[idx].status;
                    let reason = self.items[idx].reason;
                    let selected = self.items[idx].selected;
                    match result {
                        Ok(st) => {
                            let newitem = if st.original_size > st.compressed_size {
                                FileItem {
                                    path,
                                    original_size,
                                    compressed_size: Some(st.compressed_size),
                                    status: FileStatus::Done,
                                    reason,
                                    selected,
                                }
                            } else {
                                FileItem {
                                    path,
                                    original_size,
                                    compressed_size: Some(st.compressed_size),
                                    status: FileStatus::Error,
                                    reason: Reason::NoSavings,
                                    selected,
                                }
                            };
                            self.items.set(idx, newitem);
                            if st.original_size > st.compressed_size {
                                let delta = st.original_size - st.compressed_size;
                                self.total_savings = self.total_savings.saturating_add(delta);
                                self.session_savings = self.session_savings.saturating_add(delta);
                                self.session_original = self.session_original.saturating_add(
                                    st.original_size,
                                );
                                self.session_compressed = self.session_compressed.saturating_add(
                                    st.compressed_size,
                                );
                            }
                            proof {
                                assert(self@.items =~= itemsv.update(
                                    idx as int,
                                    apply_progress_item(itemsv[idx as int], Ok(st@)),
                                ));
                            }
                            self.calculate_score();
                        },
                        Err(_) => {
                            let newitem = FileItem {
                                path,
                                original_size,
                                compressed_size,
                                status: FileStatus::Error,
                                reason,
                                selected,
                            };
                            self.items.set(idx, newitem);
                            proof {
                                assert(self@.items =~= itemsv.update(
                                    idx as int,
                                    FileItemV { status: FileStatus::Error, ..itemsv[idx as int] },
                                ));
                            }
                            self.calculate_score();
                        },
                    }
                }
                false
            },
            AppMessage::CompressionDone => {
                if self.job == JobState::Compressing {
                    self.job = JobState::Idle;
                    true
                } else {
                    false
                }
            },
            AppMessage::RestorationDone(idx, ok) => {
                if self.job == JobState::Restoring {
                    let ghost itemsv = self@.items;
                    if idx < self.items.len() && self.items[idx].status
                        == FileStatus::Compressing && ok {
                        let path = clone_bytes(&self.items[idx].path);
                        let original_size = self.items[idx].original_size;
                        let compressed_size = self.items[idx].compressed_size;
                        let reason = self.items[idx].reason;
                        let selected = self.items[idx].selected;
                        let newitem = FileItem {
                            path,
                            original_size,
                            compressed_size: None,
                            status: FileStatus::Restored,
                            reason,
                            selected,
                        };
                        self.items.set(idx, newitem);
                        match compressed_size {
                            Some(c) => {
                                if original_size > c {
                                    self.total_savings = self.total_savings.saturating_sub(
                                        original_size - c,
                                    );
                                }
                            },
                            None => {},
                        }
                        proof {
                            assert(self@.items =~= itemsv.update(
                                idx as int,
                                FileItemV {
                                    status: FileStatus::Restored,
                                    compressed_size: None,
                                    ..itemsv[idx as int]
                                },
                            ));
                        }
                        self.calculate_score();
                    } else if idx < self.items.len() && self.items[idx].status
                        == FileStatus::Compressing {
                        let path = clone_bytes(&self.items[idx].path);
                        let original_size = self.items[idx].original_size;
                        let compressed_size = self.items[idx].compressed_size;
                        let reason = self.items[idx].reason;
                        let selected = self.items[idx].selected;
                        let newitem = FileItem {
                            path,
                            original_size,
                            compressed_size,
                            status: FileStatus::Error,
                            reason,
                            selected,
                        };
                        self.items.set(idx, newitem);
                        proof {
                            assert(self@.items =~= itemsv.update(
                                idx as int,
                                FileItemV { status: FileStatus::Error, ..itemsv[idx as int] },
                            ));
                        }
                        self.calculate_score();
                    }
                    self.job = JobState::Idle;
                }
                false
            },
        }
    }
}

/// Some item is selected.
pub open spec fn has_selection(items: Seq<FileItemV>) -> bool {
    exists|i: int| 0 <= i < items.len() && items[i].selected
}

/// The compression target rule: an item is compressed when its status is
/// `Found` and, once any item is selected, only when it is selected too.
pub open spec fn is_compress_target(items: Seq<FileItemV>, i: int) -> bool {
    items[i].status == FileStatus::Found && (has_selection(items) ==> items[i].selected)
}

/// The indices of the compression targets among the first `n` items, in
/// order.
pub open spec fn compress_target_indices(items: Seq<FileItemV>, n: int) -> Seq<int>
    decreases n,
{
    if n <= 0 {
        Seq::empty()
    } else {
        compress_target_indices(items, n - 1) + (if is_compress_target(items, n - 1) {
            seq![n - 1]
        } else {
            Seq::<int>::empty()
        })
    }
}

/// The indices of the selected items among the first `n`, in order.
pub open spec fn selected_indices(items: Seq<FileItemV>, n: int) -> Seq<int>
    decreases n,
{
    if n <= 0 {
        Seq::empty()
    } else {
        selected_indices(items, n - 1) + (if items[n - 1].selected {
            seq![n - 1]
        } else {
            Seq::<int>::empty()
        })
    }
}

/// The deletion targets: nothing while a compression or restoration runs;
/// else the selected items if any are selected, else the cursor item.
pub open spec fn delete_targets_spec(app: AppV) -> Seq<int> {
    if app.job == JobState::Compressing || app.job == JobState::Restoring {
        Seq::empty()
    } else if has_selection(app.items) {
        selected_indices(app.items, app.items.len() as int)
    } else {
        match app.cursor {
            Some(i) => seq![i as int],
            None => Seq::empty(),
        }
    }
}

proof fn lemma_cti_bounds(items: Seq<FileItemV>, n: int)
    requires
        n <= items.len(),
    ensures
        forall|k: int|
            0 <= k < compress_target_indices(items, n).len() ==> 0 <= #[trigger] compress_target_indices(
                items,
                n,
            )[k] < n,
    decreases n,
{
    if n > 0 {
        lemma_cti_bounds(items, n - 1);
        let pre = compress_target_indices(items, n - 1);
        let cur = compress_target_indices(items, n);
        assert forall|k: int| 0 <= k < cur.len() implies 0 <= #[trigger] cur[k] < n by {
            if k < pre.len() {
                assert(cur[k] == pre[k]);
            } else {
                assert(cur[k] == n - 1);
            }
        }
    }
}

impl App {
    fn any_selected(&self) -> (r: bool)
        ensures
            r == has_selection(self@.items),
    {
        let mut i: usize = 0;
        while i < self.items.len()
            invariant
                0 <= i <= self.items@.len(),
                forall|k: int| 0 <= k < i ==> !self@.items[k].selected,
            decreases self.items@.len() - i,
        {
            if self.items[i].selected {
                assert(self@.items[i as int].selected);
                return true;
            }
            i = i + 1;
        }
        assert(forall|k: int| 0 <= k < self@.items.len() ==> !self@.items[k].selected);
        false
    }

    /// Begin a scan: only from `Idle`; the item list and the metrics are
    /// reset and the job state becomes `Scanning`.  The caller then runs
    /// the crawler and posts one `ScanComplete` message.
    pub fn start_scan(&mut self) -> (started: bool)
        ensures
            old(self)@.job != JobState::Idle ==> final(self)@ == old(self)@ && !started,
            old(self)@.job == JobState::Idle ==> started && final(self)@ == (AppV {
                job: JobState::Scanning,
                items: Seq::empty(),
                score_centi: 0u128,
                total_savings: 0u64,
                ..old(self)@
            }),
    {
        if self.job != JobState::Idle {
            return false;
        }
        self.job = JobState::Scanning;
        self.items = Vec::new();
        self.score_centi = 0;
        self.total_savings = 0;
        proof {
            assert(file_items_view(self.items@) =~= Seq::<FileItemV>::empty());
        }
        true
    }

    /// Begin a compression job: only from `Idle`.  The targets — the
    /// `Found` items, narrowed to the selected ones once any is selected —
    /// are all marked `Compressing` before any worker starts, and returned
    /// with their paths for the caller to fan out; no other item changes.
    /// The session counters are reset.
    pub fn start_compression(&mut self) -> (targets: Vec<(usize, Vec<u8>)>)
        ensures
            old(self)@.job != JobState::Idle ==> final(self)@ == old(self)@ && targets@.len()
                == 0,
            old(self)@.job == JobState::Idle ==> {
                let itemsv = old(self)@.items;
                let tis = compress_target_indices(itemsv, itemsv.len() as int);
                &&& final(self)@ == (AppV {
                    job: JobState::Compressing,
                    items: final(self)@.items,
                    session_savings: 0u64,
                    session_original: 0u64,
                    session_compressed: 0u64,
                    ..old(self)@
                })
                &&& final(self)@.items.len() == itemsv.len()
                &&& forall|i: int|
                    0 <= i < itemsv.len() && is_compress_target(itemsv, i) ==> final(self)@.items[i] == (FileItemV { status: FileStatus::Compressing, ..itemsv[i] })
                &&& forall|i: int|
                    0 <= i < itemsv.len() && !is_compress_target(itemsv, i) ==> final(self)@.items[i] == itemsv[i]
                &&& targets@.len() == tis.len()
                &&& forall|k: int|
                    0 <= k < targets@.len() ==> targets@[k].0 as int == tis[k]
                        && targets@[k].1@ == itemsv[tis[k]].path
            },
    {
        let mut targets: Vec<(usize, Vec<u8>)> = Vec::new();
        if self.job != JobState::Idle {
            return targets;
        }
        let ghost itemsv = self@.items;
        let has_sel = self.any_selected();
        self.job = JobState::Compressing;
        self.session_savings = 0;
        self.session_original = 0;
        self.session_compressed = 0;
        let mut items: Vec<FileItem> = Vec::new();
        std::mem::swap(&mut items, &mut self.items);
        let n = items.len();
        let mut i: usize = 0;
        while i < n
            invariant
                0 <= i <= n,
                n == items@.len(),
                itemsv.len() == n,
                has_sel == has_selection(itemsv),
                forall|k: int| i <= k < n ==> file_items_view(items@)[k] == itemsv[k],
                forall|k: int|
                    0 <= k < i && is_compress_target(itemsv, k) ==> file_items_view(items@)[k]
                        == (FileItemV { status: FileStatus::Compressing, ..itemsv[k] }),
                forall|k: int|
                    0 <= k < i && !is_compress_target(itemsv, k) ==> file_items_view(items@)[k]
                        == itemsv[k],
                targets@.len() == compress_target_indices(itemsv, i as int).len(),
                forall|k: int|
                    0 <= k < targets@.len() ==> targets@[k].0 as int == compress_target_indices(
                        itemsv,
                        i as int,
                    )[k] && targets@[k].1@ == itemsv[compress_target_indices(itemsv, i as int)[k]].path,
            decreases n - i,
        {
            proof {
                lemma_cti_bounds(itemsv, i as int);
                lemma_cti_bounds(itemsv, i + 1);
            }
            let is_target = match items[i].status {
                FileStatus::Found => !has_sel || items[i].selected,
                _ => false,
            };
            assert(is_target == is_compress_target(itemsv, i as int));
            if is_target {
                let path = clone_bytes(&items[i].path);
                let original_size = items[i].original_size;
                let compressed_size = items[i].compressed_size;
                let reason = items[i].reason;
                let selected = items[i].selected;
                targets.push((i, clone_bytes(&path)));
                let newitem = FileItem {
                    path,
                    original_size,
                    compressed_size,
                    status: FileStatus::Compressing,
                    reason,
                    selected,
                };
                items.set(i, newitem);
            }
            i = i + 1;
        }
        self.items = items;
        proof {
            lemma_cti_bounds(itemsv, itemsv.len() as int);
        }
        targets
    }

    /// The deletion targets under the current state: the selected items if
    /// any, else the cursor item; nothing while a compression or
    /// restoration runs.  Deletion itself is synchronous and external; the
    /// caller reports each attempt back through `apply_delete_result`.
    pub fn delete_targets(&self) -> (r: Vec<usize>)
        ensures
            r@.map_values(|u: usize| u as int) == delete_targets_spec(self@),
    {
        let mut r: Vec<usize> = Vec::new();
        if self.job == JobState::Compressing || self.job == JobState::Restoring {
            assert(r@.map_values(|u: usize| u as int) =~= delete_targets_spec(self@));
            return r;
        }
        if self.any_selected() {
            let n = self.items.len();
            let mut i: usize = 0;
            while i < n
                invariant
                    0 <= i <= n,
                    n == self.items@.len(),
                    r@.map_values(|u: usize| u as int) == selected_indices(self@.items, i as int),
                decreases n - i,
            {
                let ghost pre = r@;
                if self.items[i].selected {
                    r.push(i);
                }
                assert(r@.map_values(|u: usize| u as int) =~= selected_indices(
                    self@.items,
                    i + 1,
                ));
                i = i + 1;
            }
            r
        } else {
            match self.cursor {
                Some(i) => {
                    r.push(i);
                    assert(r@.map_values(|u: usize| u as int) =~= delete_targets_spec(self@));
                    r
                },
                None => {
                    assert(r@.map_values(|u: usize| u as int) =~= delete_targets_spec(self@));
                    r
                },
            }
        }
    }

    /// Record the outcome of one reversible-delete attempt: on success the
    /// item is `Deleted`, its compressed size is zero and its whole
    /// original size is credited as savings; on failure it is `Error`.
    /// The score is recomputed.  An index beyond the list changes nothing.
    pub fn apply_delete_result(&mut self, idx: usize, deleted: bool)
        ensures
            idx >= old(self)@.items.len() ==> final(self)@ == old(self)@,
            idx < old(self)@.items.len() && deleted ==> final(self)@ == ({
                let items2 = old(self)@.items.update(
                    idx as int,
                    FileItemV {
                        status: FileStatus::Deleted,
                        compressed_size: Some(0u64),
                        ..old(self)@.items[idx as int]
                    },
                );
                AppV {
                    items: items2,
                    total_savings: sat_add(
                        old(self)@.total_savings,
                        old(self)@.items[idx as int].original_size,
                    ),
                    score_centi: score_centi_spec(items2) as u128,
                    ..old(self)@
                }
            }),
            idx < old(self)@.items.len() && !deleted ==> final(self)@ == ({
                let items2 = old(self)@.items.update(
                    idx as int,
                    FileItemV { status: FileStatus::Error, ..old(self)@.items[idx as int] },
                );
                AppV {
                    items: items2,
                    score_centi: score_centi_spec(items2) as u128,
                    ..old(self)@
                }
            }),
    {
        if idx >= self.items.len() {
            return ;
        }
        let ghost itemsv = self@.items;
        let path = clone_bytes(&self.items[idx].path);
        let original_size = self.items[idx].original_size;
        let compressed_size = self.items[idx].compressed_size;
        let reason = self.items[idx].reason;
        let selected = self.items[idx].selected;
        if deleted {
            let newitem = FileItem {
                path,
                original_size,
                compressed_size: Some(0),
                status: FileStatus::Deleted,
                reason,
                selected,
            };
            self.items.set(idx, newitem);
            self.total_savings = self.total_savings.saturating_add(original_size);
            proof {
                assert(self@.items =~= itemsv.update(
                    idx as int,
                    FileItemV {
                        status: FileStatus::Deleted,
                        compressed_size: Some(0u64),
                        ..itemsv[idx as int]
                    },
                ));
            }
        } else {
            let newitem = FileItem {
                path,
                original_size,
                compressed_size,
                status: FileStatus::Error,
                reason,
                selected,
            };
            self.items.set(idx, newitem);
            proof {
                assert(self@.items =~= itemsv.update(
                    idx as int,
                    FileItemV { status: FileStatus::Error, ..itemsv[idx as int] },
                ));
            }
        }
        self.calculate_score();
    }

    /// Begin a restoration: only from `Idle`, only for the cursor item,
    /// and only when that item is `Done`.  The item is optimistically
    /// marked busy and its index and path are returned for the caller to
    /// decompress; one `RestorationDone` message reports the outcome.
    pub fn start_restore(&mut self) -> (r: Option<(usize, Vec<u8>)>)
        ensures
            ({
                let ok = old(self)@.job == JobState::Idle && match old(self)@.cursor {
                    Some(i) => i < old(self)@.items.len() && old(self)@.items[i as int].status
                        == FileStatus::Done,
                    None => false,
                };
                if ok {
                    let i = old(self)@.cursor->Some_0;
                    &&& r matches Some(t) && t.0 == i && t.1@ == old(self)@.items[i as int].path
                    &&& final(self)@ == (AppV {
                        job: JobState::Restoring,
                        items: old(self)@.items.update(
                            i as int,
                            FileItemV {
                                status: FileStatus::Compressing,
                                ..old(self)@.items[i as int]
                            },
                        ),
                        ..old(self)@
                    })
                } else {
                    r is None && final(self)@ == old(self)@
                }
            }),
    {
        if self.job != JobState::Idle {
            return None;
        }
        let i = match self.cursor {
            Some(i) => i,
            None => {
                return None;
            },
        };
        if i >= self.items.len() {
            return None;
        }
        if self.items[i].status != FileStatus::Done {
            return None;
        }
        let ghost itemsv = self@.items;
        let path = clone_bytes(&self.items[i].path);
        let original_size = self.items[i].original_size;
        let compressed_size = self.items[i].compressed_size;
        let reason = self.items[i].reason;
        let selected = self.items[i].selected;
        let newitem = FileItem {
            path: clone_bytes(&path),
            original_size,
            compressed_size,
            status: FileStatus::Compressing,
            reason,
            selected,
        };
        self.items.set(i, newitem);
        self.job = JobState::Restoring;
        proof {
            assert(self@.items =~= itemsv.update(
                i as int,
                FileItemV { status: FileStatus::Compressing, ..itemsv[i as int] },
            ));
        }
        Some((i, path))
    }

    /// Flip the selection mark of the cursor item.
    pub fn toggle_selection(&mut self)
        ensures
            ({
                match old(self)@.cursor {
                    Some(i) => {
                        if i < old(self)@.items.len() {
                            final(self)@ == (AppV {
                                items: old(self)@.items.update(
                                    i as int,
                                    FileItemV {
                                        selected: !old(self)@.items[i as int].selected,
                                        ..old(self)@.items[i as int]
                                    },
                                ),
                                ..old(self)@
                            })
                        } else {
                            final(self)@ == old(self)@
                        }
                    },
                    None => final(self)@ == old(self)@,
                }
            }),
    {
        let i = match self.cursor {
            Some(i) => i,
            None => {
                return ;
            },
        };
        if i >= self.items.len() {
            return ;
        }
        let ghost itemsv = self@.items;
        let path = clone_bytes(&self.items[i].path);
        let original_size = self.items[i].original_size;
        let compressed_size = self.items[i].compressed_size;
        let status = self.items[i].status;
        let reason = self.items[i].reason;
        let selected = self.items[i].selected;
        let newitem = FileItem {
            path,
            original_size,
            compressed_size,
            status,
            reason,
            selected: !selected,
        };
        self.items.set(i, newitem);
        proof {
            assert(self@.items =~= itemsv.update(
                i as int,
                FileItemV { selected: !itemsv[i as int].selected, ..itemsv[i as int] },
            ));
        }
    }

    /// Show or hide the details popup; nothing happens on an empty list.
    pub fn toggle_details(&mut self)
        ensures
            old(self)@.items.len() > 0 ==> final(self)@ == (AppV {
                show_details: !old(self)@.show_details,
                ..old(self)@
            }),
            old(self)@.items.len() == 0 ==> final(self)@ == old(self)@,
    {
        if self.items.len() > 0 {
            self.show_details = !self.show_details;
        }
    }

    /// Move the cursor down one row, wrapping to the top.
    pub fn next(&mut self)
        ensures
            final(self)@ == (AppV {
                cursor: Some(
                    match old(self)@.cursor {
                        Some(i) => {
                            if i as int >= old(self)@.items.len() - 1 {
                                0usize
                            } else {
                                (i + 1) as usize
                            }
                        },
                        None => 0usize,
                    },
                ),
                ..old(self)@
            }),
    {
        let n = self.items.len();
        let i: usize = match self.cursor {
            Some(i) => {
                if n == 0 || i >= n - 1 {
                    0
                } else {
                    i + 1
                }
            },
            None => 0,
        };
        self.cursor = Some(i);
    }

    /// Move the cursor up one row, wrapping to the bottom.
    pub fn previous(&mut self)
        ensures
            final(self)@ == (AppV {
                cursor: Some(
                    match old(self)@.cursor {
                        Some(i) => {
                            if i == 0 {
                                if old(self)@.items.len() == 0 {
                                    0usize
                                } else {
                                    (old(self)@.items.len() - 1) as usize
                                }
                            } else {
                                (i - 1) as usize
                            }
                        },
                        None => 0usize,
                    },
                ),
                ..old(self)@
            }),
    {
        let n = self.items.len();
        let i: usize = match self.cursor {
            Some(i) => {
                if i == 0 {
                    if n == 0 {
                        0
                    } else {
                        n - 1
                    }
                } else {
                    i - 1
                }
            },
            None => 0,
        };
        self.cursor = Some(i);
    }

    /// Cycle through the dashboard tabs.
    pub fn next_tab(&mut self)
        ensures
            final(self)@ == (AppV {
                current_tab: match old(self)@.current_tab {
                    AppTab::Scanner => AppTab::Analytics,
                    AppTab::Analytics => AppTab::Status,
                    AppTab::Status => AppTab::Scanner,
                },
                ..old(self)@
            }),
    {
        self.current_tab = match self.current_tab {
            AppTab::Scanner => AppTab::Analytics,
            AppTab::Analytics => AppTab::Status,
            AppTab::Status => AppTab::Scanner,
        };
    }

    /// Advance the busy spinner one frame.
    pub fn advance_spinner(&mut self)
        ensures
            final(self)@ == (AppV {
                spinner_state: (((old(self)@.spinner_state % 4) + 1) % 4) as u8,
                ..old(self)@
            }),
    {
        let frame = self.spinner_state % 4;
        self.spinner_state = (frame + 1) % 4;
    }
}

/// The orchestrator after one whole batch of progress reports, applied in
/// batch order.
pub open spec fn apply_progress_batch(
    app: AppV,
    batch: Seq<(int, Result<StatsV, Seq<char>>)>,
) -> AppV
    decreases batch.len(),
{
    if batch.len() == 0 {
        app
    } else {
        apply_progress_batch(
            step(app, AppMessageV::CompressionProgress(batch[0].0, batch[0].1)).0,
            batch.drop_first(),
        )
    }
}

/// Law: over a batch of progress reports for distinct items, the final
/// item list is a pointwise function of the per-item results — each
/// reported item carries exactly its own report, every other item is
/// untouched — and the final score is the formula over that final list.
/// The batch order appears nowhere in the conclusion: any arrival order
/// of the same reports ends in the same state.
pub proof fn lemma_progress_batch_pointwise(app: AppV, batch: Seq<(int, Result<StatsV, Seq<char>>)>)
    requires
        app.job == JobState::Compressing,
        forall|t: int| 0 <= t < batch.len() ==> 0 <= (#[trigger] batch[t]).0 < app.items.len(),
        forall|t: int|
            0 <= t < batch.len() ==> app.items[(#[trigger] batch[t]).0].status
                == FileStatus::Compressing,
        forall|a: int, b: int| 0 <= a < b < batch.len() ==> batch[a].0 != batch[b].0,
    ensures
        apply_progress_batch(app, batch).job == JobState::Compressing,
        apply_progress_batch(app, batch).items.len() == app.items.len(),
        forall|t: int|
            0 <= t < batch.len() ==> apply_progress_batch(app, batch).items[(
            #[trigger] batch[t]).0] == apply_progress_item(app.items[batch[t].0], batch[t].1),
        forall|k: int|
            0 <= k < app.items.len() && (forall|t: int|
                0 <= t < batch.len() ==> (#[trigger] batch[t]).0 != k) ==> apply_progress_batch(
                app,
                batch,
            ).items[k] == app.items[k],
        batch.len() > 0 ==> apply_progress_batch(app, batch).score_centi == score_centi_spec(
            apply_progress_batch(app, batch).items,
        ) as u128,
    decreases batch.len(),
{
    if batch.len() > 0 {
        let idx0 = batch[0].0;
        let res0 = batch[0].1;
        let app1 = step(app, AppMessageV::CompressionProgress(idx0, res0)).0;
        let rest = batch.drop_first();
        let out = apply_progress_batch(app, batch);
        assert(app.items[batch[0].0].status == FileStatus::Compressing);
        assert(app1.items == app.items.update(idx0, apply_progress_item(app.items[idx0], res0)));
        assert(app1.job == JobState::Compressing);
        assert(app1.items.len() == app.items.len());
        assert(forall|t: int| 0 <= t < rest.len() ==> #[trigger] rest[t] == batch[t + 1]);
        assert forall|t: int| 0 <= t < rest.len() implies app1.items[(
        #[trigger] rest[t]).0].status == FileStatus::Compressing by {
            assert(rest[t] == batch[t + 1]);
            assert(batch[t + 1].0 != idx0);
            assert(app1.items[batch[t + 1].0] == app.items[batch[t + 1].0]);
        }
        lemma_progress_batch_pointwise(app1, rest);
        assert(out == apply_progress_batch(app1, rest));
        assert forall|t: int| 0 <= t < batch.len() implies out.items[(#[trigger] batch[t]).0]
            == apply_progress_item(app.items[batch[t].0], batch[t].1) by {
            if t == 0 {
                assert(forall|u: int| 0 <= u < rest.len() ==> (#[trigger] rest[u]).0 != idx0);
                assert(out.items[idx0] == app1.items[idx0]);
            } else {
                assert(rest[t - 1] == batch[t]);
                assert(out.items[batch[t].0] == apply_progress_item(
                    app1.items[batch[t].0],
                    batch[t].1,
                ));
                assert(app1.items[batch[t].0] == app.items[batch[t].0]);
            }
        }
        assert forall|k: int|
            0 <= k < app.items.len() && (forall|t: int|
                0 <= t < batch.len() ==> (#[trigger] batch[t]).0 != k) implies out.items[k]
            == app.items[k] by {
            assert(batch[0].0 != k);
            assert(forall|u: int| 0 <= u < rest.len() ==> (#[trigger] rest[u]).0 != k);
            assert(out.items[k] == app1.items[k]);
            assert(app1.items[k] == app.items[k]);
        }
        if rest.len() == 0 {
            assert(out == app1);
            assert(app1.score_centi == score_centi_spec(app1.items) as u128);
        }
    }
}

/// Law: two batches carrying the same reports — the same items, each with
/// the same result — end in the same item list and the same score,
/// whatever their order.
pub proof fn lemma_progress_order_irrelevant(
    app: AppV,
    batch1: Seq<(int, Result<StatsV, Seq<char>>)>,
    batch2: Seq<(int, Result<StatsV, Seq<char>>)>,
)
    requires
        app.job == JobState::Compressing,
        forall|t: int| 0 <= t < batch1.len() ==> 0 <= (#[trigger] batch1[t]).0 < app.items.len(),
        forall|t: int|
            0 <= t < batch1.len() ==> app.items[(#[trigger] batch1[t]).0].status
                == FileStatus::Compressing,
        forall|a: int, b: int| 0 <= a < b < batch1.len() ==> batch1[a].0 != batch1[b].0,
        forall|a: int, b: int| 0 <= a < b < batch2.len() ==> batch2[a].0 != batch2[b].0,
        forall|t: int|
            0 <= t < batch1.len() ==> exists|u: int|
                0 <= u < batch2.len() && batch2[u] == #[trigger] batch1[t],
        forall|u: int|
            0 <= u < batch2.len() ==> exists|t: int|
                0 <= t < batch1.len() && batch1[t] == #[trigger] batch2[u],
        batch1.len() > 0,
    ensures
        apply_progress_batch(app, batch1).items == apply_progress_batch(app, batch2).items,
        apply_progress_batch(app, batch1).score_centi == apply_progress_batch(
            app,
            batch2,
        ).score_centi,
{
    assert forall|u: int|
        0 <= u < batch2.len() implies 0 <= (#[trigger] batch2[u]).0 < app.items.len()
        && app.items[batch2[u].0].status == FileStatus::Compressing by {
        let t = choose|t: int| 0 <= t < batch1.len() && batch1[t] == batch2[u];
        assert(batch1[t].0 == batch2[u].0);
    }
    lemma_progress_batch_pointwise(app, batch1);
    lemma_progress_batch_pointwise(app, batch2);
    let out1 = apply_progress_batch(app, batch1);
    let out2 = apply_progress_batch(app, batch2);
    assert forall|k: int| 0 <= k < app.items.len() implies out1.items[k] == out2.items[k] by {
        if exists|t: int| 0 <= t < batch1.len() && (#[trigger] batch1[t]).0 == k {
            let t = choose|t: int| 0 <= t < batch1.len() && (#[trigger] batch1[t]).0 == k;
            let u = choose|u: int| 0 <= u < batch2.len() && batch2[u] == batch1[t];
            assert(out1.items[k] == apply_progress_item(app.items[k], batch1[t].1));
            assert(out2.items[batch2[u].0] == apply_progress_item(
                app.items[batch2[u].0],
                batch2[u].1,
            ));
        } else {
            assert(forall|t: int| 0 <= t < batch1.len() ==> (#[trigger] batch1[t]).0 != k);
            assert forall|u: int| 0 <= u < batch2.len() implies (#[trigger] batch2[u]).0 != k by {
                let t = choose|t: int| 0 <= t < batch1.len() && batch1[t] == batch2[u];
            }
            assert(out1.items[k] == app.items[k]);
            assert(out2.items[k] == app.items[k]);
        }
    }
    assert(out1.items =~= out2.items);
    if batch2.len() == 0 {
        let t0 = batch1[0];
        let u = choose|u: int| 0 <= u < batch2.len() && batch2[u] == t0;
        assert(false);
    }
}

/// The data model's per-item relation between status and compressed size:
/// a found item has no compressed size recorded; a finished one has one; a
/// restored one has it cleared; a deleted one has zero.  A busy or failed
/// item may hold either (restoration keeps the recorded size while busy,
/// and a failure leaves whatever was recorded).
pub open spec fn wf_item(it: FileItemV) -> bool {
    match it.status {
        FileStatus::Found => it.compressed_size is None,
        FileStatus::Restored => it.compressed_size is None,
        FileStatus::Deleted => it.compressed_size == Some(0u64),
        FileStatus::Done => it.compressed_size is Some,
        FileStatus::Compressing => true,
        FileStatus::Error => true,
    }
}

/// Every item satisfies the status/compressed-size relation.
pub open spec fn wf_items(items: Seq<FileItemV>) -> bool {
    forall|k: int| 0 <= k < items.len() ==> wf_item(#[trigger] items[k])
}

/// Law: a message application moves an item's status only along the item
/// lifecycle.  Apart from a scan completion, which installs a fresh list,
/// an item's status either stays as it is or moves from the busy marker to
/// Done, Error or Restored; no other transition ever occurs, so Deleted
/// and the other settled states are terminal under message application.
pub proof fn lemma_step_respects_lifecycle(app: AppV, msg: AppMessageV)
    requires
        !(msg is ScanComplete),
    ensures
        step(app, msg).0.items.len() == app.items.len(),
        forall|k: int|
            0 <= k < app.items.len() ==> (#[trigger] step(app, msg).0.items[k]).status
                == app.items[k].status || (app.items[k].status == FileStatus::Compressing && (
            step(app, msg).0.items[k].status == FileStatus::Done || step(
                app,
                msg,
            ).0.items[k].status == FileStatus::Error || step(app, msg).0.items[k].status
                == FileStatus::Restored)),
{
    let out = step(app, msg).0;
    match msg {
        AppMessageV::ScanComplete(_) => {},
        AppMessageV::CompressionDone => {},
        AppMessageV::CompressionProgress(idx, result) => {
            assert forall|k: int|
                0 <= k < app.items.len() implies (#[trigger] out.items[k]).status
                == app.items[k].status || (app.items[k].status == FileStatus::Compressing && (
            out.items[k].status == FileStatus::Done || out.items[k].status == FileStatus::Error
                || out.items[k].status == FileStatus::Restored)) by {
                if app.job == JobState::Compressing && 0 <= idx < app.items.len()
                    && app.items[idx].status == FileStatus::Compressing && k == idx {
                    assert(out.items[k] == apply_progress_item(app.items[idx], result));
                }
            }
        },
        AppMessageV::RestorationDone(idx, ok) => {
            assert forall|k: int|
                0 <= k < app.items.len() implies (#[trigger] out.items[k]).status
                == app.items[k].status || (app.items[k].status == FileStatus::Compressing && (
            out.items[k].status == FileStatus::Done || out.items[k].status == FileStatus::Error
                || out.items[k].status == FileStatus::Restored)) by {}
        },
    }
}

/// Law: the status/compressed-size relation is an invariant of message
/// application: it holds afterwards whenever it held before and, for a
/// scan completion, the installed items satisfy it (freshly created
/// candidates, being Found with nothing recorded, do).
pub proof fn lemma_step_preserves_wf_items(app: AppV, msg: AppMessageV)
    requires
        wf_items(app.items),
        (msg matches AppMessageV::ScanComplete(v) ==> wf_items(v)),
    ensures
        wf_items(step(app, msg).0.items),
{
    let out = step(app, msg).0;
    match msg {
        AppMessageV::ScanComplete(_) => {},
        AppMessageV::CompressionDone => {},
        AppMessageV::CompressionProgress(idx, result) => {
            assert forall|k: int| 0 <= k < out.items.len() implies wf_item(
                #[trigger] out.items[k],
            ) by {
                if app.job == JobState::Compressing && 0 <= idx < app.items.len()
                    && app.items[idx].status == FileStatus::Compressing && k == idx {
                    assert(out.items[k] == apply_progress_item(app.items[idx], result));
                } else {
                    assert(out.items[k] == app.items[k]);
                }
            }
        },
        AppMessageV::RestorationDone(idx, ok) => {
            assert forall|k: int| 0 <= k < out.items.len() implies wf_item(
                #[trigger] out.items[k],
            ) by {
                if !(app.job == JobState::Restoring && 0 <= idx < app.items.len()
                    && app.items[idx].status == FileStatus::Compressing && k == idx) {
                    assert(out.items[k] == app.items[k]);
                }
            }
        },
    }
}

} // verus!
