//! The progress aggregator's state: per-file byte counters, aggregate
//! counters, a phase, and a throttled emission rule. Every counter only
//! moves upward; the contracts of the mutating operations state the
//! exact effect and carry that monotonicity.

use vstd::prelude::*;

verus! {

/// The phase a download operation is in.
#[derive(Clone, Copy, Debug, PartialEq, Eq, Structural)]
pub enum XetProgressPhase {
    Scanning,
    Downloading,
    Finalizing,
}

/// Byte counters of one tracked file.
#[derive(Clone, Copy, Debug, PartialEq, Eq, Structural)]
pub struct FileProgress {
    pub total_bytes: u64,
    pub completed_bytes: u64,
}

/// One tracked file: its repo-relative name and its counters.
#[derive(Debug, Clone)]
pub struct FileEntry {
    pub name: String,
    pub progress: FileProgress,
}

/// A snapshot handed to the progress consumer.
#[derive(Debug, Clone)]
pub struct XetProgressUpdate {
    pub phase: XetProgressPhase,
    pub total_bytes: u64,
    pub completed_bytes: u64,
    pub total_files: u32,
    pub completed_files: u32,
    pub current_file: Option<String>,
    pub current_file_completed_bytes: u64,
    pub current_file_total_bytes: u64,
}

/// One per-file line of a batch update from the chunk downloader.
#[derive(Debug, Clone)]
pub struct TrackingItemUpdate {
    pub item_name: String,
    pub bytes_completed: u64,
    pub total_bytes: u64,
}

/// A batch update from the chunk downloader.
#[derive(Debug, Clone)]
pub struct TrackingUpdate {
    pub total_transfer_bytes: u64,
    pub total_transfer_bytes_completed: u64,
    pub item_updates: Vec<TrackingItemUpdate>,
}

/// The state of one download operation's progress.
pub struct OperationProgress {
    pub phase: XetProgressPhase,
    pub total_bytes: u64,
    pub completed_bytes: u64,
    pub files: Vec<FileEntry>,
    pub total_files_hint: Option<usize>,
    pub last_emit: Option<u64>,
}

/// Some entry of `files` is named `name`.
pub open spec fn has_file(files: Seq<FileEntry>, name: Seq<char>) -> bool {
    exists|i: int| 0 <= i < files.len() && files[i].name@ == name
}

/// The counters recorded under `name`; a file never recorded counts
/// as all zeroes, as the update rules treat it.
pub open spec fn entry_of(files: Seq<FileEntry>, name: Seq<char>) -> FileProgress {
    if has_file(files, name) {
        files[choose|i: int| 0 <= i < files.len() && files[i].name@ == name].progress
    } else {
        FileProgress { total_bytes: 0, completed_bytes: 0 }
    }
}

/// No two entries share a name.
pub open spec fn files_wf(files: Seq<FileEntry>) -> bool {
    forall|i: int, j: int| 0 <= i < j < files.len() ==> files[i].name@ != files[j].name@
}

/// A file counts as completed once a total is known and reached.
pub open spec fn file_done(p: FileProgress) -> bool {
    p.total_bytes > 0 && p.completed_bytes >= p.total_bytes
}

/// How many tracked files are completed.
pub open spec fn completed_count(files: Seq<FileEntry>) -> nat
    decreases files.len(),
{
    if files.len() == 0 {
        0
    } else {
        completed_count(files.drop_last()) + if file_done(files.last().progress) {
            1nat
        } else {
            0nat
        }
    }
}

/// Raising a per-file total: a positive `total` lifts the recorded
/// total to at least `total`; zero leaves it alone.
pub open spec fn raise_total(p: FileProgress, total: u64) -> FileProgress {
    if total > 0 && total > p.total_bytes {
        FileProgress { total_bytes: total, completed_bytes: p.completed_bytes }
    } else {
        p
    }
}

/// The effect of an absolute per-file update on that file's counters.
pub open spec fn apply_file_update(p: FileProgress, completed: u64, total: u64) -> FileProgress {
    let p1 = raise_total(p, total);
    if completed > p1.completed_bytes {
        FileProgress { total_bytes: p1.total_bytes, completed_bytes: completed }
    } else {
        p1
    }
}

/// Addition on `u64` that stops at the top.
pub open spec fn sat_add_u64(a: int, b: int) -> u64 {
    if a + b > u64::MAX {
        u64::MAX
    } else {
        (a + b) as u64
    }
}

/// The tracked files at the level batch contracts compose on: each
/// entry as its name's characters and its counters, in order.
pub open spec fn files_model(files: Seq<FileEntry>) -> Seq<(Seq<char>, FileProgress)> {
    Seq::new(files.len(), |i: int| (files[i].name@, files[i].progress))
}

/// Some model entry carries `name`.
pub open spec fn model_has(m: Seq<(Seq<char>, FileProgress)>, name: Seq<char>) -> bool {
    exists|i: int| 0 <= i < m.len() && m[i].0 == name
}

/// The index of the entry carrying `name`; determined whenever names
/// are unique.
pub open spec fn model_index_of(m: Seq<(Seq<char>, FileProgress)>, name: Seq<char>) -> int {
    choose|i: int| 0 <= i < m.len() && m[i].0 == name
}

/// The counters recorded under `name` in the model; zeroes when the
/// name is absent.
pub open spec fn model_entry(m: Seq<(Seq<char>, FileProgress)>, name: Seq<char>) -> FileProgress {
    if model_has(m, name) {
        m[model_index_of(m, name)].1
    } else {
        FileProgress { total_bytes: 0, completed_bytes: 0 }
    }
}

/// The model after an entry for `name` is ensured: created when
/// missing, and its total raised by `total`.
pub open spec fn model_ensure(
    m: Seq<(Seq<char>, FileProgress)>,
    name: Seq<char>,
    total: u64,
) -> Seq<(Seq<char>, FileProgress)> {
    if model_has(m, name) {
        m.update(
            model_index_of(m, name),
            (name, raise_total(m[model_index_of(m, name)].1, total)),
        )
    } else {
        m.push((name, raise_total(FileProgress { total_bytes: 0, completed_bytes: 0 }, total)))
    }
}

/// The model after `name`'s completed counter is raised to
/// `completed`; smaller readings and absent names change nothing.
pub open spec fn model_set_completed(
    m: Seq<(Seq<char>, FileProgress)>,
    name: Seq<char>,
    completed: u64,
) -> Seq<(Seq<char>, FileProgress)> {
    if model_has(m, name) {
        if completed > m[model_index_of(m, name)].1.completed_bytes {
            m.update(
                model_index_of(m, name),
                (
                    name,
                    FileProgress {
                        total_bytes: m[model_index_of(m, name)].1.total_bytes,
                        completed_bytes: completed,
                    },
                ),
            )
        } else {
            m
        }
    } else {
        m
    }
}

/// The model after one absolute per-file update.
pub open spec fn model_update(
    m: Seq<(Seq<char>, FileProgress)>,
    name: Seq<char>,
    completed: u64,
    total: u64,
) -> Seq<(Seq<char>, FileProgress)> {
    model_set_completed(model_ensure(m, name, total), name, completed)
}

/// The aggregate completed count after one absolute update: the
/// delta beyond the recorded counter is added, saturating.
pub open spec fn model_completed_after(
    m: Seq<(Seq<char>, FileProgress)>,
    aggregate: u64,
    name: Seq<char>,
    completed: u64,
) -> u64 {
    if completed > model_entry(m, name).completed_bytes {
        sat_add_u64(aggregate as int, completed - model_entry(m, name).completed_bytes)
    } else {
        aggregate
    }
}

/// The model and aggregate after a batch's items are applied in
/// order, each as an absolute per-file update.
pub open spec fn apply_items_model(
    m: Seq<(Seq<char>, FileProgress)>,
    aggregate: u64,
    items: Seq<TrackingItemUpdate>,
) -> (Seq<(Seq<char>, FileProgress)>, u64)
    decreases items.len(),
{
    if items.len() == 0 {
        (m, aggregate)
    } else {
        let prev = apply_items_model(m, aggregate, items.drop_last());
        (
            model_update(
                prev.0,
                items.last().item_name@,
                items.last().bytes_completed,
                items.last().total_bytes,
            ),
            model_completed_after(
                prev.0,
                prev.1,
                items.last().item_name@,
                items.last().bytes_completed,
            ),
        )
    }
}

/// Under unique names, the entry at `i` is the one every lookup
/// finds, in the files and in their model alike.
proof fn lemma_model_index(files: Seq<FileEntry>, name: Seq<char>, i: int)
    requires
        files_wf(files),
        0 <= i < files.len(),
        files[i].name@ == name,
    ensures
        has_file(files, name),
        model_has(files_model(files), name),
        model_index_of(files_model(files), name) == i,
        entry_of(files, name) == files[i].progress,
        model_entry(files_model(files), name) == files[i].progress,
{
    let m = files_model(files);
    assert(m[i].0 == name);
    assert(model_has(m, name));
    let k = model_index_of(m, name);
    assert(0 <= k < m.len() && m[k].0 == name);
    if k < i {
        assert(files[k].name@ != files[i].name@);
    } else if k > i {
        assert(files[i].name@ != files[k].name@);
    }
    assert(has_file(files, name));
    let k2 = choose|j: int| 0 <= j < files.len() && files[j].name@ == name;
    if k2 < i {
        assert(files[k2].name@ != files[i].name@);
    } else if k2 > i {
        assert(files[i].name@ != files[k2].name@);
    }
}

/// Lookups of a name no entry carries.
proof fn lemma_model_absent(files: Seq<FileEntry>, name: Seq<char>)
    requires
        !has_file(files, name),
    ensures
        !model_has(files_model(files), name),
        model_entry(files_model(files), name) == (FileProgress { total_bytes: 0, completed_bytes: 0 }),
        entry_of(files, name) == (FileProgress { total_bytes: 0, completed_bytes: 0 }),
{
    let m = files_model(files);
    if model_has(m, name) {
        let i = model_index_of(m, name);
        assert(0 <= i < m.len() && m[i].0 == name);
        assert(files[i].name@ == name);
    }
}

/// The model and the file lookups agree entry for entry.
proof fn lemma_model_entry_eq(files: Seq<FileEntry>, name: Seq<char>)
    requires
        files_wf(files),
    ensures
        model_entry(files_model(files), name) == entry_of(files, name),
        model_has(files_model(files), name) == has_file(files, name),
{
    if has_file(files, name) {
        let i = choose|i: int| 0 <= i < files.len() && files[i].name@ == name;
        lemma_model_index(files, name, i);
    } else {
        lemma_model_absent(files, name);
    }
}

/// Updating one entry in place updates the model at that index.
proof fn lemma_model_after_update(
    before: Seq<FileEntry>,
    after: Seq<FileEntry>,
    i: int,
    name: Seq<char>,
)
    requires
        after.len() == before.len(),
        0 <= i < before.len(),
        after[i].name@ == name,
        forall|j: int| 0 <= j < before.len() && j != i ==> after[j] == before[j],
    ensures
        files_model(after) == files_model(before).update(i, (name, after[i].progress)),
{
    assert(files_model(after) =~= files_model(before).update(i, (name, after[i].progress)));
}

/// Pushing an entry pushes its model pair.
proof fn lemma_model_after_push(before: Seq<FileEntry>, after: Seq<FileEntry>, name: Seq<char>)
    requires
        after.len() == before.len() + 1,
        after[after.len() - 1].name@ == name,
        forall|j: int| 0 <= j < before.len() ==> after[j] == before[j],
    ensures
        files_model(after) == files_model(before).push((name, after[after.len() - 1].progress)),
{
    assert(files_model(after) =~= files_model(before).push((name, after[after.len() - 1].progress)));
}

/// One more item extends the fold by one update.
proof fn lemma_apply_items_prefix(
    m: Seq<(Seq<char>, FileProgress)>,
    aggregate: u64,
    items: Seq<TrackingItemUpdate>,
    k: int,
)
    requires
        0 <= k < items.len(),
    ensures
        apply_items_model(m, aggregate, items.subrange(0, k + 1)).0 == model_update(
            apply_items_model(m, aggregate, items.subrange(0, k)).0,
            items[k].item_name@,
            items[k].bytes_completed,
            items[k].total_bytes,
        ),
        apply_items_model(m, aggregate, items.subrange(0, k + 1)).1 == model_completed_after(
            apply_items_model(m, aggregate, items.subrange(0, k)).0,
            apply_items_model(m, aggregate, items.subrange(0, k)).1,
            items[k].item_name@,
            items[k].bytes_completed,
        ),
{
    let p = items.subrange(0, k + 1);
    assert(p.drop_last() =~= items.subrange(0, k));
    assert(p.last() == items[k]);
}

/// Per-file counters never decrease under an absolute update.
pub proof fn lemma_file_update_monotone(p: FileProgress, completed: u64, total: u64)
    ensures
        apply_file_update(p, completed, total).total_bytes >= p.total_bytes,
        apply_file_update(p, completed, total).completed_bytes >= p.completed_bytes,
{
}

/// The throttled emission rule: an emit is due when forced, when none
/// has happened yet, or when at least `throttle_ms` has passed since
/// the last one.
pub open spec fn emit_due(last_emit: Option<u64>, now_ms: u64, throttle_ms: u64, force: bool) -> bool {
    force || match last_emit {
        None => true,
        Some(last) => now_ms >= last && now_ms - last >= throttle_ms,
    }
}

/// The number of files a snapshot reports in total: the hint when one
/// was given, else the number of tracked files, saturated to 32 bits.
pub open spec fn total_files_spec(files: Seq<FileEntry>, hint: Option<usize>) -> u32 {
    let n: int = match hint {
        Some(h) => h as int,
        None => files.len() as int,
    };
    if n > u32::MAX {
        u32::MAX
    } else {
        n as u32
    }
}

/// The number of completed files a snapshot reports, saturated to 32
/// bits.
pub open spec fn completed_files_spec(files: Seq<FileEntry>) -> u32 {
    if completed_count(files) > u32::MAX {
        u32::MAX
    } else {
        completed_count(files) as u32
    }
}

/// The default throttle interval, in milliseconds.
pub const DEFAULT_THROTTLE_MS: u64 = 200;

/// The throttle interval a configuration asks for: zero selects the
/// default.
pub fn resolve_throttle(throttle_ms: u32) -> (r: u64)
    ensures
        r == if throttle_ms == 0 {
            DEFAULT_THROTTLE_MS as int
        } else {
            throttle_ms as int
        },
{
    if throttle_ms == 0 {
        DEFAULT_THROTTLE_MS
    } else {
        throttle_ms as u64
    }
}

/// `completed_count` of a prefix grows by the last element's state.
proof fn lemma_completed_count_prefix(files: Seq<FileEntry>, i: int)
    requires
        0 <= i < files.len(),
    ensures
        completed_count(files.subrange(0, i + 1)) == completed_count(files.subrange(0, i))
            + if file_done(files[i].progress) {
            1nat
        } else {
            0nat
        },
{
    let p = files.subrange(0, i + 1);
    assert(p.drop_last() =~= files.subrange(0, i));
    assert(p.last() == files[i]);
}

impl OperationProgress {
    /// All invariants of the state: tracked names are unique.
    pub open spec fn wf(&self) -> bool {
        files_wf(self.files@)
    }

    /// A fresh operation: scanning, nothing counted, nothing emitted.
    pub fn new() -> (r: Self)
        ensures
            r.wf(),
            r.phase == XetProgressPhase::Scanning,
            r.total_bytes == 0,
            r.completed_bytes == 0,
            r.files@.len() == 0,
            r.total_files_hint == None::<usize>,
            r.last_emit == None::<u64>,
    {
        OperationProgress {
            phase: XetProgressPhase::Scanning,
            total_bytes: 0,
            completed_bytes: 0,
            files: Vec::new(),
            total_files_hint: None,
            last_emit: None,
        }
    }

    /// Move to `phase`. Nothing else changes.
    pub fn set_phase(&mut self, phase: XetProgressPhase)
        requires
            old(self).wf(),
        ensures
            final(self).wf(),
            final(self).phase == phase,
            final(self).total_bytes == old(self).total_bytes,
            final(self).completed_bytes == old(self).completed_bytes,
            final(self).files == old(self).files,
            final(self).total_files_hint == old(self).total_files_hint,
            final(self).last_emit == old(self).last_emit,
    {
        if !(self.phase == phase) {
            self.phase = phase;
        }
    }

    /// Raise the total-files hint and the total byte count
    /// monotonically: a smaller later reading lowers neither.
    pub fn set_total_hint(&mut self, total_files: usize, total_bytes: u64)
        requires
            old(self).wf(),
        ensures
            final(self).wf(),
            final(self).total_files_hint == (match old(self).total_files_hint {
                Some(h) => Some(
                    if total_files > h {
                        total_files
                    } else {
                        h
                    },
                ),
                None => Some(total_files),
            }),
            final(self).total_bytes == if total_bytes > old(self).total_bytes {
                total_bytes
            } else {
                old(self).total_bytes
            },
            final(self).total_bytes >= old(self).total_bytes,
            final(self).phase == old(self).phase,
            final(self).completed_bytes == old(self).completed_bytes,
            final(self).files == old(self).files,
            final(self).last_emit == old(self).last_emit,
    {
        let raised: usize = match self.total_files_hint {
            Some(h) => {
                if total_files > h {
                    total_files
                } else {
                    h
                }
            },
            None => total_files,
        };
        self.total_files_hint = Some(raised);
        if total_bytes > self.total_bytes {
            self.total_bytes = total_bytes;
        }
    }

    /// Raise the total byte count monotonically.
    pub fn set_total_bytes(&mut self, total_bytes: u64)
        requires
            old(self).wf(),
        ensures
            final(self).wf(),
            final(self).total_bytes == if total_bytes > old(self).total_bytes {
                total_bytes
            } else {
                old(self).total_bytes
            },
            final(self).total_bytes >= old(self).total_bytes,
            final(self).phase == old(self).phase,
            final(self).completed_bytes == old(self).completed_bytes,
            final(self).files == old(self).files,
            final(self).total_files_hint == old(self).total_files_hint,
            final(self).last_emit == old(self).last_emit,
    {
        if total_bytes > self.total_bytes {
            self.total_bytes = total_bytes;
        }
    }

    /// Raise the completed byte count monotonically.
    pub fn set_completed_bytes(&mut self, completed_bytes: u64)
        requires
            old(self).wf(),
        ensures
            final(self).wf(),
            final(self).completed_bytes == if completed_bytes > old(self).completed_bytes {
                completed_bytes
            } else {
                old(self).completed_bytes
            },
            final(self).completed_bytes >= old(self).completed_bytes,
            final(self).phase == old(self).phase,
            final(self).total_bytes == old(self).total_bytes,
            final(self).files == old(self).files,
            final(self).total_files_hint == old(self).total_files_hint,
            final(self).last_emit == old(self).last_emit,
    {
        if completed_bytes > self.completed_bytes {
            self.completed_bytes = completed_bytes;
        }
    }

    /// Index of the entry named `name`, if one exists.
    fn find_entry(&self, name: &String) -> (r: Option<usize>)
        requires
            self.wf(),
        ensures
            match r {
                Some(i) => i < self.files@.len() && self.files@[i as int].name@ == name@
                    && has_file(self.files@, name@),
                None => !has_file(self.files@, name@),
            },
    {
        let mut i: usize = 0;
        while i < self.files.len()
            invariant
                i <= self.files@.len(),
                forall|j: int| 0 <= j < i ==> self.files@[j].name@ != name@,
            decreases self.files@.len() - i,
        {
            let e = &self.files[i];
            if e.name.eq(name) {
                return Some(i);
            }
            i += 1;
        }
        None
    }

    /// Create the entry for `name` if it is missing and raise its
    /// total monotonically; a zero `total_bytes` only creates the
    /// entry. No aggregate counter changes.
    pub fn ensure_file_entry(&mut self, name: &str, total_bytes: u64)
        requires
            old(self).wf(),
        ensures
            final(self).wf(),
            has_file(final(self).files@, name@),
            entry_of(final(self).files@, name@) == raise_total(
                entry_of(old(self).files@, name@),
                total_bytes,
            ),
            forall|n: Seq<char>| n != name@ ==> #[trigger] entry_of(final(self).files@, n)
                == entry_of(old(self).files@, n),
            forall|n: Seq<char>| n != name@ ==> #[trigger] has_file(final(self).files@, n)
                == has_file(old(self).files@, n),
            files_model(final(self).files@) == model_ensure(
                files_model(old(self).files@),
                name@,
                total_bytes,
            ),
            final(self).phase == old(self).phase,
            final(self).total_bytes == old(self).total_bytes,
            final(self).completed_bytes == old(self).completed_bytes,
            final(self).total_files_hint == old(self).total_files_hint,
            final(self).last_emit == old(self).last_emit,
    {
        let owned = name.to_owned();
        match self.find_entry(&owned) {
            Some(i) => {
                let ghost before = self.files@;
                let current = self.files[i].progress.total_bytes;
                if total_bytes > 0 && total_bytes > current {
                    self.files[i].progress.total_bytes = total_bytes;
                }
                proof {
                    lemma_lookup_after_update(before, self.files@, i as int, name@);
                    lemma_model_index(before, name@, i as int);
                    lemma_model_after_update(before, self.files@, i as int, name@);
                    assert(self.files@[i as int].progress == raise_total(
                        before[i as int].progress,
                        total_bytes,
                    ));
                    assert(files_model(self.files@) =~= model_ensure(
                        files_model(before),
                        name@,
                        total_bytes,
                    ));
                }
            },
            None => {
                let ghost before = self.files@;
                let entry = FileEntry {
                    name: owned,
                    progress: FileProgress {
                        total_bytes: if total_bytes > 0 {
                            total_bytes
                        } else {
                            0
                        },
                        completed_bytes: 0,
                    },
                };
                self.files.push(entry);
                proof {
                    lemma_lookup_after_push(before, self.files@, name@);
                    lemma_model_absent(before, name@);
                    lemma_model_after_push(before, self.files@, name@);
                    assert(self.files@[self.files@.len() - 1].progress == raise_total(
                        FileProgress { total_bytes: 0, completed_bytes: 0 },
                        total_bytes,
                    ));
                    assert(files_model(self.files@) =~= model_ensure(
                        files_model(before),
                        name@,
                        total_bytes,
                    ));
                }
            },
        }
    }

    /// Absolute per-file update: raise the file's total and completed
    /// counters monotonically, and add the completed delta to the
    /// aggregate, saturating at the top.
    pub fn update_file_absolute(&mut self, name: &str, completed: u64, total: u64)
        requires
            old(self).wf(),
        ensures
            final(self).wf(),
            has_file(final(self).files@, name@),
            entry_of(final(self).files@, name@) == apply_file_update(
                entry_of(old(self).files@, name@),
                completed,
                total,
            ),
            forall|n: Seq<char>| n != name@ ==> #[trigger] entry_of(final(self).files@, n)
                == entry_of(old(self).files@, n),
            forall|n: Seq<char>| n != name@ ==> #[trigger] has_file(final(self).files@, n)
                == has_file(old(self).files@, n),
            final(self).completed_bytes == if completed > entry_of(
                old(self).files@,
                name@,
            ).completed_bytes {
                sat_add_u64(
                    old(self).completed_bytes as int,
                    completed - entry_of(old(self).files@, name@).completed_bytes,
                )
            } else {
                old(self).completed_bytes
            },
            final(self).completed_bytes >= old(self).completed_bytes,
            files_model(final(self).files@) == model_update(
                files_model(old(self).files@),
                name@,
                completed,
                total,
            ),
            final(self).phase == old(self).phase,
            final(self).total_bytes == old(self).total_bytes,
            final(self).total_files_hint == old(self).total_files_hint,
            final(self).last_emit == old(self).last_emit,
    {
        self.ensure_file_entry(name, total);
        let owned = name.to_owned();
        match self.find_entry(&owned) {
            Some(i) => {
                let ghost before = self.files@;
                let current = self.files[i].progress.completed_bytes;
                if completed > current {
                    let delta = completed - current;
                    self.files[i].progress.completed_bytes = completed;
                    self.completed_bytes = self.completed_bytes.saturating_add(delta);
                }
                proof {
                    lemma_lookup_after_update(before, self.files@, i as int, name@);
                    lemma_model_index(before, name@, i as int);
                    if completed > before[i as int].progress.completed_bytes {
                        lemma_model_after_update(before, self.files@, i as int, name@);
                    }
                    assert(files_model(self.files@) =~= model_set_completed(
                        files_model(before),
                        name@,
                        completed,
                    ));
                }
            },
            None => {
                proof {
                    assert(false);
                }
            },
        }
    }

    /// Ingest a batch update from the chunk downloader: raise the
    /// aggregate counters to the batch's totals, then apply each item
    /// in order as an absolute per-file update. The tracked files and
    /// the aggregate end exactly at that fold; every counter is
    /// monotone, and each item's counters are reached.
    pub fn apply_tracking_update(&mut self, update: &TrackingUpdate)
        requires
            old(self).wf(),
        ensures
            final(self).wf(),
            final(self).total_bytes >= old(self).total_bytes,
            final(self).total_bytes >= update.total_transfer_bytes,
            final(self).completed_bytes >= old(self).completed_bytes,
            final(self).completed_bytes >= update.total_transfer_bytes_completed,
            files_model(final(self).files@) == apply_items_model(
                files_model(old(self).files@),
                if update.total_transfer_bytes_completed > old(self).completed_bytes {
                    update.total_transfer_bytes_completed
                } else {
                    old(self).completed_bytes
                },
                update.item_updates@,
            ).0,
            final(self).completed_bytes == apply_items_model(
                files_model(old(self).files@),
                if update.total_transfer_bytes_completed > old(self).completed_bytes {
                    update.total_transfer_bytes_completed
                } else {
                    old(self).completed_bytes
                },
                update.item_updates@,
            ).1,
            forall|n: Seq<char>|
                #[trigger] entry_of(final(self).files@, n).total_bytes >= entry_of(
                    old(self).files@,
                    n,
                ).total_bytes && entry_of(final(self).files@, n).completed_bytes >= entry_of(
                    old(self).files@,
                    n,
                ).completed_bytes,
            forall|j: int|
                0 <= j < update.item_updates@.len() ==> #[trigger] entry_of(
                    final(self).files@,
                    update.item_updates@[j].item_name@,
                ).completed_bytes >= update.item_updates@[j].bytes_completed,
            forall|j: int|
                0 <= j < update.item_updates@.len() && update.item_updates@[j].total_bytes > 0
                    ==> #[trigger] entry_of(
                    final(self).files@,
                    update.item_updates@[j].item_name@,
                ).total_bytes >= update.item_updates@[j].total_bytes,
            final(self).phase == old(self).phase,
            final(self).total_files_hint == old(self).total_files_hint,
            final(self).last_emit == old(self).last_emit,
    {
        self.set_total_bytes(update.total_transfer_bytes);
        self.set_completed_bytes(update.total_transfer_bytes_completed);
        let ghost mid = *self;
        proof {
            assert(update.item_updates@.subrange(0, 0) =~= Seq::<TrackingItemUpdate>::empty());
        }
        let mut k: usize = 0;
        while k < update.item_updates.len()
            invariant
                self.wf(),
                k <= update.item_updates@.len(),
                self.total_bytes >= mid.total_bytes,
                self.completed_bytes >= mid.completed_bytes,
                files_model(self.files@) == apply_items_model(
                    files_model(mid.files@),
                    mid.completed_bytes,
                    update.item_updates@.subrange(0, k as int),
                ).0,
                self.completed_bytes == apply_items_model(
                    files_model(mid.files@),
                    mid.completed_bytes,
                    update.item_updates@.subrange(0, k as int),
                ).1,
                forall|n: Seq<char>|
                    #[trigger] entry_of(self.files@, n).total_bytes >= entry_of(
                        mid.files@,
                        n,
                    ).total_bytes && entry_of(self.files@, n).completed_bytes >= entry_of(
                        mid.files@,
                        n,
                    ).completed_bytes,
                forall|j: int|
                    0 <= j < k ==> #[trigger] entry_of(
                        self.files@,
                        update.item_updates@[j].item_name@,
                    ).completed_bytes >= update.item_updates@[j].bytes_completed,
                forall|j: int|
                    0 <= j < k && update.item_updates@[j].total_bytes > 0 ==> #[trigger] entry_of(
                        self.files@,
                        update.item_updates@[j].item_name@,
                    ).total_bytes >= update.item_updates@[j].total_bytes,
                self.phase == mid.phase,
                self.total_files_hint == mid.total_files_hint,
                self.last_emit == mid.last_emit,
            decreases update.item_updates@.len() - k,
        {
            let item = &update.item_updates[k];
            let ghost prev = *self;
            self.update_file_absolute(
                item.item_name.as_str(),
                item.bytes_completed,
                item.total_bytes,
            );
            proof {
                lemma_file_update_monotone(
                    entry_of(prev.files@, item.item_name@),
                    item.bytes_completed,
                    item.total_bytes,
                );
                lemma_apply_items_prefix(
                    files_model(mid.files@),
                    mid.completed_bytes,
                    update.item_updates@,
                    k as int,
                );
                lemma_model_entry_eq(prev.files@, item.item_name@);
                assert forall|j: int| 0 <= j < k + 1 implies #[trigger] entry_of(
                    self.files@,
                    update.item_updates@[j].item_name@,
                ).completed_bytes >= update.item_updates@[j].bytes_completed by {
                    if j < k {
                        assert(entry_of(self.files@, update.item_updates@[j].item_name@)
                            .completed_bytes >= entry_of(
                            prev.files@,
                            update.item_updates@[j].item_name@,
                        ).completed_bytes);
                    }
                }
                assert forall|j: int|
                    0 <= j < k + 1 && update.item_updates@[j].total_bytes > 0 implies #[trigger] entry_of(
                    self.files@,
                    update.item_updates@[j].item_name@,
                ).total_bytes >= update.item_updates@[j].total_bytes by {
                    if j < k {
                        assert(entry_of(self.files@, update.item_updates@[j].item_name@).total_bytes
                            >= entry_of(
                            prev.files@,
                            update.item_updates@[j].item_name@,
                        ).total_bytes);
                    }
                }
            }
            k += 1;
        }
        proof {
            assert(update.item_updates@.subrange(0, update.item_updates@.len() as int)
                =~= update.item_updates@);
        }
    }

    /// Move to the finalizing phase.
    pub fn finalize(&mut self)
        requires
            old(self).wf(),
        ensures
            final(self).wf(),
            final(self).phase == XetProgressPhase::Finalizing,
            final(self).total_bytes == old(self).total_bytes,
            final(self).completed_bytes == old(self).completed_bytes,
            final(self).files == old(self).files,
            final(self).total_files_hint == old(self).total_files_hint,
            final(self).last_emit == old(self).last_emit,
    {
        self.set_phase(XetProgressPhase::Finalizing);
    }

    /// Whether an emission is due now under the throttle rule.
    pub fn should_emit(&self, now_ms: u64, throttle_ms: u64, force: bool) -> (r: bool)
        ensures
            r == emit_due(self.last_emit, now_ms, throttle_ms, force),
    {
        if force {
            return true;
        }
        match self.last_emit {
            None => true,
            Some(last) => now_ms >= last && now_ms - last >= throttle_ms,
        }
    }

    /// Build the snapshot an emission delivers; the per-file context
    /// is passed through from the update that triggered it.
    pub fn build_update(
        &self,
        current_file: Option<String>,
        current_completed: u64,
        current_total: u64,
    ) -> (r: XetProgressUpdate)
        requires
            self.wf(),
        ensures
            r.phase == self.phase,
            r.total_bytes == self.total_bytes,
            r.completed_bytes == self.completed_bytes,
            r.total_files == total_files_spec(self.files@, self.total_files_hint),
            r.completed_files == completed_files_spec(self.files@),
            r.current_file == current_file,
            r.current_file_completed_bytes == current_completed,
            r.current_file_total_bytes == current_total,
    {
        let total_files: u32 = match self.total_files_hint {
            Some(h) => {
                if h > u32::MAX as usize {
                    u32::MAX
                } else {
                    h as u32
                }
            },
            None => {
                let n = self.files.len();
                if n > u32::MAX as usize {
                    u32::MAX
                } else {
                    n as u32
                }
            },
        };
        let mut done: usize = 0;
        let mut i: usize = 0;
        while i < self.files.len()
            invariant
                i <= self.files@.len(),
                done <= i,
                done == completed_count(self.files@.subrange(0, i as int)),
            decreases self.files@.len() - i,
        {
            let p = &self.files[i].progress;
            proof {
                lemma_completed_count_prefix(self.files@, i as int);
            }
            if p.total_bytes > 0 && p.completed_bytes >= p.total_bytes {
                done += 1;
            }
            i += 1;
        }
        proof {
            assert(self.files@.subrange(0, self.files@.len() as int) =~= self.files@);
        }
        let completed_files: u32 = if done > u32::MAX as usize {
            u32::MAX
        } else {
            done as u32
        };
        XetProgressUpdate {
            phase: self.phase,
            total_bytes: self.total_bytes,
            completed_bytes: self.completed_bytes,
            total_files,
            completed_files,
            current_file,
            current_file_completed_bytes: current_completed,
            current_file_total_bytes: current_total,
        }
    }

    /// One emission step: when the throttle admits it, produce the
    /// snapshot to deliver and record the emission time; otherwise
    /// leave the state alone.
    pub fn emit(
        &mut self,
        now_ms: u64,
        throttle_ms: u64,
        force: bool,
        current_file: Option<String>,
        current_completed: u64,
        current_total: u64,
    ) -> (r: Option<XetProgressUpdate>)
        requires
            old(self).wf(),
        ensures
            final(self).wf(),
            r is Some <==> emit_due(old(self).last_emit, now_ms, throttle_ms, force),
            match r {
                Some(u) => {
                    &&& final(self).last_emit == Some(now_ms)
                    &&& u.phase == old(self).phase
                    &&& u.total_bytes == old(self).total_bytes
                    &&& u.completed_bytes == old(self).completed_bytes
                    &&& u.total_files == total_files_spec(
                        old(self).files@,
                        old(self).total_files_hint,
                    )
                    &&& u.completed_files == completed_files_spec(old(self).files@)
                    &&& u.current_file == current_file
                    &&& u.current_file_completed_bytes == current_completed
                    &&& u.current_file_total_bytes == current_total
                },
                None => final(self).last_emit == old(self).last_emit,
            },
            final(self).phase == old(self).phase,
            final(self).total_bytes == old(self).total_bytes,
            final(self).completed_bytes == old(self).completed_bytes,
            final(self).files == old(self).files,
            final(self).total_files_hint == old(self).total_files_hint,
    {
        if !self.should_emit(now_ms, throttle_ms, force) {
            return None;
        }
        let update = self.build_update(current_file, current_completed, current_total);
        self.last_emit = Some(now_ms);
        Some(update)
    }
}

/// After updating the entry at `i` without renaming it, every lookup
/// is as before, except that `name`'s entry is the one now at `i`.
proof fn lemma_lookup_after_update(before: Seq<FileEntry>, after: Seq<FileEntry>, i: int, name: Seq<char>)
    requires
        files_wf(before),
        0 <= i < before.len(),
        before[i].name@ == name,
        after.len() == before.len(),
        after[i].name@ == name,
        forall|j: int| 0 <= j < before.len() && j != i ==> after[j] == before[j],
    ensures
        files_wf(after),
        has_file(after, name),
        entry_of(after, name) == after[i].progress,
        entry_of(before, name) == before[i].progress,
        forall|n: Seq<char>| n != name ==> #[trigger] entry_of(after, n) == entry_of(before, n),
        forall|n: Seq<char>| n != name ==> #[trigger] has_file(after, n) == has_file(before, n),
{
    assert forall|a: int, b: int| 0 <= a < b < after.len() implies after[a].name@
        != after[b].name@ by {
        assert(after[a].name@ == before[a].name@);
        assert(after[b].name@ == before[b].name@);
    }
    assert(has_file(after, name));
    let k = choose|k: int| 0 <= k < after.len() && after[k].name@ == name;
    assert(after[k].name@ == name);
    if k != i {
        assert(after[k].name@ == before[k].name@);
        assert(before[k].name@ != before[i].name@);
    }
    let k0 = choose|k: int| 0 <= k < before.len() && before[k].name@ == name;
    if k0 != i {
        assert(before[k0].name@ != before[i].name@);
    }
    assert forall|n: Seq<char>| n != name implies #[trigger] has_file(after, n) == has_file(
        before,
        n,
    ) by {
        if has_file(before, n) {
            let j = choose|j: int| 0 <= j < before.len() && before[j].name@ == n;
            assert(after[j].name@ == n);
        }
        if has_file(after, n) {
            let j = choose|j: int| 0 <= j < after.len() && after[j].name@ == n;
            assert(before[j].name@ == n);
        }
    }
    assert forall|n: Seq<char>| n != name implies #[trigger] entry_of(after, n) == entry_of(
        before,
        n,
    ) by {
        if has_file(after, n) {
            let a = choose|j: int| 0 <= j < after.len() && after[j].name@ == n;
            let b = choose|j: int| 0 <= j < before.len() && before[j].name@ == n;
            assert(after[a].name@ == n);
            assert(before[b].name@ == n);
            assert(a != i);
            assert(after[b].name@ == n);
            if a != b {
                assert(after[a].name@ != after[b].name@);
            }
        }
    }
}

/// After pushing a new entry named `name`, lookups of other names are
/// as before, and `name` finds the new entry.
proof fn lemma_lookup_after_push(before: Seq<FileEntry>, after: Seq<FileEntry>, name: Seq<char>)
    requires
        files_wf(before),
        !has_file(before, name),
        after.len() == before.len() + 1,
        after[after.len() - 1].name@ == name,
        forall|j: int| 0 <= j < before.len() ==> after[j] == before[j],
    ensures
        files_wf(after),
        has_file(after, name),
        entry_of(after, name) == after[after.len() - 1].progress,
        entry_of(before, name) == (FileProgress { total_bytes: 0, completed_bytes: 0 }),
        forall|n: Seq<char>| n != name ==> #[trigger] entry_of(after, n) == entry_of(before, n),
        forall|n: Seq<char>| n != name ==> #[trigger] has_file(after, n) == has_file(before, n),
{
    let last = after.len() - 1;
    assert forall|a: int, b: int| 0 <= a < b < after.len() implies after[a].name@
        != after[b].name@ by {
        if b < last {
            assert(after[a].name@ == before[a].name@);
            assert(after[b].name@ == before[b].name@);
        } else {
            assert(b == last);
            assert(after[a].name@ == before[a].name@);
            if after[a].name@ == name {
                assert(has_file(before, name));
            }
        }
    }
    assert(has_file(after, name));
    let k = choose|k: int| 0 <= k < after.len() && after[k].name@ == name;
    if k != last {
        assert(before[k].name@ == name);
        assert(has_file(before, name));
    }
    assert forall|n: Seq<char>| n != name implies #[trigger] has_file(after, n) == has_file(
        before,
        n,
    ) by {
        if has_file(before, n) {
            let j = choose|j: int| 0 <= j < before.len() && before[j].name@ == n;
            assert(after[j].name@ == n);
        }
        if has_file(after, n) {
            let j = choose|j: int| 0 <= j < after.len() && after[j].name@ == n;
            assert(j != last);
            assert(before[j].name@ == n);
        }
    }
    assert forall|n: Seq<char>| n != name implies #[trigger] entry_of(after, n) == entry_of(
        before,
        n,
    ) by {
        if has_file(after, n) {
            let a = choose|j: int| 0 <= j < after.len() && after[j].name@ == n;
            let b = choose|j: int| 0 <= j < before.len() && before[j].name@ == n;
            assert(after[a].name@ == n);
            assert(before[b].name@ == n);
            assert(a != last);
            assert(after[b].name@ == n);
            if a != b {
                assert(after[a].name@ != after[b].name@);
            }
        }
    }
}

} // verus!
