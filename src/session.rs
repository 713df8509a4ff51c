//! The interactive session: target selection, the scan/clean phases, and
//! the debouncing of repeated key events.
use vstd::prelude::*;
use crate::cleanup_items::{
    clean_deletions, scan_spec, views, CleanupItem, CleanupResult, ItemView, sat,
};
use crate::fs_tree::{Deletion, FsNode};
use vstd::arithmetic::div_mod::{lemma_mod_self_0, lemma_small_mod};

verus! {

/// Minimum time between two accepted repeated key events, in milliseconds.
pub const KEY_COOLDOWN_MS: u64 = 150;

/// Phase of a session.
#[derive(Debug, Clone, Copy, PartialEq, Eq, Structural)]
pub enum AppState {
    Initial,
    Scanning,
    ScanningDone,
    Cleaning,
    CleaningDone,
}

/// A session over the catalog of targets.
pub struct App {
    cleanup_items: Vec<CleanupItem>,
    scan_results: Vec<Option<CleanupResult>>,
    clean_results: Vec<Option<CleanupResult>>,
    selected_index: usize,
    state: AppState,
    /// When the last key event was accepted, in milliseconds.
    last_key_event_time: Option<u64>,
}

/// The state of a session.
pub struct AppView {
    pub items: Seq<ItemView>,
    pub scan_results: Seq<Option<CleanupResult>>,
    pub clean_results: Seq<Option<CleanupResult>>,
    pub selected_index: nat,
    pub state: AppState,
    pub last_key_event_time: Option<u64>,
}

/// Result slots and cursor agree with the target list.
pub open spec fn session_wf(s: AppView) -> bool {
    &&& s.scan_results.len() == s.items.len()
    &&& s.clean_results.len() == s.items.len()
    &&& if s.items.len() == 0 {
        s.selected_index == 0
    } else {
        s.selected_index < s.items.len()
    }
}

/// A fresh session over a catalog: nothing scanned or cleaned yet.
pub open spec fn initial_spec(items: Seq<ItemView>) -> AppView {
    AppView {
        items,
        scan_results: Seq::new(items.len(), |i: int| None),
        clean_results: Seq::new(items.len(), |i: int| None),
        selected_index: 0,
        state: AppState::Initial,
        last_key_event_time: None,
    }
}

/// Selection may change only while no scan or clean is under way or done
/// with: in the initial phase and after a scan.
pub open spec fn selectable(s: AppView) -> bool {
    s.state == AppState::Initial || s.state == AppState::ScanningDone
}

pub open spec fn with_enabled(it: ItemView, enabled: bool) -> ItemView {
    ItemView { enabled, ..it }
}

pub open spec fn with_items(s: AppView, items: Seq<ItemView>) -> AppView {
    AppView { items, ..s }
}

/// The flag a bulk selection gives a target: `value`, or its opposite when
/// `invert`.
pub open spec fn bulk_flag(it: ItemView, value: bool, invert: bool) -> ItemView {
    with_enabled(
        it,
        if invert {
            !it.enabled
        } else {
            value
        },
    )
}

pub open spec fn toggle_spec(s: AppView) -> AppView {
    if selectable(s) && s.selected_index < s.items.len() {
        let i = s.selected_index as int;
        with_items(s, s.items.update(i, with_enabled(s.items[i], !s.items[i].enabled)))
    } else {
        s
    }
}

pub open spec fn select_all_spec(s: AppView) -> AppView {
    if selectable(s) {
        with_items(s, s.items.map_values(|it: ItemView| bulk_flag(it, true, false)))
    } else {
        s
    }
}

pub open spec fn deselect_all_spec(s: AppView) -> AppView {
    if selectable(s) {
        with_items(s, s.items.map_values(|it: ItemView| bulk_flag(it, false, false)))
    } else {
        s
    }
}

pub open spec fn invert_spec(s: AppView) -> AppView {
    if selectable(s) {
        with_items(s, s.items.map_values(|it: ItemView| bulk_flag(it, false, true)))
    } else {
        s
    }
}

pub open spec fn next_spec(s: AppView) -> AppView {
    if selectable(s) && s.items.len() > 0 {
        AppView { selected_index: ((s.selected_index + 1) % s.items.len()) as nat, ..s }
    } else {
        s
    }
}

pub open spec fn previous_spec(s: AppView) -> AppView {
    if selectable(s) && s.items.len() > 0 {
        AppView {
            selected_index: if s.selected_index == 0 {
                (s.items.len() - 1) as nat
            } else {
                (s.selected_index - 1) as nat
            },
            ..s
        }
    } else {
        s
    }
}

/// Whether a key event at `now` passes the cooldown.
pub open spec fn key_accepted(s: AppView, now: u64) -> bool {
    match s.last_key_event_time {
        None => true,
        Some(t) => now >= t && now - t >= KEY_COOLDOWN_MS,
    }
}

pub open spec fn key_spec(s: AppView, now: u64) -> AppView {
    if key_accepted(s, now) {
        AppView { last_key_event_time: Some(now), ..s }
    } else {
        s
    }
}

/// A scan pass: every enabled target gets a fresh result in its slot;
/// disabled targets keep theirs. Only from the initial phase or after a scan.
pub open spec fn scan_all_spec(s: AppView, roots: Seq<Seq<Option<FsNode>>>) -> AppView {
    if selectable(s) {
        AppView {
            scan_results: Seq::new(
                s.items.len(),
                |i: int|
                    if s.items[i].enabled {
                        Some(scan_spec(s.items[i].rule, roots[i]))
                    } else {
                        s.scan_results[i]
                    },
            ),
            state: AppState::ScanningDone,
            ..s
        }
    } else {
        s
    }
}

/// The snapshots of each target's paths.
pub open spec fn nested_views(roots: Seq<Vec<Option<FsNode>>>) -> Seq<Seq<Option<FsNode>>> {
    roots.map_values(|v: Vec<Option<FsNode>>| v@)
}

/// Starting a clean pass: only after a scan.
pub open spec fn begin_clean_spec(s: AppView) -> AppView {
    if s.state == AppState::ScanningDone {
        AppView { state: AppState::Cleaning, ..s }
    } else {
        s
    }
}

/// Whether a clean pass under way cleans target `i`.
pub open spec fn cleans_item(s: AppView, i: int) -> bool {
    s.state == AppState::Cleaning && 0 <= i < s.items.len() && s.items[i].enabled
}

/// Cleaning target `i` within a pass stores its report in its slot.
pub open spec fn clean_item_spec(s: AppView, i: int, roots: Seq<Option<FsNode>>) -> AppView {
    if cleans_item(s, i) {
        AppView {
            clean_results: s.clean_results.update(i, Some(scan_spec(s.items[i].rule, roots))),
            ..s
        }
    } else {
        s
    }
}

/// Ending a clean pass.
pub open spec fn finish_clean_spec(s: AppView) -> AppView {
    if s.state == AppState::Cleaning {
        AppView { state: AppState::CleaningDone, ..s }
    } else {
        s
    }
}

/// The first `n` steps of a clean pass, one target after another.
pub open spec fn clean_items_spec(s: AppView, roots: Seq<Seq<Option<FsNode>>>, n: nat) -> AppView
    decreases n,
{
    if n == 0 {
        s
    } else {
        let prev = clean_items_spec(s, roots, (n - 1) as nat);
        clean_item_spec(prev, n - 1, roots[n - 1])
    }
}

/// A whole clean pass: start, clean each target in catalog order, finish.
pub open spec fn clean_pass_spec(s: AppView, roots: Seq<Seq<Option<FsNode>>>) -> AppView {
    finish_clean_spec(clean_items_spec(begin_clean_spec(s), roots, s.items.len()))
}

proof fn lemma_clean_steps_idle(s: AppView, roots: Seq<Seq<Option<FsNode>>>, n: nat)
    requires
        s.state != AppState::Cleaning,
    ensures
        clean_items_spec(s, roots, n) == s,
    decreases n,
{
    if n > 0 {
        lemma_clean_steps_idle(s, roots, (n - 1) as nat);
    }
}

/// Starting a clean pass outside the scanned phase is refused and changes
/// nothing, a pass already under way included; and a whole clean pass run
/// outside the scanned phase (with none under way) leaves the session, its
/// clean results included, exactly as it was.
pub proof fn lemma_clean_outside_scanned_is_noop(s: AppView, roots: Seq<Seq<Option<FsNode>>>)
    requires
        s.state != AppState::ScanningDone,
    ensures
        begin_clean_spec(s) == s,
        s.state != AppState::Cleaning ==> clean_pass_spec(s, roots) == s,
        s.state != AppState::Cleaning ==> clean_pass_spec(s, roots).clean_results
            == s.clean_results,
{
    if s.state != AppState::Cleaning {
        lemma_clean_steps_idle(s, roots, s.items.len());
    }
}

/// Selecting all targets and then deselecting all leaves every target
/// disabled, whenever selection is allowed.
pub proof fn lemma_select_all_then_deselect_all(s: AppView)
    requires
        selectable(s),
    ensures
        deselect_all_spec(select_all_spec(s)).items.len() == s.items.len(),
        forall|i: int|
            0 <= i < s.items.len() ==> !(#[trigger] deselect_all_spec(select_all_spec(s)).items[i]).enabled,
{
}

/// Inverting the selection twice gives every target back its flag: the
/// session is as it was.
pub proof fn lemma_invert_twice(s: AppView)
    ensures
        invert_spec(invert_spec(s)) == s,
{
    if selectable(s) {
        let once = invert_spec(s);
        assert(invert_spec(once).items =~= s.items);
        assert(invert_spec(once) =~= s);
    }
}

/// Sum of the file counts of the filled slots.
pub open spec fn sum_files(s: Seq<Option<CleanupResult>>) -> nat
    decreases s.len(),
{
    if s.len() == 0 {
        0
    } else {
        sum_files(s.subrange(0, s.len() - 1)) + match s[s.len() - 1] {
            Some(r) => r.files as nat,
            None => 0,
        }
    }
}

/// Sum of the byte counts of the filled slots.
pub open spec fn sum_bytes(s: Seq<Option<CleanupResult>>) -> nat
    decreases s.len(),
{
    if s.len() == 0 {
        0
    } else {
        sum_bytes(s.subrange(0, s.len() - 1)) + match s[s.len() - 1] {
            Some(r) => r.size_bytes as nat,
            None => 0,
        }
    }
}

impl View for App {
    type V = AppView;

    closed spec fn view(&self) -> AppView {
        AppView {
            items: views(self.cleanup_items@),
            scan_results: self.scan_results@,
            clean_results: self.clean_results@,
            selected_index: self.selected_index as nat,
            state: self.state,
            last_key_event_time: self.last_key_event_time,
        }
    }
}

/// Sets every target's flag: to `value`, or to its opposite when `invert`.
fn set_each_enabled(items: &mut Vec<CleanupItem>, value: bool, invert: bool)
    ensures
        final(items)@.len() == old(items)@.len(),
        views(final(items)@) == views(old(items)@).map_values(
            |it: ItemView| bulk_flag(it, value, invert),
        ),
    no_unwind
{
    let ghost start = views(items@);
    let n = items.len();
    let mut i: usize = 0;
    while i < n
        invariant
            i <= n,
            n == items@.len(),
            start.len() == n,
            forall|k: int|
                0 <= k < i ==> #[trigger] views(items@)[k] == bulk_flag(start[k], value, invert),
            forall|k: int| i <= k < n ==> #[trigger] views(items@)[k] == start[k],
        decreases n - i,
    {
        let ghost before = items@;
        let e = if invert {
            !items[i].enabled
        } else {
            value
        };
        assert(views(before)[i as int] == start[i as int]);
        items[i].enabled = e;
        assert(views(items@)[i as int] == bulk_flag(start[i as int], value, invert));
        assert forall|k: int| 0 <= k < n && k != i implies #[trigger] views(items@)[k] == views(
            before,
        )[k] by {
            assert(items@[k] == before[k]);
        }
        i += 1;
    }
    assert(views(items@) =~= start.map_values(|it: ItemView| bulk_flag(it, value, invert)));
}

impl App {
    #[verifier::type_invariant]
    closed spec fn inv(self) -> bool {
        session_wf(self.view())
    }

    /// A fresh session over a catalog of targets.
    pub fn new(cleanup_items: Vec<CleanupItem>) -> (r: App)
        ensures
            r.view() == initial_spec(views(cleanup_items@)),
    {
        let n = cleanup_items.len();
        let mut scan_results: Vec<Option<CleanupResult>> = Vec::new();
        let mut clean_results: Vec<Option<CleanupResult>> = Vec::new();
        let mut i: usize = 0;
        while i < n
            invariant
                i <= n,
                scan_results@ == Seq::new(i as nat, |k: int| None::<CleanupResult>),
                clean_results@ == Seq::new(i as nat, |k: int| None::<CleanupResult>),
            decreases n - i,
        {
            scan_results.push(None);
            clean_results.push(None);
            i += 1;
            assert(scan_results@ =~= Seq::new(i as nat, |k: int| None::<CleanupResult>));
            assert(clean_results@ =~= Seq::new(i as nat, |k: int| None::<CleanupResult>));
        }
        let r = App {
            cleanup_items,
            scan_results,
            clean_results,
            selected_index: 0,
            state: AppState::Initial,
            last_key_event_time: None,
        };
        assert(r.view() =~= initial_spec(views(r.cleanup_items@)));
        r
    }

    /// Starts over on a fresh catalog: all results cleared, phase initial.
    pub fn reset(&mut self, cleanup_items: Vec<CleanupItem>)
        ensures
            final(self)@ == initial_spec(views(cleanup_items@)),
    {
        *self = App::new(cleanup_items);
    }

    fn is_selectable(&self) -> (r: bool)
        ensures
            r == selectable(self@),
    {
        self.state == AppState::Initial || self.state == AppState::ScanningDone
    }

    /// Accepts a key event arriving at `now` (milliseconds) only if none was
    /// accepted before or at least the cooldown has passed since the last
    /// accepted one; an accepted event becomes the last one.
    pub fn should_process_key(&mut self, now: u64) -> (r: bool)
        ensures
            r == key_accepted(old(self)@, now),
            final(self)@ == key_spec(old(self)@, now),
    {
        proof {
            use_type_invariant(&*self);
        }
        let accept = match self.last_key_event_time {
            None => true,
            Some(t) => now >= t && now - t >= KEY_COOLDOWN_MS,
        };
        if accept {
            self.last_key_event_time = Some(now);
        }
        accept
    }

    /// Flips the selected target's flag.
    pub fn toggle_selection(&mut self)
        ensures
            final(self)@ == toggle_spec(old(self)@),
    {
        proof {
            use_type_invariant(&*self);
        }
        if self.is_selectable() && self.selected_index < self.cleanup_items.len() {
            let i = self.selected_index;
            let ghost before = views(self.cleanup_items@);
            let e = !self.cleanup_items[i].enabled;
            self.cleanup_items[i].enabled = e;
            assert(views(self.cleanup_items@) =~= before.update(
                i as int,
                with_enabled(before[i as int], !before[i as int].enabled),
            ));
        }
    }

    /// Enables every target.
    pub fn select_all(&mut self)
        ensures
            final(self)@ == select_all_spec(old(self)@),
    {
        proof {
            use_type_invariant(&*self);
        }
        if self.is_selectable() {
            set_each_enabled(&mut self.cleanup_items, true, false);
        }
    }

    /// Disables every target.
    pub fn deselect_all(&mut self)
        ensures
            final(self)@ == deselect_all_spec(old(self)@),
    {
        proof {
            use_type_invariant(&*self);
        }
        if self.is_selectable() {
            set_each_enabled(&mut self.cleanup_items, false, false);
        }
    }

    /// Flips every target's flag.
    pub fn invert_selection(&mut self)
        ensures
            final(self)@ == invert_spec(old(self)@),
    {
        proof {
            use_type_invariant(&*self);
        }
        if self.is_selectable() {
            set_each_enabled(&mut self.cleanup_items, false, true);
        }
    }

    /// Moves the cursor down, wrapping to the first target.
    pub fn next(&mut self)
        ensures
            final(self)@ == next_spec(old(self)@),
    {
        proof {
            use_type_invariant(&*self);
        }
        let n = self.cleanup_items.len();
        if self.is_selectable() && n > 0 {
            proof {
                let s = self.selected_index as nat;
                if s + 1 < n {
                    lemma_small_mod(s + 1, n as nat);
                } else {
                    lemma_mod_self_0(n as int);
                }
            }
            self.selected_index = if self.selected_index + 1 >= n {
                0
            } else {
                self.selected_index + 1
            };
        }
    }

    /// Moves the cursor up, wrapping to the last target.
    pub fn previous(&mut self)
        ensures
            final(self)@ == previous_spec(old(self)@),
    {
        proof {
            use_type_invariant(&*self);
        }
        let n = self.cleanup_items.len();
        if self.is_selectable() && n > 0 {
            self.selected_index = if self.selected_index == 0 {
                n - 1
            } else {
                self.selected_index - 1
            };
        }
    }

    /// Scans every enabled target, in catalog order, storing each result in
    /// the target's slot; disabled targets keep their slot as it was. Only
    /// from the initial phase or after a scan; otherwise nothing changes.
    /// `roots[i]` holds the snapshots of target `i`'s paths.
    pub fn scan_all(&mut self, roots: &Vec<Vec<Option<FsNode>>>)
        requires
            roots@.len() == old(self)@.items.len(),
        ensures
            final(self)@ == scan_all_spec(old(self)@, nested_views(roots@)),
    {
        proof {
            use_type_invariant(&*self);
        }
        if !self.is_selectable() {
            return;
        }
        let ghost s0 = self@;
        let ghost rv = nested_views(roots@);
        self.state = AppState::Scanning;
        let n = self.cleanup_items.len();
        let mut i: usize = 0;
        while i < n
            invariant
                i <= n,
                n == s0.items.len(),
                roots@.len() == n,
                rv == nested_views(roots@),
                self@.items == s0.items,
                self@.clean_results == s0.clean_results,
                self@.selected_index == s0.selected_index,
                self@.last_key_event_time == s0.last_key_event_time,
                self@.state == AppState::Scanning,
                self@.scan_results.len() == n,
                session_wf(s0),
                forall|k: int|
                    0 <= k < i ==> #[trigger] self@.scan_results[k] == (if s0.items[k].enabled {
                        Some(scan_spec(s0.items[k].rule, rv[k]))
                    } else {
                        s0.scan_results[k]
                    }),
                forall|k: int| i <= k < n ==> #[trigger] self@.scan_results[k] == s0.scan_results[k],
            decreases n - i,
        {
            proof {
                use_type_invariant(&*self);
            }
            if self.cleanup_items[i].enabled {
                let r = self.cleanup_items[i].scan(&roots[i]);
                assert(self.cleanup_items@[i as int]@ == s0.items[i as int]);
                self.scan_results[i] = Some(r);
            }
            i += 1;
        }
        self.state = AppState::ScanningDone;
        assert(self@.scan_results =~= scan_all_spec(s0, rv).scan_results);
        assert(self@ == scan_all_spec(s0, rv));
    }

    /// Starts a clean pass; only after a scan. Returns whether it started.
    pub fn begin_clean(&mut self) -> (r: bool)
        ensures
            r == (old(self)@.state == AppState::ScanningDone),
            final(self)@ == begin_clean_spec(old(self)@),
    {
        proof {
            use_type_invariant(&*self);
        }
        if self.state == AppState::ScanningDone {
            self.state = AppState::Cleaning;
            true
        } else {
            false
        }
    }

    /// Within a clean pass, cleans target `i` if it is enabled: stores the
    /// pre-deletion scan of `roots` (the snapshots of its paths) in its slot
    /// and returns the deletions to carry out (none in a dry run). Outside a
    /// pass, or for a disabled target, nothing changes and nothing is deleted.
    pub fn clean_item(&mut self, i: usize, roots: &Vec<Option<FsNode>>, dry_run: bool) -> (r: Vec<
        Deletion,
    >)
        ensures
            final(self)@ == clean_item_spec(old(self)@, i as int, roots@),
            r@ == (if cleans_item(old(self)@, i as int) {
                clean_deletions(old(self)@.items[i as int].rule, roots@, dry_run)
            } else {
                Seq::empty()
            }),
    {
        proof {
            use_type_invariant(&*self);
        }
        if self.state == AppState::Cleaning && i < self.cleanup_items.len()
            && self.cleanup_items[i].enabled {
            let plan = self.cleanup_items[i].clean(roots, dry_run);
            let ghost s0 = self@;
            self.clean_results[i] = Some(plan.result);
            assert(self@ =~= clean_item_spec(s0, i as int, roots@));
            plan.deletions
        } else {
            Vec::new()
        }
    }

    /// Ends a clean pass.
    pub fn finish_clean(&mut self)
        ensures
            final(self)@ == finish_clean_spec(old(self)@),
    {
        proof {
            use_type_invariant(&*self);
        }
        if self.state == AppState::Cleaning {
            self.state = AppState::CleaningDone;
        }
    }

    /// Total file count over the filled slots of the clean results, or of
    /// the scan results (clamped at `u64::MAX`).
    pub fn get_total_files(&self, use_clean_results: bool) -> (r: u64)
        ensures
            r == sat(
                sum_files(
                    if use_clean_results {
                        self@.clean_results
                    } else {
                        self@.scan_results
                    },
                ) as int,
            ),
    {
        let results = if use_clean_results {
            &self.clean_results
        } else {
            &self.scan_results
        };
        let mut total: u64 = 0;
        let mut i: usize = 0;
        while i < results.len()
            invariant
                i <= results@.len(),
                total == sat(sum_files(results@.subrange(0, i as int)) as int),
            decreases results@.len() - i,
        {
            let ghost pre = results@.subrange(0, i as int);
            if let Some(r) = &results[i] {
                total = total.saturating_add(r.files);
            }
            assert(results@.subrange(0, i + 1).subrange(0, i as int) =~= pre);
            i += 1;
        }
        assert(results@.subrange(0, results@.len() as int) =~= results@);
        total
    }

    /// Total byte count over the filled slots of the clean results, or of
    /// the scan results (clamped at `u64::MAX`).
    pub fn get_total_size_bytes(&self, use_clean_results: bool) -> (r: u64)
        ensures
            r == sat(
                sum_bytes(
                    if use_clean_results {
                        self@.clean_results
                    } else {
                        self@.scan_results
                    },
                ) as int,
            ),
    {
        let results = if use_clean_results {
            &self.clean_results
        } else {
            &self.scan_results
        };
        let mut total: u64 = 0;
        let mut i: usize = 0;
        while i < results.len()
            invariant
                i <= results@.len(),
                total == sat(sum_bytes(results@.subrange(0, i as int)) as int),
            decreases results@.len() - i,
        {
            let ghost pre = results@.subrange(0, i as int);
            if let Some(r) = &results[i] {
                total = total.saturating_add(r.size_bytes);
            }
            assert(results@.subrange(0, i + 1).subrange(0, i as int) =~= pre);
            i += 1;
        }
        assert(results@.subrange(0, results@.len() as int) =~= results@);
        total
    }

    /// The targets, in display order.
    pub fn cleanup_items(&self) -> (r: &Vec<CleanupItem>)
        ensures
            views(r@) == self@.items,
    {
        &self.cleanup_items
    }

    /// The scan result slots, parallel to the targets.
    pub fn scan_results(&self) -> (r: &Vec<Option<CleanupResult>>)
        ensures
            r@ == self@.scan_results,
            r@.len() == self@.items.len(),
    {
        proof {
            use_type_invariant(self);
        }
        &self.scan_results
    }

    /// The clean result slots, parallel to the targets.
    pub fn clean_results(&self) -> (r: &Vec<Option<CleanupResult>>)
        ensures
            r@ == self@.clean_results,
            r@.len() == self@.items.len(),
    {
        proof {
            use_type_invariant(self);
        }
        &self.clean_results
    }

    /// The cursor: always on a target when there is one.
    pub fn selected_index(&self) -> (r: usize)
        ensures
            r == self@.selected_index,
            self@.items.len() > 0 ==> r < self@.items.len(),
            self@.items.len() == 0 ==> r == 0,
    {
        proof {
            use_type_invariant(self);
        }
        self.selected_index
    }

    /// The phase.
    pub fn state(&self) -> (r: AppState)
        ensures
            r == self@.state,
    {
        self.state
    }
}

} // verus!
