//! Cleanup targets: their matching rules, the scan that measures what a
//! clean would remove, and the deletion plan of a clean.
use vstd::prelude::*;
use crate::fs_tree::{
    directory_plan, entries_tally, entry_tally, is_temp_file_name, lemma_directory_plan_empties,
    lemma_empty_plan_keeps_tally, lemma_temp_plan_clears, removal_of, root_plan, root_tally,
    root_tally_after, tally_add, temp_plan, temp_plan_entries, temp_plan_entry, zero_tally,
    Deletion, FsNode, Tally,
};

verus! {

/// What a scan or clean found for a target.
#[derive(Clone, Copy, Debug, PartialEq, Eq, Structural)]
pub struct CleanupResult {
    pub files: u64,
    pub directories: u64,
    pub size_bytes: u64,
    /// Entries that are neither files nor directories.
    pub entries: u64,
    pub has_data: bool,
}

/// A count clamped to what a `u64` holds.
pub open spec fn sat(x: int) -> u64 {
    if x > u64::MAX {
        u64::MAX
    } else {
        x as u64
    }
}

/// The result that reports a tally.
pub open spec fn result_of(t: Tally) -> CleanupResult {
    CleanupResult {
        files: sat(t.1 as int),
        directories: sat(t.2 as int),
        size_bytes: sat(t.0 as int),
        entries: 0,
        has_data: t.1 + t.2 > 0,
    }
}

proof fn lemma_sat_add(a: nat, b: nat)
    ensures
        sat(a + b as int) == sat(sat(a as int) + sat(b as int)),
{
}

impl CleanupResult {
    /// The empty result: nothing found.
    pub fn new() -> (r: CleanupResult)
        ensures
            r == result_of(zero_tally()),
            r.files == 0 && r.directories == 0 && r.size_bytes == 0 && r.entries == 0,
            !r.has_data,
    {
        CleanupResult { files: 0, directories: 0, size_bytes: 0, entries: 0, has_data: false }
    }

    /// Files, directories and other entries together (clamped at `u64::MAX`).
    pub fn total_items(&self) -> (r: u64)
        ensures
            r == sat(self.files + self.directories + self.entries),
    {
        self.files.saturating_add(self.directories).saturating_add(self.entries)
    }

    /// Sum of two results, each count clamped at `u64::MAX`.
    pub fn combine(&self, other: &CleanupResult) -> (r: CleanupResult)
        ensures
            r.files == sat(self.files + other.files),
            r.directories == sat(self.directories + other.directories),
            r.size_bytes == sat(self.size_bytes + other.size_bytes),
            r.entries == sat(self.entries + other.entries),
            r.has_data == (self.has_data || other.has_data),
    {
        CleanupResult {
            files: self.files.saturating_add(other.files),
            directories: self.directories.saturating_add(other.directories),
            size_bytes: self.size_bytes.saturating_add(other.size_bytes),
            entries: self.entries.saturating_add(other.entries),
            has_data: self.has_data || other.has_data,
        }
    }
}

impl Default for CleanupResult {
    fn default() -> (r: CleanupResult)
        ensures
            r == result_of(zero_tally()),
    {
        CleanupResult::new()
    }
}

proof fn lemma_combine_tallies(a: Tally, b: Tally)
    ensures
        ({
            let x = result_of(a);
            let y = result_of(b);
            let s = result_of(tally_add(a, b));
            &&& s.files == sat(x.files + y.files)
            &&& s.directories == sat(x.directories + y.directories)
            &&& s.size_bytes == sat(x.size_bytes + y.size_bytes)
            &&& s.entries == sat(x.entries + y.entries)
            &&& s.has_data == (x.has_data || y.has_data)
        }),
{
    lemma_sat_add(a.0, b.0);
    lemma_sat_add(a.1, b.1);
    lemma_sat_add(a.2, b.2);
}

/// What one entry contributes, as a result.
fn tally_entry(e: &FsNode, temp_only: bool) -> (r: CleanupResult)
    ensures
        r == result_of(entry_tally(*e, temp_only)),
    decreases e,
{
    match e {
        FsNode::File { name, size, .. } => {
            if !temp_only || is_temp_file_name(name) {
                CleanupResult { files: 1, directories: 0, size_bytes: *size, entries: 0, has_data: true }
            } else {
                CleanupResult::new()
            }
        },
        FsNode::Dir { entries, .. } => {
            let t = tally_entries(entries, temp_only);
            if temp_only {
                t
            } else {
                CleanupResult {
                    directories: t.directories.saturating_add(1),
                    has_data: true,
                    ..t
                }
            }
        },
    }
}

/// The sum of what the entries of one directory contribute.
fn tally_entries(entries: &Vec<FsNode>, temp_only: bool) -> (r: CleanupResult)
    ensures
        r == result_of(entries_tally(entries@, temp_only)),
    decreases entries,
{
    let mut r = CleanupResult::new();
    let mut i: usize = 0;
    while i < entries.len()
        invariant
            i <= entries@.len(),
            r == result_of(entries_tally(entries@.subrange(0, i as int), temp_only)),
        decreases entries@.len() - i,
    {
        let c = tally_entry(&entries[i], temp_only);
        proof {
            let pre = entries@.subrange(0, i as int);
            let next = entries@.subrange(0, i + 1);
            assert(next.subrange(0, next.len() - 1) =~= pre);
            lemma_combine_tallies(
                entries_tally(pre, temp_only),
                entry_tally(entries@[i as int], temp_only),
            );
        }
        r = r.combine(&c);
        i += 1;
    }
    assert(entries@.subrange(0, entries@.len() as int) =~= entries@);
    r
}

/// Size aggregation of a path: total bytes, file count and directory count
/// beneath it. A missing path gives the empty result, a file its own size.
pub fn aggregate(root: &Option<FsNode>) -> (r: CleanupResult)
    ensures
        r == result_of(root_tally(*root, false)),
        root.is_none() ==> r == result_of(zero_tally()),
{
    match root {
        None => CleanupResult::new(),
        Some(FsNode::File { size, .. }) => {
            CleanupResult { files: 1, directories: 0, size_bytes: *size, entries: 0, has_data: true }
        },
        Some(FsNode::Dir { entries, .. }) => tally_entries(entries, false),
    }
}

/// The transient-looking files below a directory, at any depth.
pub fn aggregate_temp_files(root: &Option<FsNode>) -> (r: CleanupResult)
    ensures
        r == result_of(root_tally(*root, true)),
{
    match root {
        Some(FsNode::Dir { entries, .. }) => tally_entries(entries, true),
        _ => CleanupResult::new(),
    }
}

/// How a cleanup target picks what it removes.
#[derive(Clone, Debug)]
pub enum CleanupType {
    /// Everything inside one directory.
    Directory(String),
    /// Everything inside each of several directories.
    Directories(Vec<String>),
    /// Transient-looking files anywhere below one directory.
    TempFiles(String),
}

/// A matching rule, with paths as character sequences.
pub enum RuleView {
    Directory(Seq<char>),
    Directories(Seq<Seq<char>>),
    TempFiles(Seq<char>),
}

impl View for CleanupType {
    type V = RuleView;

    open spec fn view(&self) -> RuleView {
        match self {
            CleanupType::Directory(p) => RuleView::Directory(p@),
            CleanupType::Directories(ps) => RuleView::Directories(
                ps@.map_values(|p: String| p@),
            ),
            CleanupType::TempFiles(p) => RuleView::TempFiles(p@),
        }
    }
}

/// The paths a rule reads, in order.
pub open spec fn rule_paths(r: RuleView) -> Seq<Seq<char>> {
    match r {
        RuleView::Directory(p) => seq![p],
        RuleView::Directories(ps) => ps,
        RuleView::TempFiles(p) => seq![p],
    }
}

/// Whether a rule only looks at transient-looking files.
pub open spec fn rule_is_temp(r: RuleView) -> bool {
    r is TempFiles
}

/// A cleanup target: a named, independently toggleable candidate.
#[derive(Clone, Debug)]
pub struct CleanupItem {
    pub id: String,
    pub name: String,
    pub description: String,
    pub cleanup_type: CleanupType,
    pub enabled: bool,
}

/// A cleanup target, with its texts as character sequences.
pub struct ItemView {
    pub id: Seq<char>,
    pub name: Seq<char>,
    pub description: Seq<char>,
    pub rule: RuleView,
    pub enabled: bool,
}

impl View for CleanupItem {
    type V = ItemView;

    open spec fn view(&self) -> ItemView {
        ItemView {
            id: self.id@,
            name: self.name@,
            description: self.description@,
            rule: self.cleanup_type@,
            enabled: self.enabled,
        }
    }
}

/// The views of a list of targets.
pub open spec fn views(s: Seq<CleanupItem>) -> Seq<ItemView> {
    s.map_values(|i: CleanupItem| i@)
}

/// Tally over the snapshots of several roots.
pub open spec fn roots_tally(roots: Seq<Option<FsNode>>, temp_only: bool) -> Tally
    decreases roots.len(),
{
    if roots.len() == 0 {
        zero_tally()
    } else {
        tally_add(
            roots_tally(roots.subrange(0, roots.len() - 1), temp_only),
            root_tally(roots[roots.len() - 1], temp_only),
        )
    }
}

/// Deletion plans of several roots, one after the other.
pub open spec fn roots_plan(roots: Seq<Option<FsNode>>, temp_only: bool) -> Seq<Deletion>
    decreases roots.len(),
{
    if roots.len() == 0 {
        Seq::empty()
    } else {
        roots_plan(roots.subrange(0, roots.len() - 1), temp_only) + root_plan(
            roots[roots.len() - 1],
            temp_only,
        )
    }
}

/// What a scan of a target reports, given the snapshots of its paths.
pub open spec fn scan_spec(rule: RuleView, roots: Seq<Option<FsNode>>) -> CleanupResult {
    result_of(roots_tally(roots, rule_is_temp(rule)))
}

/// The deletions a clean of a target carries out: none in a dry run.
pub open spec fn clean_deletions(rule: RuleView, roots: Seq<Option<FsNode>>, dry_run: bool) -> Seq<
    Deletion,
> {
    if dry_run {
        Seq::empty()
    } else {
        roots_plan(roots, rule_is_temp(rule))
    }
}

/// Tally over several roots once the deletions of `plan` are carried out.
pub open spec fn roots_tally_after(roots: Seq<Option<FsNode>>, plan: Seq<Deletion>, temp_only: bool) -> Tally
    decreases roots.len(),
{
    if roots.len() == 0 {
        zero_tally()
    } else {
        tally_add(
            roots_tally_after(roots.subrange(0, roots.len() - 1), plan, temp_only),
            root_tally_after(roots[roots.len() - 1], plan, temp_only),
        )
    }
}

/// What a scan reports once the deletions of `plan` are carried out.
pub open spec fn scan_after_spec(rule: RuleView, roots: Seq<Option<FsNode>>, plan: Seq<Deletion>) -> CleanupResult {
    result_of(roots_tally_after(roots, plan, rule_is_temp(rule)))
}

proof fn lemma_roots_untouched(roots: Seq<Option<FsNode>>, temp_only: bool)
    ensures
        roots_tally_after(roots, Seq::empty(), temp_only) == roots_tally(roots, temp_only),
    decreases roots.len(),
{
    if roots.len() > 0 {
        lemma_roots_untouched(roots.subrange(0, roots.len() - 1), temp_only);
        lemma_empty_plan_keeps_tally(roots[roots.len() - 1], temp_only);
    }
}

proof fn lemma_roots_plan_contains(roots: Seq<Option<FsNode>>, temp_only: bool, k: int, d: Deletion)
    requires
        0 <= k < roots.len(),
        root_plan(roots[k], temp_only).contains(d),
    ensures
        roots_plan(roots, temp_only).contains(d),
    decreases roots.len(),
{
    let pre = roots.subrange(0, roots.len() - 1);
    let own = root_plan(roots[k], temp_only);
    let i = choose|i: int| 0 <= i < own.len() && own[i] == d;
    if k == roots.len() - 1 {
        assert(roots_plan(roots, temp_only)[roots_plan(pre, temp_only).len() + i] == d);
    } else {
        assert(pre[k] == roots[k]);
        lemma_roots_plan_contains(pre, temp_only, k, d);
        let j = choose|j: int| 0 <= j < roots_plan(pre, temp_only).len() && roots_plan(pre, temp_only)[j] == d;
        assert(roots_plan(roots, temp_only)[j] == d);
    }
}

/// A scan removes nothing, so scanning again on the filesystem it leaves
/// behind reports exactly what the first scan reported.
pub proof fn lemma_scan_repeatable(rule: RuleView, roots: Seq<Option<FsNode>>)
    ensures
        scan_after_spec(rule, roots, Seq::empty()) == scan_spec(rule, roots),
{
    lemma_roots_untouched(roots, rule_is_temp(rule));
}

/// A dry-run clean carries out no deletion: the aggregate of every path of
/// the target is the same before and after it.
pub proof fn lemma_dry_run_keeps_aggregate(rule: RuleView, roots: Seq<Option<FsNode>>)
    ensures
        forall|k: int|
            0 <= k < roots.len() ==> root_tally_after(
                #[trigger] roots[k],
                clean_deletions(rule, roots, true),
                false,
            ) == root_tally(roots[k], false),
{
    assert forall|k: int| 0 <= k < roots.len() implies root_tally_after(
        #[trigger] roots[k],
        clean_deletions(rule, roots, true),
        false,
    ) == root_tally(roots[k], false) by {
        lemma_empty_plan_keeps_tally(roots[k], false);
    }
}

/// A real clean of a directory target whose deletions all succeed leaves
/// every path of the target with nothing below it (aggregate zero), and the
/// reported file count is the number of files that were there.
pub proof fn lemma_real_clean_empties_directories(rule: RuleView, roots: Seq<Option<FsNode>>)
    requires
        !rule_is_temp(rule),
    ensures
        forall|k: int|
            0 <= k < roots.len() ==> root_tally_after(
                #[trigger] roots[k],
                clean_deletions(rule, roots, false),
                false,
            ) == zero_tally(),
        scan_spec(rule, roots).files == sat(roots_tally(roots, false).1 as int),
{
    let plan = clean_deletions(rule, roots, false);
    assert forall|k: int| 0 <= k < roots.len() implies root_tally_after(
        #[trigger] roots[k],
        plan,
        false,
    ) == zero_tally() by {
        assert forall|d: Deletion| directory_plan(roots[k]).contains(d) implies plan.contains(d) by {
            lemma_roots_plan_contains(roots, false, k, d);
        }
        lemma_directory_plan_empties(roots[k], plan);
    }
}

/// A real clean of a temp-file target whose deletions all succeed leaves no
/// transient-looking file below any of its paths.
pub proof fn lemma_real_clean_clears_temp_files(rule: RuleView, roots: Seq<Option<FsNode>>)
    requires
        rule_is_temp(rule),
    ensures
        forall|k: int|
            0 <= k < roots.len() ==> root_tally_after(
                #[trigger] roots[k],
                clean_deletions(rule, roots, false),
                true,
            ) == zero_tally(),
{
    let plan = clean_deletions(rule, roots, false);
    assert forall|k: int| 0 <= k < roots.len() implies root_tally_after(
        #[trigger] roots[k],
        plan,
        true,
    ) == zero_tally() by {
        assert forall|d: Deletion| temp_plan(roots[k]).contains(d) implies plan.contains(d) by {
            lemma_roots_plan_contains(roots, true, k, d);
        }
        lemma_temp_plan_clears(roots[k], plan);
    }
}

/// The outcome of a clean: the pre-deletion scan and the deletions to carry out.
#[derive(Clone, Debug)]
pub struct CleanPlan {
    pub result: CleanupResult,
    pub deletions: Vec<Deletion>,
}

impl CleanupType {
    /// Whether this rule only looks at transient-looking files.
    pub fn is_temp_files(&self) -> (r: bool)
        ensures
            r == rule_is_temp(self@),
    {
        matches!(self, CleanupType::TempFiles(_))
    }

    /// The paths whose snapshots a scan or clean of this rule reads, in order.
    pub fn root_paths(&self) -> (r: Vec<String>)
        ensures
            r@.map_values(|p: String| p@) == rule_paths(self@),
    {
        match self {
            CleanupType::Directory(p) => {
                let r = vec![p.clone()];
                assert(r@.map_values(|p: String| p@) =~= rule_paths(self@));
                r
            },
            CleanupType::Directories(ps) => {
                let r = ps.clone();
                assert(r@.map_values(|p: String| p@) =~= rule_paths(self@));
                r
            },
            CleanupType::TempFiles(p) => {
                let r = vec![p.clone()];
                assert(r@.map_values(|p: String| p@) =~= rule_paths(self@));
                r
            },
        }
    }
}

impl CleanupItem {
    /// Measures what a clean would remove, without removing anything.
    /// `roots` are the snapshots of `self.cleanup_type.root_paths()`, in order;
    /// the counts of all of them are summed.
    pub fn scan(&self, roots: &Vec<Option<FsNode>>) -> (r: CleanupResult)
        ensures
            r == scan_spec(self@.rule, roots@),
            r.has_data == (r.files > 0 || r.directories > 0),
    {
        let temp_only = self.cleanup_type.is_temp_files();
        let mut r = CleanupResult::new();
        let mut i: usize = 0;
        while i < roots.len()
            invariant
                i <= roots@.len(),
                temp_only == rule_is_temp(self@.rule),
                r == result_of(roots_tally(roots@.subrange(0, i as int), temp_only)),
            decreases roots@.len() - i,
        {
            let c = if temp_only {
                aggregate_temp_files(&roots[i])
            } else {
                aggregate(&roots[i])
            };
            proof {
                let pre = roots@.subrange(0, i as int);
                let next = roots@.subrange(0, i + 1);
                assert(next.subrange(0, next.len() - 1) =~= pre);
                lemma_combine_tallies(
                    roots_tally(pre, temp_only),
                    root_tally(roots@[i as int], temp_only),
                );
            }
            r = r.combine(&c);
            i += 1;
        }
        assert(roots@.subrange(0, roots@.len() as int) =~= roots@);
        r
    }

    /// Cleans the target: reports the pre-deletion scan and lists the
    /// deletions to carry out, none in a dry run. Failures of individual
    /// deletions do not change the report.
    pub fn clean(&self, roots: &Vec<Option<FsNode>>, dry_run: bool) -> (r: CleanPlan)
        ensures
            r.result == scan_spec(self@.rule, roots@),
            r.deletions@ == clean_deletions(self@.rule, roots@, dry_run),
    {
        let result = self.scan(roots);
        let mut deletions: Vec<Deletion> = Vec::new();
        if dry_run {
            return CleanPlan { result, deletions };
        }
        let temp_only = self.cleanup_type.is_temp_files();
        let mut i: usize = 0;
        while i < roots.len()
            invariant
                i <= roots@.len(),
                temp_only == rule_is_temp(self@.rule),
                deletions@ == roots_plan(roots@.subrange(0, i as int), temp_only),
            decreases roots@.len() - i,
        {
            let mut more = if temp_only {
                temp_file_deletions(&roots[i])
            } else {
                directory_deletions(&roots[i])
            };
            deletions.append(&mut more);
            proof {
                let pre = roots@.subrange(0, i as int);
                let next = roots@.subrange(0, i + 1);
                assert(next.subrange(0, next.len() - 1) =~= pre);
            }
            i += 1;
        }
        assert(roots@.subrange(0, roots@.len() as int) =~= roots@);
        CleanPlan { result, deletions }
    }
}

/// The deletion that removes one entry as a whole.
fn removal_for(e: &FsNode) -> (r: Deletion)
    ensures
        r == removal_of(*e),
{
    match e {
        FsNode::File { path, .. } => Deletion::RemoveFile(path.clone()),
        FsNode::Dir { path, .. } => Deletion::RemoveDirAll(path.clone()),
    }
}

/// Deletions that empty a directory root: each entry removed as a whole.
/// A file root is removed itself; a missing root needs nothing.
pub fn directory_deletions(root: &Option<FsNode>) -> (r: Vec<Deletion>)
    ensures
        r@ == directory_plan(*root),
{
    let mut r: Vec<Deletion> = Vec::new();
    match root {
        None => {},
        Some(FsNode::File { path, .. }) => {
            r.push(Deletion::RemoveFile(path.clone()));
            assert(r@ =~= directory_plan(*root));
        },
        Some(FsNode::Dir { entries, .. }) => {
            let ghost target = entries@.map_values(|e: FsNode| removal_of(e));
            let mut i: usize = 0;
            while i < entries.len()
                invariant
                    i <= entries@.len(),
                    target == entries@.map_values(|e: FsNode| removal_of(e)),
                    r@ == target.subrange(0, i as int),
                decreases entries@.len() - i,
            {
                r.push(removal_for(&entries[i]));
                i += 1;
                assert(r@ =~= target.subrange(0, i as int));
            }
            assert(r@ =~= target);
        },
    }
    r
}

/// Appends the removals of the transient-looking files reachable from
/// `entries`, in walk order.
fn push_temp_deletions(entries: &Vec<FsNode>, out: &mut Vec<Deletion>)
    ensures
        final(out)@ == old(out)@ + temp_plan_entries(entries@),
    decreases entries,
{
    let ghost start = out@;
    let mut i: usize = 0;
    while i < entries.len()
        invariant
            i <= entries@.len(),
            out@ == start + temp_plan_entries(entries@.subrange(0, i as int)),
        decreases entries@.len() - i,
    {
        let ghost before = out@;
        let e = &entries[i];
        match e {
            FsNode::File { path, name, .. } => {
                if is_temp_file_name(name) {
                    out.push(Deletion::RemoveFile(path.clone()));
                }
                assert(out@ =~= before + temp_plan_entry(*e));
            },
            FsNode::Dir { entries: sub, .. } => {
                push_temp_deletions(sub, out);
                assert(out@ =~= before + temp_plan_entry(*e));
            },
        }
        proof {
            let pre = entries@.subrange(0, i as int);
            let next = entries@.subrange(0, i + 1);
            assert(next.subrange(0, next.len() - 1) =~= pre);
            assert(next[next.len() - 1] == entries@[i as int]);
            assert(temp_plan_entries(next) == temp_plan_entries(pre) + temp_plan_entry(
                entries@[i as int],
            ));
            assert(out@ =~= start + temp_plan_entries(next));
        }
        i += 1;
    }
    assert(entries@.subrange(0, entries@.len() as int) =~= entries@);
}

/// Deletions of the transient-looking files below a directory root.
pub fn temp_file_deletions(root: &Option<FsNode>) -> (r: Vec<Deletion>)
    ensures
        r@ == temp_plan(*root),
{
    let mut r: Vec<Deletion> = Vec::new();
    if let Some(FsNode::Dir { entries, .. }) = root {
        push_temp_deletions(entries, &mut r);
        assert(r@ =~= temp_plan(*root));
    }
    r
}

} // verus!
