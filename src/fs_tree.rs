//! Snapshots of directory trees and the aggregation over them.
//!
//! The caller reads the filesystem into an `FsNode` tree (entries whose
//! metadata cannot be read are simply left out, and an unreadable directory
//! has no entries); everything computed from that tree lives here.
use vstd::prelude::*;

verus! {

/// One entry of a directory snapshot.
#[derive(Debug)]
pub enum FsNode {
    /// A regular file with its size in bytes.
    File { path: String, name: String, size: u64 },
    /// A directory with the entries that could be read from it.
    Dir { path: String, name: String, entries: Vec<FsNode> },
}

/// A single filesystem removal that a clean pass asks for.
#[derive(Clone, Debug)]
pub enum Deletion {
    /// Remove one regular file.
    RemoveFile(String),
    /// Remove a directory together with everything below it.
    RemoveDirAll(String),
}

impl Deletion {
    /// A copy of this deletion.
    pub fn duplicate(&self) -> (r: Deletion)
        ensures
            r == *self,
    {
        match self {
            Deletion::RemoveFile(p) => Deletion::RemoveFile(p.clone()),
            Deletion::RemoveDirAll(p) => Deletion::RemoveDirAll(p.clone()),
        }
    }
}

/// Byte, file and directory counts of a part of a tree.
pub type Tally = (nat, nat, nat);

pub open spec fn tally_add(a: Tally, b: Tally) -> Tally {
    (a.0 + b.0, a.1 + b.1, a.2 + b.2)
}

pub open spec fn zero_tally() -> Tally {
    (0, 0, 0)
}

/// What one entry of a directory contributes. In temp mode only files whose
/// name looks transient count, and directories are walked but not counted.
pub open spec fn entry_tally(n: FsNode, temp_only: bool) -> Tally
    decreases n,
{
    match n {
        FsNode::File { name, size, .. } => {
            if !temp_only || is_temp_name(name@) {
                (size as nat, 1, 0)
            } else {
                zero_tally()
            }
        },
        FsNode::Dir { entries, .. } => {
            let t = entries_tally(entries@, temp_only);
            if temp_only {
                t
            } else {
                (t.0, t.1, t.2 + 1)
            }
        },
    }
}

/// The sum of what the entries of a directory contribute.
pub open spec fn entries_tally(s: Seq<FsNode>, temp_only: bool) -> Tally
    decreases s,
{
    if s.len() == 0 {
        zero_tally()
    } else {
        tally_add(
            entries_tally(s.subrange(0, s.len() - 1), temp_only),
            entry_tally(s[s.len() - 1], temp_only),
        )
    }
}

/// Tally of a snapshot root: a missing path contributes nothing, a file
/// root counts as itself (but not in temp mode, which only looks below a
/// directory), and a directory root is the sum over its entries.
pub open spec fn root_tally(root: Option<FsNode>, temp_only: bool) -> Tally {
    match root {
        None => zero_tally(),
        Some(FsNode::File { size, .. }) => {
            if temp_only {
                zero_tally()
            } else {
                (size as nat, 1, 0)
            }
        },
        Some(FsNode::Dir { entries, .. }) => entries_tally(entries@, temp_only),
    }
}

/// The regular files reachable from an entry, in walk order.
pub open spec fn entry_files(n: FsNode) -> Seq<FsNode>
    decreases n,
{
    match n {
        FsNode::File { .. } => seq![n],
        FsNode::Dir { entries, .. } => entries_files(entries@),
    }
}

/// The regular files reachable from a list of entries, in walk order.
pub open spec fn entries_files(s: Seq<FsNode>) -> Seq<FsNode>
    decreases s,
{
    if s.len() == 0 {
        Seq::empty()
    } else {
        entries_files(s.subrange(0, s.len() - 1)) + entry_files(s[s.len() - 1])
    }
}

/// The regular files reachable from a path: none if it is missing.
pub open spec fn root_files(root: Option<FsNode>) -> Seq<FsNode> {
    match root {
        None => Seq::empty(),
        Some(n) => entry_files(n),
    }
}

/// The size of a file entry (zero for a directory).
pub open spec fn file_size(n: FsNode) -> nat {
    match n {
        FsNode::File { size, .. } => size as nat,
        FsNode::Dir { .. } => 0,
    }
}

/// Total size of a list of file entries.
pub open spec fn size_sum(files: Seq<FsNode>) -> nat
    decreases files.len(),
{
    if files.len() == 0 {
        0
    } else {
        size_sum(files.subrange(0, files.len() - 1)) + file_size(files[files.len() - 1])
    }
}

proof fn lemma_size_sum_concat(a: Seq<FsNode>, b: Seq<FsNode>)
    ensures
        size_sum(a + b) == size_sum(a) + size_sum(b),
    decreases b.len(),
{
    if b.len() == 0 {
        assert(a + b =~= a);
    } else {
        let c = a + b;
        assert(c.subrange(0, c.len() - 1) =~= a + b.subrange(0, b.len() - 1));
        lemma_size_sum_concat(a, b.subrange(0, b.len() - 1));
    }
}

proof fn lemma_entry_files(n: FsNode)
    ensures
        entry_tally(n, false).0 == size_sum(entry_files(n)),
        entry_tally(n, false).1 == entry_files(n).len(),
    decreases n,
{
    match n {
        FsNode::File { .. } => {
            let one = entry_files(n);
            assert(one.subrange(0, 0) =~= Seq::<FsNode>::empty());
            assert(size_sum(one.subrange(0, 0)) == 0);
            assert(size_sum(one) == file_size(n));
        },
        FsNode::Dir { entries, .. } => {
            lemma_entries_files(entries@);
        },
    }
}

proof fn lemma_entries_files(s: Seq<FsNode>)
    ensures
        entries_tally(s, false).0 == size_sum(entries_files(s)),
        entries_tally(s, false).1 == entries_files(s).len(),
    decreases s,
{
    if s.len() > 0 {
        let pre = s.subrange(0, s.len() - 1);
        lemma_entries_files(pre);
        lemma_entry_files(s[s.len() - 1]);
        lemma_size_sum_concat(entries_files(pre), entry_files(s[s.len() - 1]));
    }
}

/// Summing the sizes of all regular files reachable from a path, at any
/// depth, gives the aggregated byte count, and counting them gives the
/// aggregated file count.
pub proof fn lemma_tally_counts_reachable_files(root: Option<FsNode>)
    ensures
        root_tally(root, false).0 == size_sum(root_files(root)),
        root_tally(root, false).1 == root_files(root).len(),
{
    match root {
        None => {},
        Some(n) => {
            lemma_entry_files(n);
        },
    }
}

/// The removal that deletes an entry as a whole.
pub open spec fn removal_of(n: FsNode) -> Deletion {
    match n {
        FsNode::File { path, .. } => Deletion::RemoveFile(path),
        FsNode::Dir { path, .. } => Deletion::RemoveDirAll(path),
    }
}

/// Whether a deletion, once carried out, removes this entry.
pub open spec fn deletes(d: Deletion, n: FsNode) -> bool {
    match (d, n) {
        (Deletion::RemoveFile(p), FsNode::File { path, .. }) => p@ == path@,
        (Deletion::RemoveDirAll(p), FsNode::Dir { path, .. }) => p@ == path@,
        _ => false,
    }
}

/// Whether some deletion of a plan removes this entry.
pub open spec fn removed_by(plan: Seq<Deletion>, n: FsNode) -> bool {
    exists|i: int| 0 <= i < plan.len() && #[trigger] deletes(plan[i], n)
}

/// Plan that empties a directory root: every entry is removed as a whole.
/// A file root is removed itself; a missing root needs nothing.
pub open spec fn directory_plan(root: Option<FsNode>) -> Seq<Deletion> {
    match root {
        None => Seq::empty(),
        Some(FsNode::File { path, .. }) => seq![Deletion::RemoveFile(path)],
        Some(FsNode::Dir { entries, .. }) => entries@.map_values(|e: FsNode| removal_of(e)),
    }
}

/// Removals of the transient-looking files reachable from an entry.
pub open spec fn temp_plan_entry(n: FsNode) -> Seq<Deletion>
    decreases n,
{
    match n {
        FsNode::File { path, name, .. } => {
            if is_temp_name(name@) {
                seq![Deletion::RemoveFile(path)]
            } else {
                Seq::empty()
            }
        },
        FsNode::Dir { entries, .. } => temp_plan_entries(entries@),
    }
}

/// Removals of the transient-looking files reachable from some entries.
pub open spec fn temp_plan_entries(s: Seq<FsNode>) -> Seq<Deletion>
    decreases s,
{
    if s.len() == 0 {
        Seq::empty()
    } else {
        temp_plan_entries(s.subrange(0, s.len() - 1)) + temp_plan_entry(s[s.len() - 1])
    }
}

/// Removals of the transient-looking files below a directory root.
pub open spec fn temp_plan(root: Option<FsNode>) -> Seq<Deletion> {
    match root {
        Some(FsNode::Dir { entries, .. }) => temp_plan_entries(entries@),
        _ => Seq::empty(),
    }
}

/// The plan of a root, by matching rule.
pub open spec fn root_plan(root: Option<FsNode>, temp_only: bool) -> Seq<Deletion> {
    if temp_only {
        temp_plan(root)
    } else {
        directory_plan(root)
    }
}

/// What an entry contributes once the deletions of `plan` are carried out.
pub open spec fn entry_tally_after(n: FsNode, plan: Seq<Deletion>, temp_only: bool) -> Tally
    decreases n,
{
    if removed_by(plan, n) {
        zero_tally()
    } else {
        match n {
            FsNode::File { .. } => entry_tally(n, temp_only),
            FsNode::Dir { entries, .. } => {
                let t = entries_tally_after(entries@, plan, temp_only);
                if temp_only {
                    t
                } else {
                    (t.0, t.1, t.2 + 1)
                }
            },
        }
    }
}

/// What some entries contribute once the deletions of `plan` are carried out.
pub open spec fn entries_tally_after(s: Seq<FsNode>, plan: Seq<Deletion>, temp_only: bool) -> Tally
    decreases s,
{
    if s.len() == 0 {
        zero_tally()
    } else {
        tally_add(
            entries_tally_after(s.subrange(0, s.len() - 1), plan, temp_only),
            entry_tally_after(s[s.len() - 1], plan, temp_only),
        )
    }
}

/// Tally of a root once the deletions of `plan` are carried out.
pub open spec fn root_tally_after(root: Option<FsNode>, plan: Seq<Deletion>, temp_only: bool) -> Tally {
    match root {
        None => zero_tally(),
        Some(n) => {
            if removed_by(plan, n) {
                zero_tally()
            } else {
                match n {
                    FsNode::File { .. } => root_tally(root, temp_only),
                    FsNode::Dir { entries, .. } => entries_tally_after(entries@, plan, temp_only),
                }
            }
        },
    }
}

proof fn lemma_entry_untouched(n: FsNode, temp_only: bool)
    ensures
        entry_tally_after(n, Seq::empty(), temp_only) == entry_tally(n, temp_only),
    decreases n,
{
    if let FsNode::Dir { entries, .. } = n {
        lemma_entries_untouched(entries@, temp_only);
    }
}

proof fn lemma_entries_untouched(s: Seq<FsNode>, temp_only: bool)
    ensures
        entries_tally_after(s, Seq::empty(), temp_only) == entries_tally(s, temp_only),
    decreases s,
{
    if s.len() > 0 {
        lemma_entries_untouched(s.subrange(0, s.len() - 1), temp_only);
        lemma_entry_untouched(s[s.len() - 1], temp_only);
    }
}

/// Carrying out no deletions leaves every tally of a root as it was.
pub proof fn lemma_empty_plan_keeps_tally(root: Option<FsNode>, temp_only: bool)
    ensures
        root_tally_after(root, Seq::empty(), temp_only) == root_tally(root, temp_only),
{
    if let Some(FsNode::Dir { entries, .. }) = root {
        lemma_entries_untouched(entries@, temp_only);
    }
}

proof fn lemma_entries_all_removed(s: Seq<FsNode>, plan: Seq<Deletion>, temp_only: bool)
    requires
        forall|k: int| 0 <= k < s.len() ==> removed_by(plan, #[trigger] s[k]),
    ensures
        entries_tally_after(s, plan, temp_only) == zero_tally(),
    decreases s.len(),
{
    if s.len() > 0 {
        let pre = s.subrange(0, s.len() - 1);
        assert forall|k: int| 0 <= k < pre.len() implies removed_by(plan, #[trigger] pre[k]) by {
            assert(pre[k] == s[k]);
        }
        lemma_entries_all_removed(pre, plan, temp_only);
        assert(removed_by(plan, s[s.len() - 1]));
        assert(entry_tally_after(s[s.len() - 1], plan, temp_only) == zero_tally());
    }
}

/// Once every deletion of a root's directory plan is carried out, nothing is
/// left below it: no bytes, no files, no directories.
pub proof fn lemma_directory_plan_empties(root: Option<FsNode>, plan: Seq<Deletion>)
    requires
        forall|d: Deletion| directory_plan(root).contains(d) ==> plan.contains(d),
    ensures
        root_tally_after(root, plan, false) == zero_tally(),
{
    match root {
        None => {},
        Some(FsNode::File { path, .. }) => {
            let d = Deletion::RemoveFile(path);
            assert(directory_plan(root)[0] == d);
            assert(directory_plan(root).contains(d));
            assert(plan.contains(d));
            let i = choose|i: int| 0 <= i < plan.len() && plan[i] == d;
            assert(deletes(plan[i], root->0));
        },
        Some(FsNode::Dir { entries, .. }) => {
            let s = entries@;
            assert forall|k: int| 0 <= k < s.len() implies removed_by(plan, #[trigger] s[k]) by {
                let d = removal_of(s[k]);
                assert(directory_plan(root)[k] == d);
                assert(directory_plan(root).contains(d));
                assert(plan.contains(d));
                let i = choose|i: int| 0 <= i < plan.len() && plan[i] == d;
                assert(deletes(plan[i], s[k]));
            }
            lemma_entries_all_removed(s, plan, false);
        },
    }
}

proof fn lemma_temp_plan_entries_contains(s: Seq<FsNode>, k: int, d: Deletion)
    requires
        0 <= k < s.len(),
        temp_plan_entry(s[k]).contains(d),
    ensures
        temp_plan_entries(s).contains(d),
    decreases s.len(),
{
    let pre = s.subrange(0, s.len() - 1);
    let last = temp_plan_entry(s[s.len() - 1]);
    let i = choose|i: int| 0 <= i < temp_plan_entry(s[k]).len() && temp_plan_entry(s[k])[i] == d;
    if k == s.len() - 1 {
        assert(temp_plan_entries(s)[temp_plan_entries(pre).len() + i] == d);
    } else {
        assert(pre[k] == s[k]);
        lemma_temp_plan_entries_contains(pre, k, d);
        let j = choose|j: int| 0 <= j < temp_plan_entries(pre).len() && temp_plan_entries(pre)[j] == d;
        assert(temp_plan_entries(s)[j] == d);
    }
}

proof fn lemma_temp_entry_cleared(n: FsNode, plan: Seq<Deletion>)
    requires
        forall|d: Deletion| temp_plan_entry(n).contains(d) ==> plan.contains(d),
    ensures
        entry_tally_after(n, plan, true) == zero_tally(),
    decreases n,
{
    if !removed_by(plan, n) {
        match n {
            FsNode::File { path, name, .. } => {
                if is_temp_name(name@) {
                    let d = Deletion::RemoveFile(path);
                    assert(temp_plan_entry(n)[0] == d);
                    assert(temp_plan_entry(n).contains(d));
                    assert(plan.contains(d));
                    let i = choose|i: int| 0 <= i < plan.len() && plan[i] == d;
                    assert(deletes(plan[i], n));
                }
            },
            FsNode::Dir { entries, .. } => {
                lemma_temp_entries_cleared(entries@, plan);
            },
        }
    }
}

proof fn lemma_temp_entries_cleared(s: Seq<FsNode>, plan: Seq<Deletion>)
    requires
        forall|d: Deletion| temp_plan_entries(s).contains(d) ==> plan.contains(d),
    ensures
        entries_tally_after(s, plan, true) == zero_tally(),
    decreases s,
{
    if s.len() > 0 {
        let pre = s.subrange(0, s.len() - 1);
        let last = s[s.len() - 1];
        assert forall|d: Deletion| temp_plan_entries(pre).contains(d) implies plan.contains(d) by {
            let j = choose|j: int| 0 <= j < temp_plan_entries(pre).len() && temp_plan_entries(pre)[j] == d;
            assert(temp_plan_entries(s)[j] == d);
        }
        assert forall|d: Deletion| temp_plan_entry(last).contains(d) implies plan.contains(d) by {
            lemma_temp_plan_entries_contains(s, s.len() - 1, d);
        }
        lemma_temp_entries_cleared(pre, plan);
        lemma_temp_entry_cleared(last, plan);
    }
}

/// Once every deletion of a root's temp-file plan is carried out, no
/// transient-looking file is left below it.
pub proof fn lemma_temp_plan_clears(root: Option<FsNode>, plan: Seq<Deletion>)
    requires
        forall|d: Deletion| temp_plan(root).contains(d) ==> plan.contains(d),
    ensures
        root_tally_after(root, plan, true) == zero_tally(),
{
    if let Some(FsNode::Dir { entries, .. }) = root {
        lemma_temp_entries_cleared(entries@, plan);
    }
}

/// `needle` occurs in `hay` as a contiguous run.
pub open spec fn has_infix(hay: Seq<char>, needle: Seq<char>) -> bool {
    exists|i: int|
        0 <= i && i + needle.len() <= hay.len() && #[trigger] hay.subrange(i, i + needle.len())
            == needle
}

/// Transient-looking names: containing "tmp", "temp" or "cache", or
/// beginning or ending with a tilde.
pub open spec fn is_temp_name(name: Seq<char>) -> bool {
    ||| has_infix(name, seq!['t', 'm', 'p'])
    ||| has_infix(name, seq!['t', 'e', 'm', 'p'])
    ||| has_infix(name, seq!['c', 'a', 'c', 'h', 'e'])
    ||| (name.len() > 0 && name[0] == '~')
    ||| (name.len() > 0 && name[name.len() - 1] == '~')
}

/// The characters of a string, one by one.
pub fn chars_of(s: &String) -> (r: Vec<char>)
    ensures
        r@ == s@,
{
    let n = s.as_str().unicode_len();
    let mut r: Vec<char> = Vec::new();
    let mut i: usize = 0;
    while i < n
        invariant
            n == s@.len(),
            i <= n,
            r@ == s@.subrange(0, i as int),
        decreases n - i,
    {
        r.push(s.as_str().get_char(i));
        i += 1;
        assert(r@ =~= s@.subrange(0, i as int));
    }
    assert(r@ =~= s@);
    r
}

/// Whether `needle` occurs in `hay`.
pub fn contains_infix(hay: &Vec<char>, needle: &Vec<char>) -> (r: bool)
    ensures
        r == has_infix(hay@, needle@),
{
    if needle.len() > hay.len() {
        return false;
    }
    if needle.len() == 0 {
        assert(hay@.subrange(0, 0int + needle@.len()) =~= needle@);
        return true;
    }
    let n = hay.len();
    let last = n - needle.len();
    let mut i: usize = 0;
    while i <= last
        invariant
            n == hay@.len(),
            last == hay@.len() - needle@.len(),
            0 < needle@.len() <= hay@.len(),
            forall|k: int| 0 <= k < i ==> #[trigger] hay@.subrange(k, k + needle@.len()) != needle@,
        decreases last + 1 - i,
    {
        let mut j: usize = 0;
        let mut same = true;
        while j < needle.len()
            invariant
                i <= last,
                n == hay@.len(),
                last == hay@.len() - needle@.len(),
                0 < needle@.len() <= hay@.len(),
                j <= needle@.len(),
                same == (forall|m: int| 0 <= m < j ==> hay@[i + m] == needle@[m]),
            decreases needle@.len() - j,
        {
            if hay[i + j] != needle[j] {
                same = false;
            }
            j += 1;
        }
        if same {
            assert(hay@.subrange(i as int, i + needle@.len()) =~= needle@);
            return true;
        }
        proof {
            let m = choose|m: int| 0 <= m < needle@.len() && hay@[i + m] != needle@[m];
            assert(hay@.subrange(i as int, i + needle@.len())[m] == hay@[i + m]);
        }
        i += 1;
    }
    assert forall|k: int|
        0 <= k && k + needle@.len() <= hay@.len() implies #[trigger] hay@.subrange(
        k,
        k + needle@.len(),
    ) != needle@ by {}
    false
}

/// Whether a file name looks transient.
pub fn is_temp_file_name(name: &String) -> (r: bool)
    ensures
        r == is_temp_name(name@),
{
    let c = chars_of(name);
    let n = c.len();
    if n > 0 && (c[0] == '~' || c[n - 1] == '~') {
        return true;
    }
    let tmp = vec!['t', 'm', 'p'];
    let temp = vec!['t', 'e', 'm', 'p'];
    let cache = vec!['c', 'a', 'c', 'h', 'e'];
    assert(tmp@ =~= seq!['t', 'm', 'p']);
    assert(temp@ =~= seq!['t', 'e', 'm', 'p']);
    assert(cache@ =~= seq!['c', 'a', 'c', 'h', 'e']);
    contains_infix(&c, &tmp) || contains_infix(&c, &temp) || contains_infix(&c, &cache)
}

} // verus!
