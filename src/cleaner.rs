//! Whole-directory cleaning reports: what a directory weighs, and the
//! account of a pass of deletions.
use vstd::prelude::*;
use crate::cleanup_items::{aggregate, directory_deletions, sat};
use crate::fs_tree::{
    directory_plan, lemma_directory_plan_empties, root_tally, root_tally_after, Deletion, FsNode,
};

verus! {

/// Account of a cleaning pass.
#[derive(Clone, Debug)]
pub struct CleanResult {
    pub files_deleted: u64,
    pub dirs_deleted: u64,
    pub bytes_cleaned: u64,
    pub errors: Vec<String>,
}

/// One attempted deletion and the error it met, if any.
#[derive(Clone, Debug)]
pub struct Attempt {
    pub deletion: Deletion,
    pub error: Option<String>,
}

/// The decimal digit `d`.
pub open spec fn digit(d: nat) -> char {
    seq!['0', '1', '2', '3', '4', '5', '6', '7', '8', '9'][d as int]
}

/// The decimal notation of `n`, without leading zeros.
pub open spec fn decimal(n: nat) -> Seq<char>
    decreases n,
{
    if n < 10 {
        seq![digit(n)]
    } else {
        decimal(n / 10) + seq![digit(n % 10)]
    }
}

/// A byte count in hundredths of a mebibyte, rounded to nearest with ties
/// to even.
pub open spec fn mib_hundredths(bytes: nat) -> nat {
    let x = bytes * 100;
    let q = x / 1048576;
    let r = x % 1048576;
    if 2 * r > 1048576 || (2 * r == 1048576 && q % 2 == 1) {
        q + 1
    } else {
        q
    }
}

/// A byte count in mebibytes with two decimals.
pub open spec fn mib_text(bytes: nat) -> Seq<char> {
    let h = mib_hundredths(bytes);
    decimal(h / 100) + seq!['.', digit((h % 100) / 10), digit(h % 10)]
}

/// The status lines of a cleaning pass, separated by newlines.
pub open spec fn status_text(files: nat, dirs: nat, bytes: nat, errors: nat) -> Seq<char> {
    let base = "Files deleted: "@ + decimal(files) + seq!['\n'] + "Directories deleted: "@ + decimal(
        dirs,
    ) + seq!['\n'] + "Space freed: "@ + mib_text(bytes) + " MB"@;
    if errors > 0 {
        base + seq!['\n'] + "Errors encountered: "@ + decimal(errors)
    } else {
        base
    }
}

/// The digit `d` as text.
fn digit_text(d: u128) -> (r: &'static str)
    requires
        d < 10,
    ensures
        r@ == seq![digit(d as nat)],
{
    let all = "0123456789";
    proof {
        reveal_strlit("0123456789");
    }
    assert(all@ =~= seq!['0', '1', '2', '3', '4', '5', '6', '7', '8', '9']);
    let r = all.substring_char(d as usize, d as usize + 1);
    assert(r@ =~= seq![digit(d as nat)]);
    r
}

/// The decimal notation of `n`.
pub fn decimal_text(n: u128) -> (r: String)
    ensures
        r@ == decimal(n as nat),
    decreases n,
{
    if n < 10 {
        String::from_str(digit_text(n))
    } else {
        decimal_text(n / 10).concat(digit_text(n % 10))
    }
}

/// A byte count as mebibytes with two decimals, as `{:.2}` prints the
/// quotient by 1024 * 1024.
pub fn mib_two_decimals(bytes: u64) -> (r: String)
    ensures
        r@ == mib_text(bytes as nat),
{
    let x: u128 = bytes as u128 * 100;
    let q: u128 = x / 1048576;
    let rem: u128 = x % 1048576;
    let h: u128 = if 2 * rem > 1048576 || (2 * rem == 1048576 && q % 2 == 1) {
        q + 1
    } else {
        q
    };
    assert(h == mib_hundredths(bytes as nat));
    let frac = h % 100;
    proof {
        reveal_strlit(".");
    }
    let r = decimal_text(h / 100).concat(".").concat(digit_text(frac / 10)).concat(
        digit_text(frac % 10),
    );
    assert(r@ =~= mib_text(bytes as nat));
    r
}

impl CleanResult {
    /// Nothing was deleted.
    pub fn is_empty(&self) -> (r: bool)
        ensures
            r == (self.files_deleted == 0 && self.dirs_deleted == 0),
    {
        self.files_deleted == 0 && self.dirs_deleted == 0
    }

    /// Some deletion failed.
    pub fn has_errors(&self) -> (r: bool)
        ensures
            r == (self.errors@.len() > 0),
    {
        self.errors.len() > 0
    }

    /// The account as text: files and directories deleted, space freed in
    /// MB with two decimals, and the number of errors when there were any.
    pub fn display_status(&self) -> (r: String)
        ensures
            r@ == status_text(
                self.files_deleted as nat,
                self.dirs_deleted as nat,
                self.bytes_cleaned as nat,
                self.errors@.len(),
            ),
    {
        proof {
            reveal_strlit("\n");
        }
        let nl = "\n";
        assert(nl@ =~= seq!['\n']);
        let mut s = String::from_str("Files deleted: ");
        s.append(decimal_text(self.files_deleted as u128).as_str());
        s.append(nl);
        s.append("Directories deleted: ");
        s.append(decimal_text(self.dirs_deleted as u128).as_str());
        s.append(nl);
        s.append("Space freed: ");
        s.append(mib_two_decimals(self.bytes_cleaned).as_str());
        s.append(" MB");
        if self.has_errors() {
            s.append(nl);
            s.append("Errors encountered: ");
            s.append(decimal_text(self.errors.len() as u128).as_str());
        }
        assert(s@ =~= status_text(
            self.files_deleted as nat,
            self.dirs_deleted as nat,
            self.bytes_cleaned as nat,
            self.errors@.len(),
        ));
        s
    }
}

/// Whether an attempt removed a file.
pub open spec fn removed_file(a: Attempt) -> bool {
    a.error is None && a.deletion is RemoveFile
}

/// Whether an attempt removed a directory.
pub open spec fn removed_dir(a: Attempt) -> bool {
    a.error is None && a.deletion is RemoveDirAll
}

/// How many attempts satisfy `f`.
pub open spec fn count_where(s: Seq<Attempt>, f: spec_fn(Attempt) -> bool) -> nat
    decreases s.len(),
{
    if s.len() == 0 {
        0
    } else {
        count_where(s.subrange(0, s.len() - 1), f) + if f(s[s.len() - 1]) {
            1nat
        } else {
            0nat
        }
    }
}

/// The message that reports a failed attempt.
pub open spec fn failure_message(d: Deletion, err: Seq<char>) -> Seq<char> {
    match d {
        Deletion::RemoveFile(p) => "Failed to delete file "@ + p@ + ": "@ + err,
        Deletion::RemoveDirAll(p) => "Failed to delete directory "@ + p@ + ": "@ + err,
    }
}

/// The messages of the failed attempts, in order.
pub open spec fn failure_messages(s: Seq<Attempt>) -> Seq<Seq<char>>
    decreases s.len(),
{
    if s.len() == 0 {
        Seq::empty()
    } else {
        let last = s[s.len() - 1];
        let rest = failure_messages(s.subrange(0, s.len() - 1));
        match last.error {
            Some(e) => rest.push(failure_message(last.deletion, e@)),
            None => rest,
        }
    }
}

fn failure_text(d: &Deletion, err: &String) -> (r: String)
    ensures
        r@ == failure_message(*d, err@),
{
    match d {
        Deletion::RemoveFile(p) => String::from_str("Failed to delete file ").concat(
            p.as_str(),
        ).concat(": ").concat(err.as_str()),
        Deletion::RemoveDirAll(p) => String::from_str("Failed to delete directory ").concat(
            p.as_str(),
        ).concat(": ").concat(err.as_str()),
    }
}

/// The account of a pass of deletions: each successful attempt counts as a
/// deleted file or directory, each failed one leaves a message, and the
/// space freed is the drop in size from `before` to `after` (zero if the
/// size grew). In a dry run every attempt is recorded as successful.
pub fn tally_attempts(attempts: &Vec<Attempt>, before: u64, after: u64) -> (r: CleanResult)
    ensures
        r.files_deleted == sat(count_where(attempts@, |a: Attempt| removed_file(a)) as int),
        r.dirs_deleted == sat(count_where(attempts@, |a: Attempt| removed_dir(a)) as int),
        r.errors@.map_values(|e: String| e@) == failure_messages(attempts@),
        r.bytes_cleaned == (if before >= after {
            before - after
        } else {
            0
        }),
{
    let ghost fs = |a: Attempt| removed_file(a);
    let ghost ds = |a: Attempt| removed_dir(a);
    let mut r = CleanResult {
        files_deleted: 0,
        dirs_deleted: 0,
        bytes_cleaned: before.saturating_sub(after),
        errors: Vec::new(),
    };
    let mut i: usize = 0;
    while i < attempts.len()
        invariant
            i <= attempts@.len(),
            fs == (|a: Attempt| removed_file(a)),
            ds == (|a: Attempt| removed_dir(a)),
            r.files_deleted == sat(count_where(attempts@.subrange(0, i as int), fs) as int),
            r.dirs_deleted == sat(count_where(attempts@.subrange(0, i as int), ds) as int),
            r.errors@.map_values(|e: String| e@) == failure_messages(
                attempts@.subrange(0, i as int),
            ),
            r.bytes_cleaned == (if before >= after {
                before - after
            } else {
                0
            }),
        decreases attempts@.len() - i,
    {
        let a = &attempts[i];
        let ghost old_errors = r.errors@;
        match &a.error {
            None => {
                match &a.deletion {
                    Deletion::RemoveFile(_) => {
                        r.files_deleted = r.files_deleted.saturating_add(1);
                    },
                    Deletion::RemoveDirAll(_) => {
                        r.dirs_deleted = r.dirs_deleted.saturating_add(1);
                    },
                }
            },
            Some(e) => {
                let msg = failure_text(&a.deletion, e);
                r.errors.push(msg);
                assert(r.errors@.map_values(|e: String| e@) =~= old_errors.map_values(
                    |e: String| e@,
                ).push(msg@));
            },
        }
        proof {
            let pre = attempts@.subrange(0, i as int);
            let next = attempts@.subrange(0, i + 1);
            assert(next.subrange(0, next.len() - 1) =~= pre);
            assert(next[next.len() - 1] == attempts@[i as int]);
        }
        i += 1;
    }
    assert(attempts@.subrange(0, attempts@.len() as int) =~= attempts@);
    r
}

/// Every deletion of a plan, recorded as successful.
pub open spec fn all_succeeded(plan: Seq<Deletion>) -> Seq<Attempt> {
    plan.map_values(|d: Deletion| Attempt { deletion: d, error: None })
}

/// The account of a dry run over a directory: every entry below the root
/// counts as deleted, nothing is, and the space freed is what deleting
/// them all would free, the whole size below the root.
pub fn dry_run_clean(root: &Option<FsNode>) -> (r: CleanResult)
    ensures
        r.files_deleted == sat(
            count_where(all_succeeded(directory_plan(*root)), |a: Attempt| removed_file(a)) as int,
        ),
        r.dirs_deleted == sat(
            count_where(all_succeeded(directory_plan(*root)), |a: Attempt| removed_dir(a)) as int,
        ),
        r.errors@.len() == 0,
        r.bytes_cleaned == sat(root_tally(*root, false).0 as int) - sat(
            root_tally_after(*root, directory_plan(*root), false).0 as int,
        ),
        r.bytes_cleaned == sat(root_tally(*root, false).0 as int),
{
    let plan = directory_deletions(root);
    let ghost p = plan@;
    let mut attempts: Vec<Attempt> = Vec::new();
    let mut i: usize = 0;
    while i < plan.len()
        invariant
            i <= p.len(),
            p == plan@,
            attempts@ == all_succeeded(p.subrange(0, i as int)),
        decreases p.len() - i,
    {
        attempts.push(Attempt { deletion: plan[i].duplicate(), error: None });
        i += 1;
        assert(attempts@ =~= all_succeeded(p.subrange(0, i as int)));
    }
    assert(p.subrange(0, p.len() as int) =~= p);
    let before = get_dir_size(root);
    proof {
        lemma_directory_plan_empties(*root, p);
    }
    let r = tally_attempts(&attempts, before, 0);
    assert(r.errors@.map_values(|e: String| e@).len() == 0) by {
        lemma_no_failures(attempts@);
    }
    r
}

proof fn lemma_no_failures(s: Seq<Attempt>)
    requires
        forall|i: int| 0 <= i < s.len() ==> (#[trigger] s[i]).error is None,
    ensures
        failure_messages(s).len() == 0,
    decreases s.len(),
{
    if s.len() > 0 {
        lemma_no_failures(s.subrange(0, s.len() - 1));
    }
}

/// Total size in bytes of the files reachable from a path (a file counts as
/// itself, a missing path as zero), clamped at `u64::MAX`.
pub fn get_dir_size(root: &Option<FsNode>) -> (r: u64)
    ensures
        r == sat(root_tally(*root, false).0 as int),
{
    aggregate(root).size_bytes
}

} // verus!
