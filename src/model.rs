use vstd::prelude::*;

use crate::origin::RepoOrigin;

verus! {

/// An instant with the local offset it was recorded in: whole seconds since
/// the Unix epoch, the nanoseconds past that second, and the offset from UTC
/// in seconds. Instants are ordered by seconds, then nanoseconds; the offset
/// plays no part in the order.
#[derive(Debug, Clone, Copy, PartialEq, Eq, Structural)]
pub struct Timestamp {
    pub secs: i64,
    pub nanos: u32,
    pub offset_secs: i32,
}

/// `a` is the same instant as `b` or an earlier one.
pub open spec fn at_or_before(a: Timestamp, b: Timestamp) -> bool {
    a.secs < b.secs || (a.secs == b.secs && a.nanos <= b.nanos)
}

impl Timestamp {
    /// Whether this instant is the same as `other` or earlier.
    pub fn is_at_or_before(&self, other: &Timestamp) -> (r: bool)
        ensures
            r == at_or_before(*self, *other),
    {
        self.secs < other.secs || (self.secs == other.secs && self.nanos <= other.nanos)
    }
}

/// One recorded change.
#[derive(Debug, Clone)]
pub struct Commit {
    pub hash: String,
    pub message: String,
    pub commit_type: Option<String>,
    pub time: Timestamp,
    pub relative_time: String,
}

/// The history of one branch, newest commit first.
#[derive(Debug, Clone)]
pub struct BranchLog {
    pub name: String,
    pub commits: Vec<Commit>,
}

/// All branches of one project, with where its remote is hosted.
#[derive(Debug, Clone)]
pub struct ProjectLog {
    pub project: String,
    pub path: String,
    pub origin: Option<RepoOrigin>,
    pub branches: Vec<BranchLog>,
}

/// What a commit holds, as mathematical values.
pub ghost struct CommitView {
    pub hash: Seq<char>,
    pub message: Seq<char>,
    pub commit_type: Option<Seq<char>>,
    pub time: Timestamp,
    pub relative_time: Seq<char>,
}

/// A branch as its name and its commits, newest first.
pub ghost struct BranchView {
    pub name: Seq<char>,
    pub commits: Seq<CommitView>,
}

/// A project as its name, location, origin and branches.
pub ghost struct ProjectView {
    pub project: Seq<char>,
    pub path: Seq<char>,
    pub origin: Option<RepoOrigin>,
    pub branches: Seq<BranchView>,
}

impl View for Commit {
    type V = CommitView;

    open spec fn view(&self) -> CommitView {
        CommitView {
            hash: self.hash@,
            message: self.message@,
            commit_type: match self.commit_type {
                Some(t) => Some(t@),
                None => None,
            },
            time: self.time,
            relative_time: self.relative_time@,
        }
    }
}

impl View for BranchLog {
    type V = BranchView;

    open spec fn view(&self) -> BranchView {
        BranchView { name: self.name@, commits: self.commits@.map_values(|c: Commit| c@) }
    }
}

impl View for ProjectLog {
    type V = ProjectView;

    open spec fn view(&self) -> ProjectView {
        ProjectView {
            project: self.project@,
            path: self.path@,
            origin: self.origin,
            branches: self.branches@.map_values(|b: BranchLog| b@),
        }
    }
}

/// The relative time of a branch's newest commit, if it has any.
pub open spec fn branch_latest(b: BranchView) -> Option<Seq<char>> {
    if b.commits.len() > 0 {
        Some(b.commits[0].relative_time)
    } else {
        None
    }
}

/// Every hash that occurs in some commit of some branch.
pub open spec fn commit_hashes(bs: Seq<BranchView>) -> Set<Seq<char>> {
    Set::new(
        |h: Seq<char>|
            exists|i: int, j: int|
                0 <= i < bs.len() && 0 <= j < bs[i].commits.len() && #[trigger] bs[i].commits[j].hash
                    == h,
    )
}

/// The hashes of the commits that come before commit `j` of branch `i`,
/// walking the branches in order and each branch's commits in order.
spec fn hashes_before(bs: Seq<BranchView>, i: int, j: int) -> Set<Seq<char>> {
    Set::new(
        |h: Seq<char>|
            exists|bi: int, cj: int|
                0 <= bi < bs.len() && 0 <= cj < bs[bi].commits.len() && (bi < i || (bi == i && cj
                    < j)) && #[trigger] bs[bi].commits[cj].hash == h,
    )
}

/// Some branch has at least one commit.
pub open spec fn has_activity(bs: Seq<BranchView>) -> bool {
    exists|i: int| 0 <= i < bs.len() && #[trigger] bs[i].commits.len() > 0
}

/// Branch `i` has commits, and its newest commit is at least as late as the
/// newest commit of every other branch.
pub open spec fn is_latest_head(bs: Seq<BranchView>, i: int) -> bool {
    &&& 0 <= i < bs.len()
    &&& bs[i].commits.len() > 0
    &&& forall|k: int|
        0 <= k < bs.len() && #[trigger] bs[k].commits.len() > 0 ==> at_or_before(
            bs[k].commits[0].time,
            bs[i].commits[0].time,
        )
}

/// The views of a list of strings.
spec fn string_views(v: Seq<String>) -> Seq<Seq<char>> {
    v.map_values(|s: String| s@)
}

/// Whether `h` is one of `seen`.
fn contains_hash(seen: &Vec<String>, h: &String) -> (r: bool)
    ensures
        r == string_views(seen@).contains(h@),
{
    let mut k: usize = 0;
    while k < seen.len()
        invariant
            0 <= k <= seen.len(),
            forall|m: int| 0 <= m < k ==> seen@[m]@ != h@,
        decreases seen.len() - k,
    {
        if seen[k] == *h {
            assert(string_views(seen@)[k as int] == h@);
            return true;
        }
        k = k + 1;
    }
    assert forall|m: int| 0 <= m < string_views(seen@).len() implies string_views(
        seen@,
    )[m] != h@ by {}
    false
}

impl BranchLog {
    /// The relative time of the newest commit, or `None` for a branch
    /// without commits.
    pub fn latest_activity(&self) -> (r: Option<&str>)
        ensures
            r matches Some(s) ==> branch_latest(self@) == Some(s@),
            r is None ==> branch_latest(self@) is None,
    {
        if self.commits.len() > 0 {
            Some(self.commits[0].relative_time.as_str())
        } else {
            None
        }
    }
}

impl ProjectLog {
    /// The number of distinct commit hashes over all branches.
    pub fn total_commits(&self) -> (r: usize)
        ensures
            commit_hashes(self@.branches).finite(),
            r == commit_hashes(self@.branches).len(),
    {
        let ghost bs = self@.branches;
        let mut seen: Vec<String> = Vec::new();
        let mut i: usize = 0;
        proof {
            assert(string_views(seen@).to_set() =~= hashes_before(bs, 0, 0));
        }
        while i < self.branches.len()
            invariant
                0 <= i <= self.branches.len(),
                bs == self@.branches,
                bs.len() == self.branches.len(),
                string_views(seen@).no_duplicates(),
                string_views(seen@).to_set() == hashes_before(bs, i as int, 0),
            decreases self.branches.len() - i,
        {
            let branch = &self.branches[i];
            assert(bs[i as int] == branch@);
            let mut j: usize = 0;
            while j < branch.commits.len()
                invariant
                    0 <= i < self.branches.len(),
                    0 <= j <= branch.commits.len(),
                    bs == self@.branches,
                    bs.len() == self.branches.len(),
                    bs[i as int] == branch@,
                    string_views(seen@).no_duplicates(),
                    string_views(seen@).to_set() == hashes_before(bs, i as int, j as int),
                decreases branch.commits.len() - j,
            {
                let h = &branch.commits[j].hash;
                assert(bs[i as int].commits[j as int].hash == h@);
                let ghost before = string_views(seen@);
                if !contains_hash(&seen, h) {
                    seen.push(h.clone());
                    assert(string_views(seen@) =~= before.push(h@));
                    assert forall|x: Seq<char>| #[trigger]
                        string_views(seen@).contains(x) <==> before.contains(x) || x == h@ by {
                        if before.contains(x) {
                            let k = choose|k: int| 0 <= k < before.len() && before[k] == x;
                            assert(string_views(seen@)[k] == x);
                        }
                        if x == h@ {
                            assert(string_views(seen@)[before.len() as int] == x);
                        }
                    }
                    assert(string_views(seen@).to_set() =~= before.to_set().insert(h@));
                    assert(hashes_before(bs, i as int, j + 1) =~= hashes_before(
                        bs,
                        i as int,
                        j as int,
                    ).insert(h@));
                    assert(string_views(seen@).to_set() =~= hashes_before(
                        bs,
                        i as int,
                        j + 1,
                    ));
                } else {
                    assert(before.to_set().contains(h@));
                    assert(hashes_before(bs, i as int, j as int).contains(h@));
                    assert(string_views(seen@).to_set() =~= hashes_before(
                        bs,
                        i as int,
                        j + 1,
                    ));
                }
                j = j + 1;
            }
            assert(hashes_before(bs, i as int, j as int) =~= hashes_before(bs, i + 1, 0));
            i = i + 1;
        }
        assert(hashes_before(bs, i as int, 0) =~= commit_hashes(bs));
        proof {
            string_views(seen@).unique_seq_to_set();
        }
        seen.len()
    }

    /// The relative time of the newest commit among the branches' newest
    /// commits, or `None` when no branch has a commit. Among branches whose
    /// newest commits share the latest instant, any one may be chosen.
    pub fn latest_activity(&self) -> (r: Option<&str>)
        ensures
            r is None <==> !has_activity(self@.branches),
            r matches Some(s) ==> exists|i: int|
                is_latest_head(self@.branches, i) && s@ == self@.branches[i].commits[0].relative_time,
    {
        let ghost bs = self@.branches;
        let mut best: Option<usize> = None;
        let mut i: usize = 0;
        while i < self.branches.len()
            invariant
                0 <= i <= self.branches.len(),
                bs == self@.branches,
                bs.len() == self.branches.len(),
                best is None ==> forall|k: int| 0 <= k < i ==> #[trigger] bs[k].commits.len() == 0,
                best matches Some(b) ==> {
                    &&& b < i
                    &&& bs[b as int].commits.len() > 0
                    &&& forall|k: int|
                        0 <= k < i && #[trigger] bs[k].commits.len() > 0 ==> at_or_before(
                            bs[k].commits[0].time,
                            bs[b as int].commits[0].time,
                        )
                },
            decreases self.branches.len() - i,
        {
            assert(bs[i as int] == self.branches@[i as int]@);
            if self.branches[i].commits.len() > 0 {
                assert(bs[i as int].commits[0] == self.branches@[i as int].commits@[0]@);
                match best {
                    None => {
                        best = Some(i);
                    },
                    Some(b) => {
                        assert(bs[b as int] == self.branches@[b as int]@);
                        assert(bs[b as int].commits[0] == self.branches@[b as int].commits@[0]@);
                        if self.branches[b].commits[0].time.is_at_or_before(
                            &self.branches[i].commits[0].time,
                        ) {
                            best = Some(i);
                        }
                    },
                }
            }
            i = i + 1;
        }
        match best {
            None => {
                assert(!has_activity(bs));
                None
            },
            Some(b) => {
                assert(bs[b as int] == self.branches@[b as int]@);
                assert(bs[b as int].commits[0] == self.branches@[b as int].commits@[0]@);
                assert(is_latest_head(bs, b as int));
                Some(self.branches[b].commits[0].relative_time.as_str())
            },
        }
    }
}

} // verus!
