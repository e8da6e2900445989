use vstd::prelude::*;

use crate::model::{branch_latest, commit_hashes, has_activity, BranchView, CommitView};

verus! {

/// The branches with every commit whose hash is `h` taken out.
pub open spec fn without_hash(bs: Seq<BranchView>, h: Seq<char>) -> Seq<BranchView> {
    bs.map_values(
        |b: BranchView|
            BranchView { name: b.name, commits: b.commits.filter(|c: CommitView| c.hash != h) },
    )
}

/// The hashes of any list of branches form a finite set.
pub proof fn lemma_commit_hashes_finite(bs: Seq<BranchView>)
    ensures
        commit_hashes(bs).finite(),
    decreases bs.len(),
{
    if bs.len() == 0 {
        assert(commit_hashes(bs) =~= Set::empty());
    } else {
        let init = bs.drop_last();
        let last = bs.last().commits.map_values(|c: CommitView| c.hash).to_set();
        lemma_commit_hashes_finite(init);
        let whole = commit_hashes(init).union(last);
        assert forall|x: Seq<char>| commit_hashes(bs).contains(x) implies whole.contains(x) by {
            let (i, j) = choose|i: int, j: int|
                0 <= i < bs.len() && 0 <= j < bs[i].commits.len() && #[trigger] bs[i].commits[j].hash
                    == x;
            if i < bs.len() - 1 {
                assert(init[i] == bs[i]);
                assert(init[i].commits[j].hash == x);
            } else {
                assert(bs.last().commits.map_values(|c: CommitView| c.hash)[j] == x);
            }
        }
        vstd::set_lib::lemma_set_subset_finite(whole, commit_hashes(bs));
    }
}

/// A project whose branches hold no commits has no commit hashes, so it
/// counts zero commits, and it has no latest activity.
pub proof fn lemma_no_commits(bs: Seq<BranchView>)
    requires
        forall|i: int| 0 <= i < bs.len() ==> #[trigger] bs[i].commits.len() == 0,
    ensures
        commit_hashes(bs) == Set::<Seq<char>>::empty(),
        commit_hashes(bs).len() == 0,
        !has_activity(bs),
        forall|i: int| 0 <= i < bs.len() ==> #[trigger] branch_latest(bs[i]) is None,
{
    assert(commit_hashes(bs) =~= Set::<Seq<char>>::empty());
}

/// The distinct hashes, and so the commit count, do not depend on the order
/// in which the branches are listed: any rearrangement of the branches gives
/// the same set.
pub proof fn lemma_branch_order_irrelevant(a: Seq<BranchView>, b: Seq<BranchView>)
    requires
        a.to_multiset() == b.to_multiset(),
    ensures
        commit_hashes(a) == commit_hashes(b),
        commit_hashes(a).len() == commit_hashes(b).len(),
{
    a.to_multiset_ensures();
    b.to_multiset_ensures();
    assert forall|x: Seq<char>| commit_hashes(a).contains(x) implies commit_hashes(b).contains(
        x,
    ) by {
        let (i, j) = choose|i: int, j: int|
            0 <= i < a.len() && 0 <= j < a[i].commits.len() && #[trigger] a[i].commits[j].hash == x;
        assert(a.contains(a[i]));
        assert(a.to_multiset().count(a[i]) > 0);
        assert(b.contains(a[i]));
        let k = choose|k: int| 0 <= k < b.len() && b[k] == a[i];
        assert(b[k].commits[j].hash == x);
    }
    assert forall|x: Seq<char>| commit_hashes(b).contains(x) implies commit_hashes(a).contains(
        x,
    ) by {
        let (i, j) = choose|i: int, j: int|
            0 <= i < b.len() && 0 <= j < b[i].commits.len() && #[trigger] b[i].commits[j].hash == x;
        assert(b.contains(b[i]));
        assert(b.to_multiset().count(b[i]) > 0);
        assert(a.contains(b[i]));
        let k = choose|k: int| 0 <= k < a.len() && a[k] == b[i];
        assert(a[k].commits[j].hash == x);
    }
    assert(commit_hashes(a) =~= commit_hashes(b));
}

/// Taking every commit with hash `h` out of all branches leaves exactly the
/// other hashes.
pub proof fn lemma_without_hash(bs: Seq<BranchView>, h: Seq<char>)
    ensures
        commit_hashes(without_hash(bs, h)) == commit_hashes(bs).remove(h),
{
    let ws = without_hash(bs, h);
    let p = |c: CommitView| c.hash != h;
    assert forall|x: Seq<char>| commit_hashes(ws).contains(x) implies commit_hashes(bs).remove(
        h,
    ).contains(x) by {
        let (i, j) = choose|i: int, j: int|
            0 <= i < ws.len() && 0 <= j < ws[i].commits.len() && #[trigger] ws[i].commits[j].hash
                == x;
        let src = bs[i].commits;
        assert(ws[i].commits == src.filter(p));
        let e = src.filter(p)[j];
        src.lemma_filter_pred(p, j);
        assert(src.filter(p).contains(e));
        src.lemma_filter_contains_rev(p, e);
        let k = choose|k: int| 0 <= k < src.len() && src[k] == e;
        assert(bs[i].commits[k].hash == x);
    }
    assert forall|x: Seq<char>| commit_hashes(bs).remove(h).contains(x) implies commit_hashes(
        ws,
    ).contains(x) by {
        let (i, j) = choose|i: int, j: int|
            0 <= i < bs.len() && 0 <= j < bs[i].commits.len() && #[trigger] bs[i].commits[j].hash
                == x;
        let src = bs[i].commits;
        assert(ws[i].commits == src.filter(p));
        src.lemma_filter_contains(p, j);
        let k = choose|k: int| 0 <= k < src.filter(p).len() && src.filter(p)[k] == src[j];
        assert(ws[i].commits[k].hash == x);
    }
    assert(commit_hashes(ws) =~= commit_hashes(bs).remove(h));
}

/// A hash that occurs in two different branches is counted once: the
/// count with it is exactly one more than the count after every commit with
/// that hash is taken out of every branch.
pub proof fn lemma_shared_hash_counted_once(
    bs: Seq<BranchView>,
    h: Seq<char>,
    i: int,
    j: int,
    k: int,
    m: int,
)
    requires
        0 <= i < bs.len(),
        0 <= k < bs.len(),
        i != k,
        0 <= j < bs[i].commits.len(),
        0 <= m < bs[k].commits.len(),
        bs[i].commits[j].hash == h,
        bs[k].commits[m].hash == h,
    ensures
        commit_hashes(bs).contains(h),
        !commit_hashes(without_hash(bs, h)).contains(h),
        commit_hashes(bs).len() == commit_hashes(without_hash(bs, h)).len() + 1,
{
    assert(commit_hashes(bs).contains(h));
    lemma_commit_hashes_finite(bs);
    lemma_without_hash(bs, h);
    vstd::set::axiom_set_remove_len(commit_hashes(bs), h);
}

} // verus!
