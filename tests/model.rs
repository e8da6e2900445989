use commit_log::{BranchLog, Commit, ProjectLog, RepoOrigin, Timestamp};

fn at(secs: i64) -> Timestamp {
    Timestamp { secs, nanos: 0, offset_secs: 3600 }
}

fn commit(hash: &str, secs: i64, relative: &str) -> Commit {
    Commit {
        hash: hash.to_string(),
        message: format!("change {hash}"),
        commit_type: None,
        time: at(secs),
        relative_time: relative.to_string(),
    }
}

fn branch(name: &str, commits: Vec<Commit>) -> BranchLog {
    BranchLog { name: name.to_string(), commits }
}

fn project(branches: Vec<BranchLog>) -> ProjectLog {
    ProjectLog {
        project: "P".to_string(),
        path: "/src/p".to_string(),
        origin: None,
        branches,
    }
}

#[test]
fn example_project_dedups_and_finds_latest() {
    let p = project(vec![
        branch("main", vec![commit("a", 10, "10 ago"), commit("b", 5, "5 ago")]),
        branch("feature", vec![commit("a", 8, "8 ago")]),
    ]);
    assert_eq!(p.total_commits(), 2);
    assert_eq!(p.latest_activity(), Some("10 ago"));
}

#[test]
fn no_branches_counts_nothing() {
    let p = project(vec![]);
    assert_eq!(p.total_commits(), 0);
    assert_eq!(p.latest_activity(), None);
}

#[test]
fn empty_branches_count_nothing() {
    let p = project(vec![branch("main", vec![]), branch("dev", vec![])]);
    assert_eq!(p.total_commits(), 0);
    assert_eq!(p.latest_activity(), None);
}

#[test]
fn total_counts_distinct_hashes() {
    let p = project(vec![
        branch("main", vec![commit("a", 3, "3"), commit("b", 2, "2"), commit("c", 1, "1")]),
        branch("dev", vec![commit("d", 4, "4"), commit("b", 2, "2")]),
        branch("old", vec![commit("c", 1, "1")]),
    ]);
    assert_eq!(p.total_commits(), 4);
}

#[test]
fn total_ignores_branch_order() {
    let a = vec![commit("x", 3, "3"), commit("y", 2, "2")];
    let b = vec![commit("y", 2, "2"), commit("z", 1, "1")];
    let c = vec![commit("w", 5, "5")];
    let p1 = project(vec![branch("a", a.clone()), branch("b", b.clone()), branch("c", c.clone())]);
    let p2 = project(vec![branch("c", c), branch("b", b), branch("a", a)]);
    assert_eq!(p1.total_commits(), 4);
    assert_eq!(p2.total_commits(), 4);
}

#[test]
fn shared_hash_counts_once() {
    let one = project(vec![branch("main", vec![commit("a", 1, "1")])]);
    let two = project(vec![
        branch("main", vec![commit("a", 1, "1")]),
        branch("feature", vec![commit("a", 1, "1")]),
    ]);
    assert_eq!(one.total_commits(), 1);
    assert_eq!(two.total_commits(), 1);
}

#[test]
fn repeated_hash_within_branch_counts_once() {
    let p = project(vec![branch("main", vec![commit("a", 2, "2"), commit("a", 1, "1")])]);
    assert_eq!(p.total_commits(), 1);
}

#[test]
fn branch_latest_is_first_commit() {
    let b = branch("main", vec![commit("a", 1, "first"), commit("b", 9, "second")]);
    assert_eq!(b.latest_activity(), Some("first"));
}

#[test]
fn branch_latest_absent_when_empty() {
    let b = branch("main", vec![]);
    assert_eq!(b.latest_activity(), None);
}

#[test]
fn project_latest_takes_newest_head() {
    let p = project(vec![
        branch("a", vec![commit("a1", 7, "seven")]),
        branch("empty", vec![]),
        branch("b", vec![commit("b1", 12, "twelve"), commit("b2", 100, "ignored")]),
        branch("c", vec![commit("c1", 11, "eleven")]),
    ]);
    assert_eq!(p.latest_activity(), Some("twelve"));
}

#[test]
fn project_latest_compares_nanoseconds() {
    let mut early = commit("a", 50, "early");
    early.time.nanos = 100;
    let mut late = commit("b", 50, "late");
    late.time.nanos = 200;
    let p = project(vec![branch("x", vec![early]), branch("y", vec![late])]);
    assert_eq!(p.latest_activity(), Some("late"));
}

#[test]
fn project_latest_ignores_offset() {
    let mut east = commit("a", 100, "east");
    east.time.offset_secs = 9 * 3600;
    let mut west = commit("b", 101, "west");
    west.time.offset_secs = -8 * 3600;
    let p = project(vec![branch("x", vec![east]), branch("y", vec![west])]);
    assert_eq!(p.latest_activity(), Some("west"));
}

#[test]
fn project_latest_tie_returns_a_tied_head() {
    let p = project(vec![
        branch("x", vec![commit("a", 20, "tie one")]),
        branch("y", vec![commit("b", 20, "tie two")]),
        branch("z", vec![commit("c", 3, "old")]),
    ]);
    let r = p.latest_activity();
    assert!(r == Some("tie one") || r == Some("tie two"));
}

#[test]
fn timestamp_order() {
    assert!(at(1).is_at_or_before(&at(2)));
    assert!(at(2).is_at_or_before(&at(2)));
    assert!(!at(3).is_at_or_before(&at(2)));
    let a = Timestamp { secs: 5, nanos: 7, offset_secs: 0 };
    let b = Timestamp { secs: 5, nanos: 6, offset_secs: 0 };
    assert!(!a.is_at_or_before(&b));
    assert!(b.is_at_or_before(&a));
}

#[test]
fn display_custom_is_host() {
    let o = RepoOrigin::Custom("example.internal".to_string());
    assert_eq!(o.to_display_string(), "example.internal");
}

#[test]
fn display_known_labels() {
    assert_eq!(RepoOrigin::GitLabSelfHosted.to_display_string(), "GitLab Self-Hosted");
    assert_eq!(RepoOrigin::GitHub.to_display_string(), "GitHub");
    assert_eq!(RepoOrigin::GitLab.to_display_string(), "GitLab");
    assert_eq!(RepoOrigin::Bitbucket.to_display_string(), "Bitbucket");
}

#[test]
fn origin_equality() {
    assert_eq!(RepoOrigin::GitHub, RepoOrigin::GitHub);
    assert_ne!(RepoOrigin::GitHub, RepoOrigin::GitLab);
    assert_ne!(RepoOrigin::GitLab, RepoOrigin::GitLabSelfHosted);
    assert_eq!(
        RepoOrigin::Custom("h.example".to_string()),
        RepoOrigin::Custom("h.example".to_string())
    );
    assert_ne!(
        RepoOrigin::Custom("a.example".to_string()),
        RepoOrigin::Custom("b.example".to_string())
    );
    assert_ne!(RepoOrigin::Custom("GitHub".to_string()), RepoOrigin::GitHub);
}
