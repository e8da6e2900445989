use vstd::prelude::*;

verus! {

/// Where a project's remote is hosted: one of the known providers, or any
/// other host, kept as the raw host string.
#[derive(Debug, Clone)]
pub enum RepoOrigin {
    GitHub,
    GitLab,
    Bitbucket,
    GitLabSelfHosted,
    Custom(String),
}

/// The human label of an origin: a fixed name for a known provider, the
/// host itself for any other.
pub open spec fn display_name(o: RepoOrigin) -> Seq<char> {
    match o {
        RepoOrigin::GitHub => "GitHub"@,
        RepoOrigin::GitLab => "GitLab"@,
        RepoOrigin::Bitbucket => "Bitbucket"@,
        RepoOrigin::GitLabSelfHosted => "GitLab Self-Hosted"@,
        RepoOrigin::Custom(host) => host@,
    }
}

/// Two origins are the same when they are the same variant and, for a
/// custom host, hold the same host string.
pub open spec fn same_origin(a: RepoOrigin, b: RepoOrigin) -> bool {
    match a {
        RepoOrigin::GitHub => match b {
            RepoOrigin::GitHub => true,
            _ => false,
        },
        RepoOrigin::GitLab => match b {
            RepoOrigin::GitLab => true,
            _ => false,
        },
        RepoOrigin::Bitbucket => match b {
            RepoOrigin::Bitbucket => true,
            _ => false,
        },
        RepoOrigin::GitLabSelfHosted => match b {
            RepoOrigin::GitLabSelfHosted => true,
            _ => false,
        },
        RepoOrigin::Custom(x) => b matches RepoOrigin::Custom(y) && x@ == y@,
    }
}

impl RepoOrigin {
    /// The label shown for this origin.
    pub fn to_display_string(&self) -> (r: String)
        ensures
            r@ == display_name(*self),
    {
        match self {
            RepoOrigin::GitHub => "GitHub".to_owned(),
            RepoOrigin::GitLab => "GitLab".to_owned(),
            RepoOrigin::Bitbucket => "Bitbucket".to_owned(),
            RepoOrigin::GitLabSelfHosted => "GitLab Self-Hosted".to_owned(),
            RepoOrigin::Custom(host) => host.clone(),
        }
    }
}

impl PartialEq for RepoOrigin {
    fn eq(&self, other: &RepoOrigin) -> (r: bool)
        ensures
            r == same_origin(*self, *other),
    {
        match self {
            RepoOrigin::GitHub => match other {
                RepoOrigin::GitHub => true,
                _ => false,
            },
            RepoOrigin::GitLab => match other {
                RepoOrigin::GitLab => true,
                _ => false,
            },
            RepoOrigin::Bitbucket => match other {
                RepoOrigin::Bitbucket => true,
                _ => false,
            },
            RepoOrigin::GitLabSelfHosted => match other {
                RepoOrigin::GitLabSelfHosted => true,
                _ => false,
            },
            RepoOrigin::Custom(x) => match other {
                RepoOrigin::Custom(y) => *x == *y,
                _ => false,
            },
        }
    }
}

impl vstd::std_specs::cmp::PartialEqSpecImpl for RepoOrigin {
    open spec fn obeys_eq_spec() -> bool {
        true
    }

    open spec fn eq_spec(&self, other: &RepoOrigin) -> bool {
        same_origin(*self, *other)
    }
}

impl Eq for RepoOrigin {

}

} // verus!
