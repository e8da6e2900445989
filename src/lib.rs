//! Commit history of source-control projects: branches of commits,
//! deduplicated commit counts, latest activity and hosting origin.

pub mod model;
pub mod lemmas;
pub mod origin;

pub use model::{BranchLog, Commit, ProjectLog, Timestamp};
pub use origin::RepoOrigin;
