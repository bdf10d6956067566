//! Pair and mob programming helpers: a roster of co-authors keyed by
//! initials, and the commit-message template built from a selection of them.

pub mod coauthors;
pub mod message;
pub mod file_actions;
pub mod git_config;
pub mod paths;
pub mod git_mob;

pub use coauthors::{Author, Coauthors};
pub use file_actions::{FileActions, MockFileActions};
pub use git_mob::{GitMob, GitMobError, Repo};
