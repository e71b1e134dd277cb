//! Review states of pull requests.
//!
//! Participants of a pull request vote, ask each other for comment and set
//! labels by writing commands into their comments. This library folds the
//! activity log of a pull request into its review state: what every participant
//! currently says, whether a vote was cast on the commit that is now the
//! head, and which labels are set.
//!
//! - [`state`] holds the review state and computes it; [`model`] says what it
//!   is, and [`laws`] what holds of it.
//! - [`commands`], [`tokens`], [`directive`] and [`pattern`] read the
//!   commands.
//! - [`pager`] walks the paginated listings of the hosting service, and
//!   [`bitbucket`] holds its records.
//! - [`report`] reviews one pull request from what was fetched for it.
pub mod bitbucket;
pub mod commands;
pub mod directive;
pub mod labels;
pub mod laws;
pub mod model;
pub mod number;
pub mod pager;
pub mod pattern;
pub mod report;
pub mod review;
pub mod state;
pub mod text;
pub mod tokens;
pub mod urls;

pub use crate::commands::{get_commands, parse_commands, toplevel_comments, UserCommand};
pub use crate::directive::{Directive, ReduceError};
pub use crate::labels::LabelSet;
pub use crate::pager::{activities_to_items, Pager, Paginated};
pub use crate::report::{repo_pr, ProcessingError, PullRequestProcessing};
pub use crate::review::{ReviewEntry, ReviewMap, ReviewStatus};
pub use crate::state::PullRequestState;
pub use crate::urls::{PullrequestIdURLs, RepositoryURLs};
