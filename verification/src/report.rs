//! Reviewing one pull request: from what was fetched to what is reported.
//!
//! The service lists the activity of a pull request newest first. It is
//! turned round and reduced to a review state. Whatever goes wrong with one
//! pull request is recorded for that pull request and does not concern the
//! others.
use crate::bitbucket::{activity_view, ActivityItem, PullRequest};
use crate::directive::ReduceError;
use crate::model::{initial, reduce};
use crate::state::PullRequestState;
use crate::urls::{pull_request_url, RepositoryURLs, UrlsView};
use vstd::prelude::*;

verus! {

/// Why there is no review state for a pull request.
#[derive(Debug, PartialEq, Eq)]
pub enum ProcessingError {
    /// The page at `url` could not be fetched.
    Transport { url: String, reason: String },
    /// The page at `url` is not a page of the listing that was asked for.
    Decoding { url: String, reason: String },
    /// The activity does not reduce to a review state.
    Reducer(ReduceError),
}

/// What came of reviewing one pull request.
#[derive(Debug, PartialEq, Eq)]
pub enum PullRequestProcessing {
    /// Its review state.
    Success(PullRequestState),
    /// The pull request and why it has no review state.
    Failure(PullRequest, ProcessingError),
}

/// The entries of `activity` in the opposite order.
pub fn chronological(activity: Vec<ActivityItem>) -> (r: Vec<ActivityItem>)
    ensures
        r@ == activity@.reverse(),
{
    let mut rest = activity;
    let mut out: Vec<ActivityItem> = Vec::new();
    while rest.len() > 0
        invariant
            rest@.len() <= activity@.len(),
            rest@ == activity@.take(rest@.len() as int),
            out@ == activity@.reverse().take(activity@.len() - rest@.len()),
        decreases rest@.len(),
    {
        let ghost n = rest@.len();
        match rest.pop() {
            Some(item) => {
                out.push(item);
            },
            None => {},
        }
        proof {
            assert(rest@ =~= activity@.take(n - 1));
            assert(out@ =~= activity@.reverse().take(activity@.len() - n + 1));
        }
    }
    proof {
        assert(activity@.reverse().take(activity@.len() as int) =~= activity@.reverse());
    }
    out
}

/// The addresses of the pull request `id` of the repository at `urls`.
pub open spec fn pull_request_urls(urls: UrlsView, id: u32) -> UrlsView {
    UrlsView {
        api_url: pull_request_url(urls.api_url, id),
        web_url: pull_request_url(urls.web_url, id),
    }
}

/// Reviews the pull request `pr` of the repository at `urls`. `fetched` is
/// its activity as the service lists it, newest first, or the reason why it
/// could not be had. The review state is that of the activity taken oldest
/// first; a failure to fetch or to reduce is recorded with the pull request.
pub fn repo_pr(
    pr: PullRequest,
    urls: &RepositoryURLs,
    fetched: Result<Vec<ActivityItem>, ProcessingError>,
) -> (r: PullRequestProcessing)
    ensures
        match fetched {
            Err(e) => r == PullRequestProcessing::Failure(pr, e),
            Ok(activity) => match reduce(
                initial(pr@, pull_request_urls(urls@, pr.id)),
                activity_view(activity@.reverse()),
            ) {
                Ok(state) => r matches PullRequestProcessing::Success(found) && found@ == state
                    && found.wf(),
                Err(e) => r == PullRequestProcessing::Failure(pr, ProcessingError::Reducer(e)),
            },
        },
{
    let activity = match fetched {
        Ok(activity) => activity,
        Err(e) => {
            return PullRequestProcessing::Failure(pr, e);
        },
    };
    let kept = pr.clone();
    let urls = urls.with_id(pr.id);
    match PullRequestState::from_activity(pr, chronological(activity), urls) {
        Ok(state) => PullRequestProcessing::Success(state),
        Err(e) => PullRequestProcessing::Failure(kept, ProcessingError::Reducer(e)),
    }
}

} // verus!
