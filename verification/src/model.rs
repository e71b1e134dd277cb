//! The review state of a pull request as a mathematical value, and the rules
//! by which the entries of the activity log change it.
//!
//! The entries are taken oldest first. A push makes its commit the current
//! one and outdates the votes cast before it. An approval is a vote of +1 on
//! the current commit. A comment answers the requests for comment addressed
//! to its author; a top-level comment also gives its author a row in the
//! review table and carries commands: on each of its lines that starts with
//! the token `!g`, every further token is one.
use crate::bitbucket::{ActivityView, PullRequestView};
use crate::directive::{classify, DirectiveView, ReduceError};
use crate::review::{answered, outdated, remembered_vote, ReviewStatusView};
use crate::tokens::{lines, tokens};
use crate::urls::UrlsView;
use vstd::prelude::*;

verus! {

/// The review state of a pull request.
#[verifier::ext_equal]
pub struct StateView {
    /// The pull request that is reviewed.
    pub pr: PullRequestView,
    /// Where to find it.
    pub urls: UrlsView,
    /// What each participant currently says.
    pub review_status: Map<Seq<char>, ReviewStatusView>,
    /// The labels put on the pull request.
    pub labels: Set<Seq<char>>,
    /// The commit pushed last, if any was pushed.
    pub current_hash: Option<Seq<char>>,
}

/// The token that makes a line of a comment a line of commands.
pub open spec fn command_marker() -> Seq<char> {
    "!g"@
}

/// The state before any activity: no participant, no label, no commit.
pub open spec fn initial(pr: PullRequestView, urls: UrlsView) -> StateView {
    StateView {
        pr,
        urls,
        review_status: Map::empty(),
        labels: Set::empty(),
        current_hash: None,
    }
}

/// The status of `user` in `s`: `NoReview` for one who has no row.
pub open spec fn status_of(s: StateView, user: Seq<char>) -> ReviewStatusView {
    if s.review_status.dom().contains(user) {
        s.review_status[user]
    } else {
        ReviewStatusView::NoReview
    }
}

/// `s` with the status of `user` replaced by `status`.
pub open spec fn with_status(s: StateView, user: Seq<char>, status: ReviewStatusView) -> StateView {
    StateView { review_status: s.review_status.insert(user, status), ..s }
}

/// The state after a push of the commit `hash`.
pub open spec fn on_update(s: StateView, hash: Seq<char>) -> StateView {
    StateView {
        review_status: s.review_status.map_values(|st: ReviewStatusView| outdated(st)),
        current_hash: Some(hash),
        ..s
    }
}

/// The state after `user` has cast the vote `vote`: a vote on the current
/// commit, which there has to be.
pub open spec fn on_vote(s: StateView, user: Seq<char>, vote: i32) -> Result<StateView, ReduceError> {
    match s.current_hash {
        Some(vote_hash) => Ok(with_status(s, user, ReviewStatusView::Voted { vote, vote_hash })),
        None => Err(ReduceError::NoCurrentCommit),
    }
}

/// The state after an approval by `user`: a vote of +1.
pub open spec fn on_approval(s: StateView, user: Seq<char>) -> Result<StateView, ReduceError> {
    on_vote(s, user, 1)
}

/// The state after `user` has asked for the comment of `target`.
pub open spec fn on_request(s: StateView, user: Seq<char>, target: Seq<char>) -> StateView {
    with_status(s, user, ReviewStatusView::RFC { user: target })
}

/// The state after the command `d` of `user`. A request for comment is
/// taken here without its target, and changes nothing.
pub open spec fn on_directive(s: StateView, user: Seq<char>, d: DirectiveView) -> Result<
    StateView,
    ReduceError,
> {
    match d {
        DirectiveView::Vote { vote } => on_vote(s, user, vote),
        DirectiveView::Rfc => Ok(s),
        DirectiveView::WillRevote => Ok(
            with_status(
                s,
                user,
                ReviewStatusView::WantsToReviewAgain {
                    voted: remembered_vote(status_of(s, user)),
                },
            ),
        ),
        DirectiveView::AddLabel { label } => Ok(StateView { labels: s.labels.insert(label), ..s }),
        DirectiveView::RemoveLabel { label } => Ok(
            StateView { labels: s.labels.remove(label), ..s },
        ),
        DirectiveView::Unrecognized => Ok(s),
    }
}

/// The state after the commands `tokens[from..]` of `user`, taken in order.
/// The token `rfc` takes the token after it as the user to wait for; where
/// it is the last token, it asks for nothing. The first command that fails
/// ends the run.
pub open spec fn on_commands(
    s: StateView,
    user: Seq<char>,
    tokens: Seq<Seq<char>>,
    from: int,
) -> Result<StateView, ReduceError>
    decreases tokens.len() - from,
{
    if from < 0 || from >= tokens.len() {
        Ok(s)
    } else {
        match classify(tokens[from]) {
            Err(e) => Err(e),
            Ok(DirectiveView::Rfc) => if from + 1 < tokens.len() {
                on_commands(on_request(s, user, tokens[from + 1]), user, tokens, from + 2)
            } else {
                Ok(s)
            },
            Ok(d) => match on_directive(s, user, d) {
                Err(e) => Err(e),
                Ok(next) => on_commands(next, user, tokens, from + 1),
            },
        }
    }
}

/// The state after one line of a top-level comment by `user`: the line
/// counts only if its first token is the marker `!g`, and then the tokens after
/// it are its commands.
pub open spec fn on_line(s: StateView, user: Seq<char>, line: Seq<char>) -> Result<
    StateView,
    ReduceError,
> {
    let words = tokens(line);
    if words.len() > 0 && words[0] == command_marker() {
        on_commands(s, user, words, 1)
    } else {
        Ok(s)
    }
}

/// The state after the lines `lines[from..]` of a top-level comment by
/// `user`, taken in order up to the first that fails.
pub open spec fn on_lines(
    s: StateView,
    user: Seq<char>,
    lines: Seq<Seq<char>>,
    from: int,
) -> Result<StateView, ReduceError>
    decreases lines.len() - from,
{
    if from < 0 || from >= lines.len() {
        Ok(s)
    } else {
        match on_line(s, user, lines[from]) {
            Err(e) => Err(e),
            Ok(next) => on_lines(next, user, lines, from + 1),
        }
    }
}

/// `s` with every request for the comment of `author` answered.
pub open spec fn with_answers(s: StateView, author: Seq<char>) -> StateView {
    StateView {
        review_status: s.review_status.map_values(|st: ReviewStatusView| answered(st, author)),
        ..s
    }
}

/// `s` with a row for `user`: the row there is, or else a new one with
/// `NoReview`.
pub open spec fn with_row(s: StateView, user: Seq<char>) -> StateView {
    if s.review_status.dom().contains(user) {
        s
    } else {
        with_status(s, user, ReviewStatusView::NoReview)
    }
}

/// The state after a comment by `user` with the text `raw`. Every comment
/// answers the requests addressed to its author. A reply does nothing else;
/// a top-level comment gives its author a row and runs its commands.
pub open spec fn on_comment(
    s: StateView,
    user: Seq<char>,
    parent: Option<u32>,
    raw: Seq<char>,
) -> Result<StateView, ReduceError> {
    let swept = with_answers(s, user);
    if parent is Some {
        Ok(swept)
    } else {
        on_lines(with_row(swept, user), user, lines(raw), 0)
    }
}

/// The state after one entry of the activity log.
pub open spec fn step(s: StateView, entry: ActivityView) -> Result<StateView, ReduceError> {
    match entry {
        ActivityView::Update { source_commit_hash } => Ok(on_update(s, source_commit_hash)),
        ActivityView::Approval { user_username } => on_approval(s, user_username),
        ActivityView::Comment { id, parent, content_raw, user_username } => on_comment(
            s,
            user_username,
            parent,
            content_raw,
        ),
    }
}

/// The state after the entries `activity`, oldest first, starting from `s`.
/// The first entry that fails fails the whole.
pub open spec fn reduce(s: StateView, activity: Seq<ActivityView>) -> Result<StateView, ReduceError>
    decreases activity.len(),
{
    if activity.len() == 0 {
        Ok(s)
    } else {
        match reduce(s, activity.drop_last()) {
            Err(e) => Err(e),
            Ok(before) => step(before, activity.last()),
        }
    }
}

/// An error is final: when a beginning of the activity fails, the whole
/// fails in the same way.
pub proof fn lemma_reduce_error_is_final(s: StateView, activity: Seq<ActivityView>, k: int)
    requires
        0 <= k <= activity.len(),
        reduce(s, activity.take(k)) is Err,
    ensures
        reduce(s, activity) == reduce(s, activity.take(k)),
    decreases activity.len() - k,
{
    if k == activity.len() {
        assert(activity.take(k) =~= activity);
    } else {
        assert(activity.take(k + 1).drop_last() =~= activity.take(k));
        lemma_reduce_error_is_final(s, activity, k + 1);
    }
}

} // verus!
