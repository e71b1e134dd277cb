//! What holds of every review state that the activity of a pull request
//! leads to.
use crate::bitbucket::{activity_view, ActivityItem, ActivityView, PullRequest, PullRequestView};
use crate::directive::{classify, DirectiveView, ReduceError};
use crate::model::{
    command_marker, initial, lemma_reduce_error_is_final, on_commands, on_directive, on_line,
    on_lines, on_request, reduce, step, with_answers, with_row, StateView,
};
use crate::review::{answered, ReviewStatusView};
use crate::tokens::{lines, tokens};
use crate::urls::{PullrequestIdURLs, UrlsView};
use vstd::prelude::*;

verus! {

/// Every vote that stands was cast on the current commit.
pub open spec fn votes_are_current(s: StateView) -> bool {
    forall|user: Seq<char>| #[trigger]
        s.review_status.dom().contains(user) ==> (s.review_status[user] matches ReviewStatusView::Voted {
            vote_hash,
            ..
        } ==> s.current_hash == Some(vote_hash))
}

/// The commit of the last push in `activity`, if there is a push.
pub open spec fn last_pushed(activity: Seq<ActivityView>) -> Option<Seq<char>>
    decreases activity.len(),
{
    if activity.len() == 0 {
        None
    } else {
        match activity.last() {
            ActivityView::Update { source_commit_hash } => Some(source_commit_hash),
            _ => last_pushed(activity.drop_last()),
        }
    }
}

/// Whether `entry` makes `user` a participant: an approval by `user`, or a
/// top-level comment by `user`.
pub open spec fn names_participant(entry: ActivityView, user: Seq<char>) -> bool {
    match entry {
        ActivityView::Approval { user_username } => user_username == user,
        ActivityView::Comment { parent, user_username, .. } => parent is None && user_username
            == user,
        ActivityView::Update { .. } => false,
    }
}

/// Whether some entry of `activity` makes `user` a participant.
pub open spec fn is_participant(activity: Seq<ActivityView>, user: Seq<char>) -> bool {
    exists|i: int| 0 <= i < activity.len() && names_participant(#[trigger] activity[i], user)
}

/// `t` differs from `s` at most in the labels and in the row of `user`,
/// which `t` has.
pub open spec fn differs_in_row(s: StateView, t: StateView, user: Seq<char>) -> bool {
    &&& t.pr == s.pr
    &&& t.urls == s.urls
    &&& t.current_hash == s.current_hash
    &&& t.review_status.dom() == s.review_status.dom().insert(user)
    &&& forall|other: Seq<char>|
        other != user && #[trigger] s.review_status.dom().contains(other) ==> t.review_status[other]
            == s.review_status[other]
}

/// A command of `user` changes at most the labels and the row of `user`,
/// and leaves every standing vote a vote on the current commit.
pub proof fn lemma_directive_frame(s: StateView, user: Seq<char>, d: DirectiveView)
    requires
        s.review_status.dom().contains(user),
        on_directive(s, user, d) is Ok,
    ensures
        differs_in_row(s, on_directive(s, user, d)->Ok_0, user),
        votes_are_current(s) ==> votes_are_current(on_directive(s, user, d)->Ok_0),
{
    let t = on_directive(s, user, d)->Ok_0;
    assert(t.review_status.dom() =~= s.review_status.dom().insert(user));
}

/// The commands of one comment change at most the labels and the row of
/// their author, and leave every standing vote a vote on the current commit.
pub proof fn lemma_commands_frame(s: StateView, user: Seq<char>, tokens: Seq<Seq<char>>, from: int)
    requires
        s.review_status.dom().contains(user),
        on_commands(s, user, tokens, from) is Ok,
    ensures
        differs_in_row(s, on_commands(s, user, tokens, from)->Ok_0, user),
        votes_are_current(s) ==> votes_are_current(on_commands(s, user, tokens, from)->Ok_0),
    decreases tokens.len() - from,
{
    if from < 0 || from >= tokens.len() {
        assert(s.review_status.dom() =~= s.review_status.dom().insert(user));
    } else {
        match classify(tokens[from]) {
            Err(e) => {},
            Ok(DirectiveView::Rfc) => {
                if from + 1 < tokens.len() {
                    let mid = on_request(s, user, tokens[from + 1]);
                    assert(mid.review_status.dom() =~= s.review_status.dom().insert(user));
                    lemma_commands_frame(mid, user, tokens, from + 2);
                    let t = on_commands(mid, user, tokens, from + 2)->Ok_0;
                    assert(t.review_status.dom() =~= s.review_status.dom().insert(user));
                } else {
                    assert(s.review_status.dom() =~= s.review_status.dom().insert(user));
                }
            },
            Ok(d) => {
                lemma_directive_frame(s, user, d);
                let mid = on_directive(s, user, d)->Ok_0;
                lemma_commands_frame(mid, user, tokens, from + 1);
                let t = on_commands(mid, user, tokens, from + 1)->Ok_0;
                assert(t.review_status.dom() =~= s.review_status.dom().insert(user));
            },
        }
    }
}

/// The lines of one comment change at most the labels and the row of their
/// author, and leave every standing vote a vote on the current commit.
pub proof fn lemma_lines_frame(s: StateView, user: Seq<char>, lines: Seq<Seq<char>>, from: int)
    requires
        s.review_status.dom().contains(user),
        on_lines(s, user, lines, from) is Ok,
    ensures
        differs_in_row(s, on_lines(s, user, lines, from)->Ok_0, user),
        votes_are_current(s) ==> votes_are_current(on_lines(s, user, lines, from)->Ok_0),
    decreases lines.len() - from,
{
    if from < 0 || from >= lines.len() {
        assert(s.review_status.dom() =~= s.review_status.dom().insert(user));
    } else {
        let words = tokens(lines[from]);
        let mid = on_line(s, user, lines[from])->Ok_0;
        if words.len() > 0 && words[0] == command_marker() {
            lemma_commands_frame(s, user, words, 1);
        } else {
            assert(s.review_status.dom() =~= s.review_status.dom().insert(user));
        }
        assert(mid.review_status.dom().contains(user));
        lemma_lines_frame(mid, user, lines, from + 1);
        let t = on_lines(mid, user, lines, from + 1)->Ok_0;
        assert(t.review_status.dom() =~= s.review_status.dom().insert(user));
        assert forall|other: Seq<char>|
            other != user && #[trigger] s.review_status.dom().contains(
                other,
            ) implies t.review_status[other] == s.review_status[other] by {
            assert(mid.review_status.dom().contains(other));
        }
    }
}

/// What one entry of the activity log does to the commit, the participants and
/// the votes: only a push changes the current commit; only an approval or a
/// top-level comment adds a participant, namely its author; and after it every
/// standing vote is a vote on the current commit if that was so before.
pub proof fn lemma_step_frame(s: StateView, entry: ActivityView)
    requires
        step(s, entry) is Ok,
    ensures
        step(s, entry)->Ok_0.pr == s.pr,
        step(s, entry)->Ok_0.urls == s.urls,
        step(s, entry)->Ok_0.current_hash == match entry {
            ActivityView::Update { source_commit_hash } => Some(source_commit_hash),
            _ => s.current_hash,
        },
        forall|user: Seq<char>|
            step(s, entry)->Ok_0.review_status.dom().contains(user) <==> s.review_status.dom().contains(
                user,
            ) || names_participant(entry, user),
        votes_are_current(s) ==> votes_are_current(step(s, entry)->Ok_0),
{
    let t = step(s, entry)->Ok_0;
    match entry {
        ActivityView::Update { source_commit_hash } => {
            assert(t.review_status.dom() =~= s.review_status.dom());
        },
        ActivityView::Approval { user_username } => {},
        ActivityView::Comment { id, parent, content_raw, user_username } => {
            let swept = with_answers(s, user_username);
            assert(swept.review_status.dom() =~= s.review_status.dom());
            assert(votes_are_current(s) ==> votes_are_current(swept));
            if parent is None {
                let opened = with_row(swept, user_username);
                assert(votes_are_current(swept) ==> votes_are_current(opened));
                lemma_lines_frame(opened, user_username, lines(content_raw), 0);
            }
        },
    }
}

/// Every vote that stands after the activity was cast on the commit that is
/// current then, which is the commit of the last push: a push outdates the
/// votes before it, so a vote that still stands came after the last push
/// and carries its commit.
pub proof fn lemma_votes_carry_current_hash(
    pr: PullRequestView,
    urls: UrlsView,
    activity: Seq<ActivityView>,
)
    requires
        reduce(initial(pr, urls), activity) is Ok,
    ensures
        votes_are_current(reduce(initial(pr, urls), activity)->Ok_0),
        forall|user: Seq<char>| #[trigger]
            reduce(initial(pr, urls), activity)->Ok_0.review_status.dom().contains(user) ==> (reduce(
                initial(pr, urls),
                activity,
            )->Ok_0.review_status[user] matches ReviewStatusView::Voted { vote_hash, .. }
                ==> last_pushed(activity) == Some(vote_hash)),
    decreases activity.len(),
{
    lemma_current_hash_is_last_pushed(pr, urls, activity);
    if activity.len() > 0 {
        lemma_votes_carry_current_hash(pr, urls, activity.drop_last());
        let before = reduce(initial(pr, urls), activity.drop_last())->Ok_0;
        lemma_step_frame(before, activity.last());
    }
}

/// The current commit after the activity is the commit of its last push,
/// and there is none if nothing was pushed.
pub proof fn lemma_current_hash_is_last_pushed(
    pr: PullRequestView,
    urls: UrlsView,
    activity: Seq<ActivityView>,
)
    requires
        reduce(initial(pr, urls), activity) is Ok,
    ensures
        reduce(initial(pr, urls), activity)->Ok_0.current_hash == last_pushed(activity),
    decreases activity.len(),
{
    if activity.len() > 0 {
        lemma_current_hash_is_last_pushed(pr, urls, activity.drop_last());
        let before = reduce(initial(pr, urls), activity.drop_last())->Ok_0;
        lemma_step_frame(before, activity.last());
    }
}

/// The participants in the table after the activity are exactly the users who
/// gave an approval or wrote a top-level comment.
pub proof fn lemma_participants_are_named(
    pr: PullRequestView,
    urls: UrlsView,
    activity: Seq<ActivityView>,
)
    requires
        reduce(initial(pr, urls), activity) is Ok,
    ensures
        forall|user: Seq<char>|
            reduce(initial(pr, urls), activity)->Ok_0.review_status.dom().contains(user)
                <==> is_participant(activity, user),
    decreases activity.len(),
{
    let after = reduce(initial(pr, urls), activity)->Ok_0;
    if activity.len() > 0 {
        let rest = activity.drop_last();
        lemma_participants_are_named(pr, urls, rest);
        let before = reduce(initial(pr, urls), rest)->Ok_0;
        lemma_step_frame(before, activity.last());
        assert forall|user: Seq<char>|
            after.review_status.dom().contains(user) <==> is_participant(activity, user) by {
            if is_participant(rest, user) {
                let i = choose|i: int| 0 <= i < rest.len() && names_participant(#[trigger] rest[i], user);
                assert(activity[i] == rest[i]);
            }
            if names_participant(activity.last(), user) {
                assert(activity[activity.len() - 1] == activity.last());
            }
            if is_participant(activity, user) {
                let i = choose|i: int|
                    0 <= i < activity.len() && names_participant(#[trigger] activity[i], user);
                if i < rest.len() {
                    assert(rest[i] == activity[i]);
                }
            }
        }
    }
}

/// A reply touches nothing but the requests for comment addressed to its
/// author, which it answers: the table keeps its participants, every other
/// status stands, and the labels and the current commit are as before.
pub proof fn lemma_reply_only_answers(
    s: StateView,
    id: u32,
    parent: u32,
    raw: Seq<char>,
    author: Seq<char>,
)
    ensures
        step(
            s,
            ActivityView::Comment {
                id,
                parent: Some(parent),
                content_raw: raw,
                user_username: author,
            },
        ) == Ok::<StateView, ReduceError>(with_answers(s, author)),
        with_answers(s, author).review_status.dom() == s.review_status.dom(),
        forall|user: Seq<char>| #[trigger]
            s.review_status.dom().contains(user) ==> with_answers(s, author).review_status[user]
                == answered(s.review_status[user], author),
        with_answers(s, author).labels == s.labels,
        with_answers(s, author).current_hash == s.current_hash,
{
    assert(with_answers(s, author).review_status.dom() =~= s.review_status.dom());
}

/// What the reduction returns depends on nothing but what the pull request,
/// its addresses and the entries of the activity say.
pub proof fn lemma_reduce_is_a_function_of_views(
    pr_a: PullRequest,
    urls_a: PullrequestIdURLs,
    activity_a: Seq<ActivityItem>,
    pr_b: PullRequest,
    urls_b: PullrequestIdURLs,
    activity_b: Seq<ActivityItem>,
)
    requires
        pr_a@ == pr_b@,
        urls_a@ == urls_b@,
        activity_a.len() == activity_b.len(),
        forall|i: int| 0 <= i < activity_a.len() ==> activity_a[i]@ == activity_b[i]@,
    ensures
        reduce(initial(pr_a@, urls_a@), activity_view(activity_a)) == reduce(
            initial(pr_b@, urls_b@),
            activity_view(activity_b),
        ),
{
    assert(activity_view(activity_a) =~= activity_view(activity_b));
}

/// A label that is added twice is there once: the second `+label` changes
/// nothing, wherever it comes.
pub proof fn lemma_label_added_twice(s: StateView, user: Seq<char>, label: Seq<char>)
    ensures
        on_directive(s, user, DirectiveView::AddLabel { label }) is Ok,
        on_directive(s, user, DirectiveView::AddLabel { label })->Ok_0.labels == s.labels.insert(
            label,
        ),
        on_directive(
            on_directive(s, user, DirectiveView::AddLabel { label })->Ok_0,
            user,
            DirectiveView::AddLabel { label },
        ) == on_directive(s, user, DirectiveView::AddLabel { label }),
        s.labels.contains(label) ==> on_directive(s, user, DirectiveView::AddLabel { label })
            == Ok::<StateView, ReduceError>(s),
{
    let once = on_directive(s, user, DirectiveView::AddLabel { label })->Ok_0;
    let twice = on_directive(once, user, DirectiveView::AddLabel { label })->Ok_0;
    assert(once.labels.insert(label) =~= once.labels);
    assert(twice =~= once);
    if s.labels.contains(label) {
        assert(s.labels.insert(label) =~= s.labels);
        assert(once =~= s);
    }
}

/// A label that is not there can be removed any number of times: `-label`
/// then changes nothing.
pub proof fn lemma_absent_label_removed(s: StateView, user: Seq<char>, label: Seq<char>)
    requires
        !s.labels.contains(label),
    ensures
        on_directive(s, user, DirectiveView::RemoveLabel { label }) == Ok::<StateView, ReduceError>(
            s,
        ),
{
    let after = on_directive(s, user, DirectiveView::RemoveLabel { label })->Ok_0;
    assert(s.labels.remove(label) =~= s.labels);
    assert(after =~= s);
}

/// The same `+label` command given twice in a row comes to what it comes to
/// given once.
pub proof fn lemma_repeated_label_command(
    s: StateView,
    user: Seq<char>,
    token: Seq<char>,
    label: Seq<char>,
)
    requires
        classify(token) == Ok::<DirectiveView, ReduceError>(DirectiveView::AddLabel { label }),
    ensures
        on_commands(s, user, seq![token, token], 0) == on_commands(s, user, seq![token], 0),
        on_commands(s, user, seq![token], 0) == Ok::<StateView, ReduceError>(
            StateView { labels: s.labels.insert(label), ..s },
        ),
{
    let once = StateView { labels: s.labels.insert(label), ..s };
    lemma_label_added_twice(s, user, label);
    let one = seq![token];
    let two = seq![token, token];
    assert(on_commands(once, user, one, 1) == Ok::<StateView, ReduceError>(once));
    assert(on_commands(s, user, one, 0) == Ok::<StateView, ReduceError>(once));
    assert(on_commands(once, user, two, 2) == Ok::<StateView, ReduceError>(once));
    assert(on_directive(once, user, DirectiveView::AddLabel { label }) == Ok::<
        StateView,
        ReduceError,
    >(once));
    assert(on_commands(once, user, two, 1) == Ok::<StateView, ReduceError>(once));
    assert(on_commands(s, user, two, 0) == Ok::<StateView, ReduceError>(once));
}

/// No activity, no review: the state is the initial one, with no participant,
/// no label and no commit.
pub proof fn lemma_no_activity(pr: PullRequestView, urls: UrlsView)
    ensures
        reduce(initial(pr, urls), Seq::empty()) == Ok::<StateView, ReduceError>(initial(pr, urls)),
        initial(pr, urls).review_status == Map::<Seq<char>, ReviewStatusView>::empty(),
        initial(pr, urls).labels == Set::<Seq<char>>::empty(),
        initial(pr, urls).current_hash is None,
{
}

/// An approval that no push precedes fails the reduction; and where all the
/// activity before it went through, the failure is that there is no current
/// commit.
pub proof fn lemma_approval_before_push(
    pr: PullRequestView,
    urls: UrlsView,
    activity: Seq<ActivityView>,
    k: int,
)
    requires
        0 <= k < activity.len(),
        activity[k] is Approval,
        forall|j: int| 0 <= j < k ==> !(#[trigger] activity[j] is Update),
    ensures
        reduce(initial(pr, urls), activity) is Err,
        reduce(initial(pr, urls), activity.take(k)) is Ok ==> reduce(initial(pr, urls), activity)
            == Err::<StateView, ReduceError>(ReduceError::NoCurrentCommit),
{
    let before = activity.take(k);
    let upto = activity.take(k + 1);
    assert(upto.drop_last() =~= before);
    assert(upto.last() == activity[k]);
    if reduce(initial(pr, urls), before) is Ok {
        lemma_current_hash_is_last_pushed(pr, urls, before);
        lemma_no_push_no_commit(before);
        assert(reduce(initial(pr, urls), upto) == Err::<StateView, ReduceError>(
            ReduceError::NoCurrentCommit,
        ));
        lemma_reduce_error_is_final(initial(pr, urls), activity, k + 1);
    } else {
        lemma_reduce_error_is_final(initial(pr, urls), activity, k);
    }
}

/// Activity without a push has no last push.
pub proof fn lemma_no_push_no_commit(activity: Seq<ActivityView>)
    requires
        forall|j: int| 0 <= j < activity.len() ==> !(#[trigger] activity[j] is Update),
    ensures
        last_pushed(activity) is None,
    decreases activity.len(),
{
    if activity.len() > 0 {
        assert(!(activity[activity.len() - 1] is Update));
        assert forall|j: int| 0 <= j < activity.drop_last().len() implies !(
        #[trigger] activity.drop_last()[j] is Update) by {
            assert(activity.drop_last()[j] == activity[j]);
        }
        lemma_no_push_no_commit(activity.drop_last());
    }
}

/// The command `rfc` as the last token of its line asks for nothing: the
/// state stays as it is.
pub proof fn lemma_rfc_without_target(
    s: StateView,
    user: Seq<char>,
    tokens: Seq<Seq<char>>,
    at: int,
)
    requires
        0 <= at,
        at == tokens.len() - 1,
        classify(tokens[at]) == Ok::<DirectiveView, ReduceError>(DirectiveView::Rfc),
    ensures
        on_commands(s, user, tokens, at) == Ok::<StateView, ReduceError>(s),
{
}

} // verus!
