//! The review state of a pull request, computed from its activity log.
use crate::bitbucket::{activity_view, ActivityItem, Comment, PullRequest};
use crate::directive::{Directive, ReduceError};
use crate::labels::LabelSet;
use crate::laws::{
    is_participant, last_pushed, lemma_current_hash_is_last_pushed, lemma_participants_are_named,
    lemma_votes_carry_current_hash, votes_are_current,
};
use crate::model::{
    initial, lemma_reduce_error_is_final, on_commands, on_comment, on_directive, on_line, on_lines,
    on_update, on_vote, reduce, step, with_answers, with_row, StateView,
};
use crate::review::{ReviewMap, ReviewStatus};
use crate::text::{owned, str_eq};
use crate::tokens::{lines, split_lines, split_tokens, tokens};
use crate::urls::PullrequestIdURLs;
use vstd::prelude::*;

verus! {

/// The review state of one pull request: who said what about which commit,
/// and the labels.
#[derive(Debug, PartialEq, Eq)]
pub struct PullRequestState {
    /// What each participant currently says.
    pub review_status: ReviewMap,
    /// Where to find the pull request.
    pub urls: PullrequestIdURLs,
    /// The pull request.
    pub pr: PullRequest,
    /// The labels put on the pull request.
    pub labels: LabelSet,
    /// The commit pushed last, if any was pushed.
    pub current_hash: Option<String>,
}

impl View for PullRequestState {
    type V = StateView;

    open spec fn view(&self) -> StateView {
        StateView {
            pr: self.pr@,
            urls: self.urls@,
            review_status: self.review_status@,
            labels: self.labels@,
            current_hash: match self.current_hash {
                Some(hash) => Some(hash@),
                None => None,
            },
        }
    }
}

/// The view of a reduction: of the state if there is one, else the error.
pub open spec fn reduced(r: Result<PullRequestState, ReduceError>) -> Result<StateView, ReduceError> {
    match r {
        Ok(state) => Ok(state@),
        Err(e) => Err(e),
    }
}

/// What a change in place came to: the state `after` it, or the error.
pub open spec fn outcome(r: Result<(), ReduceError>, after: StateView) -> Result<
    StateView,
    ReduceError,
> {
    match r {
        Ok(_) => Ok(after),
        Err(e) => Err(e),
    }
}

impl PullRequestState {
    /// The review table and the label set are well-formed.
    pub open spec fn wf(&self) -> bool {
        self.review_status.wf() && self.labels.wf()
    }

    /// The state of the pull request `pr`, found at `urls`, before any
    /// activity.
    pub fn new(pr: PullRequest, urls: PullrequestIdURLs) -> (r: PullRequestState)
        ensures
            r.wf(),
            r@ == initial(pr@, urls@),
    {
        PullRequestState {
            review_status: ReviewMap::new(),
            urls,
            pr,
            labels: LabelSet::new(),
            current_hash: None,
        }
    }

    /// The review state of `pr` after `activity`, whose entries come oldest
    /// first.
    ///
    /// The state is the one that [`reduce`] defines, and so depends on
    /// nothing but what the arguments say. Where there is a state, its
    /// current commit is that of the last push, every vote that stands in it
    /// was cast on that commit, and its participants are the users who
    /// approved or wrote a top-level comment. Without activity the state is
    /// the initial one.
    pub fn from_activity(
        pr: PullRequest,
        activity: Vec<ActivityItem>,
        urls: PullrequestIdURLs,
    ) -> (r: Result<PullRequestState, ReduceError>)
        ensures
            reduced(r) == reduce(initial(pr@, urls@), activity_view(activity@)),
            activity@.len() == 0 ==> reduced(r) == Ok::<StateView, ReduceError>(
                initial(pr@, urls@),
            ),
            r matches Ok(state) ==> {
                &&& state.wf()
                &&& state@.current_hash == last_pushed(activity_view(activity@))
                &&& votes_are_current(state@)
                &&& forall|user: Seq<char>|
                    state@.review_status.dom().contains(user) <==> is_participant(
                        activity_view(activity@),
                        user,
                    )
            },
    {
        let ghost entries = activity_view(activity@);
        let ghost start = initial(pr@, urls@);
        let mut state = PullRequestState::new(pr, urls);
        let mut i: usize = 0;
        proof {
            assert(entries.take(0) =~= Seq::<crate::bitbucket::ActivityView>::empty());
        }
        while i < activity.len()
            invariant
                i <= activity@.len(),
                entries == activity_view(activity@),
                start == initial(pr@, urls@),
                state.wf(),
                reduce(start, entries.take(i as int)) == Ok::<StateView, ReduceError>(state@),
            decreases activity@.len() - i,
        {
            proof {
                assert(entries.take(i as int + 1).drop_last() =~= entries.take(i as int));
                assert(entries.take(i as int + 1).last() == activity@[i as int]@);
            }
            match state.step(&activity[i]) {
                Ok(next) => {
                    state = next;
                },
                Err(e) => {
                    proof {
                        lemma_reduce_error_is_final(start, entries, i as int + 1);
                    }
                    return Err(e);
                },
            }
            i += 1;
        }
        proof {
            assert(entries.take(activity@.len() as int) =~= entries);
            lemma_current_hash_is_last_pushed(pr@, urls@, entries);
            lemma_votes_carry_current_hash(pr@, urls@, entries);
            lemma_participants_are_named(pr@, urls@, entries);
        }
        Ok(state)
    }

    /// The state after one more entry of the activity log.
    pub fn step(self, item: &ActivityItem) -> (r: Result<PullRequestState, ReduceError>)
        requires
            self.wf(),
        ensures
            reduced(r) == step(self@, item@),
            r matches Ok(state) ==> state.wf(),
    {
        let mut state = self;
        let done = match item {
            ActivityItem::Update { update } => {
                state.push(update.source.commit.hash.as_str());
                Ok(())
            },
            ActivityItem::Approval { approval } => state.vote(approval.user.username.as_str(), 1),
            ActivityItem::Comment { comment } => state.comment(comment),
        };
        match done {
            Ok(()) => Ok(state),
            Err(e) => Err(e),
        }
    }

    /// Takes in a push of the commit `hash`.
    fn push(&mut self, hash: &str)
        requires
            old(self).wf(),
        ensures
            final(self).wf(),
            final(self)@ == on_update(old(self)@, hash@),
    {
        self.current_hash = Some(owned(hash));
        self.review_status.invalidate_votes();
    }

    /// Takes in the vote `vote` of `user`.
    fn vote(&mut self, user: &str, vote: i32) -> (r: Result<(), ReduceError>)
        requires
            old(self).wf(),
        ensures
            final(self).wf(),
            outcome(r, final(self)@) == on_vote(old(self)@, user@, vote),
    {
        let vote_hash = match &self.current_hash {
            Some(hash) => hash.clone(),
            None => {
                return Err(ReduceError::NoCurrentCommit);
            },
        };
        self.review_status.set(user, ReviewStatus::Voted { vote, vote_hash });
        Ok(())
    }

    /// Takes in the command `d` of `user`.
    fn directive(&mut self, user: &str, d: Directive) -> (r: Result<(), ReduceError>)
        requires
            old(self).wf(),
        ensures
            final(self).wf(),
            outcome(r, final(self)@) == on_directive(old(self)@, user@, d@),
    {
        match d {
            Directive::Vote { vote } => self.vote(user, vote),
            Directive::Rfc => Ok(()),
            Directive::WillRevote => {
                let voted = match self.review_status.get(user) {
                    Some(status) => status.remembered_vote(),
                    None => None,
                };
                self.review_status.set(user, ReviewStatus::WantsToReviewAgain { voted });
                Ok(())
            },
            Directive::AddLabel { label } => {
                self.labels.insert(label.as_str());
                Ok(())
            },
            Directive::RemoveLabel { label } => {
                self.labels.remove(label.as_str());
                Ok(())
            },
            Directive::Unrecognized => Ok(()),
        }
    }

    /// Takes in the commands `tokens[first..]` of `user`.
    fn commands(&mut self, user: &str, tokens: &Vec<String>, first: usize) -> (r: Result<
        (),
        ReduceError,
    >)
        requires
            old(self).wf(),
        ensures
            final(self).wf(),
            outcome(r, final(self)@) == on_commands(
                old(self)@,
                user@,
                tokens.deep_view(),
                first as int,
            ),
    {
        let ghost start = self@;
        let ghost words = tokens.deep_view();
        let mut i: usize = first;
        while i < tokens.len()
            invariant
                self.wf(),
                start == old(self)@,
                words == tokens.deep_view(),
                on_commands(start, user@, words, first as int) == on_commands(
                    self@,
                    user@,
                    words,
                    i as int,
                ),
            decreases tokens@.len() - i,
        {
            proof {
                assert(words[i as int] == tokens@[i as int]@);
            }
            match Directive::of_token(tokens[i].as_str()) {
                Err(e) => {
                    return Err(e);
                },
                Ok(Directive::Rfc) => {
                    if i + 1 < tokens.len() {
                        proof {
                            assert(words[i as int + 1] == tokens@[i as int + 1]@);
                        }
                        let target = tokens[i + 1].clone();
                        self.review_status.set(user, ReviewStatus::RFC { user: target });
                        i += 2;
                    } else {
                        return Ok(());
                    }
                },
                Ok(d) => {
                    match self.directive(user, d) {
                        Ok(()) => {},
                        Err(e) => {
                            return Err(e);
                        },
                    }
                    i += 1;
                },
            }
        }
        Ok(())
    }

    /// Takes in one line of a top-level comment by `user`.
    fn line(&mut self, user: &str, line: &str) -> (r: Result<(), ReduceError>)
        requires
            old(self).wf(),
        ensures
            final(self).wf(),
            outcome(r, final(self)@) == on_line(old(self)@, user@, line@),
    {
        let words = split_tokens(line);
        if words.len() > 0 && str_eq(words[0].as_str(), "!g") {
            proof {
                assert(words.deep_view()[0] == words@[0]@);
            }
            self.commands(user, &words, 1)
        } else {
            proof {
                if words@.len() > 0 {
                    assert(words.deep_view()[0] == words@[0]@);
                }
            }
            Ok(())
        }
    }

    /// Takes in a comment.
    fn comment(&mut self, comment: &Comment) -> (r: Result<(), ReduceError>)
        requires
            old(self).wf(),
        ensures
            final(self).wf(),
            outcome(r, final(self)@) == on_comment(
                old(self)@,
                comment.user.username@,
                match comment.parent {
                    Some(p) => Some(p.id),
                    None => None,
                },
                comment.content.raw@,
            ),
    {
        let user = comment.user.username.as_str();
        self.review_status.answer_requests(user);
        if !comment.is_top_level() {
            return Ok(());
        }
        self.review_status.ensure(user);
        let ghost start = self@;
        let all = split_lines(comment.content.raw.as_str());
        let ghost texts = all.deep_view();
        let mut i: usize = 0;
        while i < all.len()
            invariant
                self.wf(),
                texts == all.deep_view(),
                texts == lines(comment.content.raw@),
                user@ == comment.user.username@,
                comment.parent is None,
                start == with_row(with_answers(old(self)@, user@), user@),
                on_lines(start, user@, texts, 0) == on_lines(self@, user@, texts, i as int),
            decreases all@.len() - i,
        {
            proof {
                assert(texts[i as int] == all@[i as int]@);
            }
            match self.line(user, all[i].as_str()) {
                Ok(()) => {},
                Err(e) => {
                    return Err(e);
                },
            }
            i += 1;
        }
        Ok(())
    }
}

} // verus!
