//! What a participant currently says about a pull request, and the table that
//! holds one such status for each participant.
use crate::text::{owned, str_eq};
use vstd::prelude::*;

verus! {

/// The standing of one participant.
#[allow(inconsistent_fields)]
#[derive(Debug, PartialEq, Eq)]
pub enum ReviewStatus {
    /// Commented, but neither voted nor asked for anything.
    NoReview,
    /// Voted `vote` on the commit `vote_hash`, which is still the head.
    Voted { vote: i32, vote_hash: String },
    /// Voted `voted` on the commit `vote_hash`; commits were pushed since.
    VoteNeedReevaluation { voted: i32, vote_hash: String },
    /// Announced a new vote; `voted` is the last vote cast, if any.
    WantsToReviewAgain { voted: Option<i32> },
    /// Waits for `user` to comment.
    RFC { user: String },
    /// Waited for `user`, who has commented since.
    RFCAnswered { user: String },
}

/// A status with its text as sequences of characters.
#[allow(inconsistent_fields)]
pub enum ReviewStatusView {
    NoReview,
    Voted { vote: i32, vote_hash: Seq<char> },
    VoteNeedReevaluation { voted: i32, vote_hash: Seq<char> },
    WantsToReviewAgain { voted: Option<i32> },
    RFC { user: Seq<char> },
    RFCAnswered { user: Seq<char> },
}

impl View for ReviewStatus {
    type V = ReviewStatusView;

    open spec fn view(&self) -> ReviewStatusView {
        match self {
            ReviewStatus::NoReview => ReviewStatusView::NoReview,
            ReviewStatus::Voted { vote, vote_hash } => ReviewStatusView::Voted {
                vote: *vote,
                vote_hash: vote_hash@,
            },
            ReviewStatus::VoteNeedReevaluation {
                voted,
                vote_hash,
            } => ReviewStatusView::VoteNeedReevaluation { voted: *voted, vote_hash: vote_hash@ },
            ReviewStatus::WantsToReviewAgain { voted } => ReviewStatusView::WantsToReviewAgain {
                voted: *voted,
            },
            ReviewStatus::RFC { user } => ReviewStatusView::RFC { user: user@ },
            ReviewStatus::RFCAnswered { user } => ReviewStatusView::RFCAnswered { user: user@ },
        }
    }
}

impl Clone for ReviewStatus {
    fn clone(&self) -> (r: Self)
        ensures
            r == *self,
    {
        match self {
            ReviewStatus::NoReview => ReviewStatus::NoReview,
            ReviewStatus::Voted { vote, vote_hash } => ReviewStatus::Voted {
                vote: *vote,
                vote_hash: vote_hash.clone(),
            },
            ReviewStatus::VoteNeedReevaluation { voted, vote_hash } => {
                ReviewStatus::VoteNeedReevaluation { voted: *voted, vote_hash: vote_hash.clone() }
            },
            ReviewStatus::WantsToReviewAgain { voted } => ReviewStatus::WantsToReviewAgain {
                voted: *voted,
            },
            ReviewStatus::RFC { user } => ReviewStatus::RFC { user: user.clone() },
            ReviewStatus::RFCAnswered { user } => ReviewStatus::RFCAnswered { user: user.clone() },
        }
    }
}

/// What a push makes of a status: a vote on the old head has to be looked at
/// again, everything else stands.
pub open spec fn outdated(s: ReviewStatusView) -> ReviewStatusView {
    match s {
        ReviewStatusView::Voted { vote, vote_hash } => ReviewStatusView::VoteNeedReevaluation {
            voted: vote,
            vote_hash,
        },
        _ => s,
    }
}

/// What a comment by `author` makes of a status: a request for comment
/// addressed to `author` is answered, everything else stands.
pub open spec fn answered(s: ReviewStatusView, author: Seq<char>) -> ReviewStatusView {
    match s {
        ReviewStatusView::RFC { user } => if user == author {
            ReviewStatusView::RFCAnswered { user }
        } else {
            s
        },
        _ => s,
    }
}

/// The vote that a status remembers, if any.
pub open spec fn remembered_vote(s: ReviewStatusView) -> Option<i32> {
    match s {
        ReviewStatusView::WantsToReviewAgain { voted } => voted,
        ReviewStatusView::Voted { vote, .. } => Some(vote),
        ReviewStatusView::VoteNeedReevaluation { voted, .. } => Some(voted),
        _ => None,
    }
}

impl ReviewStatus {
    /// The vote that the status remembers, if any.
    pub fn remembered_vote(&self) -> (r: Option<i32>)
        ensures
            r == remembered_vote(self@),
    {
        match self {
            ReviewStatus::WantsToReviewAgain { voted } => *voted,
            ReviewStatus::Voted { vote, .. } => Some(*vote),
            ReviewStatus::VoteNeedReevaluation { voted, .. } => Some(*voted),
            _ => None,
        }
    }
}

/// One row of the review table.
#[derive(Debug, PartialEq, Eq)]
pub struct ReviewEntry {
    pub user: String,
    pub status: ReviewStatus,
}

/// The review table: one status for each participant, in the order in which the
/// participants first appeared. No participant has two rows.
#[derive(Debug, PartialEq, Eq)]
pub struct ReviewMap {
    entries: Vec<ReviewEntry>,
}

impl View for ReviewMap {
    type V = Map<Seq<char>, ReviewStatusView>;

    closed spec fn view(&self) -> Map<Seq<char>, ReviewStatusView> {
        Map::new(
            |k: Seq<char>| self.users().contains(k),
            |k: Seq<char>| self.entries@[self.users().index_of(k)].status@,
        )
    }
}

impl ReviewMap {
    /// The participants, row by row.
    pub closed spec fn users(&self) -> Seq<Seq<char>> {
        Seq::new(self.entries@.len(), |i: int| self.entries@[i].user@)
    }

    /// The statuses, row by row.
    pub closed spec fn statuses(&self) -> Seq<ReviewStatusView> {
        Seq::new(self.entries@.len(), |i: int| self.entries@[i].status@)
    }

    /// No participant has two rows.
    pub closed spec fn wf(&self) -> bool {
        self.users().no_duplicates()
    }

    /// The rows are the table: the participants are its keys, each once, and
    /// each row's status is the value under its participant.
    pub proof fn lemma_rows(&self)
        requires
            self.wf(),
        ensures
            self.users().len() == self.statuses().len(),
            self.users().no_duplicates(),
            self@.dom() == self.users().to_set(),
            self@.dom().finite(),
            self@.dom().len() == self.users().len(),
            forall|i: int|
                0 <= i < self.users().len() ==> self@.dom().contains(#[trigger] self.users()[i])
                    && self@[self.users()[i]] == self.statuses()[i],
    {
        assert(self@.dom() =~= self.users().to_set());
        self.users().unique_seq_to_set();
        vstd::seq_lib::seq_to_set_is_finite(self.users());
        assert forall|i: int| 0 <= i < self.users().len() implies self@.dom().contains(
            #[trigger] self.users()[i],
        ) && self@[self.users()[i]] == self.statuses()[i] by {
            let k = self.users()[i];
            assert(self.users().contains(k));
            let j = self.users().index_of(k);
            assert(self.users()[j] == k);
        }
    }

    /// The empty table.
    pub fn new() -> (r: Self)
        ensures
            r.wf(),
            r@ == Map::<Seq<char>, ReviewStatusView>::empty(),
    {
        let r = ReviewMap { entries: Vec::new() };
        assert(r@ =~= Map::<Seq<char>, ReviewStatusView>::empty());
        r
    }

    /// The number of participants.
    pub fn len(&self) -> (r: usize)
        requires
            self.wf(),
        ensures
            r == self@.dom().len(),
            r == self.users().len(),
    {
        proof {
            self.lemma_rows();
        }
        self.entries.len()
    }

    /// The row at position `i`.
    pub fn entry(&self, i: usize) -> (r: &ReviewEntry)
        requires
            self.wf(),
            i < self.users().len(),
        ensures
            r.user@ == self.users()[i as int],
            r.status@ == self.statuses()[i as int],
            self@.dom().contains(r.user@),
            self@[r.user@] == r.status@,
    {
        proof {
            self.lemma_rows();
        }
        &self.entries[i]
    }

    fn find(&self, user: &str) -> (r: Option<usize>)
        ensures
            match r {
                Some(i) => i < self.entries@.len() && self.users()[i as int] == user@,
                None => !self.users().contains(user@),
            },
    {
        let mut i: usize = 0;
        while i < self.entries.len()
            invariant
                i <= self.entries@.len(),
                forall|j: int| 0 <= j < i ==> self.users()[j] != user@,
            decreases self.entries@.len() - i,
        {
            if str_eq(self.entries[i].user.as_str(), user) {
                return Some(i);
            }
            i += 1;
        }
        None
    }

    /// Whether `user` has a row.
    pub fn contains(&self, user: &str) -> (r: bool)
        requires
            self.wf(),
        ensures
            r == self@.dom().contains(user@),
    {
        self.find(user).is_some()
    }

    /// The status of `user`, if `user` has a row.
    pub fn get(&self, user: &str) -> (r: Option<&ReviewStatus>)
        requires
            self.wf(),
        ensures
            match r {
                Some(status) => self@.dom().contains(user@) && self@[user@] == status@,
                None => !self@.dom().contains(user@),
            },
    {
        proof {
            self.lemma_rows();
        }
        match self.find(user) {
            Some(i) => Some(&self.entries[i].status),
            None => None,
        }
    }

    /// Gives `user` the status `status`, in a new last row if `user` had
    /// none.
    pub fn set(&mut self, user: &str, status: ReviewStatus)
        requires
            old(self).wf(),
        ensures
            final(self).wf(),
            final(self)@ == old(self)@.insert(user@, status@),
            final(self).users() == if old(self)@.dom().contains(user@) {
                old(self).users()
            } else {
                old(self).users().push(user@)
            },
    {
        let ghost before = *self;
        proof {
            before.lemma_rows();
        }
        match self.find(user) {
            Some(i) => {
                self.entries[i].status = status;
                proof {
                    assert(self.users() =~= before.users());
                    self.lemma_rows();
                    assert(self.statuses() =~= before.statuses().update(i as int, status@));
                    assert(self@ =~= before@.insert(user@, status@)) by {
                        assert forall|k: Seq<char>| self@.dom().contains(k) implies #[trigger] self@[k]
                            == before@.insert(user@, status@)[k] by {
                            let j = self.users().index_of(k);
                            assert(self.users()[j] == k);
                            assert(before.users()[j] == k);
                        }
                    }
                }
            },
            None => {
                let name = owned(user);
                self.entries.push(ReviewEntry { user: name, status });
                proof {
                    assert(self.users() =~= before.users().push(user@));
                    assert(self.statuses() =~= before.statuses().push(status@));
                    assert(self.users().no_duplicates()) by {
                        assert forall|a: int, b: int|
                            0 <= a < self.users().len() && 0 <= b < self.users().len() && a
                                != b implies self.users()[a] != self.users()[b] by {
                            if a < before.users().len() {
                                assert(before.users().contains(before.users()[a]));
                            }
                            if b < before.users().len() {
                                assert(before.users().contains(before.users()[b]));
                            }
                        }
                    }
                    self.lemma_rows();
                    assert(self@ =~= before@.insert(user@, status@)) by {
                        assert forall|k: Seq<char>| before@.dom().contains(k) implies self@.dom().contains(
                            k,
                        ) by {
                            let j = before.users().index_of(k);
                            assert(self.users()[j] == k);
                        }
                        assert(self.users()[before.users().len() as int] == user@);
                        assert forall|k: Seq<char>| self@.dom().contains(k) implies (k == user@
                            || before@.dom().contains(k)) && #[trigger] self@[k] == before@.insert(
                            user@,
                            status@,
                        )[k] by {
                            let j = self.users().index_of(k);
                            assert(self.users()[j] == k);
                            if j < before.users().len() {
                                assert(before.users()[j] == k);
                            }
                        }
                    }
                }
            },
        }
    }

    /// Gives `user` a row with `NoReview` unless `user` has a row already.
    pub fn ensure(&mut self, user: &str)
        requires
            old(self).wf(),
        ensures
            final(self).wf(),
            final(self)@ == if old(self)@.dom().contains(user@) {
                old(self)@
            } else {
                old(self)@.insert(user@, ReviewStatusView::NoReview)
            },
            final(self).users() == if old(self)@.dom().contains(user@) {
                old(self).users()
            } else {
                old(self).users().push(user@)
            },
    {
        if !self.contains(user) {
            self.set(user, ReviewStatus::NoReview);
        }
    }

    /// Marks every vote as cast on an older commit.
    pub fn invalidate_votes(&mut self)
        requires
            old(self).wf(),
        ensures
            final(self).wf(),
            final(self)@ == old(self)@.map_values(|s: ReviewStatusView| outdated(s)),
            final(self).users() == old(self).users(),
    {
        let ghost before = *self;
        let mut i: usize = 0;
        while i < self.entries.len()
            invariant
                i <= self.entries@.len(),
                self.users() == before.users(),
                self.statuses().len() == before.statuses().len(),
                forall|j: int| 0 <= j < i ==> self.statuses()[j] == outdated(before.statuses()[j]),
                forall|j: int|
                    i <= j < self.statuses().len() ==> self.statuses()[j] == before.statuses()[j],
            decreases self.entries@.len() - i,
        {
            let ghost mid = *self;
            let renewed = match &self.entries[i].status {
                ReviewStatus::Voted { vote, vote_hash } => Some(
                    ReviewStatus::VoteNeedReevaluation { voted: *vote, vote_hash: vote_hash.clone() },
                ),
                _ => None,
            };
            if let Some(status) = renewed {
                self.entries[i].status = status;
            }
            proof {
                assert(self.users() =~= mid.users());
                assert(self.statuses() =~= mid.statuses().update(
                    i as int,
                    outdated(mid.statuses()[i as int]),
                ));
            }
            i += 1;
        }
        proof {
            before.lemma_rows();
            self.lemma_rows();
            assert(self@ =~= before@.map_values(|s: ReviewStatusView| outdated(s))) by {
                assert forall|k: Seq<char>| self@.dom().contains(k) implies #[trigger] self@[k]
                    == outdated(before@[k]) by {
                    let j = self.users().index_of(k);
                    assert(self.users()[j] == k);
                    assert(before.users()[j] == k);
                }
            }
        }
    }

    /// Marks every request for comment addressed to `author` as answered.
    pub fn answer_requests(&mut self, author: &str)
        requires
            old(self).wf(),
        ensures
            final(self).wf(),
            final(self)@ == old(self)@.map_values(|s: ReviewStatusView| answered(s, author@)),
            final(self).users() == old(self).users(),
    {
        let ghost before = *self;
        let mut i: usize = 0;
        while i < self.entries.len()
            invariant
                i <= self.entries@.len(),
                self.users() == before.users(),
                self.statuses().len() == before.statuses().len(),
                forall|j: int|
                    0 <= j < i ==> self.statuses()[j] == answered(before.statuses()[j], author@),
                forall|j: int|
                    i <= j < self.statuses().len() ==> self.statuses()[j] == before.statuses()[j],
            decreases self.entries@.len() - i,
        {
            let ghost mid = *self;
            let waits_for_author = match &self.entries[i].status {
                ReviewStatus::RFC { user } => str_eq(user.as_str(), author),
                _ => false,
            };
            if waits_for_author {
                self.entries[i].status = ReviewStatus::RFCAnswered { user: owned(author) };
            }
            proof {
                assert(self.users() =~= mid.users());
                assert(self.statuses() =~= mid.statuses().update(
                    i as int,
                    answered(mid.statuses()[i as int], author@),
                ));
            }
            i += 1;
        }
        proof {
            before.lemma_rows();
            self.lemma_rows();
            assert(self@ =~= before@.map_values(|s: ReviewStatusView| answered(s, author@))) by {
                assert forall|k: Seq<char>| self@.dom().contains(k) implies #[trigger] self@[k]
                    == answered(before@[k], author@) by {
                    let j = self.users().index_of(k);
                    assert(self.users()[j] == k);
                    assert(before.users()[j] == k);
                }
            }
        }
    }
}

} // verus!
