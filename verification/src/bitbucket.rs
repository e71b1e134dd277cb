//! The records of the hosting service that the review state is computed
//! from: pull requests and the three kinds of entries in a pull request's
//! activity log.
use vstd::prelude::*;

verus! {

/// A link: the address it points to.
#[derive(Debug, PartialEq, Eq)]
pub struct Href {
    pub href: String,
}

impl Clone for Href {
    fn clone(&self) -> (r: Self)
        ensures
            r == *self,
    {
        Href { href: self.href.clone() }
    }
}

/// The links of a pull request that are followed: the pull request itself
/// and its activity log.
#[derive(Debug, PartialEq, Eq)]
pub struct PullRequestLinks {
    pub slf: Href,
    pub activity: Href,
}

impl Clone for PullRequestLinks {
    fn clone(&self) -> (r: Self)
        ensures
            r == *self,
    {
        PullRequestLinks { slf: self.slf.clone(), activity: self.activity.clone() }
    }
}

/// The author of a pull request.
#[derive(Debug, PartialEq, Eq)]
pub struct PullRequestUser {
    pub username: String,
}

impl Clone for PullRequestUser {
    fn clone(&self) -> (r: Self)
        ensures
            r == *self,
    {
        PullRequestUser { username: self.username.clone() }
    }
}

/// One pull request, as the service lists it.
#[derive(Debug, PartialEq, Eq)]
pub struct PullRequest {
    pub id: u32,
    pub title: String,
    pub state: String,
    pub links: PullRequestLinks,
    pub author: PullRequestUser,
}

impl Clone for PullRequest {
    fn clone(&self) -> (r: Self)
        ensures
            r == *self,
    {
        PullRequest {
            id: self.id,
            title: self.title.clone(),
            state: self.state.clone(),
            links: self.links.clone(),
            author: self.author.clone(),
        }
    }
}

/// What identifies and locates a pull request, as plain text.
pub struct PullRequestView {
    pub id: u32,
    pub title: Seq<char>,
    pub state: Seq<char>,
    pub author_username: Seq<char>,
    pub self_url: Seq<char>,
    pub activity_url: Seq<char>,
}

impl View for PullRequest {
    type V = PullRequestView;

    open spec fn view(&self) -> PullRequestView {
        PullRequestView {
            id: self.id,
            title: self.title@,
            state: self.state@,
            author_username: self.author.username@,
            self_url: self.links.slf.href@,
            activity_url: self.links.activity.href@,
        }
    }
}

/// The comment that a reply answers.
#[derive(Debug, Clone, Copy, PartialEq, Eq)]
pub struct CommentParent {
    pub id: u32,
}

/// The text of a comment as its author typed it.
#[derive(Debug, PartialEq, Eq)]
pub struct Content {
    pub raw: String,
}

impl Clone for Content {
    fn clone(&self) -> (r: Self)
        ensures
            r == *self,
    {
        Content { raw: self.raw.clone() }
    }
}

/// Who wrote a comment or gave an approval.
#[derive(Debug, PartialEq, Eq)]
pub struct User {
    pub username: String,
}

impl Clone for User {
    fn clone(&self) -> (r: Self)
        ensures
            r == *self,
    {
        User { username: self.username.clone() }
    }
}

/// A comment on a pull request. One without a parent is top-level; one with a
/// parent is a reply.
#[derive(Debug, PartialEq, Eq)]
pub struct Comment {
    pub id: u32,
    pub parent: Option<CommentParent>,
    pub content: Content,
    pub user: User,
}

impl Clone for Comment {
    fn clone(&self) -> (r: Self)
        ensures
            r == *self,
    {
        Comment {
            id: self.id,
            parent: self.parent,
            content: self.content.clone(),
            user: self.user.clone(),
        }
    }
}

impl Comment {
    /// Whether the comment answers no other comment.
    pub open spec fn top_level(&self) -> bool {
        self.parent is None
    }

    /// Whether the comment answers no other comment.
    pub fn is_top_level(&self) -> (r: bool)
        ensures
            r == self.top_level(),
    {
        self.parent.is_none()
    }
}

/// An approval given through the service's own button.
#[derive(Debug, PartialEq, Eq)]
pub struct Approval {
    pub user: User,
}

impl Clone for Approval {
    fn clone(&self) -> (r: Self)
        ensures
            r == *self,
    {
        Approval { user: self.user.clone() }
    }
}

/// A commit, named by its hash.
#[derive(Debug, PartialEq, Eq)]
pub struct Commit {
    pub hash: String,
}

impl Clone for Commit {
    fn clone(&self) -> (r: Self)
        ensures
            r == *self,
    {
        Commit { hash: self.hash.clone() }
    }
}

/// The source branch of a pull request: the commit at its head.
#[derive(Debug, PartialEq, Eq)]
pub struct Source {
    pub commit: Commit,
}

impl Clone for Source {
    fn clone(&self) -> (r: Self)
        ensures
            r == *self,
    {
        Source { commit: self.commit.clone() }
    }
}

/// A push to the pull request: the new head of its source branch.
#[derive(Debug, PartialEq, Eq)]
pub struct Update {
    pub source: Source,
}

impl Clone for Update {
    fn clone(&self) -> (r: Self)
        ensures
            r == *self,
    {
        Update { source: self.source.clone() }
    }
}

/// One entry of a pull request's activity log.
#[derive(Debug, PartialEq, Eq)]
pub enum ActivityItem {
    Comment { comment: Comment },
    Update { update: Update },
    Approval { approval: Approval },
}

impl Clone for ActivityItem {
    fn clone(&self) -> (r: Self)
        ensures
            r == *self,
    {
        match self {
            ActivityItem::Comment { comment } => ActivityItem::Comment { comment: comment.clone() },
            ActivityItem::Update { update } => ActivityItem::Update { update: update.clone() },
            ActivityItem::Approval { approval } => ActivityItem::Approval {
                approval: approval.clone(),
            },
        }
    }
}

/// An entry of the activity log, reduced to what the review state depends on.
pub enum ActivityView {
    Comment { id: u32, parent: Option<u32>, content_raw: Seq<char>, user_username: Seq<char> },
    Update { source_commit_hash: Seq<char> },
    Approval { user_username: Seq<char> },
}

impl View for ActivityItem {
    type V = ActivityView;

    open spec fn view(&self) -> ActivityView {
        match self {
            ActivityItem::Comment { comment } => ActivityView::Comment {
                id: comment.id,
                parent: match comment.parent {
                    Some(p) => Some(p.id),
                    None => None,
                },
                content_raw: comment.content.raw@,
                user_username: comment.user.username@,
            },
            ActivityItem::Update { update } => ActivityView::Update {
                source_commit_hash: update.source.commit.hash@,
            },
            ActivityItem::Approval { approval } => ActivityView::Approval {
                user_username: approval.user.username@,
            },
        }
    }
}

/// The activity log as a sequence of views.
pub open spec fn activity_view(items: Seq<ActivityItem>) -> Seq<ActivityView> {
    Seq::new(items.len(), |i: int| items[i]@)
}

/// Why a record of the activity log is no entry.
#[derive(Debug, Clone, Copy, PartialEq, Eq, Structural)]
pub enum ShapeError {
    /// The record has none of the keys `comment`, `update`, `approval`.
    NoVariant,
    /// The record has more than one of them.
    SeveralVariants,
}

impl ActivityItem {
    /// The entry that a record of the activity log stands for. The record is
    /// flat: which of the keys `comment`, `update` and `approval` it holds
    /// says which kind of entry it is. A record is an entry only if it holds
    /// exactly one of them.
    pub fn from_keys(
        comment: Option<Comment>,
        update: Option<Update>,
        approval: Option<Approval>,
    ) -> (r: Result<ActivityItem, ShapeError>)
        ensures
            comment is None && update is None && approval is None <==> r == Err::<
                ActivityItem,
                ShapeError,
            >(ShapeError::NoVariant),
            (comment is Some && update is Some) || (comment is Some && approval is Some) || (
            update is Some && approval is Some) <==> r == Err::<ActivityItem, ShapeError>(
                ShapeError::SeveralVariants,
            ),
            comment is Some && update is None && approval is None ==> r == Ok::<
                ActivityItem,
                ShapeError,
            >(ActivityItem::Comment { comment: comment->0 }),
            comment is None && update is Some && approval is None ==> r == Ok::<
                ActivityItem,
                ShapeError,
            >(ActivityItem::Update { update: update->0 }),
            comment is None && update is None && approval is Some ==> r == Ok::<
                ActivityItem,
                ShapeError,
            >(ActivityItem::Approval { approval: approval->0 }),
    {
        match (comment, update, approval) {
            (Some(comment), None, None) => Ok(ActivityItem::Comment { comment }),
            (None, Some(update), None) => Ok(ActivityItem::Update { update }),
            (None, None, Some(approval)) => Ok(ActivityItem::Approval { approval }),
            (None, None, None) => Err(ShapeError::NoVariant),
            _ => Err(ShapeError::SeveralVariants),
        }
    }
}

} // verus!
