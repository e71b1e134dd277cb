use gatekeeper::bitbucket::{
    ActivityItem, Approval, Comment, CommentParent, Commit, Content, Href, PullRequest,
    PullRequestLinks, PullRequestUser, Source, Update, User,
};
use gatekeeper::{
    PullRequestState, PullrequestIdURLs, ReduceError, RepositoryURLs, ReviewStatus,
};

fn pr() -> PullRequest {
    PullRequest {
        id: 7,
        title: "foo title".to_string(),
        state: "OPEN".to_string(),
        links: PullRequestLinks {
            slf: Href {
                href: "https://api.bitbucket.org/2.0/repositories/o/r/pullrequests/7".to_string(),
            },
            activity: Href {
                href: "https://api.bitbucket.org/2.0/repositories/o/r/pullrequests/7/activity"
                    .to_string(),
            },
        },
        author: PullRequestUser {
            username: "kgadek".to_string(),
        },
    }
}

fn urls() -> PullrequestIdURLs {
    RepositoryURLs::new("o", "r").with_id(7)
}

fn update(hash: &str) -> ActivityItem {
    ActivityItem::Update {
        update: Update {
            source: Source {
                commit: Commit {
                    hash: hash.to_string(),
                },
            },
        },
    }
}

fn approval(user: &str) -> ActivityItem {
    ActivityItem::Approval {
        approval: Approval {
            user: User {
                username: user.to_string(),
            },
        },
    }
}

fn comment(user: &str, raw: &str) -> ActivityItem {
    ActivityItem::Comment {
        comment: Comment {
            id: 1,
            parent: None,
            content: Content {
                raw: raw.to_string(),
            },
            user: User {
                username: user.to_string(),
            },
        },
    }
}

fn reply(user: &str, raw: &str) -> ActivityItem {
    ActivityItem::Comment {
        comment: Comment {
            id: 2,
            parent: Some(CommentParent { id: 1 }),
            content: Content {
                raw: raw.to_string(),
            },
            user: User {
                username: user.to_string(),
            },
        },
    }
}

fn reduce(activity: Vec<ActivityItem>) -> PullRequestState {
    PullRequestState::from_activity(pr(), activity, urls()).unwrap()
}

fn fails(activity: Vec<ActivityItem>) -> ReduceError {
    PullRequestState::from_activity(pr(), activity, urls()).unwrap_err()
}

fn voted(vote: i32, hash: &str) -> ReviewStatus {
    ReviewStatus::Voted {
        vote,
        vote_hash: hash.to_string(),
    }
}

fn labels(state: &PullRequestState) -> Vec<String> {
    let mut out = Vec::new();
    for i in 0..state.labels.len() {
        out.push(state.labels.label(i).clone());
    }
    out
}

fn users(state: &PullRequestState) -> Vec<String> {
    let mut out = Vec::new();
    for i in 0..state.review_status.len() {
        out.push(state.review_status.entry(i).user.clone());
    }
    out
}

#[test]
fn approval_after_push() {
    let state = reduce(vec![update("abc"), approval("alice")]);
    assert_eq!(vec!["alice"], users(&state));
    assert_eq!(Some(&voted(1, "abc")), state.review_status.get("alice"));
    assert_eq!(Some("abc".to_string()), state.current_hash);
}

#[test]
fn vote_invalidation() {
    let state = reduce(vec![update("abc"), comment("bob", "!g +1"), update("def")]);
    assert_eq!(vec!["bob"], users(&state));
    assert_eq!(
        Some(&ReviewStatus::VoteNeedReevaluation {
            voted: 1,
            vote_hash: "abc".to_string()
        }),
        state.review_status.get("bob")
    );
    assert_eq!(Some("def".to_string()), state.current_hash);
}

#[test]
fn rfc_answered() {
    let state = reduce(vec![
        update("abc"),
        comment("alice", "!g rfc bob"),
        comment("bob", "looks good"),
    ]);
    assert_eq!(vec!["alice", "bob"], users(&state));
    assert_eq!(
        Some(&ReviewStatus::RFCAnswered {
            user: "bob".to_string()
        }),
        state.review_status.get("alice")
    );
    assert_eq!(Some(&ReviewStatus::NoReview), state.review_status.get("bob"));
}

#[test]
fn label_toggling() {
    let state = reduce(vec![comment("alice", "!g +urgent +urgent -urgent +ready")]);
    assert_eq!(vec!["ready"], labels(&state));
    assert!(state.labels.contains("ready"));
    assert!(!state.labels.contains("urgent"));
    assert_eq!(Some(&ReviewStatus::NoReview), state.review_status.get("alice"));
    assert_eq!(None, state.current_hash);
}

#[test]
fn escaped_vote_form() {
    let state = reduce(vec![update("h"), comment("carol", "!g \\+1")]);
    assert_eq!(Some(&voted(1, "h")), state.review_status.get("carol"));
}

#[test]
fn will_revote_preserves_prior_vote() {
    let state = reduce(vec![
        update("h"),
        comment("dave", "!g -1"),
        comment("dave", "!g will\\_revote"),
    ]);
    assert_eq!(
        Some(&ReviewStatus::WantsToReviewAgain { voted: Some(-1) }),
        state.review_status.get("dave")
    );
}

#[test]
fn will_revote_remembers_through_pushes_and_repeats() {
    let state = reduce(vec![
        update("h"),
        comment("dave", "!g 2"),
        update("i"),
        comment("dave", "!g will\\_revote will\\_revote"),
    ]);
    assert_eq!(
        Some(&ReviewStatus::WantsToReviewAgain { voted: Some(2) }),
        state.review_status.get("dave")
    );
    let state = reduce(vec![comment("erin", "!g will\\_revote")]);
    assert_eq!(
        Some(&ReviewStatus::WantsToReviewAgain { voted: None }),
        state.review_status.get("erin")
    );
    let state = reduce(vec![comment("erin", "!g rfc x will\\_revote")]);
    assert_eq!(
        Some(&ReviewStatus::WantsToReviewAgain { voted: None }),
        state.review_status.get("erin")
    );
}

#[test]
fn empty_activity_gives_the_empty_state() {
    let state = reduce(vec![]);
    assert_eq!(0, state.review_status.len());
    assert_eq!(0, state.labels.len());
    assert!(state.labels.is_empty());
    assert_eq!(None, state.current_hash);
    assert_eq!(pr(), state.pr);
    assert_eq!(urls(), state.urls);
    let fresh = PullRequestState::new(pr(), urls());
    assert_eq!(fresh, state);
}

#[test]
fn approval_without_push_is_an_error() {
    assert_eq!(ReduceError::NoCurrentCommit, fails(vec![approval("alice")]));
    assert_eq!(
        ReduceError::NoCurrentCommit,
        fails(vec![comment("bob", "hello"), approval("alice"), update("abc")])
    );
}

#[test]
fn vote_without_push_is_an_error() {
    assert_eq!(ReduceError::NoCurrentCommit, fails(vec![comment("bob", "!g +1")]));
    assert_eq!(
        ReduceError::NoCurrentCommit,
        fails(vec![comment("bob", "!g +label 0"), update("abc")])
    );
}

#[test]
fn vote_in_foreign_digits_is_an_error() {
    assert_eq!(
        ReduceError::InvalidVote,
        fails(vec![update("abc"), comment("bob", "!g \u{663}")])
    );
    assert_eq!(
        ReduceError::InvalidVote,
        fails(vec![comment("bob", "!g -\u{0967}")])
    );
}

#[test]
fn the_first_failure_decides() {
    assert_eq!(
        ReduceError::NoCurrentCommit,
        fails(vec![comment("bob", "!g +1 \u{663}")])
    );
    assert_eq!(
        ReduceError::InvalidVote,
        fails(vec![comment("bob", "!g \u{663} +1")])
    );
    assert_eq!(
        ReduceError::InvalidVote,
        fails(vec![comment("bob", "!g +x\n!g \u{663}\n!g +1")])
    );
}

#[test]
fn rfc_without_target_changes_nothing() {
    let state = reduce(vec![update("abc"), comment("alice", "!g +1 rfc")]);
    assert_eq!(Some(&voted(1, "abc")), state.review_status.get("alice"));
    let state = reduce(vec![comment("alice", "!g rfc")]);
    assert_eq!(Some(&ReviewStatus::NoReview), state.review_status.get("alice"));
    assert_eq!(reduce(vec![comment("alice", "")]), state);
}

#[test]
fn rfc_takes_its_target_from_the_same_line_only() {
    let state = reduce(vec![comment("alice", "!g rfc\n!g bob")]);
    assert_eq!(Some(&ReviewStatus::NoReview), state.review_status.get("alice"));
    let state = reduce(vec![comment("alice", "!g rfc\nbob")]);
    assert_eq!(Some(&ReviewStatus::NoReview), state.review_status.get("alice"));
}

#[test]
fn rfc_target_is_taken_as_it_stands() {
    let state = reduce(vec![comment("alice", "!g rfc +1 +late")]);
    assert_eq!(
        Some(&ReviewStatus::RFC {
            user: "+1".to_string()
        }),
        state.review_status.get("alice")
    );
    assert_eq!(vec!["late"], labels(&state));
}

#[test]
fn reply_answers_but_adds_no_row_and_runs_no_command() {
    let state = reduce(vec![
        update("abc"),
        comment("alice", "!g rfc bob"),
        comment("carol", "!g rfc dan"),
        reply("bob", "!g +1 +label"),
    ]);
    assert_eq!(vec!["alice", "carol"], users(&state));
    assert_eq!(
        Some(&ReviewStatus::RFCAnswered {
            user: "bob".to_string()
        }),
        state.review_status.get("alice")
    );
    assert_eq!(
        Some(&ReviewStatus::RFC {
            user: "dan".to_string()
        }),
        state.review_status.get("carol")
    );
    assert_eq!(None, state.review_status.get("bob"));
    assert!(!state.review_status.contains("bob"));
    assert_eq!(0, state.labels.len());
}

#[test]
fn own_comment_answers_own_request() {
    let state = reduce(vec![comment("alice", "!g rfc alice"), comment("alice", "hm")]);
    assert_eq!(
        Some(&ReviewStatus::RFCAnswered {
            user: "alice".to_string()
        }),
        state.review_status.get("alice")
    );
}

#[test]
fn push_outdates_votes_only() {
    let state = reduce(vec![
        update("a"),
        approval("v"),
        comment("r", "!g rfc v"),
        comment("w", "!g will\\_revote"),
        comment("n", "hello"),
        update("b"),
        update("c"),
    ]);
    assert_eq!(
        Some(&ReviewStatus::VoteNeedReevaluation {
            voted: 1,
            vote_hash: "a".to_string()
        }),
        state.review_status.get("v")
    );
    assert_eq!(
        Some(&ReviewStatus::RFC {
            user: "v".to_string()
        }),
        state.review_status.get("r")
    );
    assert_eq!(
        Some(&ReviewStatus::WantsToReviewAgain { voted: None }),
        state.review_status.get("w")
    );
    assert_eq!(Some(&ReviewStatus::NoReview), state.review_status.get("n"));
    assert_eq!(Some("c".to_string()), state.current_hash);
}

#[test]
fn standing_votes_carry_the_current_hash() {
    let state = reduce(vec![
        update("a"),
        approval("x"),
        comment("y", "!g -1"),
        update("b"),
        comment("y", "!g 0"),
        approval("z"),
    ]);
    assert_eq!(Some("b".to_string()), state.current_hash);
    for i in 0..state.review_status.len() {
        if let ReviewStatus::Voted { vote_hash, .. } = &state.review_status.entry(i).status {
            assert_eq!(Some(vote_hash.clone()), state.current_hash);
        }
    }
    assert_eq!(Some(&voted(0, "b")), state.review_status.get("y"));
    assert_eq!(Some(&voted(1, "b")), state.review_status.get("z"));
    assert_eq!(
        Some(&ReviewStatus::VoteNeedReevaluation {
            voted: 1,
            vote_hash: "a".to_string()
        }),
        state.review_status.get("x")
    );
}

#[test]
fn approval_overwrites_any_status() {
    let state = reduce(vec![update("a"), comment("x", "!g rfc y -1"), approval("x")]);
    assert_eq!(Some(&voted(1, "a")), state.review_status.get("x"));
}

#[test]
fn votes_are_single_digits_with_an_optional_sign() {
    let state = reduce(vec![update("a"), comment("x", "!g 7")]);
    assert_eq!(Some(&voted(7, "a")), state.review_status.get("x"));
    let state = reduce(vec![update("a"), comment("x", "!g -0")]);
    assert_eq!(Some(&voted(0, "a")), state.review_status.get("x"));
    let state = reduce(vec![update("a"), comment("x", "!g +9")]);
    assert_eq!(Some(&voted(9, "a")), state.review_status.get("x"));
    let state = reduce(vec![update("a"), comment("x", "!g 10 \\-1 \\\\+1 1+")]);
    assert_eq!(Some(&ReviewStatus::NoReview), state.review_status.get("x"));
    assert_eq!(0, state.labels.len());
}

#[test]
fn labels_are_runs_of_letters_and_may_be_empty() {
    let state = reduce(vec![comment("x", "!g +a \\+b + +c1 +d-e -a \\-b")]);
    assert_eq!(vec!["b", ""], labels(&state));
    let state = reduce(vec![comment("x", "!g + -")]);
    assert_eq!(0, state.labels.len());
    let state = reduce(vec![comment("x", "!g -gone +Here -gone")]);
    assert_eq!(vec!["Here"], labels(&state));
}

#[test]
fn duplicate_label_changes_nothing() {
    let once = reduce(vec![comment("x", "!g +urgent")]);
    let twice = reduce(vec![comment("x", "!g +urgent +urgent")]);
    let later = reduce(vec![comment("x", "!g +urgent"), comment("y", "!g +urgent")]);
    assert_eq!(once, twice);
    assert_eq!(labels(&once), labels(&later));
    assert_eq!(1, later.labels.len());
}

#[test]
fn unknown_commands_are_passed_over() {
    let state = reduce(vec![update("a"), comment("x", "!g hello RFC will_revote +1")]);
    assert_eq!(Some(&voted(1, "a")), state.review_status.get("x"));
    assert_eq!(0, state.labels.len());
}

#[test]
fn lines_without_the_marker_are_passed_over() {
    let state = reduce(vec![
        update("a"),
        comment("x", "+1\n !g -1\r\n!g\n\n@g +1\n!g+1\nplease !g +1"),
    ]);
    assert_eq!(Some(&voted(-1, "a")), state.review_status.get("x"));
}

#[test]
fn same_activity_same_state() {
    let activity = || {
        vec![
            update("a"),
            comment("x", "!g +1 +l"),
            approval("y"),
            reply("x", "ok"),
            update("b"),
        ]
    };
    assert_eq!(reduce(activity()), reduce(activity()));
}

#[test]
fn step_by_step_is_the_reduction() {
    let activity = vec![update("a"), comment("x", "!g +1 +l"), approval("y"), update("b")];
    let mut state = PullRequestState::new(pr(), urls());
    for item in &activity {
        state = state.step(item).unwrap();
    }
    assert_eq!(reduce(activity), state);
    let fresh = PullRequestState::new(pr(), urls());
    assert_eq!(
        Err(ReduceError::NoCurrentCommit),
        fresh.step(&approval("y"))
    );
}
