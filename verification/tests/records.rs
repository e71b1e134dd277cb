use gatekeeper::bitbucket::{
    ActivityItem, Approval, Comment, Commit, Content, Href, PullRequest, PullRequestLinks,
    PullRequestUser, ShapeError, Source, Update, User,
};
use gatekeeper::{
    repo_pr, LabelSet, ProcessingError, PullRequestProcessing, PullrequestIdURLs, ReduceError,
    RepositoryURLs, ReviewMap, ReviewStatus,
};

fn a_comment() -> Comment {
    Comment {
        id: 5,
        parent: None,
        content: Content {
            raw: "!g +1".to_string(),
        },
        user: User {
            username: "u".to_string(),
        },
    }
}

fn an_update(hash: &str) -> Update {
    Update {
        source: Source {
            commit: Commit {
                hash: hash.to_string(),
            },
        },
    }
}

fn an_approval() -> Approval {
    Approval {
        user: User {
            username: "v".to_string(),
        },
    }
}

fn a_pr(id: u32) -> PullRequest {
    PullRequest {
        id,
        title: "t".to_string(),
        state: "OPEN".to_string(),
        links: PullRequestLinks {
            slf: Href {
                href: "self".to_string(),
            },
            activity: Href {
                href: "activity".to_string(),
            },
        },
        author: PullRequestUser {
            username: "author".to_string(),
        },
    }
}

#[test]
fn record_with_one_key_is_that_entry() {
    assert_eq!(
        Ok(ActivityItem::Comment {
            comment: a_comment()
        }),
        ActivityItem::from_keys(Some(a_comment()), None, None)
    );
    assert_eq!(
        Ok(ActivityItem::Update {
            update: an_update("h")
        }),
        ActivityItem::from_keys(None, Some(an_update("h")), None)
    );
    assert_eq!(
        Ok(ActivityItem::Approval {
            approval: an_approval()
        }),
        ActivityItem::from_keys(None, None, Some(an_approval()))
    );
}

#[test]
fn record_with_no_known_key_is_refused() {
    assert_eq!(
        Err(ShapeError::NoVariant),
        ActivityItem::from_keys(None, None, None)
    );
}

#[test]
fn record_with_several_keys_is_refused() {
    assert_eq!(
        Err(ShapeError::SeveralVariants),
        ActivityItem::from_keys(Some(a_comment()), Some(an_update("h")), None)
    );
    assert_eq!(
        Err(ShapeError::SeveralVariants),
        ActivityItem::from_keys(Some(a_comment()), None, Some(an_approval()))
    );
    assert_eq!(
        Err(ShapeError::SeveralVariants),
        ActivityItem::from_keys(None, Some(an_update("h")), Some(an_approval()))
    );
    assert_eq!(
        Err(ShapeError::SeveralVariants),
        ActivityItem::from_keys(Some(a_comment()), Some(an_update("h")), Some(an_approval()))
    );
}

#[test]
fn repository_urls() {
    let urls = RepositoryURLs::new("kgadek", "test-repo");
    assert_eq!(
        "https://api.bitbucket.org/2.0/repositories/kgadek/test-repo/pullrequests",
        urls.api_url
    );
    assert_eq!(
        "https://bitbucket.org/kgadek/test-repo/pull-requests",
        urls.web_url
    );
}

#[test]
fn pull_request_urls() {
    let urls = RepositoryURLs::new("kgadek", "test-repo");
    let one = urls.with_id(1);
    assert_eq!(
        "https://api.bitbucket.org/2.0/repositories/kgadek/test-repo/pullrequests/1",
        one.api_url
    );
    assert_eq!(
        "https://bitbucket.org/kgadek/test-repo/pull-requests/1",
        one.web_url
    );
    assert_eq!(PullrequestIdURLs::new(&urls, 1), one);
    assert_eq!(
        "https://bitbucket.org/kgadek/test-repo/pull-requests/4294967295",
        urls.with_id(u32::MAX).web_url
    );
    assert_eq!(
        "https://bitbucket.org/kgadek/test-repo/pull-requests/0",
        urls.with_id(0).web_url
    );
    assert_eq!(
        "https://bitbucket.org/kgadek/test-repo/pull-requests/1030",
        PullrequestIdURLs::new(&urls, 1030).web_url
    );
}

#[test]
fn review_table_keeps_one_row_for_each_user() {
    let mut table = ReviewMap::new();
    assert_eq!(0, table.len());
    table.set("a", ReviewStatus::NoReview);
    table.set("b", ReviewStatus::WantsToReviewAgain { voted: Some(2) });
    table.set(
        "a",
        ReviewStatus::Voted {
            vote: 1,
            vote_hash: "h".to_string(),
        },
    );
    table.ensure("a");
    table.ensure("c");
    assert_eq!(3, table.len());
    assert_eq!("a", table.entry(0).user);
    assert_eq!("b", table.entry(1).user);
    assert_eq!("c", table.entry(2).user);
    assert_eq!(ReviewStatus::NoReview, table.entry(2).status);
    assert_eq!(Some(2), table.entry(1).status.remembered_vote());
    assert_eq!(Some(1), table.entry(0).status.remembered_vote());
    assert_eq!(None, table.entry(2).status.remembered_vote());
    assert!(table.contains("b"));
    assert!(!table.contains("d"));
    assert_eq!(None, table.get("d"));
    table.invalidate_votes();
    assert_eq!(
        Some(&ReviewStatus::VoteNeedReevaluation {
            voted: 1,
            vote_hash: "h".to_string()
        }),
        table.get("a")
    );
    table.set(
        "c",
        ReviewStatus::RFC {
            user: "a".to_string(),
        },
    );
    table.answer_requests("b");
    assert_eq!(
        Some(&ReviewStatus::RFC {
            user: "a".to_string()
        }),
        table.get("c")
    );
    table.answer_requests("a");
    assert_eq!(
        Some(&ReviewStatus::RFCAnswered {
            user: "a".to_string()
        }),
        table.get("c")
    );
    assert_eq!(3, table.len());
}

#[test]
fn label_set_holds_each_label_once() {
    let mut labels = LabelSet::new();
    assert!(labels.is_empty());
    assert!(labels.insert("a"));
    assert!(labels.insert("b"));
    assert!(!labels.insert("a"));
    assert_eq!(2, labels.len());
    assert!(!labels.remove("c"));
    assert!(labels.remove("a"));
    assert!(!labels.remove("a"));
    assert_eq!(1, labels.len());
    assert_eq!("b", labels.label(0));
    assert!(labels.contains("b"));
    assert!(!labels.contains("a"));
    assert!(!labels.is_empty());
}

#[test]
fn repo_pr_takes_the_activity_newest_first() {
    let urls = RepositoryURLs::new("o", "r");
    let newest_first = vec![
        ActivityItem::Approval {
            approval: an_approval(),
        },
        ActivityItem::Update {
            update: an_update("b"),
        },
        ActivityItem::Comment {
            comment: a_comment(),
        },
        ActivityItem::Update {
            update: an_update("a"),
        },
    ];
    match repo_pr(a_pr(3), &urls, Ok(newest_first)) {
        PullRequestProcessing::Success(state) => {
            assert_eq!(a_pr(3), state.pr);
            assert_eq!(urls.with_id(3), state.urls);
            assert_eq!(Some("b".to_string()), state.current_hash);
            assert_eq!(
                Some(&ReviewStatus::VoteNeedReevaluation {
                    voted: 1,
                    vote_hash: "a".to_string()
                }),
                state.review_status.get("u")
            );
            assert_eq!(
                Some(&ReviewStatus::Voted {
                    vote: 1,
                    vote_hash: "b".to_string()
                }),
                state.review_status.get("v")
            );
        }
        other => panic!("no review state: {:?}", other),
    }
}

#[test]
fn repo_pr_records_a_failure_with_the_pull_request() {
    let urls = RepositoryURLs::new("o", "r");
    let chronological = vec![
        ActivityItem::Update {
            update: an_update("a"),
        },
        ActivityItem::Approval {
            approval: an_approval(),
        },
    ];
    assert_eq!(
        PullRequestProcessing::Failure(
            a_pr(3),
            ProcessingError::Reducer(ReduceError::NoCurrentCommit)
        ),
        repo_pr(a_pr(3), &urls, Ok(chronological))
    );
    let lost = || ProcessingError::Transport {
        url: "activity".to_string(),
        reason: "timed out".to_string(),
    };
    assert_eq!(
        PullRequestProcessing::Failure(a_pr(4), lost()),
        repo_pr(a_pr(4), &urls, Err(lost()))
    );
}

#[test]
fn chronological_turns_the_activity_round() {
    let newest_first = vec![
        ActivityItem::Update {
            update: an_update("c"),
        },
        ActivityItem::Update {
            update: an_update("b"),
        },
        ActivityItem::Update {
            update: an_update("a"),
        },
    ];
    let oldest_first = vec![
        ActivityItem::Update {
            update: an_update("a"),
        },
        ActivityItem::Update {
            update: an_update("b"),
        },
        ActivityItem::Update {
            update: an_update("c"),
        },
    ];
    assert_eq!(oldest_first, gatekeeper::report::chronological(newest_first));
    assert_eq!(
        Vec::<ActivityItem>::new(),
        gatekeeper::report::chronological(vec![])
    );
}
