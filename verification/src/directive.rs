//! What one command token asks for.
//!
//! A token is tried as a vote first, then as one of the words `rfc` and
//! `will\_revote`, then as a label toggle. Whether it has the form of a vote
//! or of a label toggle is decided by the regular expressions of
//! [`crate::pattern`].
use crate::number::{parse_i32, parse_int};
use crate::pattern::{captures, is_match, regex_captures, regex_is_match, LABEL_PATTERN, VOTE_PATTERN};
use crate::text::{str_eq, strip_backslashes, trim_backslashes};
use vstd::prelude::*;

verus! {

/// Why the activity of a pull request has no review state.
#[derive(Debug, Clone, Copy, PartialEq, Eq, Structural)]
pub enum ReduceError {
    /// A token has the form of a vote but does not write a number.
    InvalidVote,
    /// A vote or an approval came before any push, so there is no commit
    /// that it could be about.
    NoCurrentCommit,
    /// A regular expression of the command language was not accepted.
    BrokenPattern,
    /// A token has the form of a label toggle, but its sign or its name was
    /// not captured.
    MissingCapture,
}

/// What a command token asks for.
#[derive(Debug, PartialEq, Eq)]
pub enum Directive {
    /// Cast the vote `vote`.
    Vote { vote: i32 },
    /// Wait for the comment of the user named by the next token.
    Rfc,
    /// Announce a new vote.
    WillRevote,
    /// Put the label `label` on the pull request.
    AddLabel { label: String },
    /// Take the label `label` off the pull request.
    RemoveLabel { label: String },
    /// Nothing: the token is no command.
    Unrecognized,
}

/// A directive with its text as a sequence of characters.
pub enum DirectiveView {
    Vote { vote: i32 },
    Rfc,
    WillRevote,
    AddLabel { label: Seq<char> },
    RemoveLabel { label: Seq<char> },
    Unrecognized,
}

impl View for Directive {
    type V = DirectiveView;

    open spec fn view(&self) -> DirectiveView {
        match self {
            Directive::Vote { vote } => DirectiveView::Vote { vote: *vote },
            Directive::Rfc => DirectiveView::Rfc,
            Directive::WillRevote => DirectiveView::WillRevote,
            Directive::AddLabel { label } => DirectiveView::AddLabel { label: label@ },
            Directive::RemoveLabel { label } => DirectiveView::RemoveLabel { label: label@ },
            Directive::Unrecognized => DirectiveView::Unrecognized,
        }
    }
}

/// The view of a classification: of the directive if there is one, else the
/// error.
pub open spec fn classified(r: Result<Directive, ReduceError>) -> Result<DirectiveView, ReduceError> {
    match r {
        Ok(d) => Ok(d@),
        Err(e) => Err(e),
    }
}

/// The vote that a token in the form of a vote casts: the number it writes
/// once its leading backslashes are gone.
pub open spec fn vote_directive(token: Seq<char>) -> Result<DirectiveView, ReduceError> {
    match parse_i32(trim_backslashes(token)) {
        Some(vote) => Ok(DirectiveView::Vote { vote }),
        None => Err(ReduceError::InvalidVote),
    }
}

/// The label toggle that the capture groups of a token in the form of a
/// label toggle describe. Group 1 is the sign and group 2 the name; both must
/// be there. The sign counts without its leading backslashes: `+` adds the
/// label and `-` removes it. Any other sign asks for nothing.
pub open spec fn label_directive(groups: Seq<Option<Seq<char>>>) -> Result<
    DirectiveView,
    ReduceError,
> {
    if groups.len() < 2 || groups[1] is None {
        Err(ReduceError::MissingCapture)
    } else if groups.len() < 3 || groups[2] is None {
        Err(ReduceError::MissingCapture)
    } else {
        let sign = trim_backslashes(groups[1]->0);
        let label = groups[2]->0;
        if sign == "+"@ {
            Ok(DirectiveView::AddLabel { label })
        } else if sign == "-"@ {
            Ok(DirectiveView::RemoveLabel { label })
        } else {
            Ok(DirectiveView::Unrecognized)
        }
    }
}

/// What `token` asks for, given what the regular expressions say of it:
/// `is_vote` is the answer of the vote pattern, and `label_groups` are the
/// capture groups of the label pattern.
pub open spec fn classify_with(
    token: Seq<char>,
    is_vote: Option<bool>,
    label_groups: Option<Option<Seq<Option<Seq<char>>>>>,
) -> Result<DirectiveView, ReduceError> {
    match is_vote {
        None => Err(ReduceError::BrokenPattern),
        Some(true) => vote_directive(token),
        Some(false) => if token == "rfc"@ {
            Ok(DirectiveView::Rfc)
        } else if token == "will\\_revote"@ {
            Ok(DirectiveView::WillRevote)
        } else {
            match label_groups {
                None => Err(ReduceError::BrokenPattern),
                Some(None) => Ok(DirectiveView::Unrecognized),
                Some(Some(groups)) => label_directive(groups),
            }
        },
    }
}

/// What `token` asks for.
pub open spec fn classify(token: Seq<char>) -> Result<DirectiveView, ReduceError> {
    classify_with(
        token,
        regex_is_match(VOTE_PATTERN@, token),
        regex_captures(LABEL_PATTERN@, token),
    )
}

impl Directive {
    /// The vote that a token in the form of a vote casts.
    pub fn vote(token: &str) -> (r: Result<Directive, ReduceError>)
        ensures
            classified(r) == vote_directive(token@),
    {
        let digits = strip_backslashes(token);
        match parse_int(digits.as_str()) {
            Some(vote) => Ok(Directive::Vote { vote }),
            None => Err(ReduceError::InvalidVote),
        }
    }

    /// The label toggle that the capture groups of a token describe.
    pub fn label(groups: &Vec<Option<String>>) -> (r: Result<Directive, ReduceError>)
        ensures
            classified(r) == label_directive(groups.deep_view()),
    {
        if groups.len() < 2 {
            return Err(ReduceError::MissingCapture);
        }
        let sign = match &groups[1] {
            Some(sign) => strip_backslashes(sign.as_str()),
            None => {
                return Err(ReduceError::MissingCapture);
            },
        };
        if groups.len() < 3 {
            return Err(ReduceError::MissingCapture);
        }
        let label = match &groups[2] {
            Some(label) => label.clone(),
            None => {
                return Err(ReduceError::MissingCapture);
            },
        };
        if str_eq(sign.as_str(), "+") {
            Ok(Directive::AddLabel { label })
        } else if str_eq(sign.as_str(), "-") {
            Ok(Directive::RemoveLabel { label })
        } else {
            Ok(Directive::Unrecognized)
        }
    }

    /// What `token` asks for. The label pattern is asked only where the
    /// token is neither a vote nor one of the two words.
    pub fn of_token(token: &str) -> (r: Result<Directive, ReduceError>)
        ensures
            classified(r) == classify(token@),
    {
        match has_form(VOTE_PATTERN, token) {
            Err(e) => Err(e),
            Ok(true) => Directive::vote(token),
            Ok(false) => {
                if str_eq(token, "rfc") {
                    Ok(Directive::Rfc)
                } else if str_eq(token, "will\\_revote") {
                    Ok(Directive::WillRevote)
                } else {
                    match groups_of(LABEL_PATTERN, token) {
                        Err(e) => Err(e),
                        Ok(None) => Ok(Directive::Unrecognized),
                        Ok(Some(groups)) => Directive::label(&groups),
                    }
                }
            },
        }
    }
}

/// Whether `token` has the form that the regular expression `pattern`
/// describes. A pattern that is not accepted is an error.
pub fn has_form(pattern: &str, token: &str) -> (r: Result<bool, ReduceError>)
    ensures
        r == match regex_is_match(pattern@, token@) {
            Some(answer) => Ok::<bool, ReduceError>(answer),
            None => Err::<bool, ReduceError>(ReduceError::BrokenPattern),
        },
{
    match is_match(pattern, token) {
        Some(answer) => Ok(answer),
        None => Err(ReduceError::BrokenPattern),
    }
}

/// The view of an answer of [`groups_of`].
pub open spec fn groups_view(r: Result<Option<Vec<Option<String>>>, ReduceError>) -> Result<
    Option<Seq<Option<Seq<char>>>>,
    ReduceError,
> {
    match r {
        Ok(found) => Ok(found.deep_view()),
        Err(e) => Err(e),
    }
}

/// The text that each group of the regular expression `pattern` captures in
/// `token`; `None` where `token` has not the form that `pattern` describes.
/// A pattern that is not accepted is an error.
pub fn groups_of(pattern: &str, token: &str) -> (r: Result<
    Option<Vec<Option<String>>>,
    ReduceError,
>)
    ensures
        groups_view(r) == match regex_captures(pattern@, token@) {
            Some(found) => Ok::<Option<Seq<Option<Seq<char>>>>, ReduceError>(found),
            None => Err::<Option<Seq<Option<Seq<char>>>>, ReduceError>(
                ReduceError::BrokenPattern,
            ),
        },
{
    match captures(pattern, token) {
        Some(found) => Ok(found),
        None => Err(ReduceError::BrokenPattern),
    }
}

} // verus!
