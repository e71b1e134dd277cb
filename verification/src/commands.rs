//! The commands that participants write into their comments.
//!
//! A command is one token of a line of a top-level comment whose first token
//! is the marker `!g`. What a command means is decided elsewhere, see
//! [`crate::directive`]; here the tokens are only found.
use crate::bitbucket::{ActivityItem, Comment};
use crate::model::command_marker;
use crate::text::{chars_of, owned, str_eq, string_from_chars};
use crate::tokens::{lines, split_lines, split_tokens, tokens};
use vstd::prelude::*;

verus! {

/// One command and the user who gave it.
#[derive(Debug, PartialEq, Eq)]
pub struct UserCommand {
    pub user: String,
    pub command: String,
}

/// A command as plain text.
pub struct UserCommandView {
    pub user: Seq<char>,
    pub command: Seq<char>,
}

impl View for UserCommand {
    type V = UserCommandView;

    open spec fn view(&self) -> UserCommandView {
        UserCommandView { user: self.user@, command: self.command@ }
    }
}

impl Clone for UserCommand {
    fn clone(&self) -> (r: Self)
        ensures
            r == *self,
    {
        UserCommand { user: self.user.clone(), command: self.command.clone() }
    }
}

/// A command in its plain form: one that starts with `\+` loses the
/// backslash, which the comment editor puts in front of a plus sign.
pub open spec fn plain_command(command: Seq<char>) -> Seq<char> {
    if command.len() >= 2 && command[0] == '\\' && command[1] == '+' {
        command.skip(1)
    } else {
        command
    }
}

impl UserCommand {
    /// The command `command` of `user`, in its plain form.
    pub fn new(user: &str, command: &str) -> (r: UserCommand)
        ensures
            r.user@ == user@,
            r.command@ == plain_command(command@),
    {
        let chars = chars_of(command);
        let n = chars.len();
        let command = if n >= 2 && chars[0] == '\\' && chars[1] == '+' {
            proof {
                assert(chars@.subrange(1, n as int) =~= chars@.skip(1));
            }
            string_from_chars(&chars, 1, n)
        } else {
            owned(command)
        };
        UserCommand { user: owned(user), command }
    }
}

/// The commands on one line: the tokens after the marker, where the line
/// starts with the marker, and none otherwise.
pub open spec fn line_commands(line: Seq<char>) -> Seq<Seq<char>> {
    let words = tokens(line);
    if words.len() > 0 && words[0] == command_marker() {
        words.skip(1)
    } else {
        Seq::empty()
    }
}

/// The commands on the first `n` of `lines`, in order.
pub open spec fn commands_of_lines(lines: Seq<Seq<char>>, n: int) -> Seq<Seq<char>>
    decreases n,
{
    if n <= 0 {
        Seq::empty()
    } else {
        commands_of_lines(lines, n - 1) + line_commands(lines[n - 1])
    }
}

/// The commands in the text `raw` of a comment, in order.
pub open spec fn comment_commands(raw: Seq<char>) -> Seq<Seq<char>> {
    commands_of_lines(lines(raw), lines(raw).len() as int)
}

/// The commands `commands`, each as a command of `user`.
pub open spec fn commands_by(user: Seq<char>, commands: Seq<Seq<char>>) -> Seq<UserCommandView> {
    Seq::new(commands.len(), |i: int| UserCommandView { user, command: commands[i] })
}

/// The views of a list of commands.
pub open spec fn commands_view(commands: Seq<UserCommand>) -> Seq<UserCommandView> {
    Seq::new(commands.len(), |i: int| commands[i]@)
}

/// The token with which the approval button counts among the commands.
pub open spec fn approval_command() -> Seq<char> {
    "\\+1"@
}

/// The commands that one entry of the activity log holds: those in the text
/// of a top-level comment, for its author; a vote of +1 for an approval;
/// none for a reply or a push.
pub open spec fn item_commands(item: ActivityItem) -> Seq<UserCommandView> {
    match item {
        ActivityItem::Comment { comment } => if comment.parent is None {
            commands_by(comment.user.username@, comment_commands(comment.content.raw@))
        } else {
            Seq::empty()
        },
        ActivityItem::Approval { approval } => seq![
            UserCommandView { user: approval.user.username@, command: approval_command() },
        ],
        ActivityItem::Update { .. } => Seq::empty(),
    }
}

/// The commands in the first `n` entries of `items`, in order.
pub open spec fn commands_of_items(items: Seq<ActivityItem>, n: int) -> Seq<UserCommandView>
    decreases n,
{
    if n <= 0 {
        Seq::empty()
    } else {
        commands_of_items(items, n - 1) + item_commands(items[n - 1])
    }
}

/// The top-level comments among the first `n` entries of `items`, in order.
pub open spec fn toplevel_of(items: Seq<ActivityItem>, n: int) -> Seq<Comment>
    decreases n,
{
    if n <= 0 {
        Seq::empty()
    } else {
        match items[n - 1] {
            ActivityItem::Comment { comment } => if comment.parent is None {
                toplevel_of(items, n - 1).push(comment)
            } else {
                toplevel_of(items, n - 1)
            },
            _ => toplevel_of(items, n - 1),
        }
    }
}

/// Appends to `out` the commands on `line`, as commands of `user`.
fn push_line_commands(out: &mut Vec<UserCommand>, user: &str, line: &str)
    ensures
        commands_view(final(out)@) == commands_view(old(out)@) + commands_by(
            user@,
            line_commands(line@),
        ),
{
    let ghost before = commands_view(out@);
    let words = split_tokens(line);
    proof {
        if words@.len() > 0 {
            assert(words.deep_view()[0] == words@[0]@);
        }
    }
    if words.len() > 0 && str_eq(words[0].as_str(), "!g") {
        let ghost found = words.deep_view().skip(1);
        let mut i: usize = 1;
        proof {
            assert(commands_view(out@) =~= before + commands_by(user@, found.take(0)));
        }
        while i < words.len()
            invariant
                1 <= i <= words@.len(),
                found == words.deep_view().skip(1),
                commands_view(out@) == before + commands_by(user@, found.take(i - 1)),
            decreases words@.len() - i,
        {
            let ghost so_far = commands_view(out@);
            out.push(UserCommand { user: owned(user), command: words[i].clone() });
            proof {
                assert(found[i - 1] == words@[i as int]@);
                assert(commands_view(out@) =~= so_far.push(
                    UserCommandView { user: user@, command: found[i - 1] },
                ));
                assert(commands_view(out@) =~= before + commands_by(user@, found.take(i as int)));
            }
            i += 1;
        }
        proof {
            assert(found.take(words@.len() - 1) =~= found);
        }
    } else {
        proof {
            assert(commands_view(out@) =~= before + commands_by(
                user@,
                Seq::<Seq<char>>::empty(),
            ));
        }
    }
}

/// The commands that `user` gives in a top-level comment with the text
/// `raw`, in order.
pub fn parse_commands(user: &str, raw: &str) -> (r: Vec<UserCommand>)
    ensures
        commands_view(r@) == commands_by(user@, comment_commands(raw@)),
{
    let mut out: Vec<UserCommand> = Vec::new();
    let all = split_lines(raw);
    let ghost texts = all.deep_view();
    let mut i: usize = 0;
    proof {
        assert(commands_view(out@) =~= commands_by(user@, commands_of_lines(texts, 0)));
    }
    while i < all.len()
        invariant
            i <= all@.len(),
            texts == all.deep_view(),
            commands_view(out@) == commands_by(user@, commands_of_lines(texts, i as int)),
        decreases all@.len() - i,
    {
        proof {
            assert(texts[i as int] == all@[i as int]@);
        }
        push_line_commands(&mut out, user, all[i].as_str());
        proof {
            assert(commands_by(user@, commands_of_lines(texts, i as int)) + commands_by(
                user@,
                line_commands(texts[i as int]),
            ) =~= commands_by(user@, commands_of_lines(texts, i as int + 1)));
        }
        i += 1;
    }
    out
}

/// The commands in the activity `act_items`, in order: those of the
/// top-level comments, and for each approval a vote of +1 by the one who
/// approved.
pub fn get_commands(act_items: Vec<ActivityItem>) -> (r: Vec<UserCommand>)
    ensures
        commands_view(r@) == commands_of_items(act_items@, act_items@.len() as int),
{
    let mut out: Vec<UserCommand> = Vec::new();
    let mut i: usize = 0;
    proof {
        assert(commands_view(out@) =~= commands_of_items(act_items@, 0));
    }
    while i < act_items.len()
        invariant
            i <= act_items@.len(),
            commands_view(out@) == commands_of_items(act_items@, i as int),
        decreases act_items@.len() - i,
    {
        let ghost so_far = commands_view(out@);
        match &act_items[i] {
            ActivityItem::Comment { comment } => {
                if comment.is_top_level() {
                    let mut found = parse_commands(
                        comment.user.username.as_str(),
                        comment.content.raw.as_str(),
                    );
                    let ghost added = commands_view(found@);
                    out.append(&mut found);
                    proof {
                        assert(commands_view(out@) =~= so_far + added);
                    }
                } else {
                    proof {
                        assert(so_far + Seq::<UserCommandView>::empty() =~= so_far);
                    }
                }
            },
            ActivityItem::Approval { approval } => {
                out.push(
                    UserCommand { user: approval.user.username.clone(), command: owned("\\+1") },
                );
                proof {
                    assert(commands_view(out@) =~= so_far + seq![
                        UserCommandView {
                            user: approval.user.username@,
                            command: approval_command(),
                        },
                    ]);
                }
            },
            ActivityItem::Update { .. } => {
                proof {
                    assert(so_far + Seq::<UserCommandView>::empty() =~= so_far);
                }
            },
        }
        i += 1;
    }
    out
}

/// The top-level comments in the activity `act_items`, in order.
pub fn toplevel_comments(act_items: Vec<ActivityItem>) -> (r: Vec<Comment>)
    ensures
        r@ == toplevel_of(act_items@, act_items@.len() as int),
{
    let mut out: Vec<Comment> = Vec::new();
    let mut i: usize = 0;
    while i < act_items.len()
        invariant
            i <= act_items@.len(),
            out@ == toplevel_of(act_items@, i as int),
        decreases act_items@.len() - i,
    {
        match &act_items[i] {
            ActivityItem::Comment { comment } => {
                if comment.is_top_level() {
                    out.push(comment.clone());
                }
            },
            _ => {},
        }
        i += 1;
    }
    out
}

} // verus!
