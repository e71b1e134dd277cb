//! Splitting comment text into lines and lines into whitespace-separated
//! tokens.
use crate::text::{chars_of, is_whitespace, is_whitespace_char, string_from_chars};
use vstd::prelude::*;

verus! {

/// The lines of `s`: the pieces between its newline characters. A newline
/// closes the current line and opens a new, empty one; any other character
/// extends the current line. The text without newlines is a single line.
pub open spec fn lines(s: Seq<char>) -> Seq<Seq<char>>
    decreases s.len(),
{
    if s.len() == 0 {
        seq![Seq::empty()]
    } else {
        let before = lines(s.drop_last());
        if s.last() == '\n' {
            before.push(Seq::empty())
        } else {
            before.drop_last().push(before.last().push(s.last()))
        }
    }
}

/// The tokens of `s`: its maximal runs of characters that are not whitespace,
/// in order. Whitespace adds nothing; another character extends the last
/// token when it directly follows one, and starts a new token otherwise.
pub open spec fn tokens(s: Seq<char>) -> Seq<Seq<char>>
    decreases s.len(),
{
    if s.len() == 0 {
        Seq::empty()
    } else {
        let before = tokens(s.drop_last());
        let c = s.last();
        if is_whitespace_char(c) {
            before
        } else if s.len() >= 2 && !is_whitespace_char(s[s.len() - 2]) {
            before.drop_last().push(before.last().push(c))
        } else {
            before.push(seq![c])
        }
    }
}

/// There is always at least one line.
pub proof fn lemma_lines_nonempty(s: Seq<char>)
    ensures
        lines(s).len() >= 1,
    decreases s.len(),
{
    if s.len() > 0 {
        lemma_lines_nonempty(s.drop_last());
    }
}

/// A text whose last character is not whitespace has a last token.
pub proof fn lemma_tokens_nonempty(s: Seq<char>)
    requires
        s.len() > 0,
        !is_whitespace_char(s.last()),
    ensures
        tokens(s).len() >= 1,
    decreases s.len(),
{
    if s.len() >= 2 && !is_whitespace_char(s[s.len() - 2]) {
        lemma_tokens_nonempty(s.drop_last());
    }
}

/// Every token is non-empty and holds no whitespace.
pub proof fn lemma_tokens_are_words(s: Seq<char>, k: int)
    requires
        0 <= k < tokens(s).len(),
    ensures
        tokens(s)[k].len() > 0,
        forall|j: int| 0 <= j < tokens(s)[k].len() ==> !is_whitespace_char(#[trigger] tokens(s)[k][j]),
    decreases s.len(),
{
    if s.len() > 0 {
        let before = tokens(s.drop_last());
        let c = s.last();
        if is_whitespace_char(c) {
            lemma_tokens_are_words(s.drop_last(), k);
        } else if s.len() >= 2 && !is_whitespace_char(s[s.len() - 2]) {
            lemma_tokens_nonempty(s.drop_last());
            if k < before.len() - 1 {
                lemma_tokens_are_words(s.drop_last(), k);
            } else {
                lemma_tokens_are_words(s.drop_last(), before.len() - 1);
            }
        } else {
            if k < before.len() {
                lemma_tokens_are_words(s.drop_last(), k);
            }
        }
    }
}

/// No line holds a newline.
pub proof fn lemma_lines_hold_no_newline(s: Seq<char>, k: int)
    requires
        0 <= k < lines(s).len(),
    ensures
        forall|j: int| 0 <= j < lines(s)[k].len() ==> #[trigger] lines(s)[k][j] != '\n',
    decreases s.len(),
{
    if s.len() > 0 {
        let before = lines(s.drop_last());
        lemma_lines_nonempty(s.drop_last());
        if s.last() == '\n' {
            if k < before.len() {
                lemma_lines_hold_no_newline(s.drop_last(), k);
            }
        } else {
            if k < before.len() - 1 {
                lemma_lines_hold_no_newline(s.drop_last(), k);
            } else {
                lemma_lines_hold_no_newline(s.drop_last(), before.len() - 1);
            }
        }
    }
}

/// The lines `ls` put together again, with a newline between each two.
pub open spec fn join_lines(ls: Seq<Seq<char>>) -> Seq<char>
    decreases ls.len(),
{
    if ls.len() == 0 {
        Seq::empty()
    } else if ls.len() == 1 {
        ls[0]
    } else {
        join_lines(ls.drop_last()) + seq!['\n'] + ls.last()
    }
}

/// The lines of a text, put together again, are the text: nothing but the
/// newlines is lost in splitting, and nothing is out of order.
pub proof fn lemma_lines_rejoin(s: Seq<char>)
    ensures
        join_lines(lines(s)) == s,
    decreases s.len(),
{
    if s.len() == 0 {
        assert(join_lines(lines(s)) =~= s);
    } else {
        let rest = s.drop_last();
        let before = lines(rest);
        lemma_lines_nonempty(rest);
        lemma_lines_rejoin(rest);
        assert(s =~= rest.push(s.last()));
        if s.last() == '\n' {
            let after = before.push(Seq::empty());
            assert(after.drop_last() =~= before);
            assert(join_lines(after) =~= rest.push('\n'));
        } else {
            let grown = before.last().push(s.last());
            let after = before.drop_last().push(grown);
            assert(after.drop_last() =~= before.drop_last());
            if before.len() == 1 {
                assert(join_lines(after) =~= rest.push(s.last()));
            } else {
                assert(join_lines(after) =~= join_lines(before.drop_last()) + seq!['\n'] + grown);
                assert(join_lines(after) =~= rest.push(s.last()));
            }
        }
    }
}

/// The tokens `ts` written one after the other.
pub open spec fn concat_tokens(ts: Seq<Seq<char>>) -> Seq<char>
    decreases ts.len(),
{
    if ts.len() == 0 {
        Seq::empty()
    } else {
        concat_tokens(ts.drop_last()) + ts.last()
    }
}

/// `s` without its whitespace.
pub open spec fn without_whitespace(s: Seq<char>) -> Seq<char>
    decreases s.len(),
{
    if s.len() == 0 {
        Seq::empty()
    } else if is_whitespace_char(s.last()) {
        without_whitespace(s.drop_last())
    } else {
        without_whitespace(s.drop_last()).push(s.last())
    }
}

/// The number of places in `s` where a token starts: a character that is
/// not whitespace and stands first or behind whitespace.
pub open spec fn token_starts(s: Seq<char>) -> nat
    decreases s.len(),
{
    if s.len() == 0 {
        0
    } else if !is_whitespace_char(s.last()) && (s.len() == 1 || is_whitespace_char(
        s[s.len() - 2],
    )) {
        token_starts(s.drop_last()) + 1
    } else {
        token_starts(s.drop_last())
    }
}

/// The tokens of a text, written one after the other, are the text without
/// its whitespace; and there are as many tokens as places where one starts.
/// With [`lemma_tokens_are_words`] this makes the tokens the maximal runs of
/// characters that are not whitespace, in order.
pub proof fn lemma_tokens_keep_the_text(s: Seq<char>)
    ensures
        concat_tokens(tokens(s)) == without_whitespace(s),
        tokens(s).len() == token_starts(s),
    decreases s.len(),
{
    if s.len() > 0 {
        let rest = s.drop_last();
        let before = tokens(rest);
        let c = s.last();
        lemma_tokens_keep_the_text(rest);
        if is_whitespace_char(c) {
        } else if s.len() >= 2 && !is_whitespace_char(s[s.len() - 2]) {
            assert(rest.last() == s[s.len() - 2]);
            lemma_tokens_nonempty(rest);
            let after = before.drop_last().push(before.last().push(c));
            assert(after.drop_last() =~= before.drop_last());
            assert(concat_tokens(after) =~= concat_tokens(before).push(c));
        } else {
            let after = before.push(seq![c]);
            assert(after.drop_last() =~= before);
            assert(concat_tokens(after) =~= concat_tokens(before).push(c));
        }
    }
}

/// Splits `text` at its newline characters.
pub fn split_lines(text: &str) -> (r: Vec<String>)
    ensures
        r.deep_view() == lines(text@),
{
    let chars = chars_of(text);
    let mut out: Vec<String> = Vec::new();
    let mut start: usize = 0;
    let mut i: usize = 0;
    proof {
        assert(chars@.take(0) =~= Seq::<char>::empty());
        assert(out.deep_view().push(chars@.subrange(0, 0)) =~= seq![Seq::<char>::empty()]);
    }
    while i < chars.len()
        invariant
            start <= i <= chars@.len(),
            lines(chars@.take(i as int)) == out.deep_view().push(
                chars@.subrange(start as int, i as int),
            ),
        decreases chars@.len() - i,
    {
        let ghost done = out.deep_view();
        let ghost current = chars@.subrange(start as int, i as int);
        proof {
            assert(chars@.take(i as int + 1).drop_last() =~= chars@.take(i as int));
        }
        if chars[i] == '\n' {
            let line = string_from_chars(&chars, start, i);
            out.push(line);
            start = i + 1;
            proof {
                assert(out.deep_view() =~= done.push(current));
                assert(chars@.subrange(start as int, start as int) =~= Seq::<char>::empty());
            }
        } else {
            proof {
                assert(done.push(current).drop_last() =~= done);
                assert(current.push(chars@[i as int]) =~= chars@.subrange(
                    start as int,
                    i as int + 1,
                ));
            }
        }
        i += 1;
    }
    let ghost done = out.deep_view();
    let line = string_from_chars(&chars, start, chars.len());
    out.push(line);
    proof {
        assert(chars@.take(chars@.len() as int) =~= chars@);
        assert(out.deep_view() =~= done.push(chars@.subrange(start as int, chars@.len() as int)));
    }
    out
}

/// Splits `line` at whitespace, dropping the whitespace.
pub fn split_tokens(line: &str) -> (r: Vec<String>)
    ensures
        r.deep_view() == tokens(line@),
{
    let chars = chars_of(line);
    let mut out: Vec<String> = Vec::new();
    let mut start: usize = 0;
    let mut in_token = false;
    let mut i: usize = 0;
    proof {
        assert(chars@.take(0) =~= Seq::<char>::empty());
        assert(out.deep_view() =~= Seq::<Seq<char>>::empty());
    }
    while i < chars.len()
        invariant
            i <= chars@.len(),
            in_token ==> start < i && !is_whitespace_char(chars@[i as int - 1]) && tokens(
                chars@.take(i as int),
            ) == out.deep_view().push(chars@.subrange(start as int, i as int)),
            !in_token ==> (i == 0 || is_whitespace_char(chars@[i as int - 1])) && tokens(
                chars@.take(i as int),
            ) == out.deep_view(),
        decreases chars@.len() - i,
    {
        let ghost done = out.deep_view();
        let ghost current = chars@.subrange(start as int, i as int);
        proof {
            assert(chars@.take(i as int + 1).drop_last() =~= chars@.take(i as int));
        }
        if is_whitespace(chars[i]) {
            if in_token {
                let token = string_from_chars(&chars, start, i);
                out.push(token);
                in_token = false;
                proof {
                    assert(out.deep_view() =~= done.push(current));
                }
            }
        } else {
            if in_token {
                proof {
                    assert(done.push(current).drop_last() =~= done);
                    assert(current.push(chars@[i as int]) =~= chars@.subrange(
                        start as int,
                        i as int + 1,
                    ));
                }
            } else {
                start = i;
                in_token = true;
                proof {
                    assert(seq![chars@[i as int]] =~= chars@.subrange(i as int, i as int + 1));
                }
            }
        }
        i += 1;
    }
    proof {
        assert(chars@.take(chars@.len() as int) =~= chars@);
    }
    if in_token {
        let ghost done = out.deep_view();
        let token = string_from_chars(&chars, start, chars.len());
        out.push(token);
        proof {
            assert(out.deep_view() =~= done.push(
                chars@.subrange(start as int, chars@.len() as int),
            ));
        }
    }
    out
}

} // verus!
