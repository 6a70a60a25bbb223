//! Completion of the word under the cursor.

use vstd::prelude::*;
use crate::commands::{find_common_prefix, offered_prefix, string_views};
use crate::error::{message_text, SshError};
use crate::scan::{
    all_fit, copy_span, line_spans, lines, span_string, split_lines, split_tokens, starts_with,
    tokens, trimmed, trimmed_copy, whole, Span,
};
use crate::text::{chars_to_string, push_text, to_chars};

verus! {

/// A request for completions.
#[derive(Debug, Clone, PartialEq, Eq)]
pub struct TabCompletionRequest {
    pub session_id: String,
    pub input: String,
    pub cursor_position: usize,
}

/// The answer to a request for completions.
#[derive(Debug, Clone, PartialEq, Eq)]
pub struct TabCompletionResponse {
    pub success: bool,
    pub completions: Vec<String>,
    pub common_prefix: Option<String>,
    pub error: Option<String>,
}

/// The most completions that an answer lists.
pub const MAX_COMPLETIONS: usize = 50;

/// What is asked of the remote shell to complete a word.
#[derive(Debug, Clone, PartialEq, Eq)]
pub struct CompletionPlan {
    /// The word to complete.
    pub word: String,
    /// The command that lists the candidates.
    pub command: String,
}

/// The input up to the cursor: its first `cursor` characters, or all of it.
pub open spec fn before_cursor(input: Seq<char>, cursor: int) -> Seq<char> {
    if 0 <= cursor < input.len() {
        input.take(cursor)
    } else {
        input
    }
}

/// The word to complete: the last token before the cursor, or nothing.
pub open spec fn word_at_cursor(input: Seq<char>, cursor: int) -> Seq<char> {
    let t = tokens(before_cursor(input, cursor));
    if t.len() > 0 {
        t.last()
    } else {
        Seq::empty()
    }
}

/// Whether the word to complete is a command: the first token of the line.
pub open spec fn completes_command(input: Seq<char>, cursor: int) -> bool {
    tokens(before_cursor(input, cursor)).len() <= 1
}

/// The command that lists the commands that begin with `word`.
pub open spec fn command_candidates(word: Seq<char>) -> Seq<char> {
    "compgen -c "@ + word + " 2>/dev/null || echo"@
}

/// The command that lists the files that begin with `word`.
pub open spec fn file_candidates(word: Seq<char>) -> Seq<char> {
    "compgen -f "@ + word + " 2>/dev/null || ls -1ap "@ + word + " 2>/dev/null | grep '^"@ + word
        + "' || echo"@
}

/// Plans the completion of the word under the cursor, which is counted in
/// characters: the first word of a line is completed as a command, any
/// other as a file.
pub fn plan_completion(input: &str, cursor_position: usize) -> (plan: CompletionPlan)
    ensures
        plan.word@ == word_at_cursor(input@, cursor_position as int),
        plan.command@ == if completes_command(input@, cursor_position as int) {
            command_candidates(plan.word@)
        } else {
            file_candidates(plan.word@)
        },
{
    let all = to_chars(input);
    let end = if cursor_position < all.len() {
        cursor_position
    } else {
        all.len()
    };
    let v = copy_span(&all, Span { start: 0, end });
    assert(v@ == before_cursor(input@, cursor_position as int)) by {
        assert(all@.subrange(0, all@.len() as int) == all@);
    }
    let t = split_tokens(&v);
    let word = if t.len() > 0 {
        assert(t@[t@.len() - 1].fits(v@.len()));
        span_string(&v, t[t.len() - 1])
    } else {
        String::new()
    };
    let mut out: Vec<char> = Vec::new();
    if t.len() <= 1 {
        push_text(&mut out, "compgen -c ");
        push_text(&mut out, word.as_str());
        push_text(&mut out, " 2>/dev/null || echo");
    } else {
        push_text(&mut out, "compgen -f ");
        push_text(&mut out, word.as_str());
        push_text(&mut out, " 2>/dev/null || ls -1ap ");
        push_text(&mut out, word.as_str());
        push_text(&mut out, " 2>/dev/null | grep '^");
        push_text(&mut out, word.as_str());
        push_text(&mut out, "' || echo");
    }
    CompletionPlan { word, command: chars_to_string(&out) }
}

/// The completion that a line of candidates gives: a line that is not
/// empty and begins with the word, without the white space at its ends.
pub open spec fn completion_of_line(line: Seq<char>, word: Seq<char>) -> Option<Seq<char>> {
    if line.len() > 0 && word.is_prefix_of(line) {
        Some(trimmed(line))
    } else {
        None
    }
}

/// The completions that the lines from `k` on give.
pub open spec fn completions_from(ls: Seq<Seq<char>>, k: int, word: Seq<char>) -> Seq<Seq<char>>
    decreases ls.len() - k,
{
    if 0 <= k < ls.len() {
        match completion_of_line(ls[k], word) {
            Some(p) => seq![p] + completions_from(ls, k + 1, word),
            None => completions_from(ls, k + 1, word),
        }
    } else {
        Seq::empty()
    }
}

/// The completions that an answer lists for the candidates in `output`:
/// the first fifty.
pub open spec fn completions_of(output: Seq<char>, word: Seq<char>) -> Seq<Seq<char>> {
    let all = completions_from(lines(output), 0, word);
    if all.len() > MAX_COMPLETIONS {
        all.take(MAX_COMPLETIONS as int)
    } else {
        all
    }
}

/// The common prefix that an answer offers: that of two completions or
/// more.
pub open spec fn prefix_of_completions(completions: Seq<Seq<char>>) -> Option<Seq<char>> {
    if completions.len() > 1 {
        offered_prefix(completions)
    } else {
        None
    }
}

/// Reads the candidates for `word` in `output`.
pub fn parse_completions(output: &str, word: &str) -> (r: Vec<String>)
    ensures
        string_views(r@) == completions_of(output@, word@),
{
    let v = to_chars(output);
    let ls = split_lines(&v);
    let ghost all = lines(output@);
    let mut r: Vec<String> = Vec::new();
    let mut k: usize = 0;
    assert(string_views(r@) + completions_from(all, 0, word@) == completions_from(all, 0, word@));
    while k < ls.len()
        invariant
            k <= ls@.len(),
            v@ == output@,
            ls@ == line_spans(v@),
            all == lines(output@),
            all_fit(ls@, v@.len()),
            string_views(r@) + completions_from(all, k as int, word@) == completions_from(
                all,
                0,
                word@,
            ),
        decreases ls@.len() - k,
    {
        assert(ls@[k as int].fits(v@.len()));
        let line = copy_span(&v, ls[k]);
        assert(line@ == all[k as int]);
        let ghost before = string_views(r@);
        let w = whole(&line);
        if line.len() > 0 && starts_with(&line, w, word) {
            let t = trimmed_copy(&line);
            let s = chars_to_string(&t);
            r.push(s);
            assert(string_views(r@) =~= before.push(s@));
            assert(before.push(s@) + completions_from(all, k + 1, word@) == before + (seq![s@]
                + completions_from(all, k + 1, word@)));
        }
        k += 1;
    }
    assert(completions_from(all, k as int, word@) == Seq::<Seq<char>>::empty());
    assert(string_views(r@) + Seq::<Seq<char>>::empty() == string_views(r@));
    let ghost full = string_views(r@);
    if r.len() > MAX_COMPLETIONS {
        r.truncate(MAX_COMPLETIONS);
        assert(string_views(r@) =~= full.take(MAX_COMPLETIONS as int));
    }
    r
}

/// The answer for the candidates that the command listed, or for the error
/// that it ended with.
pub fn completion_response(word: &str, result: Result<String, SshError>) -> (r:
    TabCompletionResponse)
    ensures
        match result {
            Ok(output) => {
                let c = completions_of(output@, word@);
                &&& r.success
                &&& r.error is None
                &&& string_views(r.completions@) == c
                &&& match r.common_prefix {
                    Some(p) => prefix_of_completions(c) == Some(p@),
                    None => prefix_of_completions(c) is None,
                }
            },
            Err(e) => !r.success && r.completions@.len() == 0 && r.common_prefix is None
                && r.error is Some && r.error->0@ == message_text(e),
        },
{
    match result {
        Ok(output) => {
            let completions = parse_completions(output.as_str(), word);
            let common_prefix = if completions.len() > 1 {
                find_common_prefix(completions.as_slice())
            } else {
                None
            };
            TabCompletionResponse { success: true, completions, common_prefix, error: None }
        },
        Err(e) => TabCompletionResponse {
            success: false,
            completions: Vec::new(),
            common_prefix: None,
            error: Some(e.message()),
        },
    }
}

} // verus!
