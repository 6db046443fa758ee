//! The command dispatcher: resolving a submitted line to a callback handle.
//!
//! A submitted line is split on the first space; the leading token is looked
//! up in the registry. When it is found the host is told which handle to
//! invoke (the whole line stays available to the callback as its ambient
//! arguments); when it is not, a "Command not found" report is appended to
//! the transcript and no callback runs.

use vstd::prelude::*;
use crate::registry::CommandMap;
use crate::text::{push_chars, push_str_chars};

verus! {

/// The most recently submitted command line, readable by the invoked
/// callback as its arguments.
pub struct CommandArgs(pub Vec<char>);

/// What the dispatcher decided: invoke the callback registered under the
/// leading token, or report that no such command exists.
#[derive(Debug, Copy, Clone, PartialEq, Eq, Structural)]
pub enum DispatchOutcome {
    Invoke(u64),
    NotFound,
}

/// The length of the leading token of a line: the characters before the
/// first space (the whole line when it has no space).
pub open spec fn token_len(s: Seq<char>) -> int
    decreases s.len(),
{
    if s.len() == 0 {
        0
    } else if s[0] == ' ' {
        0
    } else {
        1 + token_len(s.drop_first())
    }
}

/// The leading token of a submitted line.
pub open spec fn token_of(s: Seq<char>) -> Seq<char> {
    s.take(token_len(s))
}

/// The transcript line reported for an unknown command token.
pub open spec fn not_found_line(token: Seq<char>) -> Seq<char> {
    "Command not found: "@ + token + seq!['\n']
}

/// The token ends exactly at the first space: if the first `i` characters
/// are not spaces and either the line ends there or a space follows, the
/// token has length `i`.
proof fn lemma_token_len_at(s: Seq<char>, i: int)
    requires
        0 <= i <= s.len(),
        forall|j: int| 0 <= j < i ==> s[j] != ' ',
        i == s.len() || s[i] == ' ',
    ensures
        token_len(s) == i,
    decreases s.len(),
{
    if s.len() == 0 {
    } else if i == 0 {
    } else {
        assert(s[0] != ' ');
        let t = s.drop_first();
        assert(forall|j: int| 0 <= j < i - 1 ==> t[j] != ' ');
        assert(i - 1 == t.len() || t[i - 1] == ' ');
        lemma_token_len_at(t, i - 1);
    }
}

/// Extract the leading token of a line: everything before the first space.
pub fn first_token(line: &Vec<char>) -> (r: Vec<char>)
    ensures
        r@ == token_of(line@),
{
    let n = line.len();
    let mut i: usize = 0;
    while i < n && line[i] != ' '
        invariant
            i <= n,
            n == line@.len(),
            forall|j: int| 0 <= j < i ==> line@[j] != ' ',
        decreases n - i,
    {
        i += 1;
    }
    proof {
        lemma_token_len_at(line@, i as int);
    }
    let mut tok: Vec<char> = Vec::new();
    let mut j: usize = 0;
    while j < i
        invariant
            j <= i <= n,
            n == line@.len(),
            tok@ == line@.subrange(0, j as int),
        decreases i - j,
    {
        tok.push(line[j]);
        assert(line@.subrange(0, j as int).push(line@[j as int]) =~= line@.subrange(
            0,
            j + 1,
        ));
        j += 1;
    }
    tok
}

/// One dispatch as a value: the new transcript and the outcome. The leading
/// token of the submitted line picks the registered handle to invoke; an
/// unregistered token leaves no handle to run and appends the not-found
/// report to the transcript instead.
pub open spec fn spec_dispatch(line: Seq<char>, m: CommandMap, transcript: Seq<char>) -> (
    Seq<char>,
    DispatchOutcome,
) {
    let tok = token_of(line);
    match m.spec_get(tok) {
        Some(h) => (transcript, DispatchOutcome::Invoke(h)),
        None => (transcript + not_found_line(tok), DispatchOutcome::NotFound),
    }
}

/// Dispatch a submitted command line.
///
/// The leading token of `args` is looked up in the registry. When it is
/// registered the outcome names the handle to invoke and the transcript is
/// untouched; otherwise the outcome is `NotFound` and the transcript gains
/// the line `Command not found: <token>` followed by a newline.
pub fn run_cmd(args: &CommandArgs, map: &CommandMap, transcript: &mut Vec<char>) -> (r:
    DispatchOutcome)
    requires
        map.wf(),
    ensures
        (final(transcript)@, r) == spec_dispatch(args.0@, *map, old(transcript)@),
{
    let tok = first_token(&args.0);
    match map.get(&tok) {
        Some(handle) => DispatchOutcome::Invoke(handle),
        None => {
            push_str_chars(transcript, "Command not found: ");
            push_chars(transcript, &tok);
            transcript.push('\n');
            assert(old(transcript)@ + "Command not found: "@ + tok@ + seq!['\n'] =~= old(
                transcript)@ + not_found_line(tok@));
            DispatchOutcome::NotFound
        },
    }
}

/// A submission that is empty or all spaces has an empty leading token, and
/// so is never a registered command as long as the empty name is not
/// registered: the dispatcher reports `Command not found: ` for it.
pub proof fn lemma_blank_submission_not_found(m: CommandMap, line: Seq<char>)
    requires
        forall|i: int| 0 <= i < line.len() ==> line[i] == ' ',
        !m.spec_contains(Seq::<char>::empty()),
    ensures
        token_of(line) == Seq::<char>::empty(),
        m.spec_get(token_of(line)) is None,
        not_found_line(token_of(line)) == "Command not found: "@ + seq!['\n'],
{
    assert(token_len(line) == 0);
    assert(line.take(0) =~= Seq::<char>::empty());
    assert("Command not found: "@ + Seq::<char>::empty() + seq!['\n'] =~= "Command not found: "@
        + seq!['\n']);
}

} // verus!
