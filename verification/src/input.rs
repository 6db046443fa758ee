//! The per-frame input router, active only while the console is open.
//!
//! Each frame it handles, in priority order: Enter (submit the line),
//! Backspace (delete one character), Tab (list the registered commands that
//! start with the current line), and otherwise the frame's typed characters
//! (appended to the line, control characters filtered out). The priority
//! order keeps the editing keys from also being inserted as literal
//! characters by the catch-all branch, and the toggle key's own character is
//! swallowed on the frame it closes the console.

use vstd::prelude::*;
use crate::dispatch::CommandArgs;
use crate::registry::CommandMap;
use crate::text::{is_prefix_of, push_str_chars, starts_with};

verus! {

/// The edit keys the router looks at, as "just pressed this frame" flags
/// polled from the host input source.
#[derive(Debug, Copy, Clone, PartialEq, Eq, Structural)]
pub struct FrameKeys {
    pub enter: bool,
    pub backspace: bool,
    pub tab: bool,
    pub backquote: bool,
}

/// A control character: one the router refuses to append to the input line.
/// These are the Unicode control codes, the only characters `char` counts as
/// non-printable control input.
pub open spec fn is_control_char(c: char) -> bool {
    (c as u32) < 0x20 || (0x7F <= (c as u32) && (c as u32) <= 0x9F)
}

/// Whether `c` is a control character; see [`is_control_char`].
pub fn is_control(c: char) -> (r: bool)
    ensures
        r == is_control_char(c),
{
    let u = c as u32;
    u < 0x20 || (0x7F <= u && u <= 0x9F)
}

/// The typed characters of a frame with the control characters removed, in
/// order.
pub open spec fn printable_only(cs: Seq<char>) -> Seq<char>
    decreases cs.len(),
{
    if cs.len() == 0 {
        Seq::empty()
    } else if is_control_char(cs.last()) {
        printable_only(cs.drop_last())
    } else {
        printable_only(cs.drop_last()).push(cs.last())
    }
}

/// What one backspace press does to the input line: removes the last
/// character, and leaves an empty line empty.
pub open spec fn spec_backspace(buf: Seq<char>) -> Seq<char> {
    if buf.len() > 0 {
        buf.drop_last()
    } else {
        buf
    }
}

/// The listing a Tab press appends for the registered names that start with
/// `prefix`: each match in registry order followed by a space.
pub open spec fn tab_listing(names: Seq<Seq<char>>, prefix: Seq<char>) -> Seq<char>
    decreases names.len(),
{
    if names.len() == 0 {
        Seq::empty()
    } else if is_prefix_of(prefix, names.last()) {
        tab_listing(names.drop_last(), prefix) + names.last() + seq![' ']
    } else {
        tab_listing(names.drop_last(), prefix)
    }
}

/// Some registered name starts with `prefix`.
pub open spec fn any_match(names: Seq<Seq<char>>, prefix: Seq<char>) -> bool {
    exists|i: int| 0 <= i < names.len() && is_prefix_of(prefix, names[i])
}

/// Everything a Tab press appends to the transcript: the space-separated
/// matches ended by a newline, or a fixed report when nothing matches.
pub open spec fn tab_report(names: Seq<Seq<char>>, prefix: Seq<char>) -> Seq<char> {
    if any_match(names, prefix) {
        tab_listing(names, prefix) + seq!['\n']
    } else {
        "No commands start with that.\n"@
    }
}

/// One routed frame as a value: the new input line, the new transcript, and
/// the submitted command line if Enter was pressed. Exactly one branch
/// acts, in priority order: Enter submits the line (leaving it empty and
/// echoing it to the transcript with a newline), else Backspace deletes the
/// last character, else Tab appends the matching-command listing to the
/// transcript, else — unless the toggle key was just pressed — the frame's
/// typed characters are appended to the line with control characters
/// filtered out.
pub open spec fn route_input(
    keys: FrameKeys,
    chars: Seq<char>,
    names: Seq<Seq<char>>,
    input: Seq<char>,
    transcript: Seq<char>,
) -> (Seq<char>, Seq<char>, Option<Seq<char>>) {
    if keys.enter {
        (Seq::empty(), transcript + input + seq!['\n'], Some(input))
    } else if keys.backspace {
        (spec_backspace(input), transcript, None)
    } else if keys.tab {
        (input, transcript + tab_report(names, input), None)
    } else if !keys.backquote {
        (input + printable_only(chars), transcript, None)
    } else {
        (input, transcript, None)
    }
}

/// Route one open-console frame of keyboard input.
///
/// Exactly one branch acts, in priority order:
/// - Enter: the input line is taken (left empty), echoed to the transcript
///   with a newline, and returned as the submitted command line;
/// - else Backspace: the last character of the input line is removed (an
///   empty line stays empty);
/// - else Tab: the registered names starting with the input line are listed
///   on the transcript, which the input line itself is not changed by;
/// - else, unless the toggle key was just pressed: the frame's typed
///   characters are appended to the input line in order, control characters
///   filtered out;
/// - on a toggle press nothing changes (the console is about to close).
pub fn text_input(
    keys: &FrameKeys,
    chars: &Vec<char>,
    map: &CommandMap,
    input: &mut Vec<char>,
    transcript: &mut Vec<char>,
) -> (submitted: Option<CommandArgs>)
    ensures
        ({
            let (inp, tr, sub) = route_input(
                *keys,
                chars@,
                map.names(),
                old(input)@,
                old(transcript)@,
            );
            final(input)@ == inp && final(transcript)@ == tr && (match sub {
                Some(line) => submitted matches Some(a) && a.0@ == line,
                None => submitted is None,
            })
        }),
{
    if keys.enter {
        let mut line: Vec<char> = Vec::new();
        core::mem::swap(input, &mut line);
        let n = line.len();
        let mut i: usize = 0;
        while i < n
            invariant
                i <= n,
                n == line@.len(),
                transcript@ == old(transcript)@ + line@.subrange(0, i as int),
            decreases n - i,
        {
            transcript.push(line[i]);
            assert(old(transcript)@ + line@.subrange(0, i as int) + seq![line@[i as int]]
                =~= old(transcript)@ + line@.subrange(0, i + 1));
            i += 1;
        }
        assert(line@.subrange(0, n as int) =~= line@);
        transcript.push('\n');
        Some(CommandArgs(line))
    } else if keys.backspace {
        if input.len() > 0 {
            input.pop();
        }
        None
    } else if keys.tab {
        tab_complete(map, input, transcript);
        None
    } else if !keys.backquote {
        let n = chars.len();
        let mut i: usize = 0;
        while i < n
            invariant
                i <= n,
                n == chars@.len(),
                input@ == old(input)@ + printable_only(chars@.subrange(0, i as int)),
            decreases n - i,
        {
            let c = chars[i];
            proof {
                assert(chars@.subrange(0, i + 1).drop_last() =~= chars@.subrange(0, i as int));
                assert(chars@.subrange(0, i + 1).last() == chars@[i as int]);
            }
            if !is_control(c) {
                input.push(c);
            }
            i += 1;
        }
        assert(chars@.subrange(0, n as int) =~= chars@);
        None
    } else {
        None
    }
}

/// Append to the transcript the Tab listing for the current input line: every
/// registered name starting with it, in registry order and space-separated,
/// ended by a newline — or the fixed no-match report. This is a listing aid
/// only: the input line is not completed or otherwise changed.
fn tab_complete(map: &CommandMap, input: &Vec<char>, transcript: &mut Vec<char>)
    ensures
        final(transcript)@ == old(transcript)@ + tab_report(map.names(), input@),
{
    let ghost names = map.names();
    let n = map.entries.len();
    let mut found = false;
    let mut i: usize = 0;
    while i < n
        invariant
            i <= n,
            n == map.entries@.len(),
            names == map.names(),
            transcript@ == old(transcript)@ + tab_listing(names.take(i as int), input@),
            found == any_match(names.take(i as int), input@),
        decreases n - i,
    {
        proof {
            assert(names.take(i + 1).drop_last() =~= names.take(i as int));
            assert(names.take(i + 1).last() == names[i as int]);
            assert(names[i as int] == map.entries@[i as int].name@);
        }
        if starts_with(&map.entries[i].name, input) {
            let name = &map.entries[i].name;
            let m = name.len();
            let mut j: usize = 0;
            while j < m
                invariant
                    j <= m,
                    m == name@.len(),
                    transcript@ == old(transcript)@ + tab_listing(names.take(i as int), input@)
                        + name@.subrange(0, j as int),
                decreases m - j,
            {
                transcript.push(name[j]);
                assert(old(transcript)@ + tab_listing(names.take(i as int), input@)
                    + name@.subrange(0, j as int) + seq![name@[j as int]] =~= old(transcript)@
                    + tab_listing(names.take(i as int), input@) + name@.subrange(0, j + 1));
                j += 1;
            }
            assert(name@.subrange(0, m as int) =~= name@);
            transcript.push(' ');
            found = true;
            proof {
                assert(old(transcript)@ + tab_listing(names.take(i as int), input@) + name@
                    + seq![' '] =~= old(transcript)@ + (tab_listing(names.take(i as int), input@)
                    + name@ + seq![' ']));
                assert(any_match(names.take(i + 1), input@)) by {
                    assert(names.take(i + 1)[i as int] == names[i as int]);
                }
            }
        } else {
            proof {
                assert(found == any_match(names.take(i + 1), input@)) by {
                    if any_match(names.take(i + 1), input@) && !found {
                        let w = choose|k: int|
                            0 <= k < names.take(i + 1).len() && #[trigger] is_prefix_of(
                                input@,
                                names.take(i + 1)[k],
                            );
                        assert(0 <= w < i + 1);
                        assert(names.take(i + 1)[w] == names[w]);
                        if w < i {
                            assert(names.take(i as int)[w] == names[w]);
                            assert(any_match(names.take(i as int), input@));
                        }
                    }
                    if found {
                        let w = choose|k: int|
                            0 <= k < i && #[trigger] is_prefix_of(input@, names.take(i as int)[k]);
                        assert(names.take(i + 1)[w] == names.take(i as int)[w]);
                        assert(any_match(names.take(i + 1), input@));
                    }
                }
            }
        }
        i += 1;
    }
    proof {
        assert(names.take(n as int) =~= names);
    }
    if found {
        transcript.push('\n');
        assert(old(transcript)@ + tab_listing(names, input@) + seq!['\n'] =~= old(transcript)@
            + tab_report(names, input@));
    } else {
        proof {
            lemma_tab_listing_empty_when_no_match(names, input@);
            assert(old(transcript)@ + tab_listing(names, input@) =~= old(transcript)@);
        }
        push_str_chars(transcript, "No commands start with that.\n");
    }
}

/// When no registered name starts with the prefix, the Tab listing itself is
/// empty (and only the no-match report is shown).
proof fn lemma_tab_listing_empty_when_no_match(names: Seq<Seq<char>>, prefix: Seq<char>)
    requires
        !any_match(names, prefix),
    ensures
        tab_listing(names, prefix) == Seq::<char>::empty(),
    decreases names.len(),
{
    if names.len() > 0 {
        assert(!is_prefix_of(prefix, names.last())) by {
            if is_prefix_of(prefix, names.last()) {
                assert(names[names.len() - 1] == names.last());
            }
        }
        assert(!any_match(names.drop_last(), prefix)) by {
            if any_match(names.drop_last(), prefix) {
                let w = choose|k: int|
                    0 <= k < names.drop_last().len() && #[trigger] is_prefix_of(
                        prefix,
                        names.drop_last()[k],
                    );
                assert(names.drop_last()[w] == names[w]);
                assert(any_match(names, prefix));
            }
        }
        lemma_tab_listing_empty_when_no_match(names.drop_last(), prefix);
    }
}

/// When no character of a frame is a control character, filtering changes
/// nothing: the input line grows by exactly those characters, in order.
pub proof fn lemma_printable_only_identity(cs: Seq<char>)
    requires
        forall|i: int| 0 <= i < cs.len() ==> !is_control_char(cs[i]),
    ensures
        printable_only(cs) == cs,
    decreases cs.len(),
{
    if cs.len() > 0 {
        assert(forall|i: int| 0 <= i < cs.drop_last().len() ==> cs.drop_last()[i] == cs[i]);
        lemma_printable_only_identity(cs.drop_last());
        assert(printable_only(cs) =~= cs);
    } else {
        assert(printable_only(cs) =~= cs);
    }
}

/// Filtering control characters out distributes over concatenation: routing
/// a sequence of typed characters over several frames appends exactly what
/// routing them in one frame would, so an uninterrupted run of keystrokes
/// ends with the input line extended by its printable characters in order,
/// however the frames split it.
pub proof fn lemma_printable_only_append(a: Seq<char>, b: Seq<char>)
    ensures
        printable_only(a + b) == printable_only(a) + printable_only(b),
    decreases b.len(),
{
    if b.len() == 0 {
        assert(a + b =~= a);
        assert(printable_only(b) =~= Seq::<char>::empty());
        assert(printable_only(a) + printable_only(b) =~= printable_only(a));
    } else {
        assert((a + b).drop_last() =~= a + b.drop_last());
        assert((a + b).last() == b.last());
        lemma_printable_only_append(a, b.drop_last());
        if is_control_char(b.last()) {
        } else {
            assert(printable_only(a) + printable_only(b.drop_last()).push(b.last()) =~= (
            printable_only(a) + printable_only(b.drop_last())).push(b.last()));
        }
    }
}

/// Backspace on an empty input line leaves it empty.
pub proof fn lemma_backspace_on_empty()
    ensures
        spec_backspace(Seq::<char>::empty()) == Seq::<char>::empty(),
{
}

} // verus!
