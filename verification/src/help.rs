//! The built-in `help` command: lists every registered command name on the
//! transcript.

use vstd::prelude::*;
use crate::dispatch::{spec_dispatch, token_of, DispatchOutcome};
use crate::registry::CommandMap;
use crate::text::push_str_chars;

verus! {

/// The space-separated run of all registered names, in registry order.
pub open spec fn listing_all(names: Seq<Seq<char>>) -> Seq<char>
    decreases names.len(),
{
    if names.len() == 0 {
        Seq::empty()
    } else {
        listing_all(names.drop_last()) + names.last() + seq![' ']
    }
}

/// Everything the help command appends to the transcript: a header line,
/// then every registered name followed by a space, ended by a newline.
pub open spec fn help_text(names: Seq<Seq<char>>) -> Seq<char> {
    "Registered commands:\n"@ + listing_all(names) + seq!['\n']
}

/// Append the help listing to the transcript: a header line and every
/// registered command name in registry order, each followed by a space,
/// newline-terminated.
pub fn help(map: &CommandMap, transcript: &mut Vec<char>)
    ensures
        final(transcript)@ == old(transcript)@ + help_text(map.names()),
{
    let ghost names = map.names();
    push_str_chars(transcript, "Registered commands:\n");
    let ghost header = "Registered commands:\n"@;
    let n = map.entries.len();
    let mut i: usize = 0;
    while i < n
        invariant
            i <= n,
            n == map.entries@.len(),
            names == map.names(),
            header == "Registered commands:\n"@,
            transcript@ == old(transcript)@ + header + listing_all(names.take(i as int)),
        decreases n - i,
    {
        proof {
            assert(names.take(i + 1).drop_last() =~= names.take(i as int));
            assert(names.take(i + 1).last() == names[i as int]);
            assert(names[i as int] == map.entries@[i as int].name@);
        }
        let name = &map.entries[i].name;
        let m = name.len();
        let mut j: usize = 0;
        while j < m
            invariant
                j <= m,
                m == name@.len(),
                transcript@ == old(transcript)@ + header + listing_all(names.take(i as int))
                    + name@.subrange(0, j as int),
            decreases m - j,
        {
            transcript.push(name[j]);
            assert(old(transcript)@ + header + listing_all(names.take(i as int)) + name@.subrange(
                0, j as int) + seq![name@[j as int]] =~= old(transcript)@ + header + listing_all(
                names.take(i as int)) + name@.subrange(0, j + 1));
            j += 1;
        }
        assert(name@.subrange(0, m as int) =~= name@);
        transcript.push(' ');
        assert(old(transcript)@ + header + listing_all(names.take(i as int)) + name@ + seq![' ']
            =~= old(transcript)@ + header + (listing_all(names.take(i as int)) + name@
            + seq![' ']));
        i += 1;
    }
    proof {
        assert(names.take(n as int) =~= names);
    }
    transcript.push('\n');
    assert(old(transcript)@ + header + listing_all(names) + seq!['\n'] =~= old(transcript)@
        + help_text(names));
}

proof fn lemma_listing_contains(names: Seq<Seq<char>>, i: int)
    requires
        0 <= i < names.len(),
    ensures
        exists|k: int|
            0 <= k && k + names[i].len() + 1 <= listing_all(names).len()
                && #[trigger] listing_all(names).subrange(k, k + names[i].len() + 1) == names[i]
                + seq![' '],
    decreases names.len(),
{
    let l0 = listing_all(names.drop_last());
    let m = names[i].len() as int;
    if i == names.len() - 1 {
        let k = l0.len() as int;
        assert(listing_all(names).subrange(k, k + m + 1) =~= names[i] + seq![' ']);
        assert(0 <= k && k + m + 1 <= listing_all(names).len());
    } else {
        assert(names.drop_last()[i] == names[i]);
        lemma_listing_contains(names.drop_last(), i);
        let k = choose|k: int|
            0 <= k && k + names.drop_last()[i].len() + 1 <= l0.len()
                && #[trigger] l0.subrange(k, k + names.drop_last()[i].len() + 1)
                == names.drop_last()[i] + seq![' '];
        assert(listing_all(names).subrange(k, k + m + 1) =~= l0.subrange(k, k + m + 1));
        assert(listing_all(names).subrange(k, k + m + 1) == names[i] + seq![' ']);
    }
}

/// The help listing names every registered command: for each registered
/// name, the text the help command appends contains that name followed by
/// its space separator as a contiguous segment (and, by construction, the
/// whole listing is newline-terminated).
pub proof fn lemma_help_lists_every_command(names: Seq<Seq<char>>, i: int)
    requires
        0 <= i < names.len(),
    ensures
        exists|k: int|
            0 <= k && k + names[i].len() + 1 <= help_text(names).len()
                && #[trigger] help_text(names).subrange(k, k + names[i].len() + 1) == names[i]
                + seq![' '],
{
    let m = names[i].len() as int;
    let header = "Registered commands:\n"@;
    lemma_listing_contains(names, i);
    let k = choose|k: int|
        0 <= k && k + names[i].len() + 1 <= listing_all(names).len()
            && #[trigger] listing_all(names).subrange(k, k + names[i].len() + 1) == names[i]
            + seq![' '];
    let k2 = header.len() as int + k;
    assert(help_text(names).subrange(k2, k2 + m + 1) =~= listing_all(names).subrange(k, k + m + 1));
    assert(help_text(names).subrange(k2, k2 + m + 1) == names[i] + seq![' ']);
}

/// Submitting a line whose leading token is `help` always reaches the help
/// callback — the dispatcher resolves it to the handle registered under
/// `help` and adds nothing else to the transcript — and the listing that
/// callback appends contains every currently registered command name,
/// space-separated and newline-terminated.
pub proof fn lemma_help_submission_lists_all(
    m: CommandMap,
    line: Seq<char>,
    h: u64,
    transcript: Seq<char>,
    i: int,
)
    requires
        m.wf(),
        token_of(line) == "help"@,
        m.spec_get("help"@) == Some(h),
        0 <= i < m.names().len(),
    ensures
        spec_dispatch(line, m, transcript) == (transcript, DispatchOutcome::Invoke(h)),
        exists|k: int|
            0 <= k && k + m.names()[i].len() + 1 <= help_text(m.names()).len()
                && #[trigger] help_text(m.names()).subrange(k, k + m.names()[i].len() + 1)
                == m.names()[i] + seq![' '],
{
    lemma_help_lists_every_command(m.names(), i);
}

} // verus!
