//! Taking terminal control sequences out of captured lines.
//!
//! A line is read character by character. An escape character opens a
//! sequence, and what belongs to the sequence is dropped: the parameters and
//! the final character of a control sequence (`ESC [ ...`), everything up to
//! the bell or the string terminator of an operating system command
//! (`ESC ] ...`), and the one character behind any other escape.

use vstd::prelude::*;
use vstd::string::*;

verus! {

/// The escape character.
pub const ESCAPE: char = '\u{1b}';

/// The bell character.
pub const BELL: char = '\u{7}';

/// Where in a line the reading stands.
#[derive(Clone, Copy, Debug, PartialEq, Eq, Structural)]
pub enum ScanState {
    /// In ordinary text.
    Text,
    /// Behind an escape character.
    Escape,
    /// Among the parameters of a control sequence.
    Control,
    /// In an operating system command.
    Command,
    /// Behind an escape character in an operating system command.
    CommandEscape,
}

/// Whether `c` is a parameter or intermediate character of a control
/// sequence.
pub open spec fn is_control_parameter(c: char) -> bool {
    ' ' <= c && c <= '?'
}

/// Whether `c` ends a control sequence.
pub open spec fn is_control_final(c: char) -> bool {
    '@' <= c && c <= '~'
}

/// Where the reading stands behind `c`, and whether `c` is kept.
pub open spec fn step_of(state: ScanState, c: char) -> (ScanState, bool) {
    match state {
        ScanState::Text => if c == ESCAPE {
            (ScanState::Escape, false)
        } else {
            (ScanState::Text, true)
        },
        ScanState::Escape => if c == '[' {
            (ScanState::Control, false)
        } else if c == ']' {
            (ScanState::Command, false)
        } else {
            (ScanState::Text, false)
        },
        ScanState::Control => if is_control_parameter(c) {
            (ScanState::Control, false)
        } else if is_control_final(c) {
            (ScanState::Text, false)
        } else if c == ESCAPE {
            (ScanState::Escape, false)
        } else {
            (ScanState::Text, true)
        },
        ScanState::Command => if c == BELL {
            (ScanState::Text, false)
        } else if c == ESCAPE {
            (ScanState::CommandEscape, false)
        } else {
            (ScanState::Command, false)
        },
        ScanState::CommandEscape => if c == '\\' {
            (ScanState::Text, false)
        } else if c == ESCAPE {
            (ScanState::CommandEscape, false)
        } else {
            (ScanState::Command, false)
        },
    }
}

/// Where the reading stands at the end of `text`, and what was kept of it.
pub open spec fn scanned(text: Seq<char>) -> (ScanState, Seq<char>)
    decreases text.len(),
{
    if text.len() == 0 {
        (ScanState::Text, Seq::empty())
    } else {
        let before = scanned(text.drop_last());
        let step = step_of(before.0, text.last());
        (
            step.0,
            if step.1 {
                before.1.push(text.last())
            } else {
                before.1
            },
        )
    }
}

/// A line without its terminal control sequences.
pub open spec fn normalized(text: Seq<char>) -> Seq<char> {
    scanned(text).1
}

/// Computes [`step_of`].
pub fn step(state: ScanState, c: char) -> (next: (ScanState, bool))
    ensures
        next == step_of(state, c),
{
    match state {
        ScanState::Text => if c == ESCAPE {
            (ScanState::Escape, false)
        } else {
            (ScanState::Text, true)
        },
        ScanState::Escape => if c == '[' {
            (ScanState::Control, false)
        } else if c == ']' {
            (ScanState::Command, false)
        } else {
            (ScanState::Text, false)
        },
        ScanState::Control => if ' ' <= c && c <= '?' {
            (ScanState::Control, false)
        } else if '@' <= c && c <= '~' {
            (ScanState::Text, false)
        } else if c == ESCAPE {
            (ScanState::Escape, false)
        } else {
            (ScanState::Text, true)
        },
        ScanState::Command => if c == BELL {
            (ScanState::Text, false)
        } else if c == ESCAPE {
            (ScanState::CommandEscape, false)
        } else {
            (ScanState::Command, false)
        },
        ScanState::CommandEscape => if c == '\\' {
            (ScanState::Text, false)
        } else if c == ESCAPE {
            (ScanState::CommandEscape, false)
        } else {
            (ScanState::Command, false)
        },
    }
}

/// Takes the terminal control sequences out of a line.
pub fn strip_control_sequences(line: &str) -> (clean: String)
    ensures
        clean@ == normalized(line@),
{
    let mut clean = String::new();
    let mut state = ScanState::Text;
    assert(line@.take(0) =~= Seq::<char>::empty());
    for c in it: line.chars()
        invariant
            it.seq() == line@,
            (state, clean@) == scanned(line@.take(it.index() as int)),
    {
        proof {
            let seen = line@.take(it.index() + 1);
            assert(seen.drop_last() =~= line@.take(it.index() as int));
            assert(seen.last() == c);
        }
        let next = step(state, c);
        state = next.0;
        if next.1 {
            clean.push(c);
        }
    }
    assert(line@.take(line@.len() as int) =~= line@);
    clean
}

/// No escape character is left in a normalized line.
pub proof fn law_normalized_has_no_escape(text: Seq<char>)
    ensures
        !normalized(text).contains(ESCAPE),
    decreases text.len(),
{
    if text.len() > 0 {
        law_normalized_has_no_escape(text.drop_last());
        let before = scanned(text.drop_last());
        let kept = normalized(text);
        if kept.contains(ESCAPE) {
            let at = choose|at: int| 0 <= at < kept.len() && kept[at] == ESCAPE;
            if at < before.1.len() {
                assert(before.1[at] == ESCAPE);
                assert(before.1.contains(ESCAPE));
            }
        }
    }
}

/// A line without an escape character is kept as it is.
pub proof fn law_plain_text_is_kept(text: Seq<char>)
    requires
        !text.contains(ESCAPE),
    ensures
        scanned(text) == (ScanState::Text, text),
    decreases text.len(),
{
    if text.len() > 0 {
        let rest = text.drop_last();
        assert forall|i: int| 0 <= i < rest.len() implies rest[i] != ESCAPE by {
            assert(text[i] == rest[i]);
            assert(text.contains(text[i]));
        }
        if rest.contains(ESCAPE) {
            let at = choose|at: int| 0 <= at < rest.len() && rest[at] == ESCAPE;
            assert(rest[at] != ESCAPE);
        }
        law_plain_text_is_kept(rest);
        assert(text.contains(text.last()));
        assert(rest.push(text.last()) =~= text);
    }
}

/// Normalizing a line twice gives what normalizing it once gives.
pub proof fn law_normalized_twice(text: Seq<char>)
    ensures
        normalized(normalized(text)) == normalized(text),
{
    law_normalized_has_no_escape(text);
    law_plain_text_is_kept(normalized(text));
}

} // verus!
