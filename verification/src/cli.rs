//! The terminal client: what keys do, what is logged, and what an empty room says.

use rand::seq::IndexedRandom;
use std::collections::VecDeque;
use vstd::prelude::*;

verus! {

/// Whether a relay may vouch for itself: an explicit ban wins over a permission, and without
/// either it depends on the build.
pub fn is_self_signed_allowed(disallow: bool, allow: bool, debug_build: bool) -> (allowed: bool)
    ensures
        allowed == (!disallow && (allow || debug_build)),
{
    if disallow {
        false
    } else if allow {
        true
    } else {
        debug_build
    }
}

/// A key of the terminal.
#[derive(Debug, Clone, Copy, PartialEq, Eq, Structural)]
pub enum Key {
    Char(char),
    Up,
    Down,
    Left,
    Right,
    Other,
}

/// What a key asks for.
#[derive(Debug, Clone, Copy, PartialEq, Eq, Structural)]
pub enum Command {
    Nothing,
    LeaveRoom,
    Exit,
    CycleDenoise,
    ToggleEcho,
    ToggleChannels,
    /// More simulated loss, by so many percent.
    RaiseLoss(u32),
    LowerLoss(u32),
    /// More simulated jitter, by so many milliseconds.
    RaiseJitter(u32),
    LowerJitter(u32),
}

/// What a key asks for. The shift key makes steps small.
pub open spec fn meaning(key: Key, control: bool, shift: bool) -> Command {
    match key {
        Key::Char(c) => if c == 'x' {
            Command::LeaveRoom
        } else if c == 'c' && control {
            Command::Exit
        } else if c == 'n' {
            Command::CycleDenoise
        } else if c == 'e' {
            Command::ToggleEcho
        } else if c == 'm' {
            Command::ToggleChannels
        } else {
            Command::Nothing
        },
        Key::Up => Command::RaiseLoss(
            if shift {
                1
            } else {
                10
            },
        ),
        Key::Down => Command::LowerLoss(
            if shift {
                1
            } else {
                10
            },
        ),
        Key::Right => Command::RaiseJitter(
            if shift {
                1
            } else {
                5
            },
        ),
        Key::Left => Command::LowerJitter(
            if shift {
                1
            } else {
                20
            },
        ),
        Key::Other => Command::Nothing,
    }
}

pub fn command(key: Key, control: bool, shift: bool) -> (command: Command)
    ensures
        command == meaning(key, control, shift),
{
    match key {
        Key::Char('x') => Command::LeaveRoom,
        Key::Char('c') => {
            if control {
                Command::Exit
            } else {
                Command::Nothing
            }
        },
        Key::Char('n') => Command::CycleDenoise,
        Key::Char('e') => Command::ToggleEcho,
        Key::Char('m') => Command::ToggleChannels,
        Key::Up => Command::RaiseLoss(
            if shift {
                1
            } else {
                10
            },
        ),
        Key::Down => Command::LowerLoss(
            if shift {
                1
            } else {
                10
            },
        ),
        Key::Right => Command::RaiseJitter(
            if shift {
                1
            } else {
                5
            },
        ),
        Key::Left => Command::LowerJitter(
            if shift {
                1
            } else {
                20
            },
        ),
        _ => Command::Nothing,
    }
}

/// The lines after one more was logged. The oldest goes when there is no room.
pub open spec fn logged<T>(lines: Seq<T>, limit: int, line: T) -> Seq<T> {
    if lines.len() < limit {
        lines.push(line)
    } else {
        lines.skip(1).push(line)
    }
}

/// The last few lines that were logged.
pub struct LogSink<T> {
    pub lines: VecDeque<T>,
    pub limit: usize,
}

impl<T> LogSink<T> {
    /// No more lines are kept than there is room for.
    pub open spec fn wf(&self) -> bool {
        0 < self.limit && self.lines@.len() <= self.limit
    }

    pub fn new(limit: usize) -> (sink: Self)
        requires
            limit > 0,
        ensures
            sink.wf(),
            sink.lines@.len() == 0,
            sink.limit == limit,
    {
        LogSink { lines: VecDeque::new(), limit }
    }

    /// Logs a line. The oldest goes when there is no room.
    pub fn push(&mut self, line: T)
        requires
            old(self).wf(),
        ensures
            final(self).wf(),
            final(self).limit == old(self).limit,
            final(self).lines@ == logged(old(self).lines@, old(self).limit as int, line),
    {
        if self.lines.len() >= self.limit {
            let _ = self.lines.pop_front();
        }
        self.lines.push_back(line);
        assert(self.lines@ =~= logged(old(self).lines@, old(self).limit as int, line));
    }
}

/// A line that has just been logged is there, and last.
pub proof fn law_newest_line_is_kept<T>(lines: Seq<T>, limit: int, line: T)
    requires
        0 < limit,
        lines.len() <= limit,
    ensures
        logged(lines, limit, line).last() == line,
        logged(lines, limit, line).len() <= limit,
{
}

/// A text is one of a list.
pub open spec fn is_one_of(text: Seq<char>, texts: Seq<String>) -> bool {
    exists|i: int| 0 <= i < texts.len() && (#[trigger] texts[i])@ == text
}

/// `rand::seq::IndexedRandom::choose` with the generator of `rand::rng`: one of the texts, or none
/// if there are none. Which one is left to chance. The generator is seeded by the operating system,
/// and cannot be had where that has no randomness to give.
#[verifier::external_body]
fn choose_text(texts: &Vec<String>) -> (text: Option<String>)
    ensures
        match text {
            Some(chosen) => is_one_of(chosen@, texts@),
            None => texts@.len() == 0,
        },
{
    texts.choose(&mut rand::rng()).cloned()
}

/// What is shown at first when there is no text to choose.
pub open spec fn first_fallback() -> Seq<char> {
    "we've failed to perform a task that is deterministic to pass and as such cannot fail normally, your hardware is likely severly messed up as this should be impossible to trigger without faulty ram, memory corruption, or glitching your CPU"@
}

/// What is shown later when there is no text to choose.
pub open spec fn later_fallback() -> Seq<char> {
    "your hardware is severly messed up or something this should be impossible to trigger"@
}

/// One of the texts, or another if there are none.
pub open spec fn is_text(text: Seq<char>, texts: Seq<String>, fallback: Seq<char>) -> bool {
    if texts.len() > 0 {
        is_one_of(text, texts)
    } else {
        text == fallback
    }
}

/// What is shown while nobody else is in the room.
pub struct EmptyRoom {
    pub message: String,
    pub was_empty: bool,
}

impl EmptyRoom {
    /// Somebody has left, and nobody is left.
    pub open spec fn turns_empty(&self, empty: bool) -> bool {
        empty && !self.was_empty
    }

    /// The text for an empty room.
    pub fn new(texts: &Vec<String>) -> (room: Self)
        ensures
            room.was_empty,
            is_text(room.message@, texts@, first_fallback()),
    {
        let message: String = match choose_text(texts) {
            Some(text) => text,
            None => "we've failed to perform a task that is deterministic to pass and as such cannot fail normally, your hardware is likely severly messed up as this should be impossible to trigger without faulty ram, memory corruption, or glitching your CPU".to_string(),
        };
        EmptyRoom { message, was_empty: true }
    }

    /// Takes note of whether the room is empty, with the text to show if it has just become so.
    pub fn note(&mut self, empty: bool, text: String)
        ensures
            final(self).was_empty == empty,
            final(self).message == if old(self).turns_empty(empty) {
                text
            } else {
                old(self).message
            },
    {
        if empty && !self.was_empty {
            self.message = text;
        }
        self.was_empty = empty;
    }

    /// Takes note of whether the room is empty. When it has just become so, another text is
    /// chosen.
    pub fn update(&mut self, empty: bool, texts: &Vec<String>)
        ensures
            final(self).was_empty == empty,
            old(self).turns_empty(empty) ==> is_text(
                final(self).message@,
                texts@,
                later_fallback(),
            ),
            !old(self).turns_empty(empty) ==> final(self).message == old(self).message,
    {
        if empty && !self.was_empty {
            let text: String = match choose_text(texts) {
                Some(text) => text,
                None => "your hardware is severly messed up or something this should be impossible to trigger".to_string(),
            };
            self.note(empty, text);
        } else {
            self.was_empty = empty;
        }
    }
}

} // verus!
