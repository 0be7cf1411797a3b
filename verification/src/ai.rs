//! AI agent activity per session: how it is reported, through pipe
//! messages or through the shared state files, and how it is kept.
use vstd::prelude::*;
use crate::model::AiState;
use crate::strings::str_eq;

verus! {

/// The pipe message prefix that reports an AI agent at work in a session.
pub const AI_ACTIVE_PREFIX: &'static str = "sidebar::ai-active::";

/// The pipe message prefix that reports an idle AI agent in a session.
pub const AI_IDLE_PREFIX: &'static str = "sidebar::ai-idle::";

/// The pipe message prefix that reports an AI agent waiting in a session.
pub const AI_WAITING_PREFIX: &'static str = "sidebar::ai-waiting::";

/// Seconds between two readings of the shared AI state files.
pub const AI_POLL_SECONDS: u32 = 10;

/// A character that ends a state file's content without being part of it.
pub open spec fn is_blank(c: char) -> bool {
    c == ' ' || c == '\n' || c == '\r' || c == '\t'
}

/// `s` without the blanks at its end.
pub open spec fn trim_end(s: Seq<char>) -> Seq<char>
    decreases s.len(),
{
    if s.len() > 0 && is_blank(s.last()) {
        trim_end(s.drop_last())
    } else {
        s
    }
}

/// The AI state a state file's content names: `active`, `idle` or
/// `waiting`, blanks at the end ignored; none for anything else.
pub open spec fn ai_state_named(content: Seq<char>) -> Option<AiState> {
    let word = trim_end(content);
    if word == "active"@ {
        Some(AiState::Active)
    } else if word == "idle"@ {
        Some(AiState::Idle)
    } else if word == "waiting"@ {
        Some(AiState::Waiting)
    } else {
        None
    }
}

/// The AI states after reading the state files, in order: each file that
/// names a state sets the state of its session (when the session's name is
/// not empty); the others change nothing.
pub open spec fn ai_after_files(ai: Map<Seq<char>, AiState>, files: Seq<(Seq<char>, Seq<char>)>) -> Map<
    Seq<char>,
    AiState,
>
    decreases files.len(),
{
    if files.len() == 0 {
        ai
    } else {
        let before = ai_after_files(ai, files.drop_last());
        match ai_state_named(files.last().1) {
            Some(a) => if files.last().0.len() > 0 {
                before.insert(files.last().0, a)
            } else {
                before
            },
            None => before,
        }
    }
}

/// The AI state of each session as kept in three sets: working, idle and
/// waiting, looked up in that order.
pub open spec fn ai_map(active: Set<Seq<char>>, idle: Set<Seq<char>>, waiting: Set<Seq<char>>) -> Map<
    Seq<char>,
    AiState,
> {
    Map::new(
        |x: Seq<char>| active.contains(x) || idle.contains(x) || waiting.contains(x),
        |x: Seq<char>|
            if active.contains(x) {
                AiState::Active
            } else if idle.contains(x) {
                AiState::Idle
            } else {
                AiState::Waiting
            },
    )
}

/// Whether `c` is a blank (see `is_blank`).
fn blank_char(c: char) -> (r: bool)
    ensures
        r == is_blank(c),
{
    c == ' ' || c == '\n' || c == '\r' || c == '\t'
}

/// The AI state a state file's content names (see `ai_state_named`).
pub fn parse_ai_state(content: &str) -> (r: Option<AiState>)
    ensures
        r == ai_state_named(content@),
{
    let n = content.unicode_len();
    let mut end: usize = n;
    proof {
        assert(content@.take(n as int) =~= content@);
    }
    while end > 0 && blank_char(content.get_char(end - 1))
        invariant
            n == content@.len(),
            end <= n,
            trim_end(content@) == trim_end(content@.take(end as int)),
        decreases end,
    {
        proof {
            let t = content@.take(end as int);
            assert(t.last() == content@[end - 1]);
            assert(t.drop_last() =~= content@.take(end - 1));
        }
        end = end - 1;
    }
    let word = content.substring_char(0, end);
    proof {
        let t = content@.take(end as int);
        assert(word@ =~= t);
        if end > 0 {
            assert(t.last() == content@[end - 1]);
        }
        assert(trim_end(t) == t);
    }
    if str_eq(word, "active") {
        Some(AiState::Active)
    } else if str_eq(word, "idle") {
        Some(AiState::Idle)
    } else if str_eq(word, "waiting") {
        Some(AiState::Waiting)
    } else {
        None
    }
}

} // verus!
