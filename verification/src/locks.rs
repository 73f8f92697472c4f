//! Locks on files: what went wrong, and whether another process holds one.

use std::path::PathBuf;

use vstd::prelude::*;
use vstd::string::*;

use crate::config;
use crate::config::show_path;
use crate::text;
use crate::text::contains_text;

verus! {

/// Why a file could not be locked.
pub enum LockFault<'a> {
    /// The file could not be opened.
    Open,
    /// The system refused the lock, with what it said.
    Refused { would_block: bool, error: &'a str },
}

/// What is said of a file that could not be locked.
pub open spec fn lock_error(path: Seq<char>, nonblocking: bool, fault: LockFault) -> Seq<char> {
    match fault {
        LockFault::Open => "open lock "@ + path,
        LockFault::Refused { would_block, error } => if nonblocking && would_block {
            "already locked: "@ + path
        } else {
            "failed to lock "@ + path + ": "@ + error@
        },
    }
}

/// What is said of a file that could not be locked.
pub fn lock_message(path: &PathBuf, nonblocking: bool, fault: LockFault) -> (message: String)
    ensures
        message@ == lock_error(config::shown_path(*path), nonblocking, fault),
{
    let shown = show_path(path);
    match fault {
        LockFault::Open => {
            let mut message = "open lock ".to_owned();
            message.append(shown.as_str());
            message
        },
        LockFault::Refused { would_block, error } => if nonblocking && would_block {
            let mut message = "already locked: ".to_owned();
            message.append(shown.as_str());
            message
        } else {
            let mut message = "failed to lock ".to_owned();
            message.append(shown.as_str());
            message.append(": ");
            message.append(error);
            message
        },
    }
}

/// Whether what is said of a lock means that it is held elsewhere.
pub fn is_held_elsewhere(message: &str) -> (yes: bool)
    ensures
        yes == text::holds(message@, "already locked"@),
{
    contains_text(message, "already locked")
}

/// A lock that the system would have waited for is one that is held elsewhere,
/// where waiting was not asked for.
pub proof fn law_refusal_means_held(path: Seq<char>, error: &str)
    ensures
        text::holds(
            lock_error(path, true, LockFault::Refused { would_block: true, error }),
            "already locked"@,
        ),
{
    reveal_strlit("already locked: ");
    reveal_strlit("already locked");
    let message = lock_error(path, true, LockFault::Refused { would_block: true, error });
    assert(message.subrange(0, 14) =~= "already locked"@);
    assert(text::stands_at(message, "already locked"@, 0));
}

/// The words that tell of a held lock begin with `al` and hold no colon.
proof fn lemma_held_words()
    ensures
        "already locked"@.len() == 14,
        "already locked"@[0] == 'a',
        "already locked"@[1] == 'l',
        forall|i: int| 0 <= i < 14 ==> #[trigger] "already locked"@[i] != ':',
{
    reveal_strlit("already locked");
}

/// What stands in a text behind a beginning stands in the rest.
proof fn lemma_behind(start: Seq<char>, rest: Seq<char>, part: Seq<char>, at: int)
    requires
        text::stands_at(start + rest, part, at),
        start.len() <= at,
    ensures
        text::stands_at(rest, part, at - start.len()),
{
    let from = at - start.len();
    assert(rest.subrange(from, from + part.len()) =~= (start + rest).subrange(
        at,
        at + part.len(),
    ));
}

/// What stands in a text before its end stands in the beginning.
proof fn lemma_ahead(start: Seq<char>, rest: Seq<char>, part: Seq<char>, at: int)
    requires
        text::stands_at(start + rest, part, at),
        at + part.len() <= start.len(),
    ensures
        text::stands_at(start, part, at),
{
    assert(start.subrange(at, at + part.len()) =~= (start + rest).subrange(at, at + part.len()));
}

/// The characters of a part stand in the text where the part does.
proof fn lemma_part_chars(whole: Seq<char>, part: Seq<char>, at: int, i: int)
    requires
        text::stands_at(whole, part, at),
        0 <= i < part.len(),
    ensures
        whole[at + i] == part[i],
{
    assert(whole.subrange(at, at + part.len())[i] == whole[at + i]);
}

/// What is said of a lock file that cannot be opened tells of a held lock only
/// where its path does.
proof fn lemma_open_is_not_held(path: Seq<char>)
    requires
        !text::holds(path, "already locked"@),
    ensures
        !text::holds("open lock "@ + path, "already locked"@),
{
    let words = "already locked"@;
    let start = "open lock "@;
    let message = start + path;
    lemma_held_words();
    if text::holds(message, words) {
        let at = choose|at: int| text::stands_at(message, words, at);
        lemma_part_chars(message, words, at, 0);
        reveal_strlit("open lock ");
        if at < 10 {
            assert(message[at] == start[at]);
        }
        lemma_behind(start, path, words, at);
    }
}

/// What is said of a lock that is refused tells of a held lock only where its
/// path or the error does.
proof fn lemma_refused_is_not_held(path: Seq<char>, error: Seq<char>)
    requires
        !text::holds(path, "already locked"@),
        !text::holds(error, "already locked"@),
    ensures
        !text::holds("failed to lock "@ + path + ": "@ + error, "already locked"@),
{
    let words = "already locked"@;
    let start = "failed to lock "@;
    let colon = ": "@;
    let message = start + path + colon + error;
    lemma_held_words();
    if text::holds(message, words) {
        let at = choose|at: int| text::stands_at(message, words, at);
        lemma_part_chars(message, words, at, 0);
        lemma_part_chars(message, words, at, 1);
        reveal_strlit("failed to lock ");
        reveal_strlit(": ");
        if at < 15 {
            assert(message[at] == start[at]);
            assert(at == 1);
            assert(message[2] == start[2]);
        }
        let end: int = 15 + path.len() as int;
        assert(message[end] == colon[0]);
        assert(message[end + 1] == colon[1]);
        let rest = path + (colon + error);
        assert(message =~= start + rest);
        lemma_behind(start, rest, words, at);
        if at + 14 <= end {
            lemma_ahead(path, colon + error, words, at - 15);
        } else if at <= end {
            lemma_part_chars(message, words, at, end - at);
        } else {
            assert(at >= end + 2);
            assert(rest =~= (path + colon) + error);
            lemma_behind(path + colon, error, words, at - 15);
        }
    }
}

/// A lock file that cannot be opened, and one whose lock is refused for another
/// reason, is not taken for one that is held elsewhere, unless its path or the
/// error says so.
pub proof fn law_other_faults_are_errors(path: Seq<char>, nonblocking: bool, fault: LockFault)
    requires
        !text::holds(path, "already locked"@),
        fault matches LockFault::Refused { would_block, error } ==> !(nonblocking && would_block)
            && !text::holds(error@, "already locked"@),
    ensures
        !text::holds(lock_error(path, nonblocking, fault), "already locked"@),
{
    match fault {
        LockFault::Open => lemma_open_is_not_held(path),
        LockFault::Refused { would_block, error } => lemma_refused_is_not_held(path, error@),
    }
}

} // verus!
