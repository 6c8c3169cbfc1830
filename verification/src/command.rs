//! Turning a shell-style command string into a program and arguments.
//!
//! The split is on single spaces, with empty fields kept: a literal
//! space always splits, so quoting cannot protect a space — a known
//! limitation of the format. A command whose program part is empty
//! cannot be launched and is rejected up front.

use vstd::prelude::*;
use crate::errors::SessionError;

verus! {

/// The index of the first space in `s`, or `s.len()` if there is none.
pub open spec fn first_space(s: Seq<char>) -> int
    decreases s.len(),
{
    if s.len() == 0 {
        0
    } else if s[0] == ' ' {
        0
    } else {
        1 + first_space(s.subrange(1, s.len() as int))
    }
}

/// `s` split on every single space, empty fields kept: the fields of
/// `"a  b"` are `"a"`, `""`, `"b"`. Never empty: the empty string has
/// the one empty field.
pub open spec fn split_spaces(s: Seq<char>) -> Seq<Seq<char>>
    decreases s.len(),
{
    let f = first_space(s);
    if !(0 <= f < s.len()) {
        seq![s]
    } else {
        seq![s.subrange(0, f)] + split_spaces(s.subrange(f + 1, s.len() as int))
    }
}

/// The first space is where the scan says it is: before `i` no space,
/// and at `i` a space or the end.
proof fn lemma_first_space_at(s: Seq<char>, i: int)
    requires
        0 <= i <= s.len(),
        forall|j: int| 0 <= j < i ==> s[j] != ' ',
        i < s.len() ==> s[i] == ' ',
    ensures
        first_space(s) == i,
    decreases i,
{
    if i == 0 {
    } else {
        let t = s.subrange(1, s.len() as int);
        assert(forall|j: int| 0 <= j < i - 1 ==> t[j] != ' ') by {
            assert(forall|j: int| 0 <= j < i ==> s[j] != ' ');
        }
        lemma_first_space_at(t, i - 1);
    }
}

/// A command ready to launch: the program and its arguments, exactly
/// the space-separated fields of the command string.
#[derive(Debug, PartialEq, Eq)]
pub struct CommandLine {
    pub program: String,
    pub args: Vec<String>,
}

/// The space-separated fields of `s`, in order.
pub fn split_tokens(s: &str) -> (v: Vec<String>)
    ensures
        v@.map_values(|t: String| t@) == split_spaces(s@),
        v@.len() >= 1,
    decreases s@.len(),
{
    let len = s.unicode_len();
    let mut i: usize = 0;
    while i < len && s.get_char(i) != ' '
        invariant
            0 <= i <= len,
            len == s@.len(),
            forall|j: int| 0 <= j < i ==> s@[j] != ' ',
        decreases len - i,
    {
        i = i + 1;
    }
    proof {
        lemma_first_space_at(s@, i as int);
    }
    if i == len {
        let mut v: Vec<String> = Vec::new();
        v.push(s.to_owned());
        proof {
            assert(v@.map_values(|t: String| t@) =~= split_spaces(s@));
        }
        v
    } else {
        let head = s.substring_char(0, i);
        let tail = s.substring_char(i + 1, len);
        let mut v = split_tokens(tail);
        v.insert(0, head.to_owned());
        proof {
            assert(v@.map_values(|t: String| t@) =~= seq![s@.subrange(0, i as int)]
                + split_spaces(s@.subrange(i as int + 1, s@.len() as int)));
        }
        v
    }
}

/// Split a command string into its program and arguments.
///
/// Returns the command exactly as the split gives it — the first field
/// as the program, the rest as arguments — and fails with
/// `LaunchError` exactly when the program field is empty (an empty
/// command, or one that starts with a space), since no program can be
/// launched under an empty name.
pub fn parse_command(cmd: &str) -> (r: Result<CommandLine, SessionError>)
    ensures
        ({
            let parts = split_spaces(cmd@);
            match r {
                Result::Ok(c) => {
                    &&& parts[0].len() > 0
                    &&& c.program@ == parts[0]
                    &&& c.args@.map_values(|t: String| t@) == parts.skip(1)
                },
                Result::Err(e) => {
                    &&& e == SessionError::LaunchError
                    &&& parts[0].len() == 0
                },
            }
        }),
{
    let mut v = split_tokens(cmd);
    let program = v.remove(0);
    proof {
        assert(program@ == split_spaces(cmd@)[0]);
        assert(v@.map_values(|t: String| t@) =~= split_spaces(cmd@).skip(1));
    }
    if program.as_str().unicode_len() == 0 {
        Err(SessionError::LaunchError)
    } else {
        Ok(CommandLine { program, args: v })
    }
}

} // verus!
