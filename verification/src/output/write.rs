//! When an existing file may be overwritten.

use vstd::prelude::*;

use crate::text::{ascii_lower, str_trim, trim};

verus! {

/// What to do before writing a file.
#[derive(Debug, Clone, Copy, PartialEq, Eq, Structural)]
pub enum WriteDecision {
    /// Write the file.
    Proceed,
    /// Refuse: the file exists and may not be overwritten.
    Refuse,
    /// Ask the user whether to overwrite the file.
    Ask,
}

/// What to do before writing a file: write it when it does not exist or
/// overwriting is allowed; otherwise ask, but only in an interactive
/// session that produces no machine output; else refuse.
pub open spec fn write_decision_for(
    file_exists: bool,
    overwrite: bool,
    json_output: bool,
    non_interactive: bool,
    stdin_is_terminal: bool,
    stdout_is_terminal: bool,
) -> WriteDecision {
    if !file_exists || overwrite {
        WriteDecision::Proceed
    } else if json_output || non_interactive || !stdin_is_terminal || !stdout_is_terminal {
        WriteDecision::Refuse
    } else {
        WriteDecision::Ask
    }
}

/// Decides what to do before writing a file.
pub fn write_decision(
    file_exists: bool,
    overwrite: bool,
    json_output: bool,
    non_interactive: bool,
    stdin_is_terminal: bool,
    stdout_is_terminal: bool,
) -> (r: WriteDecision)
    ensures
        r == write_decision_for(
            file_exists,
            overwrite,
            json_output,
            non_interactive,
            stdin_is_terminal,
            stdout_is_terminal,
        ),
{
    if !file_exists || overwrite {
        WriteDecision::Proceed
    } else if json_output || non_interactive || !stdin_is_terminal || !stdout_is_terminal {
        WriteDecision::Refuse
    } else {
        WriteDecision::Ask
    }
}

/// The overwrite policy: a file is written without asking exactly when it
/// does not exist or overwriting is allowed; otherwise the user is asked
/// only in an interactive session without machine output, and every
/// non-interactive run, machine-output run or run without a terminal is
/// refused.
pub proof fn lemma_overwrite_policy(
    file_exists: bool,
    overwrite: bool,
    json_output: bool,
    non_interactive: bool,
    stdin_is_terminal: bool,
    stdout_is_terminal: bool,
)
    ensures
        ({
            let d = write_decision_for(
                file_exists,
                overwrite,
                json_output,
                non_interactive,
                stdin_is_terminal,
                stdout_is_terminal,
            );
            &&& d == WriteDecision::Proceed <==> (!file_exists || overwrite)
            &&& d == WriteDecision::Ask ==> !json_output && !non_interactive && stdin_is_terminal
                && stdout_is_terminal
            &&& file_exists && !overwrite && (json_output || non_interactive || !stdin_is_terminal
                || !stdout_is_terminal) ==> d == WriteDecision::Refuse
            &&& file_exists && !overwrite && !json_output && !non_interactive && stdin_is_terminal
                && stdout_is_terminal ==> d == WriteDecision::Ask
        }),
{
}

/// An answer that agrees to overwrite: `y` or `yes` in any ASCII case,
/// with white space around it.
pub open spec fn confirms(answer: Seq<char>) -> bool {
    let t = trim(answer).map_values(|c: char| ascii_lower(c));
    t == seq!['y'] || t == seq!['y', 'e', 's']
}

/// Whether the user's answer agrees to overwrite.
pub fn answer_confirms(answer: &str) -> (r: bool)
    ensures
        r == confirms(answer@),
{
    let t = str_trim(answer);
    let ghost l = t@.map_values(|c: char| ascii_lower(c));
    let n = t.unicode_len();
    if n == 1 {
        let c = crate::text::char_ascii_lower(t.get_char(0));
        assert(l[0] == c);
        if c == 'y' {
            assert(l =~= seq!['y']);
        }
        c == 'y'
    } else if n == 3 {
        let c0 = crate::text::char_ascii_lower(t.get_char(0));
        let c1 = crate::text::char_ascii_lower(t.get_char(1));
        let c2 = crate::text::char_ascii_lower(t.get_char(2));
        assert(l[0] == c0 && l[1] == c1 && l[2] == c2);
        if c0 == 'y' && c1 == 'e' && c2 == 's' {
            assert(l =~= seq!['y', 'e', 's']);
        }
        c0 == 'y' && c1 == 'e' && c2 == 's'
    } else {
        assert(l.len() == n);
        false
    }
}

} // verus!
