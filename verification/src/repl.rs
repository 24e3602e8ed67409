//! Interpretation of one line of interactive input.
//!
//! The prompt loop reads a line, trims surrounding whitespace, and either
//! stops on the token `exit` (in any letter case) or echoes the trimmed
//! input back. The decision is made here; the loop itself, being plain
//! terminal I/O, lives in the unverified shell.

use vstd::prelude::*;
use vstd::string::{StrSliceExecFns, StringExecFns};

verus! {

/// What the prompt loop should do with one line of input.
pub enum Command {
    /// End the session.
    Exit,
    /// Echo the trimmed input back to the user.
    Echo(String),
}

/// The whitespace a line of terminal input is trimmed of.
pub open spec fn is_line_ws(c: char) -> bool {
    c == ' ' || c == '\t' || c == '\r' || c == '\n'
}

/// The line with surrounding whitespace removed.
pub open spec fn trimmed(s: Seq<char>) -> Seq<char>
    decreases s.len(),
{
    if s.len() == 0 {
        s
    } else if is_line_ws(s[0]) {
        trimmed(s.drop_first())
    } else if is_line_ws(s[s.len() - 1]) {
        trimmed(s.drop_last())
    } else {
        s
    }
}

/// The token that ends the session: `exit`, compared ignoring ASCII case.
pub open spec fn is_exit_token(s: Seq<char>) -> bool {
    &&& s.len() == 4
    &&& (s[0] == 'e' || s[0] == 'E')
    &&& (s[1] == 'x' || s[1] == 'X')
    &&& (s[2] == 'i' || s[2] == 'I')
    &&& (s[3] == 't' || s[3] == 'T')
}

fn is_ws_char(c: char) -> (r: bool)
    ensures
        r == is_line_ws(c),
{
    c == ' ' || c == '\t' || c == '\r' || c == '\n'
}

/// Removes surrounding whitespace from a line of input.
pub fn trim_line(line: &str) -> (r: String)
    ensures
        r@ == trimmed(line@),
    decreases line@.len(),
{
    let n: usize = line.unicode_len();
    if n == 0 {
        let r = String::new();
        proof {
            assert(r@ =~= trimmed(line@));
        }
        return r;
    }
    let c0 = line.get_char(0);
    if is_ws_char(c0) {
        let rest = line.substring_char(1, n);
        proof {
            assert(rest@ =~= line@.drop_first());
        }
        return trim_line(rest);
    }
    let cl = line.get_char(n - 1);
    if is_ws_char(cl) {
        let rest = line.substring_char(0, n - 1);
        proof {
            assert(rest@ =~= line@.drop_last());
        }
        return trim_line(rest);
    }
    line.to_owned()
}

/// Interprets one line of input: after trimming, the token `exit` in any
/// letter case ends the session; anything else is echoed back trimmed.
pub fn parse_command(line: &str) -> (r: Command)
    ensures
        match r {
            Command::Exit => is_exit_token(trimmed(line@)),
            Command::Echo(t) => !is_exit_token(trimmed(line@)) && t@ == trimmed(line@),
        },
{
    let t = trim_line(line);
    let n: usize = t.as_str().unicode_len();
    if n == 4 {
        let c0 = t.as_str().get_char(0);
        let c1 = t.as_str().get_char(1);
        let c2 = t.as_str().get_char(2);
        let c3 = t.as_str().get_char(3);
        if (c0 == 'e' || c0 == 'E') && (c1 == 'x' || c1 == 'X') && (c2 == 'i' || c2 == 'I') && (c3
            == 't' || c3 == 'T') {
            return Command::Exit;
        }
    }
    Command::Echo(t)
}

/// Builds the echo line the prompt prints for input it does not interpret.
pub fn echo_message(entry: &str) -> (r: String)
    ensures
        r@ == "you entered: "@ + entry@,
{
    let mut r = String::from_str("you entered: ");
    r.append(entry);
    r
}

} // verus!
