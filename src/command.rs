//! The command grammar of the interactive client: `join GROUP` and
//! `post GROUP MESSAGE`, words separated by white space.

use vstd::prelude::*;
use crate::protocol::{Request, RequestView};

verus! {

/// Whether `c` has Unicode's `White_Space` property.
pub open spec fn white_space(c: char) -> bool {
    let u = c as u32;
    ||| 0x09 <= u <= 0x0D
    ||| u == 0x20
    ||| u == 0x85
    ||| u == 0xA0
    ||| u == 0x1680
    ||| 0x2000 <= u <= 0x200A
    ||| u == 0x2028
    ||| u == 0x2029
    ||| u == 0x202F
    ||| u == 0x205F
    ||| u == 0x3000
}

/// Relies on `char::is_whitespace`: true exactly for the characters with
/// Unicode's `White_Space` property.
#[verifier::external_body]
fn is_space(c: char) -> (r: bool)
    ensures
        r == white_space(c),
{
    c.is_whitespace()
}

/// The first place at or after `from` that does not hold white space.
pub open spec fn space_end(s: Seq<char>, from: int) -> int
    decreases s.len() - from,
{
    if 0 <= from < s.len() && white_space(s[from]) {
        space_end(s, from + 1)
    } else {
        from
    }
}

/// The first place at or after `from` that holds white space.
pub open spec fn word_end(s: Seq<char>, from: int) -> int
    decreases s.len() - from,
{
    if 0 <= from < s.len() && !white_space(s[from]) {
        word_end(s, from + 1)
    } else {
        from
    }
}

/// `s` without its leading white space.
pub open spec fn trimmed(s: Seq<char>) -> Seq<char> {
    s.skip(space_end(s, 0))
}

/// The first word of `s` and what follows it; `None` if `s` is all white space.
pub open spec fn next_token(s: Seq<char>) -> Option<(Seq<char>, Seq<char>)> {
    let a = space_end(s, 0);
    if a >= s.len() {
        None
    } else {
        let b = word_end(s, a);
        Some((s.subrange(a, b), s.skip(b)))
    }
}

/// The request a command line stands for, if it is a well-formed command.
pub open spec fn parse_spec(line: Seq<char>) -> Option<RequestView> {
    match next_token(line) {
        None => None,
        Some((command, rest)) => if command == "post"@ {
            match next_token(rest) {
                None => None,
                Some((group, message)) => Some(
                    RequestView::Post { group, message: trimmed(message) },
                ),
            }
        } else if command == "join"@ {
            match next_token(rest) {
                None => None,
                Some((group, tail)) => if trimmed(tail).len() == 0 {
                    Some(RequestView::Join { group })
                } else {
                    None
                },
            }
        } else {
            None
        },
    }
}

/// The characters of `s`, in order.
fn chars_of(s: &str) -> (r: Vec<char>)
    ensures
        r@ == s@,
{
    let mut r: Vec<char> = Vec::new();
    for c in it: s.chars()
        invariant
            it.seq() == s@,
            r@ == it.seq().take(it.index() as int),
    {
        proof {
            assert(it.seq().take(it.index() + 1) =~= r@.push(c));
        }
        r.push(c);
    }
    proof {
        assert(r@ =~= s@);
    }
    r
}

/// The first place at or after `from` in `cs` that does not hold white space.
fn skip_spaces(cs: &Vec<char>, from: usize) -> (r: usize)
    requires
        from <= cs@.len(),
    ensures
        r == space_end(cs@, from as int),
        from <= r <= cs@.len(),
{
    let mut i = from;
    while i < cs.len() && is_space(cs[i])
        invariant
            from <= i <= cs@.len(),
            space_end(cs@, i as int) == space_end(cs@, from as int),
        decreases cs@.len() - i,
    {
        i = i + 1;
    }
    i
}

/// The first place at or after `from` in `cs` that holds white space.
fn skip_word(cs: &Vec<char>, from: usize) -> (r: usize)
    requires
        from <= cs@.len(),
    ensures
        r == word_end(cs@, from as int),
        from <= r <= cs@.len(),
{
    let mut i = from;
    while i < cs.len() && !is_space(cs[i])
        invariant
            from <= i <= cs@.len(),
            word_end(cs@, i as int) == word_end(cs@, from as int),
        decreases cs@.len() - i,
    {
        i = i + 1;
    }
    i
}

/// `input` without its leading white space.
pub fn trim_start(input: &str) -> (r: &str)
    ensures
        r@ == trimmed(input@),
{
    let cs = chars_of(input);
    let a = skip_spaces(&cs, 0);
    input.substring_char(a, cs.len())
}

/// Splits off the first word of `input`: `Some((word, rest))`, where `word`
/// is the first run of characters that are not white space and `rest` is
/// everything after it; `None` if `input` holds nothing but white space.
pub fn get_next_token(input: &str) -> (r: Option<(&str, &str)>)
    ensures
        r is None <==> next_token(input@) is None,
        r matches Some((t, rest)) ==> next_token(input@) == Some((t@, rest@)),
{
    let cs = chars_of(input);
    let a = skip_spaces(&cs, 0);
    if a >= cs.len() {
        return None;
    }
    let b = skip_word(&cs, a);
    Some((input.substring_char(a, b), input.substring_char(b, cs.len())))
}

/// Reads one command line as a request: `post GROUP MESSAGE` (the message
/// is the rest of the line, leading white space removed) or `join GROUP`
/// (nothing may follow the group). Anything else gives `None`.
pub fn parse_command(line: &str) -> (r: Option<Request>)
    ensures
        r is None <==> parse_spec(line@) is None,
        r matches Some(q) ==> parse_spec(line@) == Some(q@),
{
    let (command, rest) = match get_next_token(line) {
        Some(p) => p,
        None => return None,
    };
    let command = command.to_owned();
    if command == String::from_str("post") {
        let (group, rest) = match get_next_token(rest) {
            Some(p) => p,
            None => return None,
        };
        let message = trim_start(rest).to_owned();
        Some(Request::Post { group: group.to_owned(), message })
    } else if command == String::from_str("join") {
        let (group, rest) = match get_next_token(rest) {
            Some(p) => p,
            None => return None,
        };
        if trim_start(rest).unicode_len() != 0 {
            return None;
        }
        Some(Request::Join { group: group.to_owned() })
    } else {
        None
    }
}

} // verus!
