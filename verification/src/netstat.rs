//! Reading `netstat -ano` output: which process listens on a local port. On
//! Windows a backgrounded `ssh -L` is only found again this way.

use vstd::prelude::*;
use vstd::string::*;
use crate::text::{contains_str, contains_text, decimal, decimal_string, parse_u32, spec_parse_u32};

verus! {

/// `char::is_whitespace`: the characters with the Unicode `White_Space` property.
pub open spec fn is_whitespace(c: char) -> bool {
    let u = c as u32;
    (9 <= u && u <= 13) || u == 32 || u == 0x85 || u == 0xA0 || u == 0x1680 || (0x2000 <= u && u
        <= 0x200A) || u == 0x2028 || u == 0x2029 || u == 0x202F || u == 0x205F || u == 0x3000
}

/// `c.is_whitespace()`.
pub fn is_whitespace_char(c: char) -> (r: bool)
    ensures
        r == is_whitespace(c),
{
    let u = c as u32;
    (9 <= u && u <= 13) || u == 32 || u == 0x85 || u == 0xA0 || u == 0x1680 || (0x2000 <= u && u
        <= 0x200A) || u == 0x2028 || u == 0x2029 || u == 0x202F || u == 0x205F || u == 0x3000
}

/// `e` ends the last whitespace-separated token of `l`.
pub open spec fn is_token_end(l: Seq<char>, e: int) -> bool {
    &&& 0 < e <= l.len()
    &&& !is_whitespace(l[e - 1])
    &&& forall|k: int| e <= k < l.len() ==> #[trigger] is_whitespace(l[k])
}

/// `b` starts the token of `l` that ends at `e`.
pub open spec fn is_token_start(l: Seq<char>, b: int, e: int) -> bool {
    &&& 0 <= b < e <= l.len()
    &&& forall|k: int| b <= k < e ==> !#[trigger] is_whitespace(l[k])
    &&& (b == 0 || is_whitespace(l[b - 1]))
}

/// `split_whitespace().last()`: the last whitespace-separated token of `l`.
pub open spec fn last_token(l: Seq<char>) -> Option<Seq<char>> {
    if exists|e: int| is_token_end(l, e) {
        let e = choose|e: int| is_token_end(l, e);
        if exists|b: int| is_token_start(l, b, e) {
            let b = choose|b: int| is_token_start(l, b, e);
            Some(l.subrange(b, e))
        } else {
            None
        }
    } else {
        None
    }
}

/// `e` ends the line of `s` that starts at `start`: at the next `\n`, or at the end.
pub open spec fn is_line_end(s: Seq<char>, start: int, e: int) -> bool {
    &&& start <= e <= s.len()
    &&& (e == s.len() || s[e] == '\n')
    &&& forall|k: int| start <= k < e ==> s[k] != '\n'
}

/// The text that a listening socket on local port `local` shows in `netstat`.
pub open spec fn listening_target(local: u16) -> Seq<char> {
    "127.0.0.1:"@ + decimal(local as nat)
}

/// The line mentions the socket and is a listening one.
pub open spec fn line_matches(line: Seq<char>, target: Seq<char>) -> bool {
    contains_text(line, target) && contains_text(line, "LISTENING"@)
}

/// Going through the lines of `s` from position `start` (`str::lines`): the first
/// line that matches decides, by the number its last token reads as.
pub open spec fn listening_pid_from(s: Seq<char>, target: Seq<char>, start: int) -> Option<u32>
    decreases s.len() + 1 - start,
{
    if 0 <= start < s.len() && exists|e: int| is_line_end(s, start, e) {
        let e = choose|e: int| is_line_end(s, start, e);
        let line = s.subrange(start, e);
        if line_matches(line, target) {
            match last_token(line) {
                Some(t) => spec_parse_u32(t),
                None => None,
            }
        } else {
            listening_pid_from(s, target, e + 1)
        }
    } else {
        None
    }
}

/// The process that `netstat -ano` output `s` shows listening on `127.0.0.1:<local>`.
pub open spec fn listening_pid_of(s: Seq<char>, local: u16) -> Option<u32> {
    listening_pid_from(s, listening_target(local), 0)
}

/// The last whitespace-separated token of `l`, if any.
pub fn last_token_str<'a>(l: &'a str) -> (r: Option<&'a str>)
    ensures
        match r {
            Some(t) => last_token(l@) == Some(t@),
            None => last_token(l@) is None,
        },
{
    let n = l.unicode_len();
    let mut e = n;
    while e > 0 && is_whitespace_char(l.get_char(e - 1))
        invariant
            e <= n,
            n == l@.len(),
            forall|k: int| e <= k < n ==> #[trigger] is_whitespace(l@[k]),
        decreases e,
    {
        e = e - 1;
    }
    if e == 0 {
        proof {
            if exists|e2: int| is_token_end(l@, e2) {
                let e2 = choose|e2: int| is_token_end(l@, e2);
                assert(is_whitespace(l@[e2 - 1]));
            }
        }
        return None;
    }
    assert(is_token_end(l@, e as int));
    let mut b = e - 1;
    while b > 0 && !is_whitespace_char(l.get_char(b - 1))
        invariant
            b < e <= n,
            n == l@.len(),
            forall|k: int| b <= k < e ==> !#[trigger] is_whitespace(l@[k]),
        decreases b,
    {
        b = b - 1;
    }
    assert(is_token_start(l@, b as int, e as int));
    proof {
        let e2 = choose|e2: int| is_token_end(l@, e2);
        if e2 < e {
            assert(is_whitespace(l@[e - 1]));
        } else if e2 > e {
            assert(is_whitespace(l@[e2 - 1]));
        }
        assert(e2 == e);
        let b2 = choose|b2: int| is_token_start(l@, b2, e as int);
        if b2 < b {
            assert(!is_whitespace(l@[b - 1]));
        } else if b2 > b {
            assert(!is_whitespace(l@[b2 - 1]));
        }
        assert(b2 == b);
    }
    Some(l.substring_char(b, e))
}

/// `find_listening_pid`: the process that the `netstat -ano` output `netstat` shows
/// listening on `127.0.0.1:<local>`. The first line that mentions that address and
/// `LISTENING` decides: its last token, read as a number.
pub fn find_listening_pid(netstat: &str, local: u16) -> (r: Option<u32>)
    ensures
        r == listening_pid_of(netstat@, local),
{
    let digits = decimal_string(local as u32);
    let target = String::from_str("127.0.0.1:").concat(digits.as_str());
    let ghost t = listening_target(local);
    let n = netstat.unicode_len();
    let mut start: usize = 0;
    while start < n
        invariant
            start <= n,
            n == netstat@.len(),
            target@ == t,
            listening_pid_from(netstat@, t, start as int) == listening_pid_of(netstat@, local),
        decreases n - start,
    {
        let mut e = start;
        while e < n && netstat.get_char(e) != '\n'
            invariant
                start <= e <= n,
                n == netstat@.len(),
                forall|k: int| start <= k < e ==> netstat@[k] != '\n',
            decreases n - e,
        {
            e = e + 1;
        }
        assert(is_line_end(netstat@, start as int, e as int));
        proof {
            let e2 = choose|e2: int| is_line_end(netstat@, start as int, e2);
            if e2 < e {
                assert(netstat@[e2] != '\n');
            } else if e2 > e {
                assert(netstat@[e as int] == '\n');
            }
            assert(e2 == e);
        }
        let line = netstat.substring_char(start, e);
        if contains_str(line, target.as_str()) && contains_str(line, "LISTENING") {
            return match last_token_str(line) {
                Some(tok) => parse_u32(tok),
                None => None,
            };
        }
        if e == n {
            assert(listening_pid_from(netstat@, t, e + 1) == None::<u32>);
            return None;
        }
        start = e + 1;
    }
    None
}

} // verus!
