//! The user's query, as read from standard input, and the name of the
//! operating system that the system prompt mentions.
use crate::text::{chars_of, string_from_chars, trim, trim_chars};
use vstd::prelude::*;

verus! {

/// Why no query could be taken from the input.
#[derive(Debug, Clone, Copy, PartialEq, Eq, Structural)]
pub enum QueryError {
    /// Nothing but whitespace was given.
    Empty,
}

impl QueryError {
    /// The message shown to the user.
    pub fn message(&self) -> (r: &'static str)
        ensures
            r@ == "no query provided (pipe it in or type it at the prompt)"@,
    {
        "no query provided (pipe it in or type it at the prompt)"
    }
}

/// The first line of `s`, with its line feed, as `BufRead::read_line` reads
/// it; all of `s` when it has no line feed.
pub open spec fn first_line(s: Seq<char>) -> Seq<char> {
    if exists|k: int| 0 <= k < s.len() && s[k] == '\n' {
        let k = choose|k: int|
            0 <= k < s.len() && s[k] == '\n' && forall|j: int| 0 <= j < k ==> s[j] != '\n';
        s.take(k + 1)
    } else {
        s
    }
}

/// The query in `input`: its first line when `single_line`, all of it
/// otherwise, without leading and trailing whitespace.
pub open spec fn query_of(input: Seq<char>, single_line: bool) -> Seq<char> {
    trim(if single_line { first_line(input) } else { input })
}

/// The query in `input` (the first line only when `single_line`), trimmed;
/// an error when nothing but whitespace is left.
pub fn read_query(input: &str, single_line: bool) -> (r: Result<String, QueryError>)
    ensures
        match r {
            Ok(q) => q@ == query_of(input@, single_line) && q@.len() > 0,
            Err(_) => query_of(input@, single_line).len() == 0,
        },
{
    let v = chars_of(input);
    let mut end: usize = v.len();
    if single_line {
        let mut k: usize = 0;
        while k < v.len() && v[k] != '\n'
            invariant
                k <= v@.len(),
                v@ == input@,
                forall|j: int| 0 <= j < k ==> v@[j] != '\n',
            decreases v@.len() - k,
        {
            k = k + 1;
        }
        if k < v.len() {
            end = k + 1;
            proof {
                let s = input@;
                assert(exists|m: int| 0 <= m < s.len() && s[m] == '\n');
                let c = choose|m: int|
                    0 <= m < s.len() && s[m] == '\n' && forall|j: int| 0 <= j < m ==> s[j] != '\n';
                assert(0 <= k < s.len() && s[k as int] == '\n' && forall|j: int|
                    0 <= j < k ==> s[j] != '\n');
                if c < k {
                    assert(s[c] != '\n');
                }
                if k < c {
                    assert(s[k as int] != '\n');
                }
                assert(c == k);
            }
        } else {
            assert(!exists|m: int| 0 <= m < input@.len() && input@[m] == '\n');
        }
    }
    let ghost line = if single_line { first_line(input@) } else { input@ };
    assert(v@.take(end as int) =~= line);
    let mut head: Vec<char> = Vec::new();
    let mut i: usize = 0;
    while i < end
        invariant
            i <= end <= v@.len(),
            head@ == v@.take(i as int),
        decreases end - i,
    {
        head.push(v[i]);
        assert(v@.take(i as int).push(v@[i as int]) =~= v@.take(i + 1));
        i = i + 1;
    }
    let t = trim_chars(head.as_slice());
    if t.len() == 0 {
        Err(QueryError::Empty)
    } else {
        Ok(string_from_chars(t.as_slice()))
    }
}

/// A query is already trimmed: taken again from its own text, it is itself.
pub proof fn law_query_is_trimmed(input: Seq<char>, single_line: bool)
    ensures
        query_of(query_of(input, single_line), false) == query_of(input, single_line),
{
    crate::text::lemma_trim_idempotent(if single_line { first_line(input) } else { input });
}

/// The name of the operating system `target_os` (as Rust names it) that the
/// system prompt uses: `darwin` for macOS, `linux` for Linux, `unix` otherwise.
pub fn os_name(target_os: &str) -> (r: &'static str)
    ensures
        r@ == (if target_os@ == "macos"@ {
            "darwin"@
        } else if target_os@ == "linux"@ {
            "linux"@
        } else {
            "unix"@
        }),
{
    if crate::text::str_eq(target_os, "macos") {
        "darwin"
    } else if crate::text::str_eq(target_os, "linux") {
        "linux"
    } else {
        "unix"
    }
}

} // verus!
