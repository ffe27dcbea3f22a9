//! Global search: the full-text query built from user input, the
//! milestone title pattern, and the result caps.

use vstd::prelude::*;
use crate::numfmt::{push_char, push_str};
use crate::text::{trim, trim_seq};

verus! {

/// `s` with every double quote doubled.
pub open spec fn double_quotes(s: Seq<char>) -> Seq<char>
    decreases s.len(),
{
    if s.len() == 0 {
        Seq::empty()
    } else {
        double_quotes(s.drop_last()) + if s.last() == '"' { seq!['"', '"'] } else { seq![s.last()] }
    }
}

/// The full-text query for user input: the trimmed input as one quoted
/// phrase (inner quotes doubled) matched as a prefix; nothing for blank
/// input.
pub open spec fn fts_query(raw: Seq<char>) -> Option<Seq<char>> {
    let t = trim_seq(raw);
    if t.len() == 0 { None } else { Some(seq!['"'] + double_quotes(t) + seq!['"', '*']) }
}

/// Escape user input for a full-text `MATCH` expression.
pub fn fts_escape(raw: &str) -> (r: Option<String>)
    ensures
        match r {
            Some(q) => fts_query(raw@) == Some(q@),
            None => fts_query(raw@).is_none(),
        },
{
    let t = trim(raw);
    if t.as_str().is_empty() {
        return None;
    }
    let mut q = String::new();
    push_char(&mut q, '"');
    let ghost start = q@;
    let n = t.as_str().unicode_len();
    let mut i: usize = 0;
    while i < n
        invariant
            n == t@.len(),
            i <= n,
            q@ == start + double_quotes(t@.take(i as int)),
        decreases n - i,
    {
        let c = t.as_str().get_char(i);
        proof {
            assert(t@.take(i as int + 1).drop_last() =~= t@.take(i as int));
        }
        if c == '"' {
            push_char(&mut q, '"');
            push_char(&mut q, '"');
        } else {
            push_char(&mut q, c);
        }
        i = i + 1;
    }
    assert(t@.take(n as int) =~= t@);
    push_char(&mut q, '"');
    push_char(&mut q, '*');
    Some(q)
}

/// Results per category: 20 by default, at most 100.
pub fn search_cap(limit: Option<usize>) -> (cap: i64)
    ensures
        cap == match limit {
            Some(l) => if l < 100 { l as int } else { 100 },
            None => 20,
        },
{
    match limit {
        Some(l) => if l < 100 { l as i64 } else { 100 },
        None => 20,
    }
}

/// The `LIKE` pattern matching milestone titles that contain the trimmed
/// input.
pub fn like_pattern(raw: &str) -> (p: String)
    ensures
        p@ == seq!['%'] + trim_seq(raw@) + seq!['%'],
{
    let mut p = String::new();
    push_char(&mut p, '%');
    let t = trim(raw);
    push_str(&mut p, t.as_str());
    push_char(&mut p, '%');
    p
}

} // verus!
