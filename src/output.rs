use vstd::prelude::*;
use vstd::string::StringExecFns;
use crate::text::{chars_of, string_from_chars};

verus! {

/// The ways results can be shown.
#[derive(Debug, Clone, Copy, PartialEq, Eq, Structural)]
pub enum OutputFormat {
    Table,
    Json,
    Yaml,
    Csv,
    Simple,
    Detailed,
}

/// Bytes that UTF-8 spends on `c`.
pub open spec fn utf8_width(c: char) -> int {
    let u = c as u32;
    if u < 0x80 {
        1
    } else if u < 0x800 {
        2
    } else if u < 0x10000 {
        3
    } else {
        4
    }
}

/// How many leading characters stay: character `j` stays while
/// `j` plus its UTF-8 width is within `limit`.
pub open spec fn kept_chars(s: Seq<char>, j: int, limit: int) -> int
    decreases s.len() - j,
{
    if 0 <= j < s.len() && j + utf8_width(s[j]) <= limit {
        kept_chars(s, j + 1, limit)
    } else {
        j
    }
}

/// `s` as a column of at most `max` characters shows it: whole when it
/// fits, else a prefix followed by `...`.
pub open spec fn truncated(s: Seq<char>, max: usize) -> Seq<char> {
    if s.len() <= max {
        s
    } else {
        s.take(kept_chars(s, 0, if max >= 3 { max - 3 } else { 0 })) + "..."@
    }
}

fn utf8_width_of(c: char) -> (r: usize)
    ensures
        r as int == utf8_width(c),
{
    let u = c as u32;
    if u < 0x80 {
        1
    } else if u < 0x800 {
        2
    } else if u < 0x10000 {
        3
    } else {
        4
    }
}

/// Shortens `s` for a table column of `max_length`.
pub fn truncate_string(s: &str, max_length: usize) -> (r: String)
    ensures
        r@ == truncated(s@, max_length),
{
    let c = chars_of(s);
    if c.len() <= max_length {
        return String::from_str(s);
    }
    let limit: usize = if max_length >= 3 { max_length - 3 } else { 0 };
    let mut out: Vec<char> = Vec::new();
    let mut j: usize = 0;
    while j < c.len() && utf8_width_of(c[j]) <= limit - j
        invariant
            j <= c.len(),
            j <= limit,
            c@ == s@,
            out@ == s@.take(j as int),
            kept_chars(s@, 0, limit as int) == kept_chars(s@, j as int, limit as int),
        decreases c.len() - j,
    {
        out.push(c[j]);
        assert(s@.take(j + 1) =~= s@.take(j as int).push(s@[j as int]));
        j = j + 1;
    }
    out.push('.');
    out.push('.');
    out.push('.');
    proof {
        reveal_strlit("...");
        assert(out@ =~= s@.take(j as int) + "..."@);
    }
    string_from_chars(&out)
}

/// The name shown for `pid`: the first process listed with it, or `Unknown`.
pub open spec fn display_name(names: Seq<(u32, String)>, pid: u32) -> Seq<char>
    decreases names.len(),
{
    if names.len() == 0 {
        "Unknown"@
    } else if names[0].0 == pid {
        names[0].1@
    } else {
        display_name(names.drop_first(), pid)
    }
}

/// The name of the process that owns `pid`, or `Unknown`.
pub fn get_process_name(process_names: &Vec<(u32, String)>, pid: u32) -> (r: String)
    ensures
        r@ == display_name(process_names@, pid),
{
    let mut i: usize = 0;
    assert(process_names@.subrange(0, process_names@.len() as int) =~= process_names@);
    while i < process_names.len()
        invariant
            i <= process_names.len(),
            display_name(process_names@, pid) == display_name(process_names@.subrange(i as int, process_names@.len() as int), pid),
        decreases process_names.len() - i,
    {
        let ghost rest = process_names@.subrange(i as int, process_names@.len() as int);
        assert(rest.drop_first() =~= process_names@.subrange(i + 1, process_names@.len() as int));
        if process_names[i].0 == pid {
            return process_names[i].1.clone();
        }
        i = i + 1;
    }
    String::from_str("Unknown")
}

} // verus!
