use crate::escape::{backslash_run, backslashes, lemma_backslash_run_exact, push_backslashes};
use crate::text::{push_char, str_chars};
use vstd::prelude::*;

verus! {

/// Characters that separate arguments outside quotes: the space, the tab
/// and the line break.
pub open spec fn is_delimiter(c: char) -> bool {
    c == ' ' || c == '\t' || c == '\n'
}

/// Reads one argument of `line` from `pos` on, and gives its text together
/// with the position at which it ends.
///
/// Quotes and backslashes are read as a Windows program reads them when it
/// splits its command line. A run of `n` backslashes before a quote yields `n / 2` backslashes; if `n`
/// is odd the quote is a literal one, otherwise it opens or closes a quoted
/// stretch, except that inside a quoted stretch two quotes in a row yield one
/// literal quote. Backslashes before anything else stand for themselves. The
/// argument ends at the end of the line, or at a delimiter outside quotes.
pub open spec fn scan_argument(line: Seq<char>, pos: int, in_quotes: bool) -> (Seq<char>, int)
    decreases line.len() - pos,
{
    if pos < 0 || pos >= line.len() {
        (Seq::empty(), pos)
    } else {
        let n = backslash_run(line, pos);
        let at = pos + n;
        if at < line.len() && line[at] == '"' {
            if n % 2 == 1 {
                let (rest, end) = scan_argument(line, at + 1, in_quotes);
                (backslashes(n / 2) + seq!['"'] + rest, end)
            } else if in_quotes && at + 1 < line.len() && line[at + 1] == '"' {
                let (rest, end) = scan_argument(line, at + 2, in_quotes);
                (backslashes(n / 2) + seq!['"'] + rest, end)
            } else {
                let (rest, end) = scan_argument(line, at + 1, !in_quotes);
                (backslashes(n / 2) + rest, end)
            }
        } else if at >= line.len() || (!in_quotes && is_delimiter(line[at])) {
            (backslashes(n), at)
        } else {
            let (rest, end) = scan_argument(line, at + 1, in_quotes);
            (backslashes(n) + seq![line[at]] + rest, end)
        }
    }
}

/// The first position at or after `pos` that holds no delimiter.
pub open spec fn skip_delimiters(line: Seq<char>, pos: int) -> int
    decreases line.len() - pos,
{
    if 0 <= pos < line.len() && is_delimiter(line[pos]) {
        skip_delimiters(line, pos + 1)
    } else {
        pos
    }
}

/// The arguments of `line` that start at or after `pos`.
pub open spec fn arguments_from(line: Seq<char>, pos: int) -> Seq<Seq<char>>
    decreases line.len() - pos,
    via arguments_from_decreases
{
    let start = skip_delimiters(line, pos);
    if start < 0 || start >= line.len() {
        Seq::empty()
    } else {
        let (arg, end) = scan_argument(line, start, false);
        seq![arg] + arguments_from(line, end)
    }
}

#[via_fn]
proof fn arguments_from_decreases(line: Seq<char>, pos: int) {
    let start = skip_delimiters(line, pos);
    lemma_skip_delimiters(line, pos);
    if 0 <= start < line.len() {
        lemma_scan_argument_advances(line, start, false);
    }
}

/// The arguments into which `line` splits.
pub open spec fn arguments(line: Seq<char>) -> Seq<Seq<char>> {
    arguments_from(line, 0)
}

/// Skipping delimiters moves forward, stays within the line, and stops at
/// the end of the line or at a character that is no delimiter.
pub proof fn lemma_skip_delimiters(line: Seq<char>, pos: int)
    ensures
        pos <= skip_delimiters(line, pos),
        0 <= pos <= line.len() ==> skip_delimiters(line, pos) <= line.len(),
        0 <= skip_delimiters(line, pos) < line.len() ==> !is_delimiter(
            line[skip_delimiters(line, pos)],
        ),
    decreases line.len() - pos,
{
    if 0 <= pos < line.len() && is_delimiter(line[pos]) {
        lemma_skip_delimiters(line, pos + 1);
    }
}

/// A run of backslashes stays within the line, holds backslashes only, and
/// ends at the end of the line or at another character.
pub proof fn lemma_backslash_run_bounds(s: Seq<char>, pos: int)
    requires
        0 <= pos <= s.len(),
    ensures
        pos + backslash_run(s, pos) <= s.len(),
        forall|k: int| pos <= k < pos + backslash_run(s, pos) ==> s[k] == '\\',
        pos + backslash_run(s, pos) == s.len() || s[pos + backslash_run(s, pos)] != '\\',
    decreases s.len() - pos,
{
    if pos < s.len() && s[pos] == '\\' {
        lemma_backslash_run_bounds(s, pos + 1);
    }
}

/// An argument ends no earlier than it starts, and within the line. Where
/// it starts on a character that does not end it, it ends past its start.
pub proof fn lemma_scan_argument_advances(line: Seq<char>, pos: int, in_quotes: bool)
    requires
        0 <= pos <= line.len(),
    ensures
        pos <= scan_argument(line, pos, in_quotes).1 <= line.len(),
        pos < line.len() && (in_quotes || !is_delimiter(line[pos])) ==> pos < scan_argument(
            line,
            pos,
            in_quotes,
        ).1,
    decreases line.len() - pos,
{
    if pos < line.len() {
        lemma_backslash_run_bounds(line, pos);
        let n = backslash_run(line, pos);
        let at = pos + n;
        if at < line.len() && line[at] == '"' {
            if n % 2 == 1 {
                lemma_scan_argument_advances(line, at + 1, in_quotes);
            } else if in_quotes && at + 1 < line.len() && line[at + 1] == '"' {
                lemma_scan_argument_advances(line, at + 2, in_quotes);
            } else {
                lemma_scan_argument_advances(line, at + 1, !in_quotes);
            }
        } else if at >= line.len() || (!in_quotes && is_delimiter(line[at])) {
        } else {
            lemma_scan_argument_advances(line, at + 1, in_quotes);
        }
    }
}

fn is_delimiter_char(c: char) -> (r: bool)
    ensures
        r == is_delimiter(c),
{
    c == ' ' || c == '\t' || c == '\n'
}

/// Reads the argument that starts at `start`.
fn scan_one(chars: &Vec<char>, start: usize) -> (r: (String, usize))
    requires
        start <= chars.len(),
    ensures
        (r.0@, r.1 as int) == scan_argument(chars@, start as int, false),
        start <= r.1 <= chars.len(),
{
    let ghost line = chars@;
    let len = chars.len();
    let mut out = String::new();
    let mut pos: usize = start;
    let mut in_quotes = false;
    assert(out@ + scan_argument(line, pos as int, in_quotes).0 =~= scan_argument(
        line,
        start as int,
        false,
    ).0);
    loop
        invariant_except_break
            scan_argument(line, start as int, false) == (
                out@ + scan_argument(line, pos as int, in_quotes).0,
                scan_argument(line, pos as int, in_quotes).1,
            ),
        invariant
            line == chars@,
            len == chars.len(),
            start <= pos <= len,
        ensures
            scan_argument(line, start as int, false) == (out@, pos as int),
        decreases len - pos,
    {
        if pos >= len {
            assert(out@ + Seq::<char>::empty() =~= out@);
            break ;
        }
        let mut at: usize = pos;
        while at < len && chars[at] == '\\'
            invariant
                line == chars@,
                len == chars.len(),
                pos <= at <= len,
                forall|k: int| pos <= k < at ==> line[k] == '\\',
            decreases len - at,
        {
            at = at + 1;
        }
        let n: usize = at - pos;
        proof {
            lemma_backslash_run_exact(line, pos as int, at as int);
        }
        let ghost before = out@;
        let ghost tail = scan_argument(line, pos as int, in_quotes).0;
        if at < len && chars[at] == '"' {
            push_backslashes(&mut out, n / 2);
            if n % 2 == 1 {
                push_char(&mut out, '"');
                pos = at + 1;
            } else if in_quotes && at + 1 < len && chars[at + 1] == '"' {
                push_char(&mut out, '"');
                pos = at + 2;
            } else {
                in_quotes = !in_quotes;
                pos = at + 1;
            }
            assert(out@ + scan_argument(line, pos as int, in_quotes).0 =~= before + tail);
        } else if at >= len || (!in_quotes && is_delimiter_char(chars[at])) {
            push_backslashes(&mut out, n);
            pos = at;
            assert(out@ =~= before + tail);
            break ;
        } else {
            push_backslashes(&mut out, n);
            push_char(&mut out, chars[at]);
            pos = at + 1;
            assert(out@ + scan_argument(line, pos as int, in_quotes).0 =~= before + tail);
        }
    }
    (out, pos)
}

/// Splits a command line into its arguments.
pub fn split_command_line(line: &str) -> (args: Vec<String>)
    ensures
        args.deep_view() == arguments(line@),
{
    let chars = str_chars(line);
    let len = chars.len();
    let mut args: Vec<String> = Vec::new();
    let mut pos: usize = 0;
    assert(args.deep_view() + arguments_from(chars@, 0) =~= arguments(line@));
    loop
        invariant_except_break
            args.deep_view() + arguments_from(chars@, pos as int) == arguments(line@),
        invariant
            chars@ == line@,
            len == chars.len(),
            pos <= len,
        ensures
            args.deep_view() == arguments(line@),
        decreases len - pos,
    {
        let ghost from = pos as int;
        while pos < len && is_delimiter_char(chars[pos])
            invariant
                len == chars.len(),
                from <= pos <= len,
                skip_delimiters(chars@, pos as int) == skip_delimiters(chars@, from),
            decreases len - pos,
        {
            pos = pos + 1;
        }
        if pos >= len {
            assert(args.deep_view() + Seq::<Seq<char>>::empty() =~= args.deep_view());
            break ;
        }
        let ghost before = args.deep_view();
        let (arg, end) = scan_one(&chars, pos);
        proof {
            lemma_scan_argument_advances(chars@, pos as int, false);
        }
        args.push(arg);
        assert(args.deep_view() =~= before + seq![arg@]);
        assert(args.deep_view() + arguments_from(chars@, end as int) =~= before
            + arguments_from(chars@, from));
        pos = end;
    }
    args
}

} // verus!
