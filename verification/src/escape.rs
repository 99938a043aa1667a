use crate::text::push_char;
use vstd::prelude::*;
use vstd::string::*;

verus! {

/// Characters that carry meaning for the shell's argument splitter: the three
/// whitespace separators, the double quote and the backslash.
pub open spec fn is_special(c: char) -> bool {
    c == ' ' || c == '\t' || c == '\n' || c == '"' || c == '\\'
}

/// Whether any character of `s` is special.
pub open spec fn has_special(s: Seq<char>) -> bool {
    exists|i: int| 0 <= i < s.len() && is_special(#[trigger] s[i])
}

/// A run of `n` backslashes.
pub open spec fn backslashes(n: nat) -> Seq<char> {
    Seq::new(n, |i: int| '\\')
}

/// Length of the maximal run of backslashes that starts at `pos`.
pub open spec fn backslash_run(s: Seq<char>, pos: int) -> nat
    decreases s.len() - pos,
{
    if 0 <= pos < s.len() && s[pos] == '\\' {
        1 + backslash_run(s, pos + 1)
    } else {
        0
    }
}

/// The text placed between the surrounding quotes for `s[pos..]`.
///
/// The input is read as a series of backslash runs, each followed by one
/// other character or by the end of the input. A run of `n` backslashes
/// before a quote becomes `2n + 1` backslashes and the quote; before any
/// other character it stays as it is; at the end of the input it is doubled,
/// so that it cannot swallow the closing quote.
pub open spec fn quoted_from(s: Seq<char>, pos: int) -> Seq<char>
    decreases s.len() - pos,
{
    if pos < 0 || pos >= s.len() {
        Seq::empty()
    } else {
        let n = backslash_run(s, pos);
        let next = pos + n;
        if next >= s.len() {
            backslashes(2 * n)
        } else if s[next] == '"' {
            backslashes(2 * n + 1) + seq!['"'] + quoted_from(s, next + 1)
        } else {
            backslashes(n) + seq![s[next]] + quoted_from(s, next + 1)
        }
    }
}

/// The token that stands for the argument `s` on a command line.
pub open spec fn escaped(s: Seq<char>) -> Seq<char> {
    if s.len() == 0 {
        seq!['"', '"']
    } else if !has_special(s) {
        s
    } else {
        seq!['"'] + quoted_from(s, 0) + seq!['"']
    }
}

/// The tokens of `args`, one for each argument.
pub open spec fn escaped_all(args: Seq<Seq<char>>) -> Seq<Seq<char>> {
    Seq::new(args.len(), |i: int| escaped(args[i]))
}

/// `tokens` laid out on one line, with a single space between neighbours.
pub open spec fn joined(tokens: Seq<Seq<char>>) -> Seq<char>
    decreases tokens.len(),
{
    if tokens.len() == 0 {
        Seq::empty()
    } else if tokens.len() == 1 {
        tokens[0]
    } else {
        tokens[0] + seq![' '] + joined(tokens.drop_first())
    }
}

/// The command line that passes `args` to a program: every argument escaped,
/// the tokens separated by single spaces.
pub open spec fn command_line(args: Seq<Seq<char>>) -> Seq<char> {
    joined(escaped_all(args))
}

/// A stretch of backslashes that ends at a different character, or at the
/// end of the input, is a maximal run.
pub proof fn lemma_backslash_run_exact(s: Seq<char>, start: int, end: int)
    requires
        0 <= start <= end <= s.len(),
        forall|k: int| start <= k < end ==> s[k] == '\\',
        end == s.len() || s[end] != '\\',
    ensures
        backslash_run(s, start) == end - start,
    decreases end - start,
{
    if start < end {
        lemma_backslash_run_exact(s, start + 1, end);
    }
}

/// Two runs of backslashes laid end to end form one run.
pub proof fn lemma_backslashes_concat(a: nat, b: nat)
    ensures
        backslashes(a) + backslashes(b) == backslashes(a + b),
{
    assert(backslashes(a) + backslashes(b) =~= backslashes(a + b));
}

/// Appends `count` backslashes to `out`.
pub(crate) fn push_backslashes(out: &mut String, count: usize)
    ensures
        final(out)@ == old(out)@ + backslashes(count as nat),
{
    let mut done: usize = 0;
    assert(out@ =~= old(out)@ + backslashes(0));
    while done < count
        invariant
            done <= count,
            out@ == old(out)@ + backslashes(done as nat),
        decreases count - done,
    {
        push_char(out, '\\');
        done = done + 1;
        assert(out@ =~= old(out)@ + backslashes(done as nat));
    }
}

/// Whether `arg` holds a character that forces quoting.
fn contains_special(arg: &str) -> (found: bool)
    ensures
        found == has_special(arg@),
{
    let mut found = false;
    for c in it: arg.chars()
        invariant
            it.seq() == arg@,
            found == exists|i: int| 0 <= i < it.index() && is_special(#[trigger] arg@[i]),
    {
        if c == ' ' || c == '\t' || c == '\n' || c == '"' || c == '\\' {
            found = true;
        }
    }
    found
}

/// Escapes one argument for a Windows command line.
///
/// The empty argument becomes a pair of quotes. An argument without special
/// characters is returned unchanged. Any other argument is wrapped in quotes,
/// with its quotes and the backslash runs before them escaped.
pub fn windows_escape_arg(arg: &str) -> (token: String)
    ensures
        token@ == escaped(arg@),
{
    if arg.is_empty() {
        let mut out = String::new();
        push_char(&mut out, '"');
        push_char(&mut out, '"');
        assert(out@ =~= seq!['"', '"']);
        return out;
    }
    if !contains_special(arg) {
        return arg.to_owned();
    }
    // The argument's length in characters fits a machine word, and so does
    // every count of backslashes within it.
    let total = arg.unicode_len();
    let mut out = String::new();
    push_char(&mut out, '"');
    let mut pending: usize = 0;
    assert(out@ + quoted_from(arg@, 0) =~= seq!['"'] + quoted_from(arg@, 0));
    for c in it: arg.chars()
        invariant
            it.seq() == arg@,
            total == arg@.len(),
            pending <= it.index(),
            forall|k: int| it.index() - pending <= k < it.index() ==> arg@[k] == '\\',
            out@ + quoted_from(arg@, it.index() - pending) == seq!['"'] + quoted_from(arg@, 0),
    {
        let ghost i = it.index() as int;
        let ghost start = i - pending;
        let ghost before = out@;
        if c == '\\' {
            pending = pending + 1;
        } else {
            proof {
                lemma_backslash_run_exact(arg@, start, i);
            }
            push_backslashes(&mut out, pending);
            if c == '"' {
                push_backslashes(&mut out, pending);
                push_char(&mut out, '\\');
            }
            push_char(&mut out, c);
            proof {
                let n = pending as nat;
                if c == '"' {
                    lemma_backslashes_concat(n, n);
                    lemma_backslashes_concat(2 * n, 1);
                    assert(backslashes(1) =~= seq!['\\']);
                    assert(out@ =~= before + (backslashes(2 * n + 1) + seq!['"']));
                } else {
                    assert(out@ =~= before + (backslashes(n) + seq![c]));
                }
                assert(out@ + quoted_from(arg@, i + 1) =~= before + quoted_from(arg@, start));
            }
            pending = 0;
        }
    }
    proof {
        let n = pending as nat;
        let start = arg@.len() - pending;
        lemma_backslash_run_exact(arg@, start, arg@.len() as int);
        lemma_backslashes_concat(n, n);
        assert(quoted_from(arg@, start) =~= backslashes(2 * n));
    }
    push_backslashes(&mut out, pending);
    push_backslashes(&mut out, pending);
    push_char(&mut out, '"');
    assert(out@ =~= seq!['"'] + quoted_from(arg@, 0) + seq!['"']);
    out
}

} // verus!
