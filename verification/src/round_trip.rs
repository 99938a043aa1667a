use crate::cmdline::{
    arguments, arguments_from, is_delimiter, lemma_backslash_run_bounds, scan_argument,
    skip_delimiters,
};
use crate::escape::{
    backslash_run, backslashes, command_line, escaped, escaped_all, has_special, is_special,
    lemma_backslash_run_exact, quoted_from,
};
use vstd::prelude::*;

verus! {

/// An argument made of ordinary characters only, standing unquoted on the
/// line, is read back as it stands.
proof fn lemma_scan_plain(line: Seq<char>, pos: int, end: int)
    requires
        0 <= pos <= end <= line.len(),
        forall|k: int| pos <= k < end ==> !is_special(#[trigger] line[k]),
        end == line.len() || is_delimiter(line[end]),
    ensures
        scan_argument(line, pos, false) == (line.subrange(pos, end), end),
    decreases end - pos,
{
    if pos < end {
        assert(!is_special(line[pos]));
        lemma_scan_plain(line, pos + 1, end);
        assert(backslashes(0) + seq![line[pos]] + line.subrange(pos + 1, end) =~= line.subrange(
            pos,
            end,
        ));
    } else {
        assert(line.subrange(pos, end) =~= Seq::<char>::empty());
        assert(backslashes(0) =~= Seq::<char>::empty());
    }
}

/// The part of `s` from `from` on is the run of backslashes found there,
/// the character after it, and what follows that character.
proof fn lemma_skip_split(s: Seq<char>, from: int)
    requires
        0 <= from <= s.len(),
    ensures
        from + backslash_run(s, from) == s.len() ==> s.skip(from) == backslashes(
            backslash_run(s, from),
        ),
        from + backslash_run(s, from) < s.len() ==> s.skip(from) == backslashes(
            backslash_run(s, from),
        ) + seq![s[from + backslash_run(s, from)]] + s.skip(from + backslash_run(s, from) + 1),
{
    lemma_backslash_run_bounds(s, from);
    let n = backslash_run(s, from);
    if from + n == s.len() {
        assert(s.skip(from) =~= backslashes(n));
    } else {
        assert(s.skip(from) =~= backslashes(n) + seq![s[from + n]] + s.skip(from + n + 1));
    }
}

/// The quoted form of `s[from..]`, standing on the line at `pos` and closed
/// by a quote that no second quote follows, is read back as `s[from..]`;
/// reading then goes on behind the closing quote, outside quotes.
proof fn lemma_scan_quoted(line: Seq<char>, pos: int, s: Seq<char>, from: int)
    requires
        0 <= from <= s.len(),
        0 <= pos,
        pos + quoted_from(s, from).len() < line.len(),
        line.subrange(pos, pos + quoted_from(s, from).len()) == quoted_from(s, from),
        line[pos + quoted_from(s, from).len()] == '"',
        pos + quoted_from(s, from).len() + 1 == line.len() || line[pos + quoted_from(
            s,
            from,
        ).len() + 1] != '"',
    ensures
        scan_argument(line, pos, true) == (
            s.skip(from) + scan_argument(line, pos + quoted_from(s, from).len() + 1, false).0,
            scan_argument(line, pos + quoted_from(s, from).len() + 1, false).1,
        ),
    decreases s.len() - from,
{
    let body = quoted_from(s, from);
    let close = pos + body.len();
    let after = scan_argument(line, close + 1, false);
    assert forall|k: int| 0 <= k < body.len() implies line[pos + k] == body[k] by {
        assert(line.subrange(pos, close)[k] == line[pos + k]);
    }
    lemma_skip_split(s, from);
    lemma_backslash_run_bounds(s, from);
    let n = backslash_run(s, from);
    let next = from + n;
    if from == s.len() {
        assert(body =~= Seq::<char>::empty());
        assert(backslash_run(line, pos) == 0);
        assert(backslashes(0) + after.0 =~= s.skip(from) + after.0);
    } else if next >= s.len() {
        assert(body == backslashes(2 * n));
        assert forall|k: int| pos <= k < pos + 2 * n implies line[k] == '\\' by {
            assert(line[pos + (k - pos)] == body[k - pos]);
        }
        lemma_backslash_run_exact(line, pos, pos + 2 * n);
        assert(backslash_run(line, pos) == 2 * n);
        assert((2 * n) % 2 == 0 && (2 * n) / 2 == n);
        assert(backslashes(n) + after.0 =~= s.skip(from) + after.0);
    } else if s[next] == '"' {
        let rest = quoted_from(s, next + 1);
        assert(body == backslashes(2 * n + 1) + seq!['"'] + rest);
        assert forall|k: int| pos <= k < pos + 2 * n + 1 implies line[k] == '\\' by {
            assert(line[pos + (k - pos)] == body[k - pos]);
        }
        assert(line[pos + (2 * n + 1)] == body[(2 * n + 1) as int]);
        lemma_backslash_run_exact(line, pos, pos + 2 * n + 1);
        assert(backslash_run(line, pos) == 2 * n + 1);
        assert((2 * n + 1) % 2 == 1 && (2 * n + 1) / 2 == n);
        let inner = pos + 2 * n + 2;
        assert(line.subrange(inner, inner + rest.len()) =~= rest) by {
            assert forall|k: int| 0 <= k < rest.len() implies line[inner + k] == rest[k] by {
                assert(line[pos + (2 * n + 2 + k)] == body[2 * n + 2 + k]);
            }
        }
        assert(inner + rest.len() == close);
        lemma_scan_quoted(line, inner, s, next + 1);
        assert(backslashes(n) + seq!['"'] + (s.skip(next + 1) + after.0) =~= s.skip(from)
            + after.0);
    } else {
        let rest = quoted_from(s, next + 1);
        assert(body == backslashes(n) + seq![s[next]] + rest);
        assert forall|k: int| pos <= k < pos + n implies line[k] == '\\' by {
            assert(line[pos + (k - pos)] == body[k - pos]);
        }
        assert(line[pos + n] == body[n as int]);
        assert(line[pos + n] == s[next]);
        lemma_backslash_run_exact(line, pos, pos + n);
        assert(backslash_run(line, pos) == n);
        let inner = pos + n + 1;
        assert(line.subrange(inner, inner + rest.len()) =~= rest) by {
            assert forall|k: int| 0 <= k < rest.len() implies line[inner + k] == rest[k] by {
                assert(line[pos + (n + 1 + k)] == body[n + 1 + k]);
            }
        }
        assert(inner + rest.len() == close);
        lemma_scan_quoted(line, inner, s, next + 1);
        assert(backslashes(n) + seq![s[next]] + (s.skip(next + 1) + after.0) =~= s.skip(from)
            + after.0);
    }
}

/// A token never starts with a delimiter, and is never empty.
proof fn lemma_token_start(arg: Seq<char>)
    ensures
        escaped(arg).len() > 0,
        !is_delimiter(escaped(arg)[0]),
{
    if arg.len() > 0 && !has_special(arg) {
        assert(!is_special(arg[0]));
    }
}

/// The token of `arg`, standing on the line at `pos` and followed by a
/// delimiter or by the end of the line, is read back as `arg`.
proof fn lemma_scan_token(line: Seq<char>, pos: int, arg: Seq<char>)
    requires
        0 <= pos,
        pos + escaped(arg).len() <= line.len(),
        line.subrange(pos, pos + escaped(arg).len()) == escaped(arg),
        pos + escaped(arg).len() == line.len() || is_delimiter(line[pos + escaped(arg).len()]),
    ensures
        scan_argument(line, pos, false) == (arg, pos + escaped(arg).len()),
        skip_delimiters(line, pos) == pos,
{
    let token = escaped(arg);
    let end = pos + token.len();
    lemma_token_start(arg);
    assert forall|k: int| 0 <= k < token.len() implies line[pos + k] == token[k] by {
        assert(line.subrange(pos, end)[k] == line[pos + k]);
    }
    assert(line[pos + 0] == token[0]);
    assert(scan_argument(line, end, false) == (Seq::<char>::empty(), end)) by {
        assert(backslashes(0) =~= Seq::<char>::empty());
    }
    if arg.len() == 0 {
        assert(line[pos + 1] == token[1]);
        assert(backslash_run(line, pos) == 0);
        assert(backslash_run(line, pos + 1) == 0);
        assert(backslashes(0) =~= Seq::<char>::empty());
        assert(scan_argument(line, pos + 1, true) == (Seq::<char>::empty(), end)) by {
            assert(backslashes(0) + Seq::<char>::empty() =~= Seq::<char>::empty());
        }
        assert(backslashes(0) + Seq::<char>::empty() =~= arg);
    } else if !has_special(arg) {
        assert forall|k: int| pos <= k < end implies !is_special(#[trigger] line[k]) by {
            assert(line[pos + (k - pos)] == arg[k - pos]);
        }
        lemma_scan_plain(line, pos, end);
        assert(line.subrange(pos, end) =~= arg);
    } else {
        let body = quoted_from(arg, 0);
        assert(token.len() == body.len() + 2);
        assert(line.subrange(pos + 1, pos + 1 + body.len()) =~= body) by {
            assert forall|k: int| 0 <= k < body.len() implies line[pos + 1 + k] == body[k] by {
                assert(line[pos + (1 + k)] == token[1 + k]);
            }
        }
        assert(line[pos + (1 + body.len())] == token[(1 + body.len()) as int]);
        assert(backslash_run(line, pos) == 0);
        lemma_scan_quoted(line, pos + 1, arg, 0);
        assert(arg.skip(0) =~= arg);
        assert(backslashes(0) + (arg + Seq::<char>::empty()) =~= arg);
    }
}

/// Where the line holds, from `pos` to its end, the command line made from
/// `args`, the arguments read from `pos` are `args`.
proof fn lemma_arguments_of_command_line(line: Seq<char>, pos: int, args: Seq<Seq<char>>)
    requires
        0 <= pos <= line.len(),
        line.skip(pos) == command_line(args),
    ensures
        arguments_from(line, pos) == args,
    decreases args.len(),
{
    let tokens = escaped_all(args);
    if args.len() == 0 {
        assert(pos == line.len());
        assert(args =~= Seq::<Seq<char>>::empty());
    } else {
        let token = tokens[0];
        let end = pos + token.len();
        assert(token == escaped(args[0]));
        if args.len() == 1 {
            assert(line.subrange(pos, end) =~= token);
            lemma_scan_token(line, pos, args[0]);
            assert(seq![args[0]] + Seq::<Seq<char>>::empty() =~= args);
        } else {
            let rest = args.drop_first();
            assert(escaped_all(rest) =~= tokens.drop_first());
            let tail = command_line(rest);
            assert(line.skip(pos) == token + seq![' '] + tail);
            assert(line.skip(pos).len() == token.len() + 1 + tail.len());
            assert(line.subrange(pos, end) =~= token) by {
                assert forall|k: int| 0 <= k < token.len() implies line[pos + k] == token[k] by {
                    assert(line.skip(pos)[k] == token[k]);
                }
            }
            assert(line[end] == ' ') by {
                assert(line.skip(pos)[token.len() as int] == ' ');
            }
            lemma_scan_token(line, pos, args[0]);
            assert(line.skip(end + 1) =~= tail) by {
                assert forall|k: int| 0 <= k < tail.len() implies line[end + 1 + k] == tail[k] by {
                    assert(line.skip(pos)[token.len() + 1 + k] == tail[k]);
                }
            }
            lemma_arguments_of_command_line(line, end + 1, rest);
            assert(skip_delimiters(line, end) == skip_delimiters(line, end + 1));
            assert(arguments_from(line, end) == arguments_from(line, end + 1));
            assert(seq![args[0]] + rest =~= args);
        }
    }
}

/// Splitting the command line made from `args` gives `args` back: as many
/// arguments as went in, each exactly as it was.
pub proof fn lemma_command_line_round_trip(args: Seq<Seq<char>>)
    ensures
        arguments(command_line(args)) == args,
{
    let line = command_line(args);
    assert(line.skip(0) =~= line);
    lemma_arguments_of_command_line(line, 0, args);
}

/// Escaping an argument and splitting the token gives the argument back, as
/// a single argument.
pub proof fn lemma_escape_round_trip(arg: Seq<char>)
    ensures
        arguments(escaped(arg)) == seq![arg],
{
    let args = seq![arg];
    assert(escaped_all(args) =~= seq![escaped(arg)]);
    lemma_command_line_round_trip(args);
}

/// An argument that is not empty and holds no special character is its own
/// token: nothing is added and nothing is changed.
pub proof fn lemma_plain_argument_unchanged(arg: Seq<char>)
    requires
        arg.len() > 0,
        !has_special(arg),
    ensures
        escaped(arg) == arg,
{
}

} // verus!
