use crate::decimal::{
    all_digits, decimal, digits_value, is_digit, lemma_decimal_reads_back,
    lemma_digits_value_grows,
};
use crate::text::{str_chars, utf8_text};
use vstd::prelude::*;
use vstd::string::*;
use vstd::utf8::*;

verus! {

/// Whether `c` is white space in the sense of Unicode's `White_Space`
/// property, which is what trimming a string removes.
pub open spec fn is_whitespace(c: char) -> bool {
    let u = c as u32;
    ||| 0x09 <= u <= 0x0D
    ||| u == 0x20
    ||| u == 0x85
    ||| u == 0xA0
    ||| u == 0x1680
    ||| 0x2000 <= u <= 0x200A
    ||| u == 0x2028
    ||| u == 0x2029
    ||| u == 0x202F
    ||| u == 0x205F
    ||| u == 0x3000
}

/// Number of white-space characters in a row from `pos` on.
pub open spec fn whitespace_after(s: Seq<char>, pos: int) -> nat
    decreases s.len() - pos,
{
    if 0 <= pos < s.len() && is_whitespace(s[pos]) {
        1 + whitespace_after(s, pos + 1)
    } else {
        0
    }
}

/// Number of white-space characters in a row that end just before `end`.
pub open spec fn whitespace_before(s: Seq<char>, end: int) -> nat
    decreases end,
{
    if 0 < end <= s.len() && is_whitespace(s[end - 1]) {
        1 + whitespace_before(s, end - 1)
    } else {
        0
    }
}

/// `s` without its leading and trailing white space.
pub open spec fn trimmed(s: Seq<char>) -> Seq<char> {
    let start = whitespace_after(s, 0) as int;
    let end = s.len() - whitespace_before(s, s.len() as int);
    if start >= end {
        Seq::empty()
    } else {
        s.subrange(start, end)
    }
}

/// The 32-bit signed number that `s` writes in base ten: an optional sign,
/// then one digit or more, and nothing else. `None` where `s` is not of that
/// form, or the number does not fit.
pub open spec fn parsed_i32(s: Seq<char>) -> Option<i32> {
    let negative = s.len() > 0 && s[0] == '-';
    let signed = s.len() > 0 && (s[0] == '-' || s[0] == '+');
    let digits = if signed {
        s.skip(1)
    } else {
        s
    };
    let value = if negative {
        -digits_value(digits)
    } else {
        digits_value(digits)
    };
    if digits.len() > 0 && all_digits(digits) && i32::MIN <= value <= i32::MAX {
        Some(value as i32)
    } else {
        None
    }
}

/// What the exit-code file was found to hold.
#[derive(Clone, Copy, Debug, PartialEq, Eq)]
pub enum ExitReading {
    /// The bytes are not well-formed UTF-8.
    Unreadable,
    /// Nothing but white space, or nothing at all.
    Blank,
    /// A number, surrounded by white space at most.
    Code(i32),
    /// Text that is not a number.
    Garbled,
}

/// The reading of an exit-code file that holds `text`.
pub open spec fn reading_of_text(text: Seq<char>) -> ExitReading {
    let core = trimmed(text);
    if core.len() == 0 {
        ExitReading::Blank
    } else {
        match parsed_i32(core) {
            Some(code) => ExitReading::Code(code),
            None => ExitReading::Garbled,
        }
    }
}

/// The reading of an exit-code file that holds `bytes`.
pub open spec fn reading_of_bytes(bytes: Seq<u8>) -> ExitReading {
    if valid_utf8(bytes) {
        reading_of_text(decode_utf8(bytes))
    } else {
        ExitReading::Unreadable
    }
}

impl ExitReading {
    /// The exit code that the blocking collector reports: the number read,
    /// and zero for every other reading.
    pub open spec fn code_or_zero(self) -> i32 {
        match self {
            ExitReading::Code(code) => code,
            _ => 0,
        }
    }

    /// What the streaming monitor makes of the reading. `None`: the command
    /// has not finished, since the file holds no text yet. `Some(code)`: it
    /// has finished, with the exit code where the text is a number.
    pub open spec fn completion(self) -> Option<Option<i32>> {
        match self {
            ExitReading::Code(code) => Some(Some(code)),
            ExitReading::Garbled => Some(None),
            _ => None,
        }
    }

    /// The exit code for the blocking collector.
    pub fn exit_code_or_zero(self) -> (code: i32)
        ensures
            code == self.code_or_zero(),
    {
        match self {
            ExitReading::Code(code) => code,
            _ => 0,
        }
    }

    /// Whether the command has finished, and with which exit code.
    pub fn finished(self) -> (done: Option<Option<i32>>)
        ensures
            done == self.completion(),
    {
        match self {
            ExitReading::Code(code) => Some(Some(code)),
            ExitReading::Garbled => Some(None),
            _ => None,
        }
    }
}

/// Whether `s` consists of white space only.
pub open spec fn all_whitespace(s: Seq<char>) -> bool {
    forall|i: int| 0 <= i < s.len() ==> is_whitespace(#[trigger] s[i])
}

/// An exit code as the shell writes it: in base ten, with a minus sign in
/// front where it is negative.
pub open spec fn rendered_exit_code(code: int) -> Seq<char> {
    if code < 0 {
        seq!['-'] + decimal((-code) as nat)
    } else {
        decimal(code as nat)
    }
}

/// An exit code that the shell has written to the exit-code file is read
/// back as that code, whatever white space stands before and behind it (the
/// shell ends the line). The blocking collector then reports this code, and
/// the streaming monitor sees the command finished with it.
pub proof fn lemma_exit_code_reads_back(code: i32, lead: Seq<char>, trail: Seq<char>)
    requires
        all_whitespace(lead),
        all_whitespace(trail),
    ensures
        reading_of_text(lead + rendered_exit_code(code as int) + trail) == ExitReading::Code(code),
        reading_of_bytes(encode_utf8(lead + rendered_exit_code(code as int) + trail))
            == ExitReading::Code(code),
        ExitReading::Code(code).code_or_zero() == code,
        ExitReading::Code(code).completion() == Some(Some(code)),
{
    let core = rendered_exit_code(code as int);
    let text = lead + core + trail;
    let magnitude: nat = if code < 0 {
        (-code) as nat
    } else {
        code as nat
    };
    lemma_decimal_reads_back(magnitude);
    let number = decimal(magnitude);
    assert(is_digit(number[0]));
    assert(is_digit(number[number.len() - 1]));
    let start = lead.len() as int;
    let end = start + core.len();
    assert(!is_whitespace(text[start])) by {
        assert(text[start] == core[0]);
    }
    assert(!is_whitespace(text[end - 1])) by {
        assert(text[end - 1] == core[core.len() - 1]);
        if code < 0 {
            assert(core[core.len() - 1] == number[number.len() - 1]);
        }
    }
    assert forall|k: int| 0 <= k < start implies is_whitespace(#[trigger] text[k]) by {
        assert(text[k] == lead[k]);
    }
    assert forall|k: int| end <= k < text.len() implies is_whitespace(#[trigger] text[k]) by {
        assert(text[k] == trail[k - end]);
    }
    lemma_whitespace_after_exact(text, 0, start);
    lemma_whitespace_before_exact(text, end, text.len() as int);
    assert(trimmed(text) =~= core);
    if code < 0 {
        assert(core.skip(1) =~= number);
    }
    assert(parsed_i32(core) == Some(code));
    encode_utf8_valid_utf8(text);
    encode_utf8_decode_utf8(text);
}

/// A stretch of white space that ends at another character, or at the end,
/// is all the white space there is from its start on.
pub proof fn lemma_whitespace_after_exact(s: Seq<char>, start: int, end: int)
    requires
        0 <= start <= end <= s.len(),
        forall|k: int| start <= k < end ==> is_whitespace(#[trigger] s[k]),
        end == s.len() || !is_whitespace(s[end]),
    ensures
        whitespace_after(s, start) == end - start,
    decreases end - start,
{
    if start < end {
        assert(is_whitespace(s[start]));
        lemma_whitespace_after_exact(s, start + 1, end);
    }
}

/// A stretch of white space that starts behind another character, or at the
/// start, is all the white space there is up to its end.
pub proof fn lemma_whitespace_before_exact(s: Seq<char>, start: int, end: int)
    requires
        0 <= start <= end <= s.len(),
        forall|k: int| start <= k < end ==> is_whitespace(#[trigger] s[k]),
        start == 0 || !is_whitespace(s[start - 1]),
    ensures
        whitespace_before(s, end) == end - start,
    decreases end - start,
{
    if start < end {
        assert(is_whitespace(s[end - 1]));
        lemma_whitespace_before_exact(s, start, end - 1);
    }
}

fn is_whitespace_char(c: char) -> (r: bool)
    ensures
        r == is_whitespace(c),
{
    let u: u32 = c as u32;
    (0x09 <= u && u <= 0x0D) || u == 0x20 || u == 0x85 || u == 0xA0 || u == 0x1680 || (0x2000
        <= u && u <= 0x200A) || u == 0x2028 || u == 0x2029 || u == 0x202F || u == 0x205F || u
        == 0x3000
}

/// Reads `chars[start..end]` as a 32-bit signed number.
fn parse_i32(chars: &Vec<char>, start: usize, end: usize) -> (r: Option<i32>)
    requires
        start <= end <= chars.len(),
    ensures
        r == parsed_i32(chars@.subrange(start as int, end as int)),
{
    let ghost s = chars@.subrange(start as int, end as int);
    if start == end {
        return None;
    }
    let first = chars[start];
    assert(s[0] == first);
    let negative = first == '-';
    let from: usize = if first == '-' || first == '+' {
        start + 1
    } else {
        start
    };
    let ghost digits = chars@.subrange(from as int, end as int);
    assert(digits =~= if first == '-' || first == '+' {
        s.skip(1)
    } else {
        s
    });
    if from == end {
        return None;
    }
    let mut acc: i64 = 0;
    let mut i: usize = from;
    assert(digits.take(0) =~= Seq::<char>::empty());
    while i < end
        invariant
            from <= i <= end <= chars.len(),
            from < end,
            s == chars@.subrange(start as int, end as int),
            s.len() > 0 && s[0] == first,
            digits == chars@.subrange(from as int, end as int),
            digits == if first == '-' || first == '+' {
                s.skip(1)
            } else {
                s
            },
            all_digits(digits.take(i - from)),
            acc == digits_value(digits.take(i - from)),
            0 <= acc <= 2147483648,
        decreases end - i,
    {
        let c = chars[i];
        assert(digits[i - from] == c);
        if !(c >= '0' && c <= '9') {
            assert(!is_digit(digits[i - from]));
            return None;
        }
        let digit: i64 = (c as u32 - 48) as i64;
        let next: i64 = acc * 10 + digit;
        let ghost longer = digits.take(i - from + 1);
        assert(longer.drop_last() =~= digits.take(i - from));
        assert(longer.last() == c);
        assert(digits_value(longer) == next);
        if next > 2147483648 {
            proof {
                if all_digits(digits) {
                    lemma_digits_value_grows(digits, i - from + 1);
                }
            }
            return None;
        }
        assert(all_digits(longer)) by {
            assert forall|k: int| 0 <= k < longer.len() implies is_digit(#[trigger] longer[k]) by {
                if k < i - from {
                    assert(digits.take(i - from)[k] == longer[k]);
                }
            }
        }
        acc = next;
        i = i + 1;
    }
    assert(digits.take(i - from) =~= digits);
    if negative {
        Some((-acc) as i32)
    } else if acc <= 2147483647 {
        Some(acc as i32)
    } else {
        None
    }
}

/// Reads the text of an exit-code file.
pub fn read_exit_text(text: &str) -> (reading: ExitReading)
    ensures
        reading == reading_of_text(text@),
{
    let chars = str_chars(text);
    let len = chars.len();
    let mut start: usize = 0;
    while start < len && is_whitespace_char(chars[start])
        invariant
            len == chars.len(),
            start <= len,
            forall|k: int| 0 <= k < start ==> is_whitespace(#[trigger] chars@[k]),
        decreases len - start,
    {
        start = start + 1;
    }
    let mut end: usize = len;
    while end > start && is_whitespace_char(chars[end - 1])
        invariant
            len == chars.len(),
            start <= end <= len,
            forall|k: int| end <= k < len ==> is_whitespace(#[trigger] chars@[k]),
        decreases end,
    {
        end = end - 1;
    }
    proof {
        let s = chars@;
        lemma_whitespace_after_exact(s, 0, start as int);
        if start < end {
            lemma_whitespace_before_exact(s, end as int, len as int);
        } else {
            // Everything is white space: whatever is counted from the end,
            // nothing is left between the two counts.
            assert(forall|k: int| 0 <= k < len ==> is_whitespace(#[trigger] s[k]));
            lemma_whitespace_before_exact(s, 0, len as int);
        }
    }
    if start == end {
        return ExitReading::Blank;
    }
    match parse_i32(&chars, start, end) {
        Some(code) => ExitReading::Code(code),
        None => ExitReading::Garbled,
    }
}

/// Reads the bytes of an exit-code file.
pub fn read_exit_bytes(bytes: &[u8]) -> (reading: ExitReading)
    ensures
        reading == reading_of_bytes(bytes@),
{
    match utf8_text(bytes) {
        Some(text) => {
            proof {
                encode_utf8_decode_utf8(text@);
            }
            read_exit_text(text)
        },
        None => ExitReading::Unreadable,
    }
}

} // verus!
