//! Character-level helpers shared by the parsers of the host's text sources:
//! character classes, runs of one class, trimming, lines, whitespace-separated
//! tokens and unsigned decimal numbers.

use vstd::prelude::*;
use vstd::string::StrSliceExecFns;

verus! {

/// Whether `c` is white space: the characters U+0009 to U+000D, the space,
/// U+0085, U+00A0, U+1680, U+2000 to U+200A, U+2028, U+2029, U+202F, U+205F and
/// U+3000.
pub open spec fn whitespace(c: char) -> bool {
    let n = c as u32;
    ||| 0x09 <= n <= 0x0D
    ||| n == 0x20
    ||| n == 0x85
    ||| n == 0xA0
    ||| n == 0x1680
    ||| 0x2000 <= n <= 0x200A
    ||| n == 0x2028
    ||| n == 0x2029
    ||| n == 0x202F
    ||| n == 0x205F
    ||| n == 0x3000
}

/// Tests a character for white space.
pub fn is_whitespace(c: char) -> (b: bool)
    ensures
        b == whitespace(c),
{
    let n: u32 = c as u32;
    (0x09 <= n && n <= 0x0D) || n == 0x20 || n == 0x85 || n == 0xA0 || n == 0x1680 || (0x2000 <= n
        && n <= 0x200A) || n == 0x2028 || n == 0x2029 || n == 0x202F || n == 0x205F || n == 0x3000
}

/// The classes of characters the parsers tell apart.
#[derive(Debug, Clone, Copy, PartialEq, Eq)]
pub enum CharClass {
    /// White space, as `whitespace` defines it.
    Whitespace,
    /// The double quote.
    Quote,
    /// The line feed.
    Newline,
}

impl CharClass {
    /// Whether `c` belongs to the class.
    pub open spec fn holds(self, c: char) -> bool {
        match self {
            CharClass::Whitespace => whitespace(c),
            CharClass::Quote => c == '"',
            CharClass::Newline => c == '\n',
        }
    }

    /// Tests `c` for membership.
    pub fn contains(&self, c: char) -> (b: bool)
        ensures
            b == self.holds(c),
    {
        match self {
            CharClass::Whitespace => is_whitespace(c),
            CharClass::Quote => c == '"',
            CharClass::Newline => c == '\n',
        }
    }
}

/// Where the run that starts at `from` ends: the first index at or after
/// `from` whose character is in `class` exactly when `inside` is false, or the
/// length of `s` if there is none.
pub open spec fn run_end(s: Seq<char>, from: int, class: CharClass, inside: bool) -> int
    decreases s.len() - from,
{
    if 0 <= from < s.len() && class.holds(s[from]) == inside {
        run_end(s, from + 1, class, inside)
    } else {
        from
    }
}

/// Where the run of `class` that ends just before `to` starts: the least index
/// from which every character up to `to` is in `class`.
pub open spec fn run_start(s: Seq<char>, to: int, class: CharClass) -> int
    decreases to,
{
    if 0 < to <= s.len() && class.holds(s[to - 1]) {
        run_start(s, to - 1, class)
    } else {
        to
    }
}

/// `run_end` stops inside the text, passes only characters of the run, and
/// stops at a character that breaks it.
pub proof fn lemma_run_end(s: Seq<char>, from: int, class: CharClass, inside: bool)
    requires
        0 <= from <= s.len(),
    ensures
        from <= run_end(s, from, class, inside) <= s.len(),
        forall|k: int|
            from <= k < run_end(s, from, class, inside) ==> class.holds(#[trigger] s[k]) == inside,
        run_end(s, from, class, inside) < s.len() ==> class.holds(
            s[run_end(s, from, class, inside)],
        ) != inside,
    decreases s.len() - from,
{
    if from < s.len() && class.holds(s[from]) == inside {
        lemma_run_end(s, from + 1, class, inside);
    }
}

/// `run_start` stops inside the text, passes only characters of the class, and
/// stops behind a character outside it.
pub proof fn lemma_run_start(s: Seq<char>, to: int, class: CharClass)
    requires
        0 <= to <= s.len(),
    ensures
        0 <= run_start(s, to, class) <= to,
        forall|k: int| run_start(s, to, class) <= k < to ==> class.holds(#[trigger] s[k]),
        run_start(s, to, class) > 0 ==> !class.holds(s[run_start(s, to, class) - 1]),
    decreases to,
{
    if 0 < to && class.holds(s[to - 1]) {
        lemma_run_start(s, to - 1, class);
    }
}

/// Scans forward from `from` to the end of the run.
pub fn scan_run(s: &Vec<char>, from: usize, class: CharClass, inside: bool) -> (end: usize)
    ensures
        end == run_end(s@, from as int, class, inside),
        from <= end,
        from <= s.len() ==> end <= s.len(),
{
    let mut i: usize = from;
    while i < s.len() && class.contains(s[i]) == inside
        invariant
            from <= i,
            from <= s.len() ==> i <= s.len(),
            run_end(s@, from as int, class, inside) == run_end(s@, i as int, class, inside),
        decreases s.len() - i,
    {
        i = i + 1;
    }
    i
}

/// Scans backward from `to` to the start of the run of `class` that ends there.
pub fn scan_run_back(s: &Vec<char>, to: usize, class: CharClass) -> (start: usize)
    ensures
        start == run_start(s@, to as int, class),
        start <= to,
{
    let mut i: usize = to;
    while 0 < i && i <= s.len() && class.contains(s[i - 1])
        invariant
            i <= to,
            run_start(s@, to as int, class) == run_start(s@, i as int, class),
        decreases i,
    {
        i = i - 1;
    }
    i
}

/// `s` without the characters of `class` at its two ends.
pub open spec fn trimmed(s: Seq<char>, class: CharClass) -> Seq<char> {
    let a = run_end(s, 0, class, true);
    let b = run_start(s, s.len() as int, class);
    if a < b {
        s.subrange(a, b)
    } else {
        Seq::empty()
    }
}

/// Whether `s` begins with `prefix`.
pub open spec fn has_prefix(s: Seq<char>, prefix: Seq<char>) -> bool {
    prefix.len() <= s.len() && s.subrange(0, prefix.len() as int) == prefix
}

/// What follows `prefix` in `s`, if `s` begins with it.
pub open spec fn after_prefix(s: Seq<char>, prefix: Seq<char>) -> Option<Seq<char>> {
    if has_prefix(s, prefix) {
        Some(s.subrange(prefix.len() as int, s.len() as int))
    } else {
        None
    }
}

/// Trimming leaves a middle part of the text: what was cut off at either end
/// is all of the class, and what is left neither begins nor ends with it.
pub proof fn trimmed_is_the_core(s: Seq<char>, class: CharClass)
    ensures
        ({
            let t = trimmed(s, class);
            &&& t.len() > 0 ==> !class.holds(t.first()) && !class.holds(t.last())
            &&& exists|a: int, b: int|
                {
                    &&& 0 <= a <= b <= s.len()
                    &&& #[trigger] s.subrange(a, b) == t
                    &&& forall|k: int| 0 <= k < a ==> class.holds(#[trigger] s[k])
                    &&& forall|k: int| b <= k < s.len() ==> class.holds(#[trigger] s[k])
                }
        }),
{
    let a = run_end(s, 0, class, true);
    let b = run_start(s, s.len() as int, class);
    lemma_run_end(s, 0, class, true);
    lemma_run_start(s, s.len() as int, class);
    if a < b {
        assert(s.subrange(a, b) == trimmed(s, class));
    } else {
        assert(s.subrange(a, a) == trimmed(s, class));
        assert forall|k: int| a <= k < s.len() implies class.holds(#[trigger] s[k]) by {
            if k < b {
            }
        }
    }
}

/// Cuts the characters of `class` off both ends of `s`.
pub fn trim<'a>(s: &'a str, class: CharClass) -> (t: &'a str)
    ensures
        t@ == trimmed(s@, class),
{
    let chars = to_chars(s);
    let a = scan_run(&chars, 0, class, true);
    let b = scan_run_back(&chars, chars.len(), class);
    if a < b {
        s.substring_char(a, b)
    } else {
        s.substring_char(0, 0)
    }
}

/// Cuts `prefix` off the front of `s`, if `s` begins with it.
pub fn strip_prefix<'a>(s: &'a str, prefix: &str) -> (rest: Option<&'a str>)
    ensures
        rest is Some == has_prefix(s@, prefix@),
        rest matches Some(r) ==> Some(r@) == after_prefix(s@, prefix@),
{
    let chars = to_chars(s);
    let want = to_chars(prefix);
    if want.len() > chars.len() {
        return None;
    }
    let mut i: usize = 0;
    while i < want.len()
        invariant
            i <= want.len() <= chars.len(),
            chars@ == s@,
            want@ == prefix@,
            s@.subrange(0, i as int) == prefix@.subrange(0, i as int),
        decreases want.len() - i,
    {
        if chars[i] != want[i] {
            return None;
        }
        i = i + 1;
    }
    assert(prefix@.subrange(0, i as int) == prefix@);
    Some(s.substring_char(want.len(), chars.len()))
}

/// The line that occupies `start..end` of `s`, where `end` is the place of its
/// line feed or the end of the text: a carriage return directly before the
/// line feed belongs to the line ending, not to the line.
pub open spec fn line_text(s: Seq<char>, start: int, end: int) -> Seq<char> {
    if end < s.len() && start < end && s[end - 1] == '\r' {
        s.subrange(start, end - 1)
    } else {
        s.subrange(start, end)
    }
}

/// The lines of `s` from index `start` on. Each line feed ends a line; text
/// after the last line feed is a line of its own unless it is empty.
pub open spec fn lines_from(s: Seq<char>, start: int) -> Seq<Seq<char>>
    decreases s.len() - start,
{
    if 0 <= start < s.len() {
        let end = run_end(s, start, CharClass::Newline, false);
        if start <= end < s.len() {
            seq![line_text(s, start, end)] + lines_from(s, end + 1)
        } else {
            seq![line_text(s, start, end)]
        }
    } else {
        Seq::empty()
    }
}

/// The lines of `s`.
pub open spec fn lines_of(s: Seq<char>) -> Seq<Seq<char>> {
    lines_from(s, 0)
}

/// The white-space-separated words of `s` from index `start` on.
pub open spec fn tokens_from(s: Seq<char>, start: int) -> Seq<Seq<char>>
    decreases s.len() - start,
{
    let a = run_end(s, start, CharClass::Whitespace, true);
    if 0 <= start <= a < s.len() {
        let b = run_end(s, a, CharClass::Whitespace, false);
        if a < b <= s.len() {
            seq![s.subrange(a, b)] + tokens_from(s, b)
        } else {
            Seq::empty()
        }
    } else {
        Seq::empty()
    }
}

/// The white-space-separated words of `s`: its maximal runs of characters that
/// are not white space, in order.
pub open spec fn tokens_of(s: Seq<char>) -> Seq<Seq<char>> {
    tokens_from(s, 0)
}

/// A word: one character or more, none of them white space.
pub open spec fn is_word(w: Seq<char>) -> bool {
    w.len() > 0 && forall|k: int| 0 <= k < w.len() ==> !whitespace(#[trigger] w[k])
}

/// Whether `line` holds no line feed.
pub open spec fn is_single_line(line: Seq<char>) -> bool {
    forall|k: int| 0 <= k < line.len() ==> #[trigger] line[k] != '\n'
}

/// Every token is a word.
pub proof fn tokens_are_words(s: Seq<char>, start: int)
    requires
        0 <= start <= s.len(),
    ensures
        forall|i: int|
            0 <= i < tokens_from(s, start).len() ==> is_word(#[trigger] tokens_from(s, start)[i]),
    decreases s.len() - start,
{
    let a = run_end(s, start, CharClass::Whitespace, true);
    lemma_run_end(s, start, CharClass::Whitespace, true);
    if a < s.len() {
        let b = run_end(s, a, CharClass::Whitespace, false);
        lemma_run_end(s, a, CharClass::Whitespace, false);
        if a < b {
            tokens_are_words(s, b);
            let rest = tokens_from(s, b);
            let all = tokens_from(s, start);
            assert forall|i: int| 0 <= i < all.len() implies is_word(#[trigger] all[i]) by {
                if i > 0 {
                    assert(all[i] == rest[i - 1]);
                }
            }
        }
    }
}

/// No line holds a line feed.
pub proof fn lines_are_single(s: Seq<char>, start: int)
    requires
        0 <= start <= s.len(),
    ensures
        forall|i: int|
            0 <= i < lines_from(s, start).len() ==> is_single_line(
                #[trigger] lines_from(s, start)[i],
            ),
    decreases s.len() - start,
{
    if start < s.len() {
        let end = run_end(s, start, CharClass::Newline, false);
        lemma_run_end(s, start, CharClass::Newline, false);
        assert(is_single_line(line_text(s, start, end)));
        if end < s.len() {
            lines_are_single(s, end + 1);
            let rest = lines_from(s, end + 1);
            let all = lines_from(s, start);
            assert forall|i: int| 0 <= i < all.len() implies is_single_line(#[trigger] all[i]) by {
                if i > 0 {
                    assert(all[i] == rest[i - 1]);
                }
            }
        }
    }
}

/// The character sequences that a vector of string slices stands for.
pub open spec fn views_of(parts: Seq<&str>) -> Seq<Seq<char>> {
    Seq::new(parts.len(), |i: int| parts[i]@)
}

/// Splits `s` into its lines.
pub fn lines<'a>(s: &'a str) -> (parts: Vec<&'a str>)
    ensures
        views_of(parts@) == lines_of(s@),
{
    let chars = to_chars(s);
    let mut parts: Vec<&'a str> = Vec::new();
    let mut pos: usize = 0;
    while pos < chars.len()
        invariant
            pos <= chars.len(),
            chars@ == s@,
            lines_of(s@) == views_of(parts@) + lines_from(s@, pos as int),
        decreases chars.len() - pos,
    {
        let end = scan_run(&chars, pos, CharClass::Newline, false);
        let stop = if end < chars.len() && pos < end && chars[end - 1] == '\r' {
            end - 1
        } else {
            end
        };
        let line = s.substring_char(pos, stop);
        parts.push(line);
        if end < chars.len() {
            pos = end + 1;
        } else {
            pos = end;
        }
    }
    parts
}

/// Splits `s` into its white-space-separated words.
pub fn split_whitespace<'a>(s: &'a str) -> (parts: Vec<&'a str>)
    ensures
        views_of(parts@) == tokens_of(s@),
{
    let chars = to_chars(s);
    let mut parts: Vec<&'a str> = Vec::new();
    let mut pos: usize = 0;
    loop
        invariant
            pos <= chars.len(),
            chars@ == s@,
            tokens_of(s@) == views_of(parts@) + tokens_from(s@, pos as int),
        ensures
            views_of(parts@) == tokens_of(s@),
        decreases chars.len() - pos,
    {
        let a = scan_run(&chars, pos, CharClass::Whitespace, true);
        if a >= chars.len() {
            break ;
        }
        proof {
            lemma_run_end(s@, pos as int, CharClass::Whitespace, true);
        }
        let b = scan_run(&chars, a, CharClass::Whitespace, false);
        assert(a < b) by {
            assert(run_end(s@, a as int, CharClass::Whitespace, false) == run_end(
                s@,
                a + 1,
                CharClass::Whitespace,
                false,
            ));
            lemma_run_end(s@, a + 1, CharClass::Whitespace, false);
        }
        parts.push(s.substring_char(a, b));
        pos = b;
    }
    parts
}

/// Whether `c` is one of the ten decimal digits.
pub open spec fn is_digit(c: char) -> bool {
    0x30 <= c as u32 <= 0x39
}

/// The number that a decimal digit stands for.
pub open spec fn digit_value(c: char) -> nat {
    (c as u32 - 0x30) as nat
}

/// Whether `s` holds decimal digits only.
pub open spec fn all_digits(s: Seq<char>) -> bool {
    forall|i: int| 0 <= i < s.len() ==> is_digit(#[trigger] s[i])
}

/// The number that a sequence of decimal digits spells, most significant
/// digit first.
pub open spec fn decimal_value(s: Seq<char>) -> nat
    decreases s.len(),
{
    if s.len() == 0 {
        0
    } else {
        10 * decimal_value(s.drop_last()) + digit_value(s.last())
    }
}

/// The digits of an unsigned number: `s` without one leading plus sign.
pub open spec fn unsigned_digits(s: Seq<char>) -> Seq<char> {
    if s.len() > 0 && s[0] == '+' {
        s.subrange(1, s.len() as int)
    } else {
        s
    }
}

/// The unsigned number that `s` spells: an optional plus sign, then one or more
/// decimal digits and nothing else.
pub open spec fn parsed_unsigned(s: Seq<char>) -> Option<nat> {
    let digits = unsigned_digits(s);
    if digits.len() > 0 && all_digits(digits) {
        Some(decimal_value(digits))
    } else {
        None
    }
}

/// The value that `s` parses to as a `usize`: the number it spells, if it
/// spells one and that number fits.
pub open spec fn parsed_usize(s: Seq<char>) -> Option<usize> {
    match parsed_unsigned(s) {
        Some(value) => if value <= usize::MAX {
            Some(value as usize)
        } else {
            None
        },
        None => None,
    }
}

/// A number is at least as large as the number spelled by any of its leading
/// digits.
pub proof fn lemma_decimal_prefix(s: Seq<char>, k: int)
    requires
        0 <= k <= s.len(),
    ensures
        decimal_value(s.subrange(0, k)) <= decimal_value(s),
    decreases s.len(),
{
    if k == s.len() {
        assert(s.subrange(0, k) == s);
    } else {
        assert(s.drop_last().subrange(0, k) == s.subrange(0, k));
        lemma_decimal_prefix(s.drop_last(), k);
    }
}

/// Parses an unsigned decimal number that fits in a `usize`.
pub fn parse_usize(s: &str) -> (value: Option<usize>)
    ensures
        value == parsed_usize(s@),
{
    let chars = to_chars(s);
    let start: usize = if chars.len() > 0 && chars[0] == '+' {
        1
    } else {
        0
    };
    if start == chars.len() {
        return None;
    }
    let ghost digits = unsigned_digits(s@);
    let mut acc: usize = 0;
    let mut i: usize = start;
    while i < chars.len()
        invariant
            start <= i <= chars.len(),
            chars@ == s@,
            digits == unsigned_digits(s@),
            digits == s@.subrange(start as int, s@.len() as int),
            all_digits(digits.subrange(0, i - start)),
            acc == decimal_value(digits.subrange(0, i - start)),
        decreases chars.len() - i,
    {
        let n: u32 = chars[i] as u32;
        if n < 0x30 || n > 0x39 {
            assert(!is_digit(digits[i - start]));
            return None;
        }
        let d: usize = (n - 0x30) as usize;
        let ghost next = digits.subrange(0, i - start + 1);
        assert(next.drop_last() == digits.subrange(0, i - start));
        if acc > (usize::MAX - d) / 10 {
            proof {
                lemma_decimal_prefix(digits, i - start + 1);
            }
            return None;
        }
        acc = acc * 10 + d;
        i = i + 1;
    }
    assert(digits.subrange(0, i - start) == digits);
    Some(acc)
}

/// Copies the characters of `s` into a vector, so that they can be indexed in
/// constant time.
pub fn to_chars(s: &str) -> (chars: Vec<char>)
    ensures
        chars@ == s@,
{
    let mut chars: Vec<char> = Vec::new();
    for c in it: s.chars()
        invariant
            it.seq() == s@,
            chars@ == s@.subrange(0, it.index() as int),
    {
        chars.push(c);
    }
    chars
}

} // verus!
