//! Character classes and string building shared by every pass.
//!
//! Strings are modelled by their sequence of characters. Everything here is
//! stated over `Seq<char>` and carried out on `String` and `Vec<char>`.

use vstd::prelude::*;
use vstd::string::StringExecFns;

verus! {

/// `String::push` of the standard library: the string afterwards is the
/// string before with `ch` added at its end. This is taken on trust from the
/// documentation of `std`; nothing in this crate proves it.
pub assume_specification[ std::string::String::push ](s: &mut std::string::String, ch: char)
    ensures
        final(s)@ == old(s)@.push(ch),
;

/// An ASCII decimal digit.
pub open spec fn is_digit(c: char) -> bool {
    '0' <= c && c <= '9'
}

/// A character that may start an identifier: an ASCII letter or `_`.
pub open spec fn is_ident_start(c: char) -> bool {
    ('a' <= c && c <= 'z') || ('A' <= c && c <= 'Z') || c == '_'
}

/// A character that may continue an identifier: an ASCII letter, a digit or `_`.
pub open spec fn is_ident_continue(c: char) -> bool {
    is_ident_start(c) || is_digit(c)
}

/// The characters with the Unicode property `White_Space`.
pub open spec fn is_whitespace(c: char) -> bool {
    let n = c as u32;
    (0x09 <= n && n <= 0x0D) || n == 0x20 || n == 0x85 || n == 0xA0 || n == 0x1680 || (0x2000 <= n
        && n <= 0x200A) || n == 0x2028 || n == 0x2029 || n == 0x202F || n == 0x205F || n == 0x3000
}

/// Every character of `s` is white space.
pub open spec fn all_whitespace(s: Seq<char>) -> bool {
    forall|i: int| 0 <= i < s.len() ==> is_whitespace(#[trigger] s[i])
}

/// Tells whether `c` is a decimal digit.
pub fn digit(c: char) -> (r: bool)
    ensures
        r == is_digit(c),
{
    '0' <= c && c <= '9'
}

/// Tells whether `c` may start an identifier.
pub fn ident_start(c: char) -> (r: bool)
    ensures
        r == is_ident_start(c),
{
    ('a' <= c && c <= 'z') || ('A' <= c && c <= 'Z') || c == '_'
}

/// Tells whether `c` may continue an identifier.
pub fn ident_continue(c: char) -> (r: bool)
    ensures
        r == is_ident_continue(c),
{
    ident_start(c) || digit(c)
}

/// Tells whether `c` is white space.
pub fn whitespace(c: char) -> (r: bool)
    ensures
        r == is_whitespace(c),
{
    let n: u32 = c as u32;
    (0x09 <= n && n <= 0x0D) || n == 0x20 || n == 0x85 || n == 0xA0 || n == 0x1680 || (0x2000 <= n
        && n <= 0x200A) || n == 0x2028 || n == 0x2029 || n == 0x202F || n == 0x205F || n == 0x3000
}

/// The value of a decimal digit; 0 for any other character.
pub open spec fn digit_value(c: char) -> int {
    if is_digit(c) {
        c as u32 - '0' as u32
    } else {
        0
    }
}

/// The value of a decimal digit.
pub fn value_of_digit(c: char) -> (r: u8)
    requires
        is_digit(c),
    ensures
        r == digit_value(c),
        r <= 9,
{
    (c as u32 - '0' as u32) as u8
}

/// The character that writes the digit `d`.
pub open spec fn digit_char(d: int) -> char {
    if d == 0 {
        '0'
    } else if d == 1 {
        '1'
    } else if d == 2 {
        '2'
    } else if d == 3 {
        '3'
    } else if d == 4 {
        '4'
    } else if d == 5 {
        '5'
    } else if d == 6 {
        '6'
    } else if d == 7 {
        '7'
    } else if d == 8 {
        '8'
    } else {
        '9'
    }
}

/// The decimal digits of a natural number, most significant first, without
/// leading zeros.
pub open spec fn digits(n: nat) -> Seq<char>
    decreases n,
{
    if n < 10 {
        seq![digit_char(n as int)]
    } else {
        digits(n / 10).push(digit_char((n % 10) as int))
    }
}

/// The decimal notation of an integer: a minus sign for a negative number,
/// then the digits of its magnitude.
pub open spec fn decimal(n: int) -> Seq<char> {
    if n < 0 {
        seq!['-'] + digits((-n) as nat)
    } else {
        digits(n as nat)
    }
}

fn char_of_digit(d: u64) -> (c: char)
    requires
        d < 10,
    ensures
        c == digit_char(d as int),
{
    if d == 0 {
        '0'
    } else if d == 1 {
        '1'
    } else if d == 2 {
        '2'
    } else if d == 3 {
        '3'
    } else if d == 4 {
        '4'
    } else if d == 5 {
        '5'
    } else if d == 6 {
        '6'
    } else if d == 7 {
        '7'
    } else if d == 8 {
        '8'
    } else {
        '9'
    }
}

/// Appends the decimal digits of `n` to `out`.
pub fn push_digits(out: &mut String, n: u64)
    ensures
        final(out)@ == old(out)@ + digits(n as nat),
    decreases n,
{
    if n >= 10 {
        push_digits(out, n / 10);
    }
    out.push(char_of_digit(n % 10));
    proof {
        if n >= 10 {
            assert(final(out)@ =~= old(out)@ + digits(n as nat));
        } else {
            assert(final(out)@ =~= old(out)@ + digits(n as nat));
        }
    }
}

/// Appends the decimal notation of `n` to `out`.
pub fn push_decimal(out: &mut String, n: i64)
    ensures
        final(out)@ == old(out)@ + decimal(n as int),
{
    if n < 0 {
        out.push('-');
        let magnitude: u64 = ((-(n + 1)) as u64) + 1;
        push_digits(out, magnitude);
        assert(final(out)@ =~= old(out)@ + decimal(n as int));
    } else {
        push_digits(out, n as u64);
    }
}

/// The decimal notation of a signed integer.
pub fn decimal_string(n: i64) -> (s: String)
    ensures
        s@ == decimal(n as int),
{
    let mut s = String::new();
    push_decimal(&mut s, n);
    assert(s@ =~= decimal(n as int));
    s
}

/// The decimal notation of a size.
pub fn size_string(n: usize) -> (s: String)
    ensures
        s@ == decimal(n as int),
{
    let mut s = String::new();
    push_digits(&mut s, n as u64);
    assert(s@ =~= decimal(n as int));
    s
}

/// The characters of a string, in order.
pub fn chars_of(s: &str) -> (v: Vec<char>)
    ensures
        v@ == s@,
{
    let mut v: Vec<char> = Vec::new();
    let all = s.chars();
    for c in it: all
        invariant
            v@ == it.seq().take(it.index() as int),
    {
        v.push(c);
    }
    v
}

/// The string made of the characters `v[from..to]`.
pub fn string_of_range(v: &Vec<char>, from: usize, to: usize) -> (s: String)
    requires
        from <= to <= v.len(),
    ensures
        s@ == v@.subrange(from as int, to as int),
{
    let mut s = String::new();
    let mut i: usize = from;
    while i < to
        invariant
            from <= i <= to <= v.len(),
            s@ == v@.subrange(from as int, i as int),
        decreases to - i,
    {
        s.push(v[i]);
        assert(v@.subrange(from as int, i + 1) =~= v@.subrange(from as int, i as int).push(
            v@[i as int],
        ));
        i += 1;
    }
    s
}

/// The string made of all the characters of `v`.
pub fn string_of(v: &Vec<char>) -> (s: String)
    ensures
        s@ == v@,
{
    let s = string_of_range(v, 0, v.len());
    assert(v@.subrange(0, v.len() as int) =~= v@);
    s
}

/// Tells whether two strings hold the same characters.
pub fn same_text(a: &str, b: &str) -> (r: bool)
    ensures
        r == (a@ == b@),
{
    let x = String::from_str(a);
    let y = String::from_str(b);
    x == y
}

/// `parts` written one after another with `sep` between neighbours.
pub open spec fn join(parts: Seq<Seq<char>>, sep: Seq<char>) -> Seq<char>
    decreases parts.len(),
{
    if parts.len() == 0 {
        Seq::empty()
    } else if parts.len() == 1 {
        parts[0]
    } else {
        join(parts.drop_last(), sep) + sep + parts.last()
    }
}

/// Appends `part` to a list that is being joined with `sep`: `count` parts
/// have been written to `out` so far.
pub fn push_joined(out: &mut String, count: usize, sep: &str, part: &str)
    ensures
        final(out)@ == if count == 0 {
            old(out)@ + part@
        } else {
            old(out)@ + sep@ + part@
        },
{
    if count > 0 {
        out.append(sep);
    }
    out.append(part);
}

/// One step of `join`: the first `n + 1` parts are the first `n` parts, the
/// separator unless `n` is 0, and part `n`.
pub proof fn lemma_join_step(parts: Seq<Seq<char>>, sep: Seq<char>, n: int)
    requires
        0 <= n < parts.len(),
    ensures
        join(parts.take(n + 1), sep) == if n == 0 {
            parts[n]
        } else {
            join(parts.take(n), sep) + sep + parts[n]
        },
{
    let p = parts.take(n + 1);
    assert(p.last() == parts[n]);
    assert(p.drop_last() =~= parts.take(n));
    if n == 0 {
        assert(p[0] == parts[0]);
    }
}

/// What one character of a text becomes when the lines after the first are
/// indented: a line feed is followed by two spaces.
pub open spec fn indented_char(c: char) -> Seq<char> {
    if c == '\n' {
        seq!['\n', ' ', ' ']
    } else {
        seq![c]
    }
}

/// The first `upto` characters of `s`, with two spaces after every line feed.
pub open spec fn indent_continuation(s: Seq<char>, upto: int) -> Seq<char>
    decreases upto,
{
    if upto <= 0 {
        Seq::empty()
    } else {
        indent_continuation(s, upto - 1) + indented_char(s[upto - 1])
    }
}

/// Appends `text` to `out`, with two spaces after every line feed.
pub fn push_indented(out: &mut String, text: &str)
    ensures
        final(out)@ == old(out)@ + indent_continuation(text@, text@.len() as int),
{
    let chars = chars_of(text);
    let mut i: usize = 0;
    proof {
        assert(out@ =~= old(out)@ + indent_continuation(chars@, 0));
    }
    while i < chars.len()
        invariant
            i <= chars.len(),
            out@ == old(out)@ + indent_continuation(chars@, i as int),
        decreases chars.len() - i,
    {
        let c = chars[i];
        let ghost before = out@;
        out.push(c);
        if c == '\n' {
            out.push(' ');
            out.push(' ');
        }
        proof {
            assert(out@ =~= before + indented_char(c));
            assert(out@ =~= old(out)@ + indent_continuation(chars@, i + 1));
        }
        i += 1;
    }
}

/// `s` without the white space at its end.
pub open spec fn trim_end(s: Seq<char>) -> Seq<char>
    decreases s.len(),
{
    if s.len() > 0 && is_whitespace(s.last()) {
        trim_end(s.drop_last())
    } else {
        s
    }
}

/// The length of `v` without the white space at its end.
pub fn trimmed_len(v: &Vec<char>) -> (n: usize)
    ensures
        n <= v.len(),
        v@.take(n as int) == trim_end(v@),
{
    let mut n: usize = v.len();
    proof {
        assert(v@.take(n as int) =~= v@);
    }
    while n > 0 && whitespace(v[n - 1])
        invariant
            n <= v.len(),
            trim_end(v@.take(n as int)) == trim_end(v@),
        decreases n,
    {
        proof {
            assert(v@.take(n as int).drop_last() =~= v@.take(n - 1));
        }
        n -= 1;
    }
    n
}

/// What the character at `at` becomes when the lines of `s` are given a
/// prefix: a line feed is followed by the prefix, and a carriage return just
/// before a line feed is left out.
pub open spec fn prefixed_char(s: Seq<char>, prefix: Seq<char>, at: int) -> Seq<char> {
    if s[at] == '\n' {
        seq!['\n'] + prefix
    } else if s[at] == '\r' && at + 1 < s.len() && s[at + 1] == '\n' {
        Seq::empty()
    } else {
        seq![s[at]]
    }
}

/// The first `upto` characters of `s`, each as [`prefixed_char`] gives it.
pub open spec fn prefixed_body(s: Seq<char>, prefix: Seq<char>, upto: int) -> Seq<char>
    decreases upto,
{
    if upto <= 0 {
        Seq::empty()
    } else {
        prefixed_body(s, prefix, upto - 1) + prefixed_char(s, prefix, upto - 1)
    }
}

/// The lines of `s`, each with `prefix` before it and a line feed after it.
/// White space at the end of `s` is dropped first, and a text that is empty
/// then gives no line. Lines end at a line feed, or at a carriage return
/// with a line feed after it.
pub open spec fn prefixed_lines(s: Seq<char>, prefix: Seq<char>) -> Seq<char> {
    let t = trim_end(s);
    if t.len() == 0 {
        Seq::empty()
    } else {
        prefix + prefixed_body(t, prefix, t.len() as int) + seq!['\n']
    }
}

/// Appends the lines of `text` to `out`, each with `prefix` before it and a
/// line feed after it: see [`prefixed_lines`].
pub fn push_prefixed_lines(out: &mut String, text: &str, prefix: &str)
    ensures
        final(out)@ == old(out)@ + prefixed_lines(text@, prefix@),
{
    let chars = chars_of(text);
    let n = trimmed_len(&chars);
    if n == 0 {
        proof {
            assert(out@ =~= old(out)@ + prefixed_lines(text@, prefix@));
        }
        return ;
    }
    let ghost t = chars@.take(n as int);
    out.append(prefix);
    let mut i: usize = 0;
    proof {
        assert(out@ =~= old(out)@ + prefix@ + prefixed_body(t, prefix@, 0));
    }
    while i < n
        invariant
            i <= n <= chars.len(),
            t == chars@.take(n as int),
            out@ == old(out)@ + prefix@ + prefixed_body(t, prefix@, i as int),
        decreases n - i,
    {
        let c = chars[i];
        let ghost before = out@;
        assert(t[i as int] == c);
        if c == '\n' {
            out.push('\n');
            out.append(prefix);
            proof {
                assert(out@ =~= before + prefixed_char(t, prefix@, i as int));
            }
        } else if c == '\r' && i + 1 < n && chars[i + 1] == '\n' {
            proof {
                assert(t[i + 1] == chars@[i + 1]);
                assert(out@ =~= before + prefixed_char(t, prefix@, i as int));
            }
        } else {
            out.push(c);
            proof {
                assert(out@ =~= before + prefixed_char(t, prefix@, i as int));
            }
        }
        proof {
            assert(out@ =~= old(out)@ + prefix@ + prefixed_body(t, prefix@, i + 1));
        }
        i += 1;
    }
    out.push('\n');
    proof {
        assert(out@ =~= old(out)@ + prefixed_lines(text@, prefix@));
    }
}

/// `s` from position `from` on, with every occurrence of `pattern` replaced
/// by `with`. Occurrences are found from left to right and do not overlap.
/// An empty pattern occurs nowhere.
pub open spec fn replace_from(s: Seq<char>, pattern: Seq<char>, with: Seq<char>, from: int) -> Seq<
    char,
>
    decreases s.len() - from,
{
    if from < 0 || pattern.len() == 0 || from + pattern.len() > s.len() {
        s.subrange(from, s.len() as int)
    } else if s.subrange(from, from + pattern.len()) == pattern {
        with + replace_from(s, pattern, with, from + pattern.len())
    } else {
        seq![s[from]] + replace_from(s, pattern, with, from + 1)
    }
}

/// `s` with every occurrence of `pattern` replaced by `with`.
pub open spec fn replace_all(s: Seq<char>, pattern: Seq<char>, with: Seq<char>) -> Seq<char> {
    replace_from(s, pattern, with, 0)
}

/// Tells whether `pattern` stands in `s` at position `from`.
pub fn matches_at(s: &Vec<char>, pattern: &Vec<char>, from: usize) -> (r: bool)
    requires
        from + pattern.len() <= s.len(),
    ensures
        r == (s@.subrange(from as int, from + pattern.len()) == pattern@),
{
    let mut i: usize = 0;
    while i < pattern.len()
        invariant
            i <= pattern.len(),
            from + pattern.len() <= s.len(),
            forall|j: int| 0 <= j < i ==> s@[from + j] == pattern@[j],
        decreases pattern.len() - i,
    {
        if s[from + i] != pattern[i] {
            proof {
                assert(s@.subrange(from as int, from + pattern.len())[i as int] == s@[from + i]);
            }
            return false;
        }
        i += 1;
    }
    proof {
        assert(s@.subrange(from as int, from + pattern.len()) =~= pattern@);
    }
    true
}

/// `text` with every occurrence of `pattern` replaced by `with`: see
/// [`replace_all`].
pub fn replace_text(text: &str, pattern: &str, with: &str) -> (r: String)
    ensures
        r@ == replace_all(text@, pattern@, with@),
{
    let s = chars_of(text);
    let p = chars_of(pattern);
    let mut out = String::new();
    let mut i: usize = 0;
    if p.len() == 0 {
        proof {
            assert(s@.subrange(0, s.len() as int) =~= s@);
        }
        return String::from_str(text);
    }
    proof {
        assert(out@ + replace_from(s@, p@, with@, 0) =~= replace_all(text@, pattern@, with@));
    }
    while i < s.len() && p.len() <= s.len() - i
        invariant
            i <= s.len(),
            p.len() > 0,
            s@ == text@,
            p@ == pattern@,
            out@ + replace_from(s@, p@, with@, i as int) == replace_all(text@, pattern@, with@),
        decreases s.len() - i,
    {
        let ghost before = out@;
        if matches_at(&s, &p, i) {
            out.append(with);
            proof {
                let rest = replace_from(s@, p@, with@, i + p.len());
                assert((before + with@) + rest =~= before + (with@ + rest));
            }
            i += p.len();
        } else {
            out.push(s[i]);
            proof {
                let rest = replace_from(s@, p@, with@, i + 1);
                assert((before + seq![s@[i as int]]) + rest =~= before + (seq![s@[i as int]]
                    + rest));
                assert(out@ =~= before + seq![s@[i as int]]);
            }
            i += 1;
        }
    }
    let tail = string_of_range(&s, i, s.len());
    out.append(tail.as_str());
    out
}

/// Two spaces for each level of indentation.
pub open spec fn indentation(level: nat) -> Seq<char>
    decreases level,
{
    if level == 0 {
        Seq::empty()
    } else {
        indentation((level - 1) as nat) + "  "@
    }
}

/// The indentation of a level: see [`indentation`].
pub fn indentation_string(level: usize) -> (r: String)
    ensures
        r@ == indentation(level as nat),
{
    let mut s = String::new();
    let mut i: usize = 0;
    while i < level
        invariant
            i <= level,
            s@ == indentation(i as nat),
        decreases level - i,
    {
        s.append("  ");
        i += 1;
    }
    s
}

} // verus!
