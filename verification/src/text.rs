//! Character-level building blocks shared by every pipeline: conversions
//! between strings and character vectors, ASCII classification, decimal
//! rendering, trimming and escaping. Every contract is stated over
//! `Seq<char>`, the view of a string.

use vstd::prelude::*;

verus! {

/// Taken on trust from the standard library, not proved here:
/// `String::push` puts the character at the end of the string and leaves
/// what was there as it is.
pub assume_specification[ String::push ](s: &mut String, c: char)
    ensures
        final(s)@ == old(s)@.push(c),
;

/// Whether a character has the Unicode property `White_Space`: the
/// controls from tab to carriage return, the space, next line, the
/// no-break space, the Ogham space mark, the spaces from en quad to hair
/// space, the line and paragraph separators, the narrow no-break space,
/// the medium mathematical space and the ideographic space.
pub open spec fn is_whitespace(c: char) -> bool {
    ||| '\u{9}' <= c <= '\u{D}'
    ||| c == ' '
    ||| c == '\u{85}'
    ||| c == '\u{A0}'
    ||| c == '\u{1680}'
    ||| '\u{2000}' <= c <= '\u{200A}'
    ||| c == '\u{2028}'
    ||| c == '\u{2029}'
    ||| c == '\u{202F}'
    ||| c == '\u{205F}'
    ||| c == '\u{3000}'
}

/// Taken on trust from the standard library, not proved here:
/// `char::is_whitespace` answers whether the character has the Unicode
/// property `White_Space`.
pub assume_specification[ char::is_whitespace ](c: char) -> (b: bool)
    ensures
        b == is_whitespace(c),
;

/// The view of a text that may be absent.
pub open spec fn text_view(text: Option<String>) -> Option<Seq<char>> {
    match text {
        Some(t) => Some(t@),
        None => None,
    }
}

/// The views of the strings of a sequence, in order.
pub open spec fn texts(items: Seq<String>) -> Seq<Seq<char>> {
    items.map_values(|s: String| s@)
}

/// The characters of a string, as a vector.
pub fn to_chars(s: &str) -> (v: Vec<char>)
    ensures
        v@ == s@,
{
    let mut v: Vec<char> = Vec::new();
    let chars = s.chars();
    for c in it: chars
        invariant
            it.seq() == s@,
            v@ == it.seq().take(it.index() as int),
    {
        v.push(c);
        assert(it.seq().take(it.index() + 1) =~= it.seq().take(it.index() as int).push(c));
    }
    assert(v@ =~= s@);
    v
}

/// The string made of the characters of a vector.
pub fn from_chars(v: &Vec<char>) -> (s: String)
    ensures
        s@ == v@,
{
    let mut s = String::new();
    let mut i: usize = 0;
    while i < v.len()
        invariant
            i <= v.len(),
            s@ == v@.take(i as int),
        decreases v.len() - i,
    {
        s.push(v[i]);
        assert(v@.take(i + 1) =~= v@.take(i as int).push(v@[i as int]));
        i += 1;
    }
    assert(v@.take(v.len() as int) =~= v@);
    s
}

/// Appends every character of `tail` to `out`.
pub fn push_chars(out: &mut Vec<char>, tail: &Vec<char>)
    ensures
        final(out)@ == old(out)@ + tail@,
{
    let mut i: usize = 0;
    while i < tail.len()
        invariant
            i <= tail.len(),
            out@ == old(out)@ + tail@.take(i as int),
        decreases tail.len() - i,
    {
        out.push(tail[i]);
        assert(tail@.take(i + 1) =~= tail@.take(i as int).push(tail@[i as int]));
        i += 1;
    }
    assert(tail@.take(tail.len() as int) =~= tail@);
}

/// Appends every character of the string `tail` to `out`.
pub fn push_str(out: &mut Vec<char>, tail: &str)
    ensures
        final(out)@ == old(out)@ + tail@,
{
    let chars = to_chars(tail);
    push_chars(out, &chars);
}

/// The three texts one after the other.
pub fn join3(a: &str, b: &str, c: &str) -> (s: String)
    ensures
        s@ == a@ + b@ + c@,
{
    let mut out: Vec<char> = to_chars(a);
    push_str(&mut out, b);
    push_str(&mut out, c);
    from_chars(&out)
}

/// The five texts one after the other.
pub fn join5(a: &str, b: &str, c: &str, d: &str, e: &str) -> (s: String)
    ensures
        s@ == a@ + b@ + c@ + d@ + e@,
{
    let mut out: Vec<char> = to_chars(a);
    push_str(&mut out, b);
    push_str(&mut out, c);
    push_str(&mut out, d);
    push_str(&mut out, e);
    from_chars(&out)
}

/// Whether two character vectors hold the same text.
pub fn same_chars(a: &Vec<char>, b: &Vec<char>) -> (same: bool)
    ensures
        same == (a@ == b@),
{
    if a.len() != b.len() {
        return false;
    }
    let mut i: usize = 0;
    while i < a.len()
        invariant
            i <= a.len(),
            a.len() == b.len(),
            a@.take(i as int) == b@.take(i as int),
        decreases a.len() - i,
    {
        if a[i] != b[i] {
            return false;
        }
        assert(a@.take(i + 1) =~= a@.take(i as int).push(a@[i as int]));
        assert(b@.take(i + 1) =~= b@.take(i as int).push(b@[i as int]));
        i += 1;
    }
    assert(a@.take(a.len() as int) =~= a@);
    assert(b@.take(b.len() as int) =~= b@);
    true
}

/// Whether two strings hold the same text.
pub fn same_text(a: &str, b: &str) -> (same: bool)
    ensures
        same == (a@ == b@),
{
    let left = to_chars(a);
    let right = to_chars(b);
    same_chars(&left, &right)
}

/// Whether `c` occurs in `set`.
pub fn char_in(c: char, set: &Vec<char>) -> (found: bool)
    ensures
        found == set@.contains(c),
{
    let mut i: usize = 0;
    while i < set.len()
        invariant
            i <= set.len(),
            forall|j: int| 0 <= j < i ==> set@[j] != c,
        decreases set.len() - i,
    {
        if set[i] == c {
            return true;
        }
        i += 1;
    }
    false
}

/// An ASCII decimal digit, `'0'` to `'9'`.
pub open spec fn is_digit(c: char) -> bool {
    '0' <= c <= '9'
}

/// The value of an ASCII decimal digit.
pub open spec fn digit_value(c: char) -> nat
    recommends
        is_digit(c),
{
    (c as u32 - '0' as u32) as nat
}

/// The ASCII digit that writes `d`, for `d` below ten.
pub open spec fn digit_char(d: nat) -> char
    recommends
        d < 10,
{
    (d + 48) as char
}

/// The decimal notation of `n`: no sign, no leading zero except for zero itself.
pub open spec fn decimal_digits(n: nat) -> Seq<char>
    decreases n,
{
    if n < 10 {
        seq![digit_char(n)]
    } else {
        decimal_digits(n / 10).push(digit_char(n % 10))
    }
}

/// The decimal notation of `n`, filled with leading zeros up to `width`
/// characters. A number that needs more than `width` digits is never cut.
pub open spec fn zero_padded(n: nat, width: nat) -> Seq<char> {
    let digits = decimal_digits(n);
    if digits.len() >= width {
        digits
    } else {
        Seq::new((width - digits.len()) as nat, |i: int| '0') + digits
    }
}

/// The number that a sequence of ASCII digits writes in base ten (zero for
/// the empty sequence).
pub open spec fn decimal_value(digits: Seq<char>) -> nat
    decreases digits.len(),
{
    if digits.len() == 0 {
        0
    } else {
        decimal_value(digits.drop_last()) * 10 + digit_value(digits.last())
    }
}

/// Every character of the decimal notation is an ASCII digit, and the
/// notation is never empty.
pub proof fn lemma_decimal_digits_are_digits(n: nat)
    ensures
        decimal_digits(n).len() >= 1,
        forall|i: int| 0 <= i < decimal_digits(n).len() ==> is_digit(#[trigger] decimal_digits(n)[i]),
    decreases n,
{
    if n >= 10 {
        lemma_decimal_digits_are_digits(n / 10);
    }
}

/// Writes `n` in decimal notation.
pub fn render_decimal(n: u128) -> (out: Vec<char>)
    ensures
        out@ == decimal_digits(n as nat),
    decreases n,
{
    if n < 10 {
        let d: u8 = n as u8;
        let mut out: Vec<char> = Vec::new();
        out.push((d + 48) as char);
        assert(out@ =~= seq![digit_char(n as nat)]);
        out
    } else {
        let mut out = render_decimal(n / 10);
        let d: u8 = (n % 10) as u8;
        out.push((d + 48) as char);
        out
    }
}

/// The decimal notation of a number that may be negative: a `-` in front
/// of the digits where it is.
pub open spec fn signed_digits(n: int) -> Seq<char> {
    if n < 0 {
        seq!['-'] + decimal_digits((-n) as nat)
    } else {
        decimal_digits(n as nat)
    }
}

/// Writes a number that may be negative in decimal notation.
pub fn render_signed(n: i64) -> (out: Vec<char>)
    ensures
        out@ == signed_digits(n as int),
{
    if n < 0 {
        let size: u128 = (-(n as i128)) as u128;
        let digits = render_decimal(size);
        let mut out: Vec<char> = Vec::new();
        out.push('-');
        push_chars(&mut out, &digits);
        out
    } else {
        render_decimal(n as u128)
    }
}

/// Writes `n` in decimal notation, zero-filled up to `width` characters.
pub fn render_padded(n: u128, width: usize) -> (out: Vec<char>)
    ensures
        out@ == zero_padded(n as nat, width as nat),
{
    let digits = render_decimal(n);
    if digits.len() >= width {
        return digits;
    }
    let fill: usize = width - digits.len();
    let mut out: Vec<char> = Vec::new();
    let mut i: usize = 0;
    while i < fill
        invariant
            i <= fill,
            out@ == Seq::new(i as nat, |k: int| '0'),
        decreases fill - i,
    {
        out.push('0');
        assert(out@ =~= Seq::new((i + 1) as nat, |k: int| '0'));
        i += 1;
    }
    push_chars(&mut out, &digits);
    out
}

/// The lower-case form of an ASCII capital letter; any other character
/// stands for itself.
pub open spec fn ascii_lower_char(c: char) -> char {
    if 'A' <= c <= 'Z' {
        ((c as u32) + 32) as char
    } else {
        c
    }
}

/// A text with each ASCII capital letter replaced by its lower-case form.
pub open spec fn ascii_lower(s: Seq<char>) -> Seq<char> {
    s.map_values(|c: char| ascii_lower_char(c))
}

/// Lower-casing a text a second time changes nothing, and lower-casing
/// neither makes nor removes a `.`.
pub proof fn lemma_ascii_lower_settles(s: Seq<char>)
    ensures
        ascii_lower(ascii_lower(s)) == ascii_lower(s),
        ascii_lower(s).len() == s.len(),
        forall|i: int| 0 <= i < s.len() ==> (ascii_lower(s)[i] == '.') == (s[i] == '.'),
{
    assert(ascii_lower(ascii_lower(s)) =~= ascii_lower(s));
}

/// A zero-filled number is made of ASCII digits, at least one, and is at
/// least as wide as asked.
pub proof fn lemma_zero_padded_is_digits(n: nat, width: nat)
    ensures
        zero_padded(n, width).len() >= 1,
        zero_padded(n, width).len() >= width,
        forall|i: int| 0 <= i < zero_padded(n, width).len() ==> is_digit(
            #[trigger] zero_padded(n, width)[i],
        ),
{
    lemma_decimal_digits_are_digits(n);
}

/// Lower-cases the ASCII letters of a text.
pub fn lowercase_ascii(s: &Vec<char>) -> (out: Vec<char>)
    ensures
        out@ == ascii_lower(s@),
{
    let mut out: Vec<char> = Vec::new();
    let mut i: usize = 0;
    while i < s.len()
        invariant
            i <= s.len(),
            out@ == ascii_lower(s@.take(i as int)),
        decreases s.len() - i,
    {
        let c = s[i];
        let lowered = if c >= 'A' && c <= 'Z' {
            ((c as u8) + 32) as char
        } else {
            c
        };
        out.push(lowered);
        assert(ascii_lower(s@.take(i + 1)) =~= ascii_lower(s@.take(i as int)).push(
            ascii_lower_char(c),
        ));
        i += 1;
    }
    assert(s@.take(s.len() as int) =~= s@);
    out
}

/// A text without its leading whitespace.
pub open spec fn trim_start(s: Seq<char>) -> Seq<char>
    decreases s.len(),
{
    if s.len() > 0 && is_whitespace(s[0]) {
        trim_start(s.drop_first())
    } else {
        s
    }
}

/// A text without its trailing whitespace.
pub open spec fn trim_end(s: Seq<char>) -> Seq<char>
    decreases s.len(),
{
    if s.len() > 0 && is_whitespace(s.last()) {
        trim_end(s.drop_last())
    } else {
        s
    }
}

/// A text without leading and trailing whitespace.
pub open spec fn trimmed(s: Seq<char>) -> Seq<char> {
    trim_end(trim_start(s))
}

/// A text that holds nothing but whitespace.
pub open spec fn is_blank(s: Seq<char>) -> bool {
    trimmed(s).len() == 0
}

/// Removes leading and trailing whitespace.
pub fn trim(s: &Vec<char>) -> (out: Vec<char>)
    ensures
        out@ == trimmed(s@),
{
    let n: usize = s.len();
    let mut a: usize = 0;
    assert(s@.subrange(0, n as int) =~= s@);
    while a < n && s[a].is_whitespace()
        invariant
            a <= n,
            n == s@.len(),
            trim_start(s@) == trim_start(s@.subrange(a as int, n as int)),
        decreases n - a,
    {
        assert(s@.subrange(a as int, n as int).drop_first() =~= s@.subrange(a + 1, n as int));
        a += 1;
    }
    assert(trim_start(s@) == s@.subrange(a as int, n as int));
    let mut b: usize = n;
    while b > a && s[b - 1].is_whitespace()
        invariant
            a <= b <= n,
            n == s@.len(),
            trimmed(s@) == trim_end(s@.subrange(a as int, b as int)),
        decreases b - a,
    {
        assert(s@.subrange(a as int, b as int).drop_last() =~= s@.subrange(a as int, b - 1));
        b -= 1;
    }
    let mut out: Vec<char> = Vec::new();
    let mut i: usize = a;
    while i < b
        invariant
            a <= i <= b <= n,
            n == s@.len(),
            out@ == s@.subrange(a as int, i as int),
        decreases b - i,
    {
        out.push(s[i]);
        assert(s@.subrange(a as int, i + 1) =~= s@.subrange(a as int, i as int).push(s@[i as int]));
        i += 1;
    }
    out
}

/// What one character becomes when the characters of `specials` are
/// escaped: a backslash goes in front of each of them.
pub open spec fn escaped_char(c: char, specials: Seq<char>) -> Seq<char> {
    if specials.contains(c) {
        seq!['\\', c]
    } else {
        seq![c]
    }
}

/// A text with a backslash in front of every character that occurs in
/// `specials`; all other characters are kept as they are.
pub open spec fn escaped(s: Seq<char>, specials: Seq<char>) -> Seq<char> {
    s.flat_map(|c: char| escaped_char(c, specials))
}

/// Puts a backslash in front of every character of `s` that occurs in
/// `specials`.
pub fn escape(s: &Vec<char>, specials: &Vec<char>) -> (out: Vec<char>)
    ensures
        out@ == escaped(s@, specials@),
{
    let ghost f = |c: char| escaped_char(c, specials@);
    let mut out: Vec<char> = Vec::new();
    let mut i: usize = 0;
    assert(s@.take(0).flat_map(f) =~= Seq::<char>::empty());
    while i < s.len()
        invariant
            i <= s.len(),
            f == (|c: char| escaped_char(c, specials@)),
            out@ == s@.take(i as int).flat_map(f),
        decreases s.len() - i,
    {
        let c = s[i];
        proof {
            s@.lemma_flat_map_take_append(f, i as int);
        }
        if char_in(c, specials) {
            out.push('\\');
            out.push(c);
            assert(out@ =~= s@.take(i as int).flat_map(f) + seq!['\\', c]);
        } else {
            out.push(c);
            assert(out@ =~= s@.take(i as int).flat_map(f) + seq![c]);
        }
        i += 1;
    }
    assert(s@.take(s.len() as int) =~= s@);
    out
}

/// The characters of `s` before its first line feed (all of `s` when it
/// holds none).
pub open spec fn first_line(s: Seq<char>) -> Seq<char>
    decreases s.len(),
{
    if s.len() == 0 || s[0] == '\n' {
        Seq::empty()
    } else {
        seq![s[0]] + first_line(s.drop_first())
    }
}

/// A line without the carriage return that closes it, if there is one.
pub open spec fn without_carriage_return(line: Seq<char>) -> Seq<char> {
    if line.len() > 0 && line.last() == '\r' {
        line.drop_last()
    } else {
        line
    }
}

/// The lines of a text. A line ends at a line feed, or at a carriage return
/// directly followed by one; the line ending belongs to no line. A text that
/// ends with a line ending has no empty last line, and a last line without
/// a line feed keeps a carriage return at its end.
pub open spec fn lines_of(s: Seq<char>) -> Seq<Seq<char>>
    decreases s.len(),
{
    let head = first_line(s);
    if s.len() == 0 {
        Seq::empty()
    } else if head.len() >= s.len() {
        seq![s]
    } else {
        seq![without_carriage_return(head)] + lines_of(s.subrange(head.len() as int + 1, s.len() as int))
    }
}

/// A stretch of text without a line feed, ended by one or by the end of the
/// text, is the first line.
pub proof fn lemma_first_line_found(s: Seq<char>, end: int)
    requires
        0 <= end <= s.len(),
        forall|i: int| 0 <= i < end ==> s[i] != '\n',
        end < s.len() ==> s[end] == '\n',
    ensures
        first_line(s) == s.subrange(0, end),
    decreases end,
{
    if end == 0 {
        assert(first_line(s) =~= s.subrange(0, 0));
    } else {
        let rest = s.drop_first();
        assert forall|i: int| 0 <= i < end - 1 implies rest[i] != '\n' by {
            assert(rest[i] == s[i + 1]);
        }
        lemma_first_line_found(rest, end - 1);
        assert(first_line(s) =~= s.subrange(0, end));
    }
}

/// Splits a text into its lines.
pub fn split_lines(s: &Vec<char>) -> (lines: Vec<Vec<char>>)
    ensures
        lines@.map_values(|l: Vec<char>| l@) == lines_of(s@),
{
    let ghost view = |l: Vec<char>| l@;
    let n: usize = s.len();
    let mut lines: Vec<Vec<char>> = Vec::new();
    let mut start: usize = 0;
    assert(s@.subrange(0, n as int) =~= s@);
    assert(lines@.map_values(view) + lines_of(s@) =~= lines_of(s@));
    while start < n
        invariant
            start <= n,
            n == s@.len(),
            view == (|l: Vec<char>| l@),
            lines_of(s@) == lines@.map_values(view) + lines_of(s@.subrange(start as int, n as int)),
        decreases n - start,
    {
        let ghost rest = s@.subrange(start as int, n as int);
        let mut line: Vec<char> = Vec::new();
        let mut end: usize = start;
        while end < n && s[end] != '\n'
            invariant
                start <= end <= n,
                n == s@.len(),
                line@ == s@.subrange(start as int, end as int),
                forall|i: int| start <= i < end ==> s@[i] != '\n',
            decreases n - end,
        {
            line.push(s[end]);
            assert(s@.subrange(start as int, end + 1) =~= s@.subrange(start as int, end as int).push(
                s@[end as int],
            ));
            end += 1;
        }
        proof {
            assert forall|i: int| 0 <= i < end - start implies rest[i] != '\n' by {
                assert(rest[i] == s@[start + i]);
            }
            lemma_first_line_found(rest, end - start);
            assert(rest.subrange(0, end - start) =~= line@);
        }
        if end < n {
            let ghost whole = line@;
            if line.len() > 0 && line[line.len() - 1] == '\r' {
                line.pop();
                assert(line@ =~= whole.drop_last());
            }
            proof {
                assert(rest.subrange(end - start + 1, rest.len() as int) =~= s@.subrange(
                    end + 1,
                    n as int,
                ));
                assert(lines@.push(line).map_values(view) =~= lines@.map_values(view).push(line@));
                assert(lines@.map_values(view) + (seq![line@] + lines_of(
                    s@.subrange(end + 1, n as int),
                )) =~= lines@.map_values(view).push(line@) + lines_of(s@.subrange(end + 1, n as int)));
            }
            lines.push(line);
            start = end + 1;
        } else {
            proof {
                assert(rest =~= line@);
                assert(s@.subrange(n as int, n as int) =~= Seq::<char>::empty());
                assert(lines@.push(line).map_values(view) =~= lines@.map_values(view).push(line@));
                assert(lines@.map_values(view) + seq![line@] =~= lines@.map_values(view).push(line@)
                    + lines_of(s@.subrange(n as int, n as int)));
            }
            lines.push(line);
            start = n;
        }
    }
    assert(s@.subrange(n as int, n as int) =~= Seq::<char>::empty());
    assert(lines@.map_values(view) + Seq::<Seq<char>>::empty() =~= lines@.map_values(view));
    lines
}

} // verus!
