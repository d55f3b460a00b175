//! Text as sequences of characters: white space, comparison and decimal numbers.

use vstd::prelude::*;
use vstd::string::*;
use vstd::utf8::*;

verus! {

/// Whether `c` has the Unicode property `White_Space`.
pub open spec fn is_white_space(c: char) -> bool {
    ||| '\u{9}' <= c <= '\u{d}'
    ||| c == ' '
    ||| c == '\u{85}'
    ||| c == '\u{a0}'
    ||| c == '\u{1680}'
    ||| '\u{2000}' <= c <= '\u{200a}'
    ||| c == '\u{2028}'
    ||| c == '\u{2029}'
    ||| c == '\u{202f}'
    ||| c == '\u{205f}'
    ||| c == '\u{3000}'
}

/// Whether `s` holds nothing but white space.
pub open spec fn is_blank(s: Seq<char>) -> bool {
    forall|i: int| 0 <= i < s.len() ==> is_white_space(#[trigger] s[i])
}

/// `s` without the white space at its end.
pub open spec fn trimmed_end(s: Seq<char>) -> Seq<char>
    decreases s.len(),
{
    if s.len() > 0 && is_white_space(s.last()) {
        trimmed_end(s.drop_last())
    } else {
        s
    }
}

/// Whether the first character of `s` that is not white space is `c`.
pub open spec fn leads_with(s: Seq<char>, c: char) -> bool {
    exists|i: int| 0 <= i < s.len() && #[trigger] s[i] == c && is_blank(s.take(i))
        && !is_white_space(c)
}

/// Tells whether a character is Unicode white space.
pub fn white_space(c: char) -> (r: bool)
    ensures
        r == is_white_space(c),
{
    ('\u{9}' <= c && c <= '\u{d}') || c == ' ' || c == '\u{85}' || c == '\u{a0}' || c
        == '\u{1680}' || ('\u{2000}' <= c && c <= '\u{200a}') || c == '\u{2028}' || c
        == '\u{2029}' || c == '\u{202f}' || c == '\u{205f}' || c == '\u{3000}'
}

/// Tells whether a text is empty or holds white space only.
pub fn blank(s: &str) -> (r: bool)
    ensures
        r == is_blank(s@),
{
    for c in it: s.chars()
        invariant
            it.seq() == s@,
            is_blank(s@.take(it.index())),
    {
        if !white_space(c) {
            assert(s@[it.index()] == c);
            return false;
        }
    }
    assert(s@.take(s@.len() as int) =~= s@);
    true
}

/// Tells whether the first character of a text that is not white space is `wanted`.
pub fn leading(s: &str, wanted: char) -> (r: bool)
    ensures
        r == leads_with(s@, wanted),
{
    for c in it: s.chars()
        invariant
            it.seq() == s@,
            is_blank(s@.take(it.index())),
    {
        let ghost at = it.index();
        if !white_space(c) {
            proof {
                assert(s@[at] == c);
                if leads_with(s@, wanted) {
                    let i = choose|i: int|
                        0 <= i < s@.len() && #[trigger] s@[i] == wanted && is_blank(s@.take(i));
                    if i < at {
                        assert(s@.take(at)[i] == wanted);
                    }
                    if i > at {
                        assert(s@.take(i)[at] == c);
                    }
                }
            }
            return c == wanted;
        }
    }
    proof {
        assert(s@.take(s@.len() as int) =~= s@);
    }
    false
}

/// Tells whether a text holds a given character.
pub fn contains_char(s: &str, wanted: char) -> (r: bool)
    ensures
        r == s@.contains(wanted),
{
    for c in it: s.chars()
        invariant
            it.seq() == s@,
            forall|i: int| 0 <= i < it.index() ==> s@[i] != wanted,
    {
        if c == wanted {
            assert(s@[it.index()] == wanted);
            return true;
        }
    }
    false
}

/// Tells whether a text holds white space anywhere.
pub fn has_white_space(s: &str) -> (r: bool)
    ensures
        r == exists|i: int| 0 <= i < s@.len() && is_white_space(#[trigger] s@[i]),
{
    for c in it: s.chars()
        invariant
            it.seq() == s@,
            forall|i: int| 0 <= i < it.index() ==> !is_white_space(#[trigger] s@[i]),
    {
        if white_space(c) {
            assert(is_white_space(s@[it.index()]));
            return true;
        }
    }
    false
}

proof fn lemma_trimmed_end(s: Seq<char>, n: int)
    requires
        0 <= n <= s.len(),
        n > 0 ==> !is_white_space(s[n - 1]),
        forall|i: int| n <= i < s.len() ==> is_white_space(#[trigger] s[i]),
    ensures
        trimmed_end(s) == s.take(n),
    decreases s.len(),
{
    if s.len() == n {
        assert(s.take(n) =~= s);
    } else {
        assert(is_white_space(s[s.len() - 1]));
        lemma_trimmed_end(s.drop_last(), n);
        assert(s.drop_last().take(n) =~= s.take(n));
    }
}

/// Returns a text without the white space at its end.
pub fn trim_end(s: &str) -> (r: &str)
    ensures
        r@ == trimmed_end(s@),
{
    let mut kept: usize = 0;
    let mut seen: usize = 0;
    let total: usize = s.unicode_len();
    for c in it: s.chars()
        invariant
            it.seq() == s@,
            total == s@.len(),
            seen == it.index(),
            kept <= seen <= total,
            kept > 0 ==> !is_white_space(s@[kept - 1]),
            forall|i: int| kept <= i < seen ==> is_white_space(#[trigger] s@[i]),
    {
        seen = seen + 1;
        if !white_space(c) {
            kept = seen;
        }
    }
    proof {
        lemma_trimmed_end(s@, kept as int);
        assert(s@.subrange(0, kept as int) =~= s@.take(kept as int));
    }
    s.substring_char(0, kept)
}

/// Tells whether two byte strings are equal.
pub fn same_bytes(a: &[u8], b: &[u8]) -> (r: bool)
    ensures
        r == (a@ == b@),
{
    if a.len() != b.len() {
        return false;
    }
    for i in 0..a.len()
        invariant
            a@.len() == b@.len(),
            forall|j: int| 0 <= j < i ==> a@[j] == b@[j],
    {
        if a[i] != b[i] {
            return false;
        }
    }
    assert(a@ =~= b@);
    true
}

/// Tells whether two texts are equal.
pub fn same(a: &str, b: &str) -> (r: bool)
    ensures
        r == (a@ == b@),
{
    proof {
        encode_utf8_decode_utf8(a@);
        encode_utf8_decode_utf8(b@);
    }
    same_bytes(a.as_bytes(), b.as_bytes())
}

/// The decimal digit of `d`.
pub open spec fn digit(d: int) -> char {
    (('0' as int) + d) as char
}

/// The decimal digits of `n`, without leading zeros.
pub open spec fn decimal_digits(n: nat) -> Seq<char>
    decreases n,
{
    if n < 10 {
        seq![digit(n as int)]
    } else {
        decimal_digits(n / 10).push(digit((n % 10) as int))
    }
}

/// Writes a number in decimal digits.
pub fn decimal(n: u128) -> (r: String)
    ensures
        r@ == decimal_digits(n as nat),
    decreases n,
{
    let last: u8 = (n % 10) as u8;
    let mut text: String = if n < 10 {
        String::new()
    } else {
        decimal(n / 10)
    };
    let piece: &str = if last == 0 {
        "0"
    } else if last == 1 {
        "1"
    } else if last == 2 {
        "2"
    } else if last == 3 {
        "3"
    } else if last == 4 {
        "4"
    } else if last == 5 {
        "5"
    } else if last == 6 {
        "6"
    } else if last == 7 {
        "7"
    } else if last == 8 {
        "8"
    } else {
        "9"
    };
    proof {
        reveal_strlit("0");
        reveal_strlit("1");
        reveal_strlit("2");
        reveal_strlit("3");
        reveal_strlit("4");
        reveal_strlit("5");
        reveal_strlit("6");
        reveal_strlit("7");
        reveal_strlit("8");
        reveal_strlit("9");
        assert(piece@ =~= seq![digit(last as int)]);
    }
    let ghost before = text@;
    text.append(piece);
    proof {
        if n < 10 {
            assert(text@ =~= decimal_digits(n as nat));
        } else {
            assert(text@ =~= before.push(digit(last as int)));
        }
    }
    text
}

/// The lines of `lines` one after another, with `separator` between neighbours.
pub open spec fn joined(lines: Seq<Seq<char>>, separator: Seq<char>) -> Seq<char>
    decreases lines.len(),
{
    if lines.len() == 0 {
        Seq::empty()
    } else if lines.len() == 1 {
        lines[0]
    } else {
        joined(lines.drop_last(), separator) + separator + lines.last()
    }
}

/// White space is what Unicode calls so, by its code points.
pub proof fn law_white_space_is_that_of_unicode(c: char)
    ensures
        ({
            let n = c as int;
            is_white_space(c) <==> {
                ||| 0x09 <= n <= 0x0d
                ||| n == 0x20
                ||| n == 0x85
                ||| n == 0xa0
                ||| n == 0x1680
                ||| 0x2000 <= n <= 0x200a
                ||| 0x2028 <= n <= 0x2029
                ||| n == 0x202f
                ||| n == 0x205f
                ||| n == 0x3000
            }
        }),
{
}

/// The empty text is blank, a text of one character is blank where that is white space, and a
/// text is blank exactly where both parts of it are.
pub proof fn law_blank_in_every_part(first: Seq<char>, second: Seq<char>, c: char)
    ensures
        is_blank(Seq::empty()),
        is_blank(seq![c]) <==> is_white_space(c),
        is_blank(first + second) <==> is_blank(first) && is_blank(second),
{
    let both = first + second;
    assert(seq![c][0] == c);
    if is_blank(both) {
        assert forall|i: int| 0 <= i < first.len() implies is_white_space(#[trigger] first[i]) by {
            assert(both[i] == first[i]);
        }
        assert forall|i: int| 0 <= i < second.len() implies is_white_space(
            #[trigger] second[i],
        ) by {
            assert(both[first.len() + i] == second[i]);
        }
    }
}

/// To trim a text at its end takes off white space, all that is there, and nothing else.
pub proof fn law_trimmed_end_loses_white_space_only(s: Seq<char>)
    ensures
        trimmed_end(s).len() <= s.len(),
        forall|i: int| 0 <= i < trimmed_end(s).len() ==> trimmed_end(s)[i] == #[trigger] s[i],
        forall|i: int| trimmed_end(s).len() <= i < s.len() ==> is_white_space(#[trigger] s[i]),
        trimmed_end(s).len() > 0 ==> !is_white_space(trimmed_end(s).last()),
    decreases s.len(),
{
    if s.len() > 0 && is_white_space(s.last()) {
        let rest = s.drop_last();
        law_trimmed_end_loses_white_space_only(rest);
        assert forall|i: int| 0 <= i < trimmed_end(s).len() implies trimmed_end(s)[i]
            == #[trigger] s[i] by {
            assert(rest[i] == s[i]);
        }
        assert forall|i: int| trimmed_end(s).len() <= i < s.len() implies is_white_space(
            #[trigger] s[i],
        ) by {
            if i < rest.len() {
                assert(rest[i] == s[i]);
            }
        }
    }
}

/// A text leads with the first character of it that is not white space, and with no other. A
/// blank text leads with nothing.
pub proof fn law_text_leads_with_one_character(
    space: Seq<char>,
    c: char,
    rest: Seq<char>,
    wanted: char,
)
    requires
        is_blank(space),
        !is_white_space(c),
    ensures
        leads_with(space + seq![c] + rest, wanted) <==> c == wanted,
        !leads_with(space, wanted),
{
    let s = space + seq![c] + rest;
    let n = space.len() as int;
    assert(s[n] == c);
    assert(s.take(n) =~= space);
    if leads_with(s, wanted) {
        let i = choose|i: int|
            0 <= i < s.len() && #[trigger] s[i] == wanted && is_blank(s.take(i));
        if i < n {
            assert(space[i] == wanted);
        }
        if i > n {
            assert(s.take(i)[n] == c);
        }
    }
}

/// A number below ten is written as the digit at that distance from zero, and any other as its
/// tenth is, followed by the digit that remains.
pub proof fn law_decimal_digits_count_by_tens(n: nat, d: nat)
    requires
        d < 10,
    ensures
        decimal_digits(d).len() == 1,
        decimal_digits(d)[0] as int == 48 + d,
        n > 0 ==> decimal_digits(10 * n + d) == decimal_digits(n) + decimal_digits(d),
{
    if n > 0 {
        assert((10 * n + d) / 10 == n);
        assert((10 * n + d) % 10 == d);
        assert(decimal_digits(10 * n + d) =~= decimal_digits(n) + decimal_digits(d));
    }
}

/// Two numbers that differ are written differently.
pub proof fn law_decimal_digits_tell_numbers_apart(n: nat, m: nat)
    requires
        decimal_digits(n) == decimal_digits(m),
    ensures
        n == m,
    decreases n,
{
    lemma_decimal_digits_are_some(n / 10);
    lemma_decimal_digits_are_some(m / 10);
    assert(decimal_digits(n).last() == digit((n % 10) as int));
    assert(decimal_digits(m).last() == digit((m % 10) as int));
    assert(n % 10 == m % 10);
    if n >= 10 && m >= 10 {
        assert(decimal_digits(n).drop_last() =~= decimal_digits(n / 10));
        assert(decimal_digits(m).drop_last() =~= decimal_digits(m / 10));
        law_decimal_digits_tell_numbers_apart(n / 10, m / 10);
    }
}

proof fn lemma_decimal_digits_are_some(n: nat)
    ensures
        decimal_digits(n).len() > 0,
{
}

/// No lines make no text, one line is its own text, and two lists of lines put together are
/// their texts with the separator between them.
pub proof fn law_lines_are_joined_in_order(
    first: Seq<Seq<char>>,
    second: Seq<Seq<char>>,
    line: Seq<char>,
    separator: Seq<char>,
)
    ensures
        joined(Seq::empty(), separator).len() == 0,
        joined(seq![line], separator) == line,
        first.len() > 0 && second.len() > 0 ==> joined(first + second, separator) == joined(
            first,
            separator,
        ) + separator + joined(second, separator),
    decreases second.len(),
{
    if first.len() > 0 && second.len() > 0 {
        let rest = second.drop_last();
        assert((first + second).drop_last() =~= first + rest);
        assert((first + second).last() == second.last());
        if rest.len() == 0 {
            assert(first + rest =~= first);
        } else {
            law_lines_are_joined_in_order(first, rest, line, separator);
            assert(joined(first + second, separator) =~= joined(first, separator) + separator
                + joined(second, separator));
        }
    }
}

/// Every line stands in the text that the lines make.
pub proof fn law_every_line_stands_in_the_text(
    lines: Seq<Seq<char>>,
    at: int,
    separator: Seq<char>,
) -> (start: int)
    requires
        0 <= at < lines.len(),
    ensures
        0 <= start <= start + lines[at].len() <= joined(lines, separator).len(),
        joined(lines, separator).subrange(start, start + lines[at].len()) == lines[at],
    decreases lines.len(),
{
    let text = joined(lines, separator);
    if lines.len() == 1 {
        assert(text.subrange(0, text.len() as int) =~= text);
        0
    } else if at == lines.len() - 1 {
        let start = text.len() - lines[at].len();
        assert(text.subrange(start, text.len() as int) =~= lines[at]);
        start
    } else {
        let rest = lines.drop_last();
        let start = law_every_line_stands_in_the_text(rest, at, separator);
        assert(text.subrange(start, start + lines[at].len()) =~= joined(
            rest,
            separator,
        ).subrange(start, start + lines[at].len()));
        start
    }
}

/// Lines put together with white space between them are blank exactly where each of them is.
pub proof fn law_lines_are_blank_together(lines: Seq<Seq<char>>, separator: Seq<char>)
    requires
        is_blank(separator),
    ensures
        is_blank(joined(lines, separator)) <==> forall|i: int|
            0 <= i < lines.len() ==> is_blank(#[trigger] lines[i]),
    decreases lines.len(),
{
    if lines.len() > 1 {
        let rest = lines.drop_last();
        law_lines_are_blank_together(rest, separator);
        law_blank_in_every_part(joined(rest, separator), separator, ' ');
        law_blank_in_every_part(joined(rest, separator) + separator, lines.last(), ' ');
        if is_blank(joined(lines, separator)) {
            assert forall|i: int| 0 <= i < lines.len() implies is_blank(#[trigger] lines[i]) by {
                if i < rest.len() {
                    assert(rest[i] == lines[i]);
                }
            }
        } else if is_blank(lines.last()) {
            let i = choose|i: int| 0 <= i < rest.len() && !is_blank(#[trigger] rest[i]);
            assert(lines[i] == rest[i]);
        }
    }
}

} // verus!
