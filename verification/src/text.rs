//! Small string operations that the messages of this crate are built from.

use vstd::prelude::*;
use vstd::string::*;

verus! {

/// `String::push` appends one character.
pub assume_specification[ String::push ](s: &mut String, c: char)
    ensures
        final(s)@ == old(s)@.push(c),
;

/// `str` equality compares the characters of both sides.
pub assume_specification[ <str as PartialEq>::eq ](a: &str, b: &str) -> (same: bool)
    ensures
        same == (a@ == b@),
;

/// What `String::from_utf8_lossy` makes of bytes, with a replacement character
/// in the place of every malformed sequence.
pub uninterp spec fn lossy_utf8(bytes: Seq<u8>) -> Seq<char>;

/// `String::from_utf8` gives the characters that well-formed UTF-8 stands for,
/// and refuses every other sequence of bytes.
#[verifier::external_body]
pub(crate) fn utf8_text(bytes: Vec<u8>) -> (text: Option<String>)
    ensures
        match text {
            Some(s) => vstd::utf8::valid_utf8(bytes@) && s@ == vstd::utf8::decode_utf8(bytes@),
            None => !vstd::utf8::valid_utf8(bytes@),
        },
{
    String::from_utf8(bytes).ok()
}

/// `String::from_utf8_lossy` depends on the bytes alone, and leaves well-formed
/// UTF-8 as it is.
#[verifier::external_body]
pub(crate) fn lossy_text(bytes: &[u8]) -> (text: String)
    ensures
        text@ == lossy_utf8(bytes@),
        vstd::utf8::valid_utf8(bytes@) ==> text@ == vstd::utf8::decode_utf8(bytes@),
{
    String::from_utf8_lossy(bytes).into_owned()
}

/// The decimal digit for `d`, which is below ten.
pub open spec fn digit(d: nat) -> char {
    (48 + d) as char
}

/// `n` written in decimal, without leading zeros.
pub open spec fn decimal_text(n: nat) -> Seq<char>
    decreases n,
{
    if n < 10 {
        seq![digit(n)]
    } else {
        decimal_text(n / 10).push(digit(n % 10))
    }
}

/// A signed number in decimal.
pub open spec fn signed_text(n: int) -> Seq<char> {
    if n < 0 {
        seq!['-'] + decimal_text((-n) as nat)
    } else {
        decimal_text(n as nat)
    }
}

fn digit_char(d: u64) -> (c: char)
    requires
        d < 10,
    ensures
        c == digit(d as nat),
{
    (48 + d as u8) as char
}

/// `n` in decimal.
pub fn decimal(n: u64) -> (text: String)
    ensures
        text@ == decimal_text(n as nat),
    decreases n,
{
    let mut text = if n < 10 { String::new() } else { decimal(n / 10) };
    text.push(digit_char(n % 10));
    text
}

/// `n` in decimal, with a leading minus sign when it is negative.
pub fn signed_decimal(n: i64) -> (text: String)
    ensures
        text@ == signed_text(n as int),
{
    if n < 0 {
        let magnitude: u64 = (-(n as i128)) as u64;
        proof {
            reveal_strlit("-");
            assert("-"@ =~= seq!['-']);
        }
        joined("-", decimal(magnitude).as_str())
    } else {
        decimal(n as u64)
    }
}

/// The hexadecimal digit for `d`, which is below sixteen.
pub open spec fn hex_digit(d: nat) -> char {
    if d < 10 {
        (48 + d) as char
    } else {
        (87 + d) as char
    }
}

/// `n` written in hexadecimal with lower-case digits, without leading zeros.
pub open spec fn hex_text(n: nat) -> Seq<char>
    decreases n,
{
    if n < 16 {
        seq![hex_digit(n)]
    } else {
        hex_text(n / 16).push(hex_digit(n % 16))
    }
}

/// `n` in hexadecimal, without a prefix.
pub fn hexadecimal(n: u32) -> (text: String)
    ensures
        text@ == hex_text(n as nat),
    decreases n,
{
    let mut text = if n < 16 { String::new() } else { hexadecimal(n / 16) };
    let d: u8 = (n % 16) as u8;
    text.push(if d < 10 { (48 + d) as char } else { (87 + d) as char });
    text
}

/// `a` followed by `b`.
pub fn joined(a: &str, b: &str) -> (text: String)
    ensures
        text@ == a@ + b@,
{
    let mut text = a.to_owned();
    text.append(b);
    text
}

/// Do both sides hold the same characters?
pub fn same_text(a: &str, b: &str) -> (same: bool)
    ensures
        same == (a@ == b@),
{
    a.eq(b)
}

/// The characters of `s`, in order.
pub fn chars_of(s: &str) -> (chars: Vec<char>)
    ensures
        chars@ == s@,
{
    let mut chars: Vec<char> = Vec::new();
    for c in it: s.chars()
        invariant
            chars@ == it.seq().take(it.index() as int),
            it.seq() == s@,
    {
        chars.push(c);
    }
    chars
}

/// What follows the last `separator` in `s`, or all of `s` when there is none.
pub open spec fn after_last(s: Seq<char>, separator: char) -> Seq<char>
    decreases s.len(),
{
    if s.len() == 0 || s.last() == separator {
        seq![]
    } else {
        after_last(s.drop_last(), separator).push(s.last())
    }
}

proof fn lemma_after_last(s: Seq<char>, separator: char, from: int)
    requires
        0 <= from <= s.len(),
        from > 0 ==> s[from - 1] == separator,
        forall|i: int| from <= i < s.len() ==> s[i] != separator,
    ensures
        after_last(s, separator) == s.subrange(from, s.len() as int),
    decreases s.len(),
{
    if s.len() > from {
        lemma_after_last(s.drop_last(), separator, from);
        assert(s.subrange(from, s.len() as int) =~= s.drop_last().subrange(
            from,
            s.len() - 1,
        ).push(s.last()));
    } else {
        assert(s.subrange(from, s.len() as int) =~= seq![]);
    }
}

/// What follows the last `separator` in `s`, or all of `s` when there is none.
pub fn last_component(s: &str, separator: char) -> (part: &str)
    ensures
        part@ == after_last(s@, separator),
{
    let chars = chars_of(s);
    let mut from: usize = chars.len();
    while from > 0 && chars[from - 1] != separator
        invariant
            from <= chars.len(),
            forall|i: int| from <= i < chars.len() ==> chars[i] != separator,
        decreases from,
    {
        from = from - 1;
    }
    proof {
        lemma_after_last(s@, separator, from as int);
    }
    s.substring_char(from, chars.len())
}

/// `pattern` occurs in `s` at `at`.
pub open spec fn occurs_at(s: Seq<char>, pattern: Seq<char>, at: int) -> bool {
    &&& 0 <= at
    &&& at + pattern.len() <= s.len()
    &&& s.subrange(at, at + pattern.len()) == pattern
}

fn matches_at(s: &Vec<char>, pattern: &Vec<char>, at: usize) -> (found: bool)
    requires
        at + pattern.len() <= s.len(),
    ensures
        found == occurs_at(s@, pattern@, at as int),
{
    let mut i: usize = 0;
    while i < pattern.len()
        invariant
            i <= pattern.len(),
            at + pattern.len() <= s.len(),
            forall|j: int| 0 <= j < i ==> s[at + j] == pattern[j],
        decreases pattern.len() - i,
    {
        if s[at + i] != pattern[i] {
            assert(s@.subrange(at as int, at + pattern.len())[i as int] != pattern@[i as int]);
            return false;
        }
        i = i + 1;
    }
    assert(s@.subrange(at as int, at + pattern.len()) =~= pattern@);
    true
}

/// `s` begins with `prefix`.
pub open spec fn begins_with(s: Seq<char>, prefix: Seq<char>) -> bool {
    occurs_at(s, prefix, 0)
}

/// Does `s` begin with `prefix`?
pub fn starts_with_text(s: &str, prefix: &str) -> (found: bool)
    ensures
        found == begins_with(s@, prefix@),
{
    let text = chars_of(s);
    let wanted = chars_of(prefix);
    wanted.len() <= text.len() && matches_at(&text, &wanted, 0)
}

/// The characters with the Unicode `White_Space` property.
pub open spec fn white_space(c: char) -> bool {
    ||| '\u{9}' <= c <= '\u{d}'
    ||| c == ' '
    ||| c == '\u{85}'
    ||| c == '\u{a0}'
    ||| c == '\u{1680}'
    ||| '\u{2000}' <= c <= '\u{200a}'
    ||| c == '\u{2028}'
    ||| c == '\u{2029}'
    ||| c == '\u{202f}'
    ||| c == '\u{205f}'
    ||| c == '\u{3000}'
}

/// Does `c` have the Unicode `White_Space` property?
pub fn is_white_space(c: char) -> (yes: bool)
    ensures
        yes == white_space(c),
{
    ('\u{9}' <= c && c <= '\u{d}') || c == ' ' || c == '\u{85}' || c == '\u{a0}' || c == '\u{1680}'
        || ('\u{2000}' <= c && c <= '\u{200a}') || c == '\u{2028}' || c == '\u{2029}' || c
        == '\u{202f}' || c == '\u{205f}' || c == '\u{3000}'
}

/// Nothing but white space.
pub open spec fn blank(s: Seq<char>) -> bool {
    forall|i: int| 0 <= i < s.len() ==> white_space(#[trigger] s[i])
}

/// Is there nothing but white space in `s`?
pub fn is_blank(s: &str) -> (yes: bool)
    ensures
        yes == blank(s@),
{
    let chars = chars_of(s);
    let mut i: usize = 0;
    while i < chars.len()
        invariant
            i <= chars.len(),
            chars@ == s@,
            forall|j: int| 0 <= j < i ==> white_space(#[trigger] s@[j]),
        decreases chars.len() - i,
    {
        if !is_white_space(chars[i]) {
            assert(!white_space(s@[i as int]));
            return false;
        }
        i = i + 1;
    }
    true
}

/// `s` without the characters at its two ends that `drop` drops.
pub open spec fn trimmed_by(s: Seq<char>, drop: spec_fn(char) -> bool) -> Seq<char>
    decreases s.len(),
{
    if s.len() == 0 {
        s
    } else if drop(s[0]) {
        trimmed_by(s.subrange(1, s.len() as int), drop)
    } else if drop(s.last()) {
        trimmed_by(s.drop_last(), drop)
    } else {
        s
    }
}

/// `s` without the white space at its two ends.
pub open spec fn trimmed_text(s: Seq<char>) -> Seq<char> {
    trimmed_by(s, |c: char| white_space(c))
}

/// Trimming keeps what lies between the dropped characters at the two ends.
pub proof fn lemma_trimmed(s: Seq<char>, drop: spec_fn(char) -> bool, from: int, to: int)
    requires
        0 <= from <= to <= s.len(),
        forall|i: int| 0 <= i < from ==> drop(#[trigger] s[i]),
        forall|i: int| to <= i < s.len() ==> drop(#[trigger] s[i]),
        from < to ==> !drop(s[from]) && !drop(s[to - 1]),
        from == to ==> from == s.len(),
    ensures
        trimmed_by(s, drop) == s.subrange(from, to),
    decreases s.len(),
{
    if s.len() == 0 {
        assert(s.subrange(from, to) =~= s);
    } else if from > 0 {
        let t = s.subrange(1, s.len() as int);
        assert forall|i: int| 0 <= i < from - 1 implies drop(#[trigger] t[i]) by {
            assert(drop(s[i + 1]));
        }
        assert forall|i: int| to - 1 <= i < t.len() implies drop(#[trigger] t[i]) by {
            assert(drop(s[i + 1]));
        }
        assert(drop(s[0]));
        lemma_trimmed(t, drop, from - 1, to - 1);
        assert(t.subrange(from - 1, to - 1) =~= s.subrange(from, to));
    } else if to < s.len() {
        assert(drop(s[s.len() - 1]));
        let t = s.drop_last();
        assert forall|i: int| to <= i < t.len() implies drop(#[trigger] t[i]) by {
            assert(drop(s[i]));
        }
        lemma_trimmed(t, drop, from, to);
        assert(t.subrange(from, to) =~= s.subrange(from, to));
    } else {
        assert(s.subrange(from, to) =~= s);
    }
}

/// `s` without the white space at its two ends.
pub fn trimmed(s: &str) -> (part: &str)
    ensures
        part@ == trimmed_text(s@),
{
    let chars = chars_of(s);
    let mut from: usize = 0;
    while from < chars.len() && is_white_space(chars[from])
        invariant
            from <= chars.len(),
            chars@ == s@,
            forall|i: int| 0 <= i < from ==> white_space(#[trigger] s@[i]),
        decreases chars.len() - from,
    {
        from = from + 1;
    }
    let mut to: usize = chars.len();
    while to > from && is_white_space(chars[to - 1])
        invariant
            from <= to <= chars.len(),
            chars@ == s@,
            from < chars.len() ==> !white_space(s@[from as int]),
            forall|i: int| to <= i < chars.len() ==> white_space(#[trigger] s@[i]),
        decreases to,
    {
        to = to - 1;
    }
    proof {
        if from == to && from < chars.len() {
            assert(white_space(s@[from as int]));
        }
        lemma_trimmed(s@, |c: char| white_space(c), from as int, to as int);
    }
    s.substring_char(from, to)
}

/// How often `c` occurs in `s`.
pub open spec fn occurrences(s: Seq<char>, c: char) -> nat
    decreases s.len(),
{
    if s.len() == 0 {
        0
    } else {
        occurrences(s.drop_last(), c) + (if s.last() == c {
            1nat
        } else {
            0nat
        })
    }
}

/// The first position of `c` in `s`, or the length of `s` when there is none.
pub open spec fn first_position(s: Seq<char>, c: char) -> int
    decreases s.len(),
{
    if s.len() == 0 || s[0] == c {
        0
    } else {
        1 + first_position(s.subrange(1, s.len() as int), c)
    }
}

/// The first position of a character is the one before which it does not occur.
pub proof fn lemma_first_position(s: Seq<char>, c: char, at: int)
    requires
        0 <= at <= s.len(),
        at < s.len() ==> s[at] == c,
        forall|i: int| 0 <= i < at ==> #[trigger] s[i] != c,
    ensures
        first_position(s, c) == at,
    decreases s.len(),
{
    if at > 0 {
        assert(s[0] != c);
        let t = s.subrange(1, s.len() as int);
        assert forall|i: int| 0 <= i < at - 1 implies #[trigger] t[i] != c by {
            assert(s[i + 1] != c);
        }
        lemma_first_position(t, c, at - 1);
    }
}

/// `c` in lower case, for the letters A to Z.
pub open spec fn lower_char(c: char) -> char {
    if 'A' <= c <= 'Z' {
        ((c as u32 + 32) as u32) as char
    } else {
        c
    }
}

/// `s` with the letters A to Z in lower case.
pub open spec fn lowered(s: Seq<char>) -> Seq<char> {
    Seq::new(s.len(), |i: int| lower_char(s[i]))
}

fn to_lower_char(c: char) -> (l: char)
    ensures
        l == lower_char(c),
{
    if 'A' <= c && c <= 'Z' {
        ((c as u8) + 32) as char
    } else {
        c
    }
}

/// `s` with the letters A to Z in lower case.
pub fn ascii_lowercase(s: &str) -> (text: String)
    ensures
        text@ == lowered(s@),
{
    let chars = chars_of(s);
    let mut text = String::new();
    let mut i: usize = 0;
    while i < chars.len()
        invariant
            i <= chars.len(),
            chars@ == s@,
            text@ =~= lowered(s@).take(i as int),
        decreases chars.len() - i,
    {
        text.push(to_lower_char(chars[i]));
        i = i + 1;
    }
    assert(text@ =~= lowered(s@));
    text
}

/// The number that decimal digits stand for.
pub open spec fn decimal_value(s: Seq<char>) -> int
    decreases s.len(),
{
    if s.len() == 0 {
        0
    } else {
        10 * decimal_value(s.drop_last()) + (s.last() as int - '0' as int)
    }
}

/// The number that lower-case hexadecimal digits stand for.
pub open spec fn hex_value(s: Seq<char>) -> int
    decreases s.len(),
{
    if s.len() == 0 {
        0
    } else {
        let c = s.last();
        16 * hex_value(s.drop_last()) + (if '0' <= c <= '9' {
            c as int - '0' as int
        } else {
            c as int - 'a' as int + 10
        })
    }
}

/// A number in decimal reads as itself. It is made of the ten digits, and it
/// starts with a zero only if it is zero.
pub proof fn law_decimals_read_as_their_number(n: nat)
    ensures
        decimal_text(n).len() > 0,
        decimal_value(decimal_text(n)) == n,
        forall|i: int| 0 <= i < decimal_text(n).len() ==> '0' <= #[trigger] decimal_text(n)[i] <= '9',
        n > 0 ==> decimal_text(n)[0] != '0',
        n == 0 ==> decimal_text(n).len() == 1,
    decreases n,
{
    let s = decimal_text(n);
    let last = digit(n % 10);
    assert(s.last() == last);
    assert(last as int == 48 + n % 10);
    if n >= 10 {
        law_decimals_read_as_their_number(n / 10);
        let rest = decimal_text(n / 10);
        assert(s.drop_last() =~= rest);
        assert(s[0] == rest[0]);
        assert forall|i: int| 0 <= i < s.len() implies '0' <= #[trigger] s[i] <= '9' by {
            if i < s.len() - 1 {
                assert(s[i] == rest[i]);
            }
        }
    } else {
        assert(s.drop_last() =~= seq![]);
        assert(decimal_value(s.drop_last()) == 0);
    }
}

/// A number below zero is its opposite behind a minus sign, and any other has no
/// sign.
pub proof fn law_signs_come_first(n: int)
    ensures
        n >= 0 ==> decimal_value(signed_text(n)) == n && signed_text(n)[0] != '-',
        n < 0 ==> signed_text(n)[0] == '-' && decimal_value(
            signed_text(n).subrange(1, signed_text(n).len() as int),
        ) == -n,
{
    if n >= 0 {
        law_decimals_read_as_their_number(n as nat);
        assert('0' <= decimal_text(n as nat)[0]);
    } else {
        law_decimals_read_as_their_number((-n) as nat);
        let s = signed_text(n);
        assert(s.subrange(1, s.len() as int) =~= decimal_text((-n) as nat));
    }
}

/// A number in hexadecimal reads as itself. It is made of the sixteen lower-case
/// digits, and it starts with a zero only if it is zero.
pub proof fn law_hexadecimals_read_as_their_number(n: nat)
    ensures
        hex_text(n).len() > 0,
        hex_value(hex_text(n)) == n,
        forall|i: int|
            0 <= i < hex_text(n).len() ==> {
                let c = #[trigger] hex_text(n)[i];
                '0' <= c <= '9' || 'a' <= c <= 'f'
            },
        n > 0 ==> hex_text(n)[0] != '0',
        n == 0 ==> hex_text(n).len() == 1,
    decreases n,
{
    let s = hex_text(n);
    let last = hex_digit(n % 16);
    assert(s.last() == last);
    assert(last as int == (if n % 16 < 10 {
        48 + n % 16
    } else {
        87 + n % 16
    }));
    if n >= 16 {
        law_hexadecimals_read_as_their_number(n / 16);
        let rest = hex_text(n / 16);
        assert(s.drop_last() =~= rest);
        assert(s[0] == rest[0]);
        assert forall|i: int| 0 <= i < s.len() implies {
            let c = #[trigger] s[i];
            '0' <= c <= '9' || 'a' <= c <= 'f'
        } by {
            if i < s.len() - 1 {
                assert(s[i] == rest[i]);
            }
        }
    } else {
        assert(s.drop_last() =~= seq![]);
        assert(hex_value(s.drop_last()) == 0);
    }
}

/// The last component is the end of the text after the last separator: it holds
/// none, and one stands just before it unless there is none at all.
pub proof fn law_the_last_component_follows_the_last_separator(s: Seq<char>, separator: char) -> (from:
    int)
    ensures
        0 <= from <= s.len(),
        after_last(s, separator) == s.subrange(from, s.len() as int),
        from > 0 ==> s[from - 1] == separator,
        forall|i: int| from <= i < s.len() ==> #[trigger] s[i] != separator,
    decreases s.len(),
{
    if s.len() == 0 || s.last() == separator {
        assert(s.subrange(s.len() as int, s.len() as int) =~= seq![]);
        s.len() as int
    } else {
        let rest = s.drop_last();
        let from = law_the_last_component_follows_the_last_separator(rest, separator);
        assert(s.subrange(from, s.len() as int) =~= rest.subrange(from, rest.len() as int).push(
            s.last(),
        ));
        assert forall|i: int| from <= i < s.len() implies #[trigger] s[i] != separator by {
            if i < rest.len() {
                assert(rest[i] == s[i]);
            }
        }
        if from > 0 {
            assert(rest[from - 1] == s[from - 1]);
        }
        from
    }
}

/// Trimming drops white space from both ends and nothing else: what is left
/// starts and ends with something else, and only white space went.
pub proof fn law_trimming_drops_white_space_at_the_ends(s: Seq<char>) -> (ends: (int, int))
    ensures
        0 <= ends.0 <= ends.1 <= s.len(),
        trimmed_text(s) == s.subrange(ends.0, ends.1),
        forall|i: int| 0 <= i < ends.0 ==> white_space(#[trigger] s[i]),
        forall|i: int| ends.1 <= i < s.len() ==> white_space(#[trigger] s[i]),
        ends.0 < ends.1 ==> !white_space(s[ends.0]) && !white_space(s[ends.1 - 1]),
    decreases s.len(),
{
    let drop = |c: char| white_space(c);
    if s.len() == 0 {
        assert(s.subrange(0, 0) =~= s);
        (0, 0)
    } else if white_space(s[0]) {
        let t = s.subrange(1, s.len() as int);
        let (from, to) = law_trimming_drops_white_space_at_the_ends(t);
        assert(drop(s[0]));
        assert(t.subrange(from, to) =~= s.subrange(from + 1, to + 1));
        assert forall|i: int| 0 <= i < from + 1 implies white_space(#[trigger] s[i]) by {
            if i > 0 {
                assert(white_space(t[i - 1]));
            }
        }
        assert forall|i: int| to + 1 <= i < s.len() implies white_space(#[trigger] s[i]) by {
            assert(white_space(t[i - 1]));
        }
        (from + 1, to + 1)
    } else if white_space(s.last()) {
        let t = s.drop_last();
        let (from, to) = law_trimming_drops_white_space_at_the_ends(t);
        assert(!drop(s[0]) && drop(s.last()));
        assert(t.subrange(from, to) =~= s.subrange(from, to));
        assert forall|i: int| 0 <= i < from implies white_space(#[trigger] s[i]) by {
            assert(white_space(t[i]));
        }
        assert forall|i: int| to <= i < s.len() implies white_space(#[trigger] s[i]) by {
            if i < t.len() {
                assert(white_space(t[i]));
            }
        }
        (from, to)
    } else {
        assert(!drop(s[0]) && !drop(s.last()));
        assert(s.subrange(0, s.len() as int) =~= s);
        (0, s.len() as int)
    }
}

/// White space, by code: the tabulator to the carriage return, the space, and
/// the nineteen others that Unicode counts.
pub proof fn law_white_space_by_code(c: char)
    ensures
        ({
            let n = c as int;
            white_space(c) <==> 9 <= n <= 13 || n == 0x20 || n == 0x85 || n == 0xa0 || n == 0x1680
                || 0x2000 <= n <= 0x200a || n == 0x2028 || n == 0x2029 || n == 0x202f || n == 0x205f
                || n == 0x3000
        }),
{
}

/// Lower-casing replaces each of the letters A to Z by its small one and keeps
/// every other character.
pub proof fn law_lower_case_replaces_the_capitals(s: Seq<char>, i: int, k: int)
    requires
        0 <= i < s.len(),
        0 <= k < 26,
    ensures
        lowered(s).len() == s.len(),
        s[i] == "ABCDEFGHIJKLMNOPQRSTUVWXYZ"@[k] ==> lowered(s)[i]
            == "abcdefghijklmnopqrstuvwxyz"@[k],
        !("ABCDEFGHIJKLMNOPQRSTUVWXYZ"@.contains(s[i])) ==> lowered(s)[i] == s[i],
{
    reveal_strlit("ABCDEFGHIJKLMNOPQRSTUVWXYZ");
    reveal_strlit("abcdefghijklmnopqrstuvwxyz");
    let capitals = "ABCDEFGHIJKLMNOPQRSTUVWXYZ"@;
    assert forall|j: int| 0 <= j < 26 implies #[trigger] capitals[j] as int == 65 + j by {}
    if 'A' <= s[i] <= 'Z' {
        let j = s[i] as int - 65;
        assert(capitals[j] as int == 65 + j);
        assert(capitals[j] == s[i]);
        assert(capitals.contains(s[i]));
        assert(lowered(s)[i] as int == s[i] as int + 32);
    }
    if s[i] == capitals[k] {
        assert(s[i] as int == 65 + k);
    }
}

/// Counting goes character by character.
pub proof fn law_counting_adds_up(a: Seq<char>, b: Seq<char>, c: char, d: char)
    ensures
        occurrences(a + b, c) == occurrences(a, c) + occurrences(b, c),
        occurrences(seq![d], c) == (if c == d {
            1nat
        } else {
            0nat
        }),
        occurrences(seq![], c) == 0,
    decreases b.len(),
{
    reveal_with_fuel(occurrences, 2);
    assert(seq![d].drop_last() =~= seq![]);
    if b.len() == 0 {
        assert(a + b =~= a);
    } else {
        assert((a + b).drop_last() =~= a + b.drop_last());
        assert((a + b).last() == b.last());
        law_counting_adds_up(a, b.drop_last(), c, d);
    }
}

/// The first position of a character holds it, unless that is the end, and no
/// position before does.
pub proof fn law_the_first_position_is_the_first(s: Seq<char>, c: char)
    ensures
        0 <= first_position(s, c) <= s.len(),
        first_position(s, c) < s.len() ==> s[first_position(s, c)] == c,
        forall|i: int| 0 <= i < first_position(s, c) ==> #[trigger] s[i] != c,
    decreases s.len(),
{
    if s.len() > 0 && s[0] != c {
        let t = s.subrange(1, s.len() as int);
        law_the_first_position_is_the_first(t, c);
        assert forall|i: int| 0 <= i < first_position(s, c) implies #[trigger] s[i] != c by {
            if i > 0 {
                assert(t[i - 1] != c);
            }
        }
    }
}

/// A pattern occurs where its characters stand one after another.
pub proof fn law_patterns_occur_character_by_character(s: Seq<char>, pattern: Seq<char>, at: int)
    ensures
        occurs_at(s, pattern, at) <==> 0 <= at && at + pattern.len() <= s.len() && forall|j: int|
            0 <= j < pattern.len() ==> s[at + j] == #[trigger] pattern[j],
        begins_with(s, pattern) <==> pattern.len() <= s.len() && forall|j: int|
            0 <= j < pattern.len() ==> s[j] == #[trigger] pattern[j],
{
    lemma_occurs(s, pattern, at);
    lemma_occurs(s, pattern, 0);
    if pattern.len() <= s.len() && forall|j: int|
        0 <= j < pattern.len() ==> s[j] == #[trigger] pattern[j] {
        assert forall|j: int| 0 <= j < pattern.len() implies s[0 + j] == #[trigger] pattern[j] by {}
    }
}

proof fn lemma_occurs(s: Seq<char>, pattern: Seq<char>, at: int)
    ensures
        occurs_at(s, pattern, at) <==> 0 <= at && at + pattern.len() <= s.len() && forall|j: int|
            0 <= j < pattern.len() ==> s[at + j] == #[trigger] pattern[j],
{
    if 0 <= at && at + pattern.len() <= s.len() {
        let part = s.subrange(at, at + pattern.len());
        if part == pattern {
            assert forall|j: int| 0 <= j < pattern.len() implies s[at + j]
                == #[trigger] pattern[j] by {
                assert(part[j] == pattern[j]);
            }
        }
        if forall|j: int| 0 <= j < pattern.len() ==> s[at + j] == #[trigger] pattern[j] {
            assert(part =~= pattern);
        }
    }
}

} // verus!
