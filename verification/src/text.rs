//! Text primitives shared by the other modules: prefixes, splitting, trimming
//! and decimal numerals, each stated over the sequence of characters that a
//! string holds.
use vstd::prelude::*;
use vstd::string::*;

verus! {

/// `String::push`: the character is appended, nothing else changes.
pub assume_specification[ String::push ](s: &mut String, c: char)
    ensures
        final(s)@ == old(s)@.push(c),
;

/// `==` on two string slices: true exactly when they hold the same characters.
pub assume_specification[ <str as PartialEq<str>>::eq ](a: &str, b: &str) -> (r: bool)
    ensures
        r == (a@ == b@),
;

/// What `str::to_uppercase` returns. Unicode case mapping is a table of its
/// own, so the result is named and not written out.
pub uninterp spec fn uppercased(s: Seq<char>) -> Seq<char>;

/// `str::to_uppercase`: a new string, a function of the characters alone.
pub assume_specification[ str::to_uppercase ](s: &str) -> (r: String)
    ensures
        r@ == uppercased(s@),
;

/// True exactly when the two slices hold the same characters.
pub fn same(a: &str, b: &str) -> (r: bool)
    ensures
        r == (a@ == b@),
{
    *a == *b
}

/// `a` followed by `b`.
pub fn join(a: &str, b: &str) -> (r: String)
    ensures
        r@ == a@ + b@,
{
    let mut out: String = a.to_owned();
    out.append(b);
    out
}

/// `a`, `b` and `c`, one after the other.
pub fn join3(a: &str, b: &str, c: &str) -> (r: String)
    ensures
        r@ == a@ + b@ + c@,
{
    let mut out: String = join(a, b);
    out.append(c);
    out
}

/// The characters of `s`, in order.
pub fn chars_of(s: &str) -> (out: Vec<char>)
    ensures
        out@ == s@,
{
    let mut out: Vec<char> = Vec::new();
    for c in it: s.chars()
        invariant
            it.seq() == s@,
            out@ == s@.take(it.index() as int),
    {
        out.push(c);
    }
    out
}

// ── Prefixes and separators ─────────────────────────────────────────────

/// What is left of `s` behind `prefix`; `None` when `s` does not start with it.
pub open spec fn stripped(s: Seq<char>, prefix: Seq<char>) -> Option<Seq<char>> {
    if prefix.len() <= s.len() && s.take(prefix.len() as int) == prefix {
        Some(s.skip(prefix.len() as int))
    } else {
        None
    }
}

/// The text behind `prefix`, when `s` starts with it.
pub fn strip_prefix<'a>(s: &'a str, prefix: &str) -> (r: Option<&'a str>)
    ensures
        match r {
            Some(rest) => stripped(s@, prefix@) == Some(rest@),
            None => stripped(s@, prefix@) is None,
        },
{
    let n: usize = s.unicode_len();
    let k: usize = prefix.unicode_len();
    if k <= n && same(s.substring_char(0, k), prefix) {
        Some(s.substring_char(k, n))
    } else {
        None
    }
}

/// A prefix put in front of a text is found there, and what is left behind it
/// is the text.
pub proof fn law_strip_undoes_prepend(prefix: Seq<char>, rest: Seq<char>)
    ensures
        stripped(prefix + rest, prefix) == Some(rest),
{
    assert((prefix + rest).take(prefix.len() as int) == prefix);
    assert((prefix + rest).skip(prefix.len() as int) == rest);
}

/// The position of the first `c` in `s`; the length of `s` when there is none.
pub open spec fn first_index(s: Seq<char>, c: char) -> int
    decreases s.len(),
{
    if s.len() == 0 || s[0] == c {
        0
    } else {
        1 + first_index(s.skip(1), c)
    }
}

/// What stands before and behind the first `c`; `None` when there is no `c`.
pub open spec fn split_at_first(s: Seq<char>, c: char) -> Option<(Seq<char>, Seq<char>)> {
    let i = first_index(s, c);
    if i < s.len() {
        Some((s.take(i), s.skip(i + 1)))
    } else {
        None
    }
}

/// `first_index` is the one position with no `c` before it that holds a `c` or
/// is the end.
pub proof fn lemma_first_index(s: Seq<char>, c: char, i: int)
    requires
        0 <= i <= s.len(),
        forall|j: int| 0 <= j < i ==> s[j] != c,
        i < s.len() ==> s[i] == c,
    ensures
        first_index(s, c) == i,
    decreases s.len(),
{
    if i > 0 {
        lemma_first_index(s.skip(1), c, i - 1);
    }
}

/// The position, in characters, of the first `c`.
fn find_char(chars: &Vec<char>, c: char) -> (i: usize)
    ensures
        i == first_index(chars@, c),
        i <= chars@.len(),
{
    let mut i: usize = 0;
    while i < chars.len() && chars[i] != c
        invariant
            i <= chars@.len(),
            forall|j: int| 0 <= j < i ==> chars@[j] != c,
        decreases chars@.len() - i,
    {
        i += 1;
    }
    proof {
        lemma_first_index(chars@, c, i as int);
    }
    i
}

/// Splits `s` at the first `c`, which belongs to neither part.
pub fn split_once<'a>(s: &'a str, c: char) -> (r: Option<(&'a str, &'a str)>)
    ensures
        match r {
            Some((before, behind)) => split_at_first(s@, c) == Some((before@, behind@)),
            None => split_at_first(s@, c) is None,
        },
{
    let chars: Vec<char> = chars_of(s);
    let i: usize = find_char(&chars, c);
    if i < chars.len() {
        assert(s@.take(i as int) == s@.subrange(0, i as int));
        Some((s.substring_char(0, i), s.substring_char(i + 1, chars.len())))
    } else {
        None
    }
}

/// Splitting a joined pair gives the pair back, when the first part holds no
/// separator.
pub proof fn law_split_undoes_join(before: Seq<char>, c: char, behind: Seq<char>)
    requires
        forall|j: int| 0 <= j < before.len() ==> before[j] != c,
    ensures
        split_at_first(before + seq![c] + behind, c) == Some((before, behind)),
{
    let s = before + seq![c] + behind;
    assert forall|j: int| 0 <= j < before.len() implies s[j] != c by {
        assert(s[j] == before[j]);
    }
    assert(s[before.len() as int] == c);
    lemma_first_index(s, c, before.len() as int);
    assert(s.take(before.len() as int) == before);
    assert(s.skip(before.len() as int + 1) == behind);
}

/// `s` with its first `from` replaced by `to`; `s` itself when there is none.
pub open spec fn first_replaced(s: Seq<char>, from: char, to: char) -> Seq<char> {
    let i = first_index(s, from);
    if i < s.len() {
        s.update(i, to)
    } else {
        s
    }
}

/// Replaces the first `from` by `to`.
pub fn replace_first(s: &str, from: char, to: char) -> (r: String)
    ensures
        r@ == first_replaced(s@, from, to),
{
    let chars: Vec<char> = chars_of(s);
    let i: usize = find_char(&chars, from);
    if i < chars.len() {
        let mut out: String = s.substring_char(0, i).to_owned();
        out.push(to);
        out.append(s.substring_char(i + 1, chars.len()));
        assert(out@ =~= first_replaced(s@, from, to));
        out
    } else {
        s.to_owned()
    }
}

// ── White space ─────────────────────────────────────────────────────────

/// The characters with the Unicode property White_Space.
pub open spec fn white(c: char) -> bool {
    ||| '\u{9}' <= c <= '\u{d}'
    ||| c == ' '
    ||| c == '\u{85}'
    ||| c == '\u{a0}'
    ||| c == '\u{1680}'
    ||| '\u{2000}' <= c <= '\u{200a}'
    ||| c == '\u{2028}'
    ||| c == '\u{2029}'
    ||| c == '\u{202f}'
    ||| c == '\u{205f}'
    ||| c == '\u{3000}'
}

/// Nothing but white space.
pub open spec fn blank(s: Seq<char>) -> bool {
    forall|i: int| 0 <= i < s.len() ==> white(#[trigger] s[i])
}

/// `s` from its first character that is not white space on.
pub open spec fn trimmed_start(s: Seq<char>) -> Seq<char>
    decreases s.len(),
{
    if s.len() > 0 && white(s[0]) {
        trimmed_start(s.skip(1))
    } else {
        s
    }
}

/// `s` up to and with its last character that is not white space.
pub open spec fn trimmed_end(s: Seq<char>) -> Seq<char>
    decreases s.len(),
{
    if s.len() > 0 && white(s.last()) {
        trimmed_end(s.drop_last())
    } else {
        s
    }
}

/// `s` without the white space at its two ends.
pub open spec fn trimmed(s: Seq<char>) -> Seq<char> {
    trimmed_end(trimmed_start(s))
}

/// True exactly for white space.
pub fn is_white(c: char) -> (r: bool)
    ensures
        r == white(c),
{
    ('\u{9}' <= c && c <= '\u{d}') || c == ' ' || c == '\u{85}' || c == '\u{a0}' || c
        == '\u{1680}' || ('\u{2000}' <= c && c <= '\u{200a}') || c == '\u{2028}' || c
        == '\u{2029}' || c == '\u{202f}' || c == '\u{205f}' || c == '\u{3000}'
}

/// True exactly when `s` holds nothing but white space.
pub fn is_blank(s: &str) -> (r: bool)
    ensures
        r == blank(s@),
{
    let chars: Vec<char> = chars_of(s);
    let mut i: usize = 0;
    while i < chars.len()
        invariant
            chars@ == s@,
            i <= chars@.len(),
            forall|j: int| 0 <= j < i ==> white(#[trigger] s@[j]),
        decreases chars@.len() - i,
    {
        if !is_white(chars[i]) {
            assert(!white(s@[i as int]));
            return false;
        }
        i += 1;
    }
    true
}

/// `s` without the white space at its two ends.
pub fn trim<'a>(s: &'a str) -> (r: &'a str)
    ensures
        r@ == trimmed(s@),
{
    let chars: Vec<char> = chars_of(s);
    let mut from: usize = 0;
    assert(s@.skip(0) == s@);
    while from < chars.len() && is_white(chars[from])
        invariant
            chars@ == s@,
            from <= chars@.len(),
            trimmed_start(s@) == trimmed_start(s@.skip(from as int)),
        decreases chars@.len() - from,
    {
        assert(s@.skip(from as int).skip(1) == s@.skip(from + 1));
        from += 1;
    }
    assert(trimmed_start(s@) == s@.skip(from as int));
    let mut to: usize = chars.len();
    assert(s@.subrange(from as int, to as int) == s@.skip(from as int));
    while to > from && is_white(chars[to - 1])
        invariant
            chars@ == s@,
            from <= to <= chars@.len(),
            trimmed(s@) == trimmed_end(s@.subrange(from as int, to as int)),
        decreases to,
    {
        assert(s@.subrange(from as int, to as int).drop_last() == s@.subrange(
            from as int,
            to - 1,
        ));
        to -= 1;
    }
    s.substring_char(from, to)
}

// ── Decimal numerals ────────────────────────────────────────────────────

/// The decimal digit of value `d`.
pub open spec fn digit(d: int) -> char {
    (48 + d) as char
}

/// The decimal numeral of `n`, without leading zeros.
pub open spec fn decimal(n: nat) -> Seq<char>
    decreases n,
{
    if n < 10 {
        seq![digit(n as int)]
    } else {
        decimal(n / 10).push(digit((n % 10) as int))
    }
}

/// The decimal numeral of `i`, with a minus sign in front of a negative one.
pub open spec fn decimal_signed(i: int) -> Seq<char> {
    if i < 0 {
        "-"@ + decimal((-i) as nat)
    } else {
        decimal(i as nat)
    }
}

/// Writes `n` in decimal.
pub fn write_decimal(n: u64) -> (r: String)
    ensures
        r@ == decimal(n as nat),
    decreases n,
{
    let last: u8 = (n % 10) as u8;
    let c: char = (48u8 + last) as char;
    if n < 10 {
        let mut out: String = String::new();
        out.push(c);
        assert(out@ =~= seq![digit(n as int)]);
        out
    } else {
        let mut out: String = write_decimal(n / 10);
        out.push(c);
        out
    }
}

/// Writes `i` in decimal.
pub fn write_decimal_signed(i: i64) -> (r: String)
    ensures
        r@ == decimal_signed(i as int),
{
    if i < 0 {
        let magnitude: u64 = if i == i64::MIN {
            9223372036854775808u64
        } else {
            (-i) as u64
        };
        join("-", write_decimal(magnitude).as_str())
    } else {
        write_decimal(i as u64)
    }
}

/// The number that a run of decimal digits stands for; `None` when a
/// character is no digit. The empty run stands for zero.
pub open spec fn digits_value(s: Seq<char>) -> Option<nat>
    decreases s.len(),
{
    if s.len() == 0 {
        Some(0)
    } else {
        match digits_value(s.drop_last()) {
            Some(n) => if '0' <= s.last() <= '9' {
                Some((10 * n + (s.last() as int - 48)) as nat)
            } else {
                None
            },
            None => None,
        }
    }
}

/// The number that `s` stands for: decimal digits, at least one, with an
/// optional plus sign in front, and no more than a `u64` holds.
pub open spec fn numeral_value(s: Seq<char>) -> Option<u64> {
    let digits = match stripped(s, "+"@) {
        Some(rest) => rest,
        None => s,
    };
    match digits_value(digits) {
        Some(n) => if digits.len() > 0 && n <= u64::MAX {
            Some(n as u64)
        } else {
            None
        },
        None => None,
    }
}

/// A run of digits never stands for less than a shorter start of it.
proof fn lemma_digits_value_grows(s: Seq<char>, k: int)
    requires
        0 <= k <= s.len(),
        digits_value(s) is Some,
    ensures
        digits_value(s.take(k)) is Some,
        digits_value(s.take(k))->0 <= digits_value(s)->0,
    decreases s.len(),
{
    if k < s.len() {
        lemma_digits_value_grows(s.drop_last(), k);
        assert(s.drop_last().take(k) == s.take(k));
    } else {
        assert(s.take(k) == s);
    }
}

/// Reads a decimal numeral.
pub fn parse_numeral(s: &str) -> (r: Option<u64>)
    ensures
        r == numeral_value(s@),
{
    let digits: &str = match strip_prefix(s, "+") {
        Some(rest) => rest,
        None => s,
    };
    let chars: Vec<char> = chars_of(digits);
    if chars.len() == 0 {
        return None;
    }
    let mut value: u64 = 0;
    let mut i: usize = 0;
    assert(digits@.take(0) == Seq::<char>::empty());
    while i < chars.len()
        invariant
            chars@ == digits@,
            digits@ == (match stripped(s@, "+"@) {
                Some(rest) => rest,
                None => s@,
            }),
            i <= chars@.len(),
            digits_value(digits@.take(i as int)) == Some(value as nat),
        decreases chars@.len() - i,
    {
        let c: char = chars[i];
        assert(digits@.take(i + 1).drop_last() == digits@.take(i as int));
        assert(digits@.take(i + 1).last() == c);
        let known: bool = '0' <= c && c <= '9';
        if !known {
            proof {
                if digits_value(digits@) is Some {
                    lemma_digits_value_grows(digits@, i + 1);
                }
            }
            return None;
        }
        let d: u64 = (c as u32 - 48) as u64;
        if value > (u64::MAX - d) / 10 {
            proof {
                assert(10 * value + d > u64::MAX);
                if digits_value(digits@) is Some {
                    lemma_digits_value_grows(digits@, i + 1);
                }
            }
            return None;
        }
        value = value * 10 + d;
        i += 1;
    }
    assert(digits@.take(i as int) == digits@);
    Some(value)
}

// ── What these functions are for ────────────────────────────────────────

/// What is left behind a prefix, put behind the prefix again, is the text; and
/// nothing is left exactly when the text is no continuation of the prefix.
pub proof fn law_strip_finds_every_prefix(s: Seq<char>, prefix: Seq<char>)
    ensures
        stripped(s, prefix) matches Some(rest) ==> s == prefix + rest,
        stripped(s, prefix) is None ==> forall|rest: Seq<char>| s != #[trigger] (prefix + rest),
{
    if stripped(s, prefix) is Some {
        assert(s =~= prefix + stripped(s, prefix)->0);
    } else {
        assert forall|rest: Seq<char>| s != #[trigger] (prefix + rest) by {
            law_strip_undoes_prepend(prefix, rest);
        }
    }
}

/// The first index is a position in the text or its end, holds no earlier `c`, and
/// holds a `c` unless it is the end.
pub proof fn law_first_index_is_first(s: Seq<char>, c: char)
    ensures
        0 <= first_index(s, c) <= s.len(),
        forall|j: int| 0 <= j < first_index(s, c) ==> s[j] != c,
        first_index(s, c) < s.len() ==> s[first_index(s, c)] == c,
    decreases s.len(),
{
    if s.len() > 0 && s[0] != c {
        law_first_index_is_first(s.skip(1), c);
        assert forall|j: int| 0 <= j < first_index(s, c) implies s[j] != c by {
            if j > 0 {
                assert(s[j] == s.skip(1)[j - 1]);
            }
        }
    }
}

/// The two parts of a split text, joined by the separator, are the text, and the
/// first part holds no separator; a text is not split exactly when it holds none.
pub proof fn law_join_undoes_split(s: Seq<char>, c: char)
    ensures
        split_at_first(s, c) matches Some((before, behind)) ==> s == before + seq![c] + behind
            && !before.contains(c),
        split_at_first(s, c) is None <==> !s.contains(c),
{
    law_first_index_is_first(s, c);
    let i = first_index(s, c);
    if i < s.len() {
        assert(s =~= s.take(i) + seq![c] + s.skip(i + 1));
        assert(s.contains(c));
    }
}

/// Replacing changes the first `from` into `to` and nothing else, and leaves a text
/// without one alone.
pub proof fn law_replace_changes_the_first(
    before: Seq<char>,
    behind: Seq<char>,
    from: char,
    to: char,
)
    requires
        !before.contains(from),
    ensures
        first_replaced(before + seq![from] + behind, from, to) == before + seq![to] + behind,
        first_replaced(before, from, to) == before,
{
    let s = before + seq![from] + behind;
    assert forall|j: int| 0 <= j < before.len() implies s[j] != from by {
        assert(s[j] == before[j]);
        assert(before.contains(before[j]));
    }
    lemma_first_index(s, from, before.len() as int);
    assert(first_replaced(s, from, to) =~= before + seq![to] + behind);
    assert forall|j: int| 0 <= j < before.len() implies before[j] != from by {
        assert(before.contains(before[j]));
    }
    lemma_first_index(before, from, before.len() as int);
}

/// A text is its trimmed form between two runs of white space.
pub proof fn law_trimming_takes_white_space_only(s: Seq<char>)
    ensures
        exists|a: Seq<char>, b: Seq<char>|
            #![trigger blank(a), blank(b)]
            blank(a) && blank(b) && s == a + trimmed(s) + b,
{
    lemma_trimmed_start(s);
    let middle = trimmed_start(s);
    let a = s.take(s.len() - middle.len());
    lemma_trimmed_end(middle);
    let b = middle.skip(trimmed_end(middle).len() as int);
    assert(blank(a) && blank(b));
    assert(s =~= a + trimmed(s) + b);
}

/// A trimmed text neither starts nor ends with white space.
pub proof fn law_trimmed_ends_are_not_white(s: Seq<char>)
    ensures
        trimmed(s).len() > 0 ==> !white(trimmed(s)[0]) && !white(trimmed(s).last()),
{
    lemma_trimmed_start(s);
    lemma_trimmed_end(trimmed_start(s));
}

/// A text is blank exactly when nothing is left of it after trimming.
pub proof fn law_blank_texts_trim_to_nothing(s: Seq<char>)
    ensures
        blank(s) <==> trimmed(s).len() == 0,
{
    lemma_trimmed_start(s);
    let middle = trimmed_start(s);
    lemma_trimmed_end(middle);
    if blank(s) && middle.len() > 0 {
        assert(middle[0] == s[s.len() - middle.len()]);
    }
    if trimmed(s).len() == 0 {
        if middle.len() > 0 {
            assert(middle.skip(0)[0] == middle[0]);
        }
        assert forall|i: int| 0 <= i < s.len() implies white(#[trigger] s[i]) by {
            assert(s.take(s.len() as int)[i] == s[i]);
        }
    }
}

/// What trimming does at the start.
proof fn lemma_trimmed_start(s: Seq<char>)
    ensures
        trimmed_start(s).len() <= s.len(),
        trimmed_start(s) == s.skip(s.len() - trimmed_start(s).len()),
        blank(s.take(s.len() - trimmed_start(s).len())),
        trimmed_start(s).len() > 0 ==> !white(trimmed_start(s)[0]),
    decreases s.len(),
{
    if s.len() > 0 && white(s[0]) {
        let t = s.skip(1);
        lemma_trimmed_start(t);
        let k = t.len() - trimmed_start(t).len();
        assert(t.skip(k) =~= s.skip(k + 1));
        assert forall|i: int| 0 <= i < k + 1 implies white(#[trigger] s.take(k + 1)[i]) by {
            if i > 0 {
                assert(s.take(k + 1)[i] == t.take(k)[i - 1]);
            }
        }
    } else {
        assert(s.skip(0) =~= s);
    }
}

/// What trimming does at the end.
proof fn lemma_trimmed_end(s: Seq<char>)
    ensures
        trimmed_end(s).len() <= s.len(),
        trimmed_end(s) == s.take(trimmed_end(s).len() as int),
        blank(s.skip(trimmed_end(s).len() as int)),
        trimmed_end(s).len() > 0 ==> !white(trimmed_end(s).last()),
    decreases s.len(),
{
    if s.len() > 0 && white(s.last()) {
        let t = s.drop_last();
        lemma_trimmed_end(t);
        let k = trimmed_end(t).len() as int;
        assert(t.take(k) =~= s.take(k));
        assert forall|i: int| 0 <= i < s.skip(k).len() implies white(#[trigger] s.skip(k)[i]) by {
            if i < t.len() - k {
                assert(s.skip(k)[i] == t.skip(k)[i]);
            }
        }
    } else {
        assert(s.take(s.len() as int) =~= s);
    }
}

/// A run of characters stands for a number exactly when all of them are decimal
/// digits.
pub proof fn law_digits_stand_for_numbers(s: Seq<char>)
    ensures
        digits_value(s) is Some <==> forall|i: int| 0 <= i < s.len() ==> '0' <= #[trigger] s[i] <= '9',
    decreases s.len(),
{
    if s.len() > 0 {
        let t = s.drop_last();
        law_digits_stand_for_numbers(t);
        if forall|i: int| 0 <= i < s.len() ==> '0' <= #[trigger] s[i] <= '9' {
            assert forall|i: int| 0 <= i < t.len() implies '0' <= #[trigger] t[i] <= '9' by {
                assert(t[i] == s[i]);
            }
            assert('0' <= s[s.len() - 1] <= '9');
        }
        if digits_value(s) is Some {
            assert forall|i: int| 0 <= i < s.len() implies '0' <= #[trigger] s[i] <= '9' by {
                if i < t.len() {
                    assert(t[i] == s[i]);
                }
            }
        }
    }
}

/// The numeral of a number stands for that number, and has no leading zero unless it
/// is the numeral of zero.
pub proof fn law_numerals_stand_for_their_numbers(n: nat)
    ensures
        decimal(n).len() > 0,
        digits_value(decimal(n)) == Some(n),
        n > 0 ==> decimal(n)[0] != '0',
        decimal(0) == seq!['0'],
    decreases n,
{
    assert(digit(0) == '0');
    let last = digit((n % 10) as int);
    assert(last as int == 48 + n % 10);
    if n < 10 {
        assert(decimal(n) =~= seq![last]);
        assert(decimal(n).drop_last() =~= Seq::empty());
        assert(digits_value(decimal(n).drop_last()) == Some(0nat));
        assert(decimal(n).last() == last);
    } else {
        law_numerals_stand_for_their_numbers(n / 10);
        assert(decimal(n).drop_last() =~= decimal(n / 10));
        assert(decimal(n).last() == last);
    }
}

/// A leading zero does not change the number.
pub proof fn law_leading_zeros_do_not_count(s: Seq<char>)
    ensures
        digits_value(seq!['0'] + s) == digits_value(s),
    decreases s.len(),
{
    let long = seq!['0'] + s;
    if s.len() == 0 {
        assert(long.drop_last() =~= Seq::empty());
        assert(digits_value(long.drop_last()) == Some(0nat));
    } else {
        law_leading_zeros_do_not_count(s.drop_last());
        assert(long.drop_last() =~= seq!['0'] + s.drop_last());
    }
}

/// The numeral of a negative number is a minus sign and the numeral of its magnitude,
/// any other the numeral of the number; so two numbers never share a numeral.
pub proof fn law_signed_numerals_stand_for_their_numbers(i: int)
    ensures
        i >= 0 ==> digits_value(decimal_signed(i)) == Some(i as nat),
        i < 0 ==> decimal_signed(i)[0] == '-' && digits_value(decimal_signed(i).skip(1)) == Some(
            (-i) as nat,
        ),
{
    reveal_strlit("-");
    if i >= 0 {
        law_numerals_stand_for_their_numbers(i as nat);
    } else {
        law_numerals_stand_for_their_numbers((-i) as nat);
        assert(decimal_signed(i).skip(1) =~= decimal((-i) as nat));
    }
}

/// The numeral of every number that fits is read as that number, with a plus sign in
/// front too, and one that does not fit is not read.
pub proof fn law_numerals_are_read(n: nat)
    ensures
        numeral_value(decimal(n)) == (if n <= u64::MAX {
            Some(n as u64)
        } else {
            None
        }),
        numeral_value("+"@ + decimal(n)) == numeral_value(decimal(n)),
{
    reveal_strlit("+");
    law_numerals_stand_for_their_numbers(n);
    law_digits_stand_for_numbers(decimal(n));
    law_strip_undoes_prepend("+"@, decimal(n));
    if stripped(decimal(n), "+"@) is Some {
        assert(decimal(n).take(1)[0] == decimal(n)[0]);
        assert('0' <= decimal(n)[0] <= '9');
    }
}

/// What is read as a number is a run of digits with that value, behind a plus sign or
/// not; every such run that is not empty and whose value fits is read.
pub proof fn law_only_numerals_are_read(s: Seq<char>)
    ensures
        numeral_value(s) matches Some(n) ==> exists|digits: Seq<char>|
            digits.len() > 0 && (s == digits || s == "+"@ + digits) && #[trigger] digits_value(
                digits,
            ) == Some(n as nat),
        digits_value(s) matches Some(n) ==> s.len() > 0 && n <= u64::MAX ==> numeral_value(s)
            == Some(n as u64) && numeral_value("+"@ + s) == Some(n as u64),
{
    reveal_strlit("+");
    law_strip_finds_every_prefix(s, "+"@);
    let digits = match stripped(s, "+"@) {
        Some(rest) => rest,
        None => s,
    };
    law_strip_undoes_prepend("+"@, s);
    if numeral_value(s) is Some {
        assert(digits_value(digits) == Some(numeral_value(s)->0 as nat));
    }
    if digits_value(s) is Some && s.len() > 0 && stripped(s, "+"@) is Some {
        law_digits_stand_for_numbers(s);
        assert(s.take(1)[0] == s[0]);
        assert('0' <= s[0] <= '9');
    }
}

} // verus!
