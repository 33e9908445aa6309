//! Text primitives: searching, trimming and decimal numbers over characters.

use vstd::prelude::*;

verus! {

/// `String::push`: appends one character to the end of the string.
pub assume_specification[ String::push ](s: &mut String, c: char)
    ensures
        final(s)@ == old(s)@.push(c),
;

/// The characters of a string, in order.
pub fn chars_of(s: &str) -> (out: Vec<char>)
    ensures
        out@ == s@,
{
    let mut out: Vec<char> = Vec::new();
    for c in it: s.chars()
        invariant
            out@ == it.seq().take(it.index() as int),
            it.seq() == s@,
    {
        out.push(c);
    }
    out
}

/// The texts of a list of strings.
pub open spec fn texts(strings: Seq<String>) -> Seq<Seq<char>> {
    Seq::new(strings.len(), |i: int| strings[i]@)
}

/// The string made of the characters from `from` up to, not including, `to`.
pub fn slice_text(chars: &Vec<char>, from: usize, to: usize) -> (out: String)
    requires
        from <= to <= chars@.len(),
    ensures
        out@ == chars@.subrange(from as int, to as int),
{
    let mut out = String::new();
    let mut i: usize = from;
    while i < to
        invariant
            from <= i <= to <= chars@.len(),
            out@ == chars@.subrange(from as int, i as int),
        decreases to - i,
    {
        out.push(chars[i]);
        i = i + 1;
        assert(chars@.subrange(from as int, i as int) == chars@.subrange(
            from as int,
            i - 1,
        ).push(chars@[i - 1]));
    }
    out
}

/// Whether two strings hold the same characters.
pub fn same_text(a: &str, b: &str) -> (same: bool)
    ensures
        same == (a@ == b@),
{
    a.to_owned() == b.to_owned()
}

/// Whether the string begins with the given prefix.
pub fn starts_with(s: &str, prefix: &str) -> (yes: bool)
    ensures
        yes == prefix@.is_prefix_of(s@),
{
    let chars = chars_of(s);
    let wanted = chars_of(prefix);
    if wanted.len() > chars.len() {
        return false;
    }
    matches_at(&chars, 0, &wanted)
}

/// Whether the string ends with the given suffix.
pub fn ends_with(s: &str, suffix: &str) -> (yes: bool)
    ensures
        yes == suffix@.is_suffix_of(s@),
{
    let chars = chars_of(s);
    let wanted = chars_of(suffix);
    if wanted.len() > chars.len() {
        return false;
    }
    matches_at(&chars, chars.len() - wanted.len(), &wanted)
}

/// Whether `part` occurs in `s` as a run of consecutive characters.
pub open spec fn has_part(s: Seq<char>, part: Seq<char>) -> bool {
    exists|at: int| #[trigger] occurs_at(s, part, at)
}

/// Whether the characters of `s` from position `at` on begin with `part`.
pub open spec fn occurs_at(s: Seq<char>, part: Seq<char>, at: int) -> bool {
    &&& 0 <= at <= s.len() - part.len()
    &&& s.subrange(at, at + part.len()) == part
}

/// Whether the characters from position `at` on begin with `wanted`.
fn matches_at(chars: &Vec<char>, at: usize, wanted: &Vec<char>) -> (yes: bool)
    requires
        at + wanted@.len() <= chars@.len(),
    ensures
        yes == (chars@.subrange(at as int, at + wanted@.len()) == wanted@),
{
    let mut i: usize = 0;
    while i < wanted.len()
        invariant
            i <= wanted@.len(),
            at + wanted@.len() <= chars.len(),
            forall|k: int| 0 <= k < i ==> chars@[at + k] == wanted@[k],
        decreases wanted@.len() - i,
    {
        if chars[at + i] != wanted[i] {
            assert(chars@.subrange(at as int, at + wanted@.len())[i as int] != wanted@[i as int]);
            return false;
        }
        i = i + 1;
    }
    assert(chars@.subrange(at as int, at + wanted@.len()) =~= wanted@);
    true
}

/// Whether the string contains the given part.
pub fn contains(s: &str, part: &str) -> (yes: bool)
    ensures
        yes == has_part(s@, part@),
{
    let chars = chars_of(s);
    let wanted = chars_of(part);
    if wanted.len() > chars.len() {
        return false;
    }
    let last: usize = chars.len() - wanted.len();
    let mut at: usize = 0;
    loop
        invariant
            at <= last,
            last + wanted@.len() == chars@.len(),
            chars@ == s@,
            wanted@ == part@,
            forall|k: int| 0 <= k < at ==> !#[trigger] occurs_at(s@, part@, k),
        decreases last - at,
    {
        if matches_at(&chars, at, &wanted) {
            assert(occurs_at(s@, part@, at as int));
            return true;
        }
        assert(!occurs_at(s@, part@, at as int));
        if at == last {
            return false;
        }
        at = at + 1;
    }
}

/// The sequence with every occurrence of one character replaced by another.
pub open spec fn replaced(s: Seq<char>, from: char, to: char) -> Seq<char> {
    Seq::new(
        s.len(),
        |i: int|
            if s[i] == from {
                to
            } else {
                s[i]
            },
    )
}

/// Replaces every occurrence of one character by another.
pub fn replace_char(s: &str, from: char, to: char) -> (out: String)
    ensures
        out@ == replaced(s@, from, to),
{
    let chars = chars_of(s);
    let mut out = String::new();
    let mut i: usize = 0;
    while i < chars.len()
        invariant
            i <= chars@.len(),
            out@ == replaced(chars@, from, to).take(i as int),
        decreases chars@.len() - i,
    {
        let c = chars[i];
        out.push(
            if c == from {
                to
            } else {
                c
            },
        );
        i = i + 1;
        assert(replaced(chars@, from, to).take(i as int) == replaced(chars@, from, to).take(
            i - 1,
        ).push(replaced(chars@, from, to)[i - 1]));
    }
    assert(replaced(chars@, from, to).take(i as int) == replaced(chars@, from, to));
    out
}

/// The characters with Unicode's `White_Space` property.
pub open spec fn is_white_space(c: char) -> bool {
    ||| '\u{9}' <= c && c <= '\u{d}'
    ||| c == ' '
    ||| c == '\u{85}'
    ||| c == '\u{a0}'
    ||| c == '\u{1680}'
    ||| '\u{2000}' <= c && c <= '\u{200a}'
    ||| c == '\u{2028}'
    ||| c == '\u{2029}'
    ||| c == '\u{202f}'
    ||| c == '\u{205f}'
    ||| c == '\u{3000}'
}

/// Whether the character has Unicode's `White_Space` property.
pub fn white_space(c: char) -> (yes: bool)
    ensures
        yes == is_white_space(c),
{
    ('\u{9}' <= c && c <= '\u{d}') || c == ' ' || c == '\u{85}' || c == '\u{a0}' || c == '\u{1680}'
        || ('\u{2000}' <= c && c <= '\u{200a}') || c == '\u{2028}' || c == '\u{2029}' || c
        == '\u{202f}' || c == '\u{205f}' || c == '\u{3000}'
}

/// The sequence without its leading white space.
pub open spec fn trimmed_start(s: Seq<char>) -> Seq<char>
    decreases s.len(),
{
    if s.len() > 0 && is_white_space(s.first()) {
        trimmed_start(s.drop_first())
    } else {
        s
    }
}

/// The sequence without its trailing white space.
pub open spec fn trimmed_end(s: Seq<char>) -> Seq<char>
    decreases s.len(),
{
    if s.len() > 0 && is_white_space(s.last()) {
        trimmed_end(s.drop_last())
    } else {
        s
    }
}

/// The sequence without the white space at either end.
pub open spec fn trimmed(s: Seq<char>) -> Seq<char> {
    trimmed_end(trimmed_start(s))
}

/// The bounds `(from, to)` between which the characters from `start` up to `end` stand
/// once the white space at either end is left out.
pub fn trim_bounds(chars: &Vec<char>, start: usize, end: usize) -> (bounds: (usize, usize))
    requires
        start <= end <= chars@.len(),
    ensures
        start <= bounds.0 <= bounds.1 <= end,
        chars@.subrange(bounds.0 as int, bounds.1 as int) == trimmed(
            chars@.subrange(start as int, end as int),
        ),
{
    let mut from: usize = start;
    while from < end && white_space(chars[from])
        invariant
            start <= from <= end <= chars@.len(),
            trimmed_start(chars@.subrange(from as int, end as int)) == trimmed_start(
                chars@.subrange(start as int, end as int),
            ),
        decreases end - from,
    {
        assert(chars@.subrange(from as int, end as int).drop_first() == chars@.subrange(
            from + 1,
            end as int,
        ));
        from = from + 1;
    }
    let mut to: usize = end;
    while from < to && white_space(chars[to - 1])
        invariant
            from <= to <= end <= chars@.len(),
            trimmed_end(chars@.subrange(from as int, to as int)) == trimmed_end(
                chars@.subrange(from as int, end as int),
            ),
        decreases to - from,
    {
        assert(chars@.subrange(from as int, to as int).drop_last() == chars@.subrange(
            from as int,
            to - 1,
        ));
        to = to - 1;
    }
    (from, to)
}

/// Whether the character is one of the ten decimal digits.
pub open spec fn is_digit(c: char) -> bool {
    '0' <= c && c <= '9'
}

/// The number that a run of decimal digits writes down.
pub open spec fn digits_value(digits: Seq<char>) -> nat
    decreases digits.len(),
{
    if digits.len() == 0 {
        0
    } else {
        digits_value(digits.drop_last()) * 10 + (digits.last() as nat - '0' as nat) as nat
    }
}

/// Whether every character is a decimal digit.
pub open spec fn all_digits(s: Seq<char>) -> bool {
    forall|i: int| 0 <= i < s.len() ==> is_digit(#[trigger] s[i])
}

/// The number that the text writes down: decimal digits, at least one, behind an optional
/// plus sign. No number where the text holds anything else.
pub open spec fn unsigned_value(s: Seq<char>) -> Option<nat> {
    let digits = if s.len() > 0 && s[0] == '+' {
        s.drop_first()
    } else {
        s
    };
    if digits.len() > 0 && all_digits(digits) {
        Some(digits_value(digits))
    } else {
        None
    }
}

/// Reads an unsigned number of at most `max`.
pub fn parse_unsigned(s: &str, max: u64) -> (out: Option<u64>)
    ensures
        out matches Some(n) ==> unsigned_value(s@) == Some(n as nat) && n <= max,
        out is None ==> (unsigned_value(s@) matches Some(n) ==> n > max),
{
    let chars = chars_of(s);
    let signed: bool = chars.len() > 0 && chars[0] == '+';
    let start: usize = if signed {
        1
    } else {
        0
    };
    let ghost digits = if signed {
        s@.drop_first()
    } else {
        s@
    };
    if start == chars.len() {
        return None;
    }
    let mut value: u64 = 0;
    let mut too_large: bool = false;
    let mut i: usize = start;
    assert(digits.take(0).len() == 0);
    while i < chars.len()
        invariant
            start <= i <= chars@.len(),
            start < chars@.len(),
            digits.len() == chars@.len() - start,
            forall|k: int| 0 <= k < digits.len() ==> digits[k] == #[trigger] chars@[k + start],
            forall|k: int| 0 <= k < i - start ==> is_digit(#[trigger] digits[k]),
            too_large ==> digits_value(digits.take(i - start)) > max,
            !too_large ==> digits_value(digits.take(i - start)) == value && value <= max,
            digits == (if s@.len() > 0 && s@[0] == '+' {
                s@.drop_first()
            } else {
                s@
            }),
        decreases chars@.len() - i,
    {
        let c = chars[i];
        assert(digits[i - start] == chars@[i - start + start]);
        if c < '0' || c > '9' {
            assert(!is_digit(digits[i - start]));
            return None;
        }
        let digit: u64 = (c as u32 - '0' as u32) as u64;
        assert(digits.take(i - start + 1).drop_last() == digits.take(i - start));
        if !too_large {
            let next: u128 = value as u128 * 10 + digit as u128;
            if next > max as u128 {
                too_large = true;
            } else {
                value = next as u64;
            }
        }
        i = i + 1;
    }
    assert(digits.take(digits.len() as int) == digits);
    if too_large {
        None
    } else {
        Some(value)
    }
}

/// The digit that writes down a number below ten.
pub open spec fn digit_char(d: nat) -> char {
    ('0' as nat + d) as char
}

/// The decimal digits of a number, without leading zeros.
pub open spec fn decimal(n: nat) -> Seq<char>
    decreases n,
{
    if n < 10 {
        seq![digit_char(n)]
    } else {
        decimal(n / 10).push(digit_char(n % 10))
    }
}

/// Writes a number in decimal digits.
pub fn decimal_text(n: u32) -> (out: String)
    ensures
        out@ == decimal(n as nat),
    decreases n,
{
    let mut out = if n < 10 {
        String::new()
    } else {
        decimal_text(n / 10)
    };
    let digit: u8 = (n % 10) as u8;
    out.push((48u8 + digit) as char);
    assert(out@ =~= decimal(n as nat));
    out
}

/// What [`decimal`] writes, [`unsigned_value`] reads back.
pub proof fn decimal_reads_back(n: nat)
    ensures
        unsigned_value(decimal(n)) == Some(n),
{
    decimal_is_digits(n);
}

proof fn decimal_is_digits(n: nat)
    ensures
        decimal(n).len() > 0,
        all_digits(decimal(n)),
        digits_value(decimal(n)) == n,
    decreases n,
{
    if n < 10 {
        assert(decimal(n).drop_last() =~= Seq::<char>::empty());
        assert(digits_value(decimal(n).drop_last()) == 0);
    } else {
        decimal_is_digits(n / 10);
        assert(decimal(n).drop_last() =~= decimal(n / 10));
    }
}

/// The texts of a list are the texts of its strings, in order.
pub proof fn texts_are_of_the_strings(strings: Seq<String>)
    ensures
        texts(strings).len() == strings.len(),
        forall|i: int| 0 <= i < strings.len() ==> texts(strings)[i] == (#[trigger] strings[i])@,
{
}

/// A text has a part exactly where it can be cut into three pieces with the part in the middle.
pub proof fn part_stands_between(s: Seq<char>, part: Seq<char>)
    ensures
        has_part(s, part) <==> exists|before: Seq<char>, after: Seq<char>|
            #[trigger] (before + part + after) == s,
{
    if has_part(s, part) {
        let at = choose|at: int| #[trigger] occurs_at(s, part, at);
        let before = s.take(at);
        let after = s.skip(at + part.len());
        assert(before + part + after =~= s) by {
            assert forall|i: int| at <= i < at + part.len() implies s[i] == part[i - at] by {
                assert(s.subrange(at, at + part.len())[i - at] == part[i - at]);
            }
        }
    }
    if exists|before: Seq<char>, after: Seq<char>| #[trigger] (before + part + after) == s {
        let (before, after) = choose|before: Seq<char>, after: Seq<char>|
            #[trigger] (before + part + after) == s;
        assert(s.subrange(before.len() as int, before.len() as int + part.len()) =~= part);
        assert(occurs_at(s, part, before.len() as int));
    }
}

/// Replacing one character by another changes that character wherever it stands, and nothing
/// else; none is left behind, unless it stands for itself.
pub proof fn replacing_changes_one_character(s: Seq<char>, from: char, to: char)
    ensures
        replaced(s, from, to).len() == s.len(),
        forall|i: int|
            0 <= i < s.len() && s[i] != from ==> (#[trigger] replaced(s, from, to)[i]) == s[i],
        forall|i: int|
            0 <= i < s.len() && s[i] == from ==> (#[trigger] replaced(s, from, to)[i]) == to,
        from != to ==> !replaced(s, from, to).contains(from),
{
}

/// White space by code point: the ASCII controls from tab to carriage return, the space, the
/// next-line control, and the spaces and separators that Unicode adds.
pub proof fn white_space_by_code(c: char)
    ensures
        is_white_space(c) <==> {
            ||| 9 <= c as int <= 13
            ||| c as int == 0x20
            ||| c as int == 0x85
            ||| c as int == 0xa0
            ||| c as int == 0x1680
            ||| 0x2000 <= c as int <= 0x200a
            ||| 0x2028 <= c as int <= 0x2029
            ||| c as int == 0x202f
            ||| c as int == 0x205f
            ||| c as int == 0x3000
        },
{
}

/// Trimming takes white space off the front until something else stands there.
pub proof fn trimming_the_start(s: Seq<char>)
    ensures
        trimmed_start(s).len() <= s.len(),
        trimmed_start(s) == s.skip(s.len() - trimmed_start(s).len()),
        forall|i: int|
            0 <= i < s.len() - trimmed_start(s).len() ==> is_white_space(#[trigger] s[i]),
        trimmed_start(s).len() > 0 ==> !is_white_space(trimmed_start(s)[0]),
    decreases s.len(),
{
    if s.len() > 0 && is_white_space(s.first()) {
        let rest = s.drop_first();
        trimming_the_start(rest);
        let cut = s.len() - trimmed_start(s).len();
        assert(rest.skip(cut - 1) =~= s.skip(cut));
        assert forall|i: int| 0 <= i < cut implies is_white_space(#[trigger] s[i]) by {
            if i > 0 {
                assert(rest[i - 1] == s[i]);
            }
        }
    } else {
        assert(s.skip(0) =~= s);
    }
}

/// Trimming takes white space off the end until something else stands there.
pub proof fn trimming_the_end(s: Seq<char>)
    ensures
        trimmed_end(s).len() <= s.len(),
        trimmed_end(s) == s.take(trimmed_end(s).len() as int),
        forall|i: int| trimmed_end(s).len() <= i < s.len() ==> is_white_space(#[trigger] s[i]),
        trimmed_end(s).len() > 0 ==> !is_white_space(trimmed_end(s).last()),
    decreases s.len(),
{
    if s.len() > 0 && is_white_space(s.last()) {
        let rest = s.drop_last();
        trimming_the_end(rest);
        assert(rest.take(trimmed_end(s).len() as int) =~= s.take(trimmed_end(s).len() as int));
        assert forall|i: int| trimmed_end(s).len() <= i < s.len() implies is_white_space(
            #[trigger] s[i],
        ) by {
            if i < rest.len() {
                assert(rest[i] == s[i]);
            }
        }
    } else {
        assert(s.take(s.len() as int) =~= s);
    }
}

/// A text is its trimmed part with white space around it, and that part neither begins nor
/// ends with white space.
pub proof fn trimming_leaves_the_middle(s: Seq<char>)
    ensures
        exists|from: int, to: int|
            {
                &&& 0 <= from <= to <= s.len()
                &&& trimmed(s) == #[trigger] s.subrange(from, to)
                &&& forall|i: int| 0 <= i < from ==> is_white_space(#[trigger] s[i])
                &&& forall|i: int| to <= i < s.len() ==> is_white_space(#[trigger] s[i])
            },
        trimmed(s).len() > 0 ==> !is_white_space(trimmed(s)[0]) && !is_white_space(
            trimmed(s).last(),
        ),
{
    let head = trimmed_start(s);
    trimming_the_start(s);
    trimming_the_end(head);
    let from = s.len() - head.len();
    let to = from + trimmed(s).len();
    assert(trimmed(s) =~= s.subrange(from, to));
    assert forall|i: int| to <= i < s.len() implies is_white_space(#[trigger] s[i]) by {
        assert(head[i - from] == s[i]);
    }
}

/// A text is a number exactly where it is decimal digits, at least one, with or without one
/// plus sign before them.
pub proof fn numbers_are_digits(s: Seq<char>)
    ensures
        unsigned_value(s) is Some <==> {
            &&& s.len() > 0
            &&& 48 <= s[0] as int <= 57 || (s[0] as int == 43 && s.len() > 1)
            &&& forall|i: int| 1 <= i < s.len() ==> 48 <= (#[trigger] s[i]) as int <= 57
        },
{
    let digits = if s.len() > 0 && s[0] == '+' {
        s.drop_first()
    } else {
        s
    };
    let shape = {
        &&& s.len() > 0
        &&& 48 <= s[0] as int <= 57 || (s[0] as int == 43 && s.len() > 1)
        &&& forall|i: int| 1 <= i < s.len() ==> 48 <= (#[trigger] s[i]) as int <= 57
    };
    if unsigned_value(s) is Some {
        assert forall|i: int| 1 <= i < s.len() implies 48 <= (#[trigger] s[i]) as int <= 57 by {
            if s[0] == '+' {
                assert(is_digit(digits[i - 1]));
            } else {
                assert(is_digit(digits[i]));
            }
        }
        assert(is_digit(digits[0]));
    }
    if shape {
        assert forall|i: int| 0 <= i < digits.len() implies is_digit(#[trigger] digits[i]) by {
            if s[0] == '+' {
                assert(digits[i] == s[i + 1]);
            } else {
                assert(digits[i] == s[i]);
            }
        }
        assert(all_digits(digits));
    }
}

/// One digit is its distance from zero; one more digit behind a number makes it ten times the
/// number and the digit; a plus sign before digits changes nothing.
pub proof fn digits_count_by_tens(s: Seq<char>, c: char)
    requires
        48 <= c as int <= 57,
    ensures
        unsigned_value(seq![c]) == Some((c as int - 48) as nat),
        unsigned_value(s) matches Some(n) ==> unsigned_value(s.push(c)) == Some(
            (n * 10 + (c as int - 48)) as nat,
        ),
        s.len() > 0 && s[0] as int != 43 ==> unsigned_value(seq!['+'] + s) == unsigned_value(s),
{
    let one = seq![c];
    assert(one.drop_last().len() == 0);
    assert(digits_value(one.drop_last()) == 0);
    assert(all_digits(one));
    if unsigned_value(s) is Some {
        let digits = if s[0] == '+' {
            s.drop_first()
        } else {
            s
        };
        let more = digits.push(c);
        assert(if s[0] == '+' {
            s.push(c).drop_first() =~= more
        } else {
            s.push(c) =~= more
        });
        assert(more.drop_last() =~= digits);
        assert(all_digits(more)) by {
            assert forall|i: int| 0 <= i < more.len() implies is_digit(#[trigger] more[i]) by {
                if i < digits.len() {
                    assert(is_digit(digits[i]));
                }
            }
        }
    }
    assert((seq!['+'] + s).drop_first() =~= s);
}

/// A number is written in digits alone, without a leading zero unless it is zero, and no two
/// numbers are written the same.
pub proof fn decimal_is_plain(n: nat, m: nat)
    ensures
        decimal(n).len() > 0,
        forall|i: int| 0 <= i < decimal(n).len() ==> 48 <= (#[trigger] decimal(n)[i]) as int <= 57,
        decimal(n)[0] as int == 48 ==> n == 0 && decimal(n).len() == 1,
        decimal(n) == decimal(m) ==> n == m,
        decimal(n).last() as int == 48 + n % 10,
        n >= 10 ==> decimal(n).drop_last() == decimal(n / 10),
    decreases n,
{
    decimal_is_digits(n);
    decimal_reads_back(n);
    decimal_reads_back(m);
    assert forall|i: int| 0 <= i < decimal(n).len() implies 48 <= (#[trigger] decimal(
        n,
    )[i]) as int <= 57 by {
        assert(is_digit(decimal(n)[i]));
    }
    if n >= 10 {
        decimal_is_plain(n / 10, m);
        assert(decimal(n).drop_last() =~= decimal(n / 10));
    }
}

} // verus!
