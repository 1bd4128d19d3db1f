//! Text as sequences of characters: decimal numbers, trimming, searching and
//! joining.

use vstd::prelude::*;
use vstd::utf8::{decode_utf8, valid_utf8};

verus! {

/// Appends one character to a string: `String::push` adds `c` at the end and
/// changes nothing else.
pub assume_specification[ String::push ](text: &mut String, c: char)
    ensures
        final(text)@ == old(text)@.push(c),
;

/// The text of bytes, with replacement characters for what is not UTF-8.
pub uninterp spec fn lossy_text(bytes: Seq<u8>) -> Seq<char>;

/// Calls `String::from_utf8_lossy`. The text depends on the bytes alone; valid
/// UTF-8 is decoded as it is.
#[verifier::external_body]
pub(crate) fn decode_lossy(bytes: &Vec<u8>) -> (text: String)
    ensures
        text@ == lossy_text(bytes@),
        valid_utf8(bytes@) ==> text@ == decode_utf8(bytes@),
{
    String::from_utf8_lossy(bytes).into_owned()
}

/// The characters of an optional text.
pub open spec fn opt_text(text: Option<String>) -> Option<Seq<char>> {
    match text {
        Some(text) => Some(text@),
        None => None,
    }
}

/// The characters of each of several texts.
pub open spec fn texts(all: Seq<String>) -> Seq<Seq<char>> {
    all.map_values(|text: String| text@)
}

/// The decimal digit for `d`, with `0 <= d < 10`.
pub open spec fn digit(d: int) -> char {
    (48 + d) as char
}

/// `n` in decimal, without leading zeros.
pub open spec fn natural(n: nat) -> Seq<char>
    decreases n,
{
    if n < 10 {
        seq![digit(n as int)]
    } else {
        natural(n / 10).push(digit((n % 10) as int))
    }
}

/// `n` in decimal, with a minus sign when negative.
pub open spec fn decimal(n: int) -> Seq<char> {
    if n < 0 {
        seq!['-'] + natural((-n) as nat)
    } else {
        natural(n as nat)
    }
}

/// `n` in decimal, padded to two digits.
pub open spec fn two_digits(n: nat) -> Seq<char> {
    if n < 10 {
        seq!['0'] + natural(n)
    } else {
        natural(n)
    }
}

pub open spec fn is_digit(c: char) -> bool {
    '0' <= c <= '9'
}

pub open spec fn all_digits(s: Seq<char>) -> bool {
    forall|i: int| 0 <= i < s.len() ==> is_digit(#[trigger] s[i])
}

/// The number that a run of decimal digits denotes.
pub open spec fn digits_value(s: Seq<char>) -> nat
    decreases s.len(),
{
    if s.len() == 0 {
        0
    } else {
        digits_value(s.drop_last()) * 10 + (s.last() as int - 48) as nat
    }
}

/// One or more decimal digits.
pub open spec fn is_number(s: Seq<char>) -> bool {
    s.len() > 0 && all_digits(s)
}

/// An optional plus sign and digits that denote at most `limit`.
pub open spec fn parsed_unsigned(s: Seq<char>, limit: nat) -> Option<nat> {
    let digits = if s.len() > 0 && s[0] == '+' { s.skip(1) } else { s };
    if is_number(digits) && digits_value(digits) <= limit {
        Some(digits_value(digits))
    } else {
        None
    }
}

/// An optional sign and digits that denote a 64-bit integer.
pub open spec fn parsed_integer(s: Seq<char>) -> Option<int> {
    if s.len() > 0 && s[0] == '-' {
        let digits = s.skip(1);
        if is_number(digits) && -digits_value(digits) >= i64::MIN {
            Some(-(digits_value(digits) as int))
        } else {
            None
        }
    } else {
        match parsed_unsigned(s, i64::MAX as nat) {
            Some(n) => Some(n as int),
            None => None,
        }
    }
}

proof fn lemma_natural_digits(n: nat)
    ensures
        is_number(natural(n)),
        digits_value(natural(n)) == n,
    decreases n,
{
    reveal_with_fuel(digits_value, 2);
    if n < 10 {
        assert(natural(n).drop_last() =~= Seq::<char>::empty());
        assert(natural(n).last() == digit(n as int));
    } else {
        lemma_natural_digits(n / 10);
        assert(natural(n).drop_last() =~= natural(n / 10));
        assert(natural(n).last() == digit((n % 10) as int));
    }
}

/// Reading back a 64-bit integer that was written in decimal gives that integer.
pub proof fn law_decimal_round_trip(n: i64)
    ensures
        parsed_integer(decimal(n as int)) == Some(n as int),
{
    if n < 0 {
        lemma_natural_digits((-n) as nat);
        assert(decimal(n as int).skip(1) =~= natural((-n) as nat));
    } else {
        lemma_natural_digits(n as nat);
        assert(is_digit(natural(n as nat)[0]));
    }
}

/// A padded number is made of digits and denotes the number; below a hundred
/// there are two of them.
pub proof fn lemma_two_digits(n: nat)
    ensures
        all_digits(two_digits(n)),
        digits_value(two_digits(n)) == n,
        n < 100 ==> two_digits(n).len() == 2,
{
    lemma_natural_digits(n);
    reveal_with_fuel(digits_value, 3);
    reveal_with_fuel(natural, 2);
    if n < 10 {
        let text = two_digits(n);
        assert(text.drop_last() =~= seq!['0']);
        assert(text.drop_last().drop_last() =~= Seq::<char>::empty());
        assert(text.last() == digit(n as int));
    }
}

/// Two 64-bit integers with the same decimal text are equal.
pub proof fn law_decimal_is_injective(a: i64, b: i64)
    requires
        decimal(a as int) == decimal(b as int),
    ensures
        a == b,
{
    law_decimal_round_trip(a);
    law_decimal_round_trip(b);
}

/// The characters of `text`.
pub fn chars_of(text: &str) -> (chars: Vec<char>)
    ensures
        chars@ == text@,
{
    let mut chars: Vec<char> = Vec::new();
    for c in iter: text.chars()
        invariant
            iter.seq() == text@,
            chars@ == text@.take(iter.index() as int),
    {
        chars.push(c);
    }
    assert(text@.take(text@.len() as int) =~= text@);
    chars
}

/// The decimal text of a natural number.
pub fn natural_text(n: u64) -> (text: String)
    ensures
        text@ == natural(n as nat),
    decreases n,
{
    if n < 10 {
        let mut text = String::new();
        text.push((48u8 + n as u8) as char);
        assert(text@ =~= natural(n as nat));
        text
    } else {
        let mut text = natural_text(n / 10);
        text.push((48u8 + (n % 10) as u8) as char);
        text
    }
}

/// The decimal text of a 64-bit integer.
pub fn decimal_text(n: i64) -> (text: String)
    ensures
        text@ == decimal(n as int),
{
    if n < 0 {
        let magnitude: u64 = (-(n + 1)) as u64 + 1;
        let mut text = String::new();
        text.push('-');
        let digits = natural_text(magnitude);
        text.append(digits.as_str());
        assert(text@ =~= decimal(n as int));
        text
    } else {
        natural_text(n as u64)
    }
}

/// The decimal text of a natural number, padded to two digits.
pub fn two_digit_text(n: u64) -> (text: String)
    ensures
        text@ == two_digits(n as nat),
{
    if n < 10 {
        let mut text = String::new();
        text.push('0');
        let digits = natural_text(n);
        text.append(digits.as_str());
        assert(text@ =~= two_digits(n as nat));
        text
    } else {
        natural_text(n)
    }
}

proof fn lemma_digits_value_grows(s: Seq<char>, i: int)
    requires
        0 <= i <= s.len(),
        all_digits(s),
    ensures
        digits_value(s.take(i)) <= digits_value(s),
    decreases s.len() - i,
{
    if i < s.len() {
        lemma_digits_value_grows(s, i + 1);
        assert(s.take(i + 1).drop_last() =~= s.take(i));
        assert(s.take(i + 1).last() == s[i]);
    } else {
        assert(s.take(i) =~= s);
    }
}

/// The number that the digits from position `from` on denote, when there is
/// one of at most `limit`.
fn parse_digits(chars: &Vec<char>, from: usize, limit: u64) -> (value: Option<u64>)
    requires
        from <= chars.len(),
    ensures
        ({
            let digits = chars@.skip(from as int);
            match value {
                Some(n) => is_number(digits) && n == digits_value(digits) && n <= limit,
                None => !(is_number(digits) && digits_value(digits) <= limit),
            }
        }),
{
    let ghost digits = chars@.skip(from as int);
    if from == chars.len() {
        return None;
    }
    let mut value: u64 = 0;
    let mut i: usize = from;
    while i < chars.len()
        invariant
            from <= i <= chars.len(),
            digits == chars@.skip(from as int),
            all_digits(digits.take(i - from)),
            value == digits_value(digits.take(i - from)),
            value <= limit,
        decreases chars.len() - i,
    {
        let c: char = chars[i];
        let ghost at = i - from;
        assert(digits[at] == c);
        if c < '0' || '9' < c {
            assert(!is_digit(digits[at]));
            return None;
        }
        let next: u128 = value as u128 * 10 + (c as u32 - 48) as u128;
        proof {
            assert(digits.take(at + 1).drop_last() =~= digits.take(at));
            assert(digits.take(at + 1).last() == c);
            assert(next == digits_value(digits.take(at + 1)));
            assert forall|k: int| 0 <= k < at + 1 implies is_digit(
                #[trigger] digits.take(at + 1)[k],
            ) by {
                if k < at {
                    assert(digits.take(at + 1)[k] == digits.take(at)[k]);
                }
            }
        }
        if next > limit as u128 {
            proof {
                if all_digits(digits) {
                    lemma_digits_value_grows(digits, at + 1);
                }
            }
            return None;
        }
        value = next as u64;
        i = i + 1;
    }
    assert(digits.take(digits.len() as int) =~= digits);
    Some(value)
}

/// Reads an unsigned number of at most `limit`: an optional plus sign and digits.
pub fn parse_unsigned(text: &str, limit: u64) -> (value: Option<u64>)
    ensures
        match value {
            Some(n) => parsed_unsigned(text@, limit as nat) == Some(n as nat),
            None => parsed_unsigned(text@, limit as nat) is None,
        },
{
    let chars = chars_of(text);
    if chars.len() > 0 && chars[0] == '+' {
        parse_digits(&chars, 1, limit)
    } else {
        assert(chars@.skip(0) =~= chars@);
        parse_digits(&chars, 0, limit)
    }
}

/// Reads a 64-bit integer: an optional sign and digits.
pub fn parse_integer(text: &str) -> (value: Option<i64>)
    ensures
        match value {
            Some(n) => parsed_integer(text@) == Some(n as int),
            None => parsed_integer(text@) is None,
        },
{
    let chars = chars_of(text);
    if chars.len() > 0 && chars[0] == '-' {
        match parse_digits(&chars, 1, 9223372036854775808u64) {
            Some(n) => Some((-(n as i128)) as i64),
            None => None,
        }
    } else {
        match parse_unsigned(text, i64::MAX as u64) {
            Some(n) => Some(n as i64),
            None => None,
        }
    }
}

/// White space: the characters with the Unicode property `White_Space`.
pub open spec fn is_space(c: char) -> bool {
    ||| '\u{9}' <= c <= '\u{d}'
    ||| c == ' '
    ||| c == '\u{85}'
    ||| c == '\u{a0}'
    ||| c == '\u{1680}'
    ||| '\u{2000}' <= c <= '\u{200a}'
    ||| c == '\u{2028}'
    ||| c == '\u{2029}'
    ||| c == '\u{202f}'
    ||| c == '\u{205f}'
    ||| c == '\u{3000}'
}

/// `s` without leading white space.
pub open spec fn trimmed_start(s: Seq<char>) -> Seq<char>
    decreases s.len(),
{
    if s.len() > 0 && is_space(s[0]) {
        trimmed_start(s.skip(1))
    } else {
        s
    }
}

/// `s` without trailing white space.
pub open spec fn trimmed_end(s: Seq<char>) -> Seq<char>
    decreases s.len(),
{
    if s.len() > 0 && is_space(s.last()) {
        trimmed_end(s.drop_last())
    } else {
        s
    }
}

/// `s` without leading and trailing white space.
pub open spec fn trimmed(s: Seq<char>) -> Seq<char> {
    trimmed_end(trimmed_start(s))
}

/// `part` stands in `s` at position `at`.
pub open spec fn occurs_at(s: Seq<char>, part: Seq<char>, at: int) -> bool {
    0 <= at && at + part.len() <= s.len() && s.subrange(at, at + part.len()) == part
}

pub open spec fn contains_seq(s: Seq<char>, part: Seq<char>) -> bool {
    exists|at: int| occurs_at(s, part, at)
}

pub open spec fn starts_with_seq(s: Seq<char>, part: Seq<char>) -> bool {
    occurs_at(s, part, 0)
}

pub open spec fn ends_with_seq(s: Seq<char>, part: Seq<char>) -> bool {
    occurs_at(s, part, s.len() - part.len())
}

/// A prefix, and nothing else, is in front of what was appended to it.
pub proof fn lemma_prefix_of_concat(part: Seq<char>, rest: Seq<char>)
    ensures
        starts_with_seq(part + rest, part),
        (part + rest).skip(part.len() as int) == rest,
{
    assert((part + rest).subrange(0, part.len() as int) =~= part);
    assert((part + rest).skip(part.len() as int) =~= rest);
}

/// What was appended to a text is at its end.
pub proof fn lemma_suffix_of_concat(rest: Seq<char>, part: Seq<char>)
    ensures
        ends_with_seq(rest + part, part),
{
    assert((rest + part).subrange(rest.len() as int, (rest.len() + part.len()) as int) =~= part);
}

pub fn is_white_space(c: char) -> (b: bool)
    ensures
        b == is_space(c),
{
    ('\u{9}' <= c && c <= '\u{d}') || c == ' ' || c == '\u{85}' || c == '\u{a0}' || c
        == '\u{1680}' || ('\u{2000}' <= c && c <= '\u{200a}') || c == '\u{2028}' || c
        == '\u{2029}' || c == '\u{202f}' || c == '\u{205f}' || c == '\u{3000}'
}

/// `text` without leading and trailing white space.
pub fn trim_text(text: &str) -> (r: String)
    ensures
        r@ == trimmed(text@),
{
    let chars = chars_of(text);
    let mut from: usize = 0;
    assert(text@.skip(0) =~= text@);
    while from < chars.len() && is_white_space(chars[from])
        invariant
            from <= chars.len(),
            chars@ == text@,
            trimmed_start(text@) == trimmed_start(text@.skip(from as int)),
        decreases chars.len() - from,
    {
        assert(text@.skip(from as int)[0] == chars[from as int]);
        assert(text@.skip(from as int).skip(1) =~= text@.skip(from + 1));
        from = from + 1;
    }
    let ghost rest = text@.skip(from as int);
    proof {
        if from < chars.len() {
            assert(rest[0] == chars[from as int]);
        }
        assert(trimmed_start(text@) == rest);
        assert(text@.subrange(from as int, text@.len() as int) =~= rest);
    }
    let mut to: usize = chars.len();
    while from < to && is_white_space(chars[to - 1])
        invariant
            from <= to <= chars.len(),
            chars@ == text@,
            trimmed_end(rest) == trimmed_end(text@.subrange(from as int, to as int)),
        decreases to,
    {
        let ghost part = text@.subrange(from as int, to as int);
        assert(part.last() == chars[to - 1]);
        assert(part.drop_last() =~= text@.subrange(from as int, to - 1));
        to = to - 1;
    }
    proof {
        let part = text@.subrange(from as int, to as int);
        if from < to {
            assert(part.last() == chars[to - 1]);
        }
    }
    text.substring_char(from, to).to_owned()
}

pub fn same_text(a: &str, b: &str) -> (same: bool)
    ensures
        same == (a@ == b@),
{
    let a: String = a.to_owned();
    let b: String = b.to_owned();
    a == b
}

/// Whether `part` stands in `text` at position `at`.
fn matches_at(text: &Vec<char>, part: &Vec<char>, at: usize) -> (found: bool)
    requires
        at + part.len() <= text.len(),
    ensures
        found == occurs_at(text@, part@, at as int),
{
    let ghost window = text@.subrange(at as int, at + part.len());
    let mut k: usize = 0;
    while k < part.len()
        invariant
            k <= part.len(),
            at + part.len() <= text.len(),
            window == text@.subrange(at as int, at + part.len()),
            forall|j: int| 0 <= j < k ==> window[j] == part[j],
        decreases part.len() - k,
    {
        if text[at + k] != part[k] {
            assert(window[k as int] != part[k as int]);
            return false;
        }
        k = k + 1;
    }
    assert(window =~= part@);
    true
}

pub fn contains_text(text: &str, part: &str) -> (found: bool)
    ensures
        found == contains_seq(text@, part@),
{
    let chars = chars_of(text);
    let wanted = chars_of(part);
    if wanted.len() > chars.len() {
        return false;
    }
    let last: usize = chars.len() - wanted.len();
    let mut at: usize = 0;
    while at <= last
        invariant
            at <= last + 1,
            last + wanted.len() == chars.len(),
            chars@ == text@,
            wanted@ == part@,
            forall|k: int| 0 <= k < at ==> !occurs_at(text@, part@, k),
        decreases last + 1 - at,
    {
        if matches_at(&chars, &wanted, at) {
            return true;
        }
        if at == last {
            assert forall|k: int| !occurs_at(text@, part@, k) by {}
            return false;
        }
        at = at + 1;
    }
    false
}

pub fn starts_with_text(text: &str, part: &str) -> (found: bool)
    ensures
        found == starts_with_seq(text@, part@),
{
    let chars = chars_of(text);
    let wanted = chars_of(part);
    wanted.len() <= chars.len() && matches_at(&chars, &wanted, 0)
}

pub fn ends_with_text(text: &str, part: &str) -> (found: bool)
    ensures
        found == ends_with_seq(text@, part@),
{
    let chars = chars_of(text);
    let wanted = chars_of(part);
    wanted.len() <= chars.len() && matches_at(&chars, &wanted, chars.len() - wanted.len())
}

/// What follows `part` at the beginning of `text`.
pub fn strip_prefix_text(text: &str, part: &str) -> (rest: Option<String>)
    ensures
        match rest {
            Some(rest) => starts_with_seq(text@, part@) && rest@ == text@.skip(part@.len() as int),
            None => !starts_with_seq(text@, part@),
        },
{
    if starts_with_text(text, part) {
        let rest = text.substring_char(part.unicode_len(), text.unicode_len());
        assert(rest@ =~= text@.skip(part@.len() as int));
        Some(rest.to_owned())
    } else {
        None
    }
}

pub fn join2(a: &str, b: &str) -> (r: String)
    ensures
        r@ == a@ + b@,
{
    let mut r: String = a.to_owned();
    r.append(b);
    r
}

pub fn join3(a: &str, b: &str, c: &str) -> (r: String)
    ensures
        r@ == a@ + b@ + c@,
{
    let mut r = join2(a, b);
    r.append(c);
    r
}

pub fn join4(a: &str, b: &str, c: &str, d: &str) -> (r: String)
    ensures
        r@ == a@ + b@ + c@ + d@,
{
    let mut r = join3(a, b, c);
    r.append(d);
    r
}

pub fn join5(a: &str, b: &str, c: &str, d: &str, e: &str) -> (r: String)
    ensures
        r@ == a@ + b@ + c@ + d@ + e@,
{
    let mut r = join4(a, b, c, d);
    r.append(e);
    r
}

/// A copy of an optional text.
pub fn copy_text(text: &Option<String>) -> (r: Option<String>)
    ensures
        r == *text,
{
    match text {
        Some(text) => Some(text.clone()),
        None => None,
    }
}

/// Whether an optional text is present and equal to `other`.
pub fn is_text(text: &Option<String>, other: &str) -> (same: bool)
    ensures
        same == (opt_text(*text) == Some(other@)),
{
    match text {
        Some(text) => same_text(text.as_str(), other),
        None => false,
    }
}

/// Characters that Unicode calls white space, by their numbers.
pub proof fn law_white_space_is_what_unicode_says(c: char)
    ensures
        is_space(c) <==> {
            let n = c as int;
            ||| 0x9 <= n <= 0xd
            ||| n == 0x20 || n == 0x85 || n == 0xa0 || n == 0x1680
            ||| 0x2000 <= n <= 0x200a
            ||| n == 0x2028 || n == 0x2029 || n == 0x202f || n == 0x205f || n == 0x3000
        },
{
}

/// All of a text is white space.
pub open spec fn all_space(s: Seq<char>) -> bool {
    forall|i: int| 0 <= i < s.len() ==> is_space(#[trigger] s[i])
}

proof fn lemma_trim_start(before: Seq<char>, rest: Seq<char>)
    requires
        all_space(before),
        rest.len() > 0 ==> !is_space(rest[0]),
    ensures
        trimmed_start(before + rest) == rest,
    decreases before.len(),
{
    if before.len() > 0 {
        let s = before + rest;
        assert(s[0] == before[0]);
        assert(s.skip(1) =~= before.skip(1) + rest);
        assert forall|i: int| 0 <= i < before.skip(1).len() implies is_space(
            #[trigger] before.skip(1)[i],
        ) by {
            assert(before.skip(1)[i] == before[i + 1]);
        }
        lemma_trim_start(before.skip(1), rest);
    } else {
        assert(before + rest =~= rest);
    }
}

proof fn lemma_trim_end(rest: Seq<char>, after: Seq<char>)
    requires
        all_space(after),
        rest.len() > 0 ==> !is_space(rest[rest.len() - 1]),
    ensures
        trimmed_end(rest + after) == rest,
    decreases after.len(),
{
    if after.len() > 0 {
        let s = rest + after;
        assert(s.last() == after[after.len() - 1]);
        assert(s.drop_last() =~= rest + after.drop_last());
        assert forall|i: int| 0 <= i < after.drop_last().len() implies is_space(
            #[trigger] after.drop_last()[i],
        ) by {
            assert(after.drop_last()[i] == after[i]);
        }
        lemma_trim_end(rest, after.drop_last());
    } else {
        assert(rest + after =~= rest);
    }
}

/// White space around a text is taken off, and nothing else is; of a text that is
/// all white space nothing is left.
pub proof fn law_trimming_takes_off_white_space(
    before: Seq<char>,
    text: Seq<char>,
    after: Seq<char>,
)
    requires
        all_space(before),
        all_space(after),
        text.len() > 0 ==> !is_space(text[0]) && !is_space(text[text.len() - 1]),
    ensures
        trimmed(before + text + after) == text,
{
    if text.len() > 0 {
        assert((text + after)[0] == text[0]);
        assert(before + text + after =~= before + (text + after));
        lemma_trim_start(before, text + after);
        lemma_trim_end(text, after);
    } else {
        let all = before + after;
        assert(before + text + after =~= all + text);
        lemma_trim_start(all, text);
        assert(text + text =~= text);
        lemma_trim_end(text, text);
    }
}

/// A natural number that was written out is read back, with leading zeros or a plus
/// sign as well, as long as it is within the limit; nothing without digits is read.
pub proof fn law_numbers_are_read(n: nat, limit: nat)
    ensures
        parsed_unsigned(natural(n), limit) == if n <= limit {
            Some(n)
        } else {
            None
        },
        parsed_unsigned(seq!['+'] + natural(n), limit) == parsed_unsigned(natural(n), limit),
        parsed_unsigned(two_digits(n), limit) == parsed_unsigned(natural(n), limit),
        parsed_unsigned(seq!['-'] + natural(n), limit) is None,
        parsed_unsigned(Seq::empty(), limit) is None,
        parsed_unsigned(seq!['+'], limit) is None,
{
    lemma_natural_digits(n);
    lemma_two_digits(n);
    assert((seq!['+'] + natural(n)).skip(1) =~= natural(n));
    assert(is_digit(natural(n)[0]));
    assert(is_digit(two_digits(n)[0]));
    assert(two_digits(n).len() > 0);
    let negative = seq!['-'] + natural(n);
    assert(negative[0] == '-');
    assert(!is_digit(negative[0]));
    assert(seq!['+'].skip(1) =~= Seq::<char>::empty());
}

/// A text is made of what stands before a part, that part, and what follows it.
pub open spec fn is_made_of(
    s: Seq<char>,
    before: Seq<char>,
    part: Seq<char>,
    after: Seq<char>,
) -> bool {
    s == before + part + after
}

/// A part stands in a text at a place exactly where the text is made of so many
/// characters, the part, and what follows.
proof fn lemma_occurs_at(s: Seq<char>, part: Seq<char>, at: int)
    requires
        0 <= at,
        at + part.len() <= s.len(),
    ensures
        occurs_at(s, part, at) <==> is_made_of(s, s.take(at), part, s.skip(at + part.len())),
{
    let made = s.take(at) + part + s.skip(at + part.len());
    let inner = s.subrange(at, at + part.len());
    if occurs_at(s, part, at) {
        assert forall|i: int| 0 <= i < s.len() implies s[i] == made[i] by {
            if at <= i < at + part.len() {
                assert(inner[i - at] == s[i]);
            }
        }
        assert(s =~= made);
    }
    if s == made {
        assert forall|i: int| 0 <= i < part.len() implies inner[i] == part[i] by {
            assert(made[at + i] == part[i]);
        }
        assert(inner =~= part);
    }
}

/// A text begins with a part exactly where it is the part and what follows it, and
/// ends with a part exactly where it is what stands before it and the part.
pub proof fn law_prefixes_and_suffixes(s: Seq<char>, part: Seq<char>, rest: Seq<char>)
    ensures
        s == part + rest ==> starts_with_seq(s, part),
        s == rest + part ==> ends_with_seq(s, part),
        starts_with_seq(s, part) ==> is_made_of(
            s,
            Seq::empty(),
            part,
            s.skip(part.len() as int),
        ),
        ends_with_seq(s, part) ==> is_made_of(
            s,
            s.take(s.len() - part.len()),
            part,
            Seq::empty(),
        ),
{
    if s == part + rest {
        lemma_prefix_of_concat(part, rest);
    }
    if s == rest + part {
        lemma_suffix_of_concat(rest, part);
    }
    if starts_with_seq(s, part) {
        lemma_occurs_at(s, part, 0);
        assert(s.take(0) =~= Seq::empty());
    }
    if ends_with_seq(s, part) {
        lemma_occurs_at(s, part, s.len() - part.len());
        assert(s.skip(s.len() as int) =~= Seq::empty());
    }
}

/// A text contains a part exactly where it is made of that part and what stands
/// around it.
pub proof fn law_contained_parts(
    s: Seq<char>,
    before: Seq<char>,
    part: Seq<char>,
    after: Seq<char>,
)
    ensures
        is_made_of(s, before, part, after) ==> contains_seq(s, part),
        contains_seq(s, part) ==> exists|head: Seq<char>, tail: Seq<char>| #[trigger]
            is_made_of(s, head, part, tail),
{
    if is_made_of(s, before, part, after) {
        let at = before.len() as int;
        assert(s.subrange(at, at + part.len()) =~= part);
        assert(occurs_at(s, part, at));
    }
    if contains_seq(s, part) {
        let at = choose|at: int| occurs_at(s, part, at);
        lemma_occurs_at(s, part, at);
    }
}

} // verus!
