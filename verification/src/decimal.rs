//! Decimal integers as text: what a device file holds and what is written to
//! one.
//!
//! A number is an optional sign followed by at least one ASCII digit. Leading
//! zeros are allowed; nothing else is, not even surrounding blanks, which
//! `trim` removes first where a file may end in a newline.

use vstd::prelude::*;
use vstd::string::StringExecFns;

verus! {

/// `c` is one of the ASCII digits `0` to `9`.
pub open spec fn is_digit(c: char) -> bool {
    0x30 <= c as u32 <= 0x39
}

/// The number that the digit `c` stands for.
pub open spec fn digit_value(c: char) -> nat
    recommends
        is_digit(c),
{
    (c as u32 - 0x30) as nat
}

/// The digit that stands for `d`.
pub open spec fn digit_char(d: nat) -> char
    recommends
        d < 10,
{
    ((d + 0x30) as u8) as char
}

/// Every character of `s` is a digit.
pub open spec fn all_digits(s: Seq<char>) -> bool {
    forall|i: int| 0 <= i < s.len() ==> is_digit(#[trigger] s[i])
}

/// The number that a run of digits stands for, most significant digit first.
/// The empty run stands for zero.
pub open spec fn digits_value(s: Seq<char>) -> nat
    decreases s.len(),
{
    if s.len() == 0 {
        0
    } else {
        digits_value(s.drop_last()) * 10 + digit_value(s.last())
    }
}

/// The integer that `s` is the text of, if it is one: an optional `+`, or `-`
/// where `signed`, and then one digit or more.
pub open spec fn decimal_value(s: Seq<char>, signed: bool) -> Option<int> {
    if s.len() == 0 {
        None
    } else if s[0] == '+' || (signed && s[0] == '-') {
        let body = s.subrange(1, s.len() as int);
        if body.len() > 0 && all_digits(body) {
            Some(
                if s[0] == '-' {
                    -(digits_value(body) as int)
                } else {
                    digits_value(body) as int
                },
            )
        } else {
            None
        }
    } else if all_digits(s) {
        Some(digits_value(s) as int)
    } else {
        None
    }
}

/// The `i32` that `s` is the text of: a signed decimal that fits in 32 bits.
pub open spec fn parse_i32_spec(s: Seq<char>) -> Option<i32> {
    match decimal_value(s, true) {
        Some(v) => if i32::MIN <= v <= i32::MAX {
            Some(v as i32)
        } else {
            None
        },
        None => None,
    }
}

/// The `u32` that `s` is the text of: a decimal without a minus sign that fits
/// in 32 bits.
pub open spec fn parse_u32_spec(s: Seq<char>) -> Option<u32> {
    match decimal_value(s, false) {
        Some(v) => if v <= u32::MAX {
            Some(v as u32)
        } else {
            None
        },
        None => None,
    }
}

/// `c` is a blank: a character with Unicode's `White_Space` property.
pub open spec fn is_whitespace(c: char) -> bool {
    let u = c as u32;
    ||| 0x09 <= u <= 0x0D
    ||| u == 0x20
    ||| u == 0x85
    ||| u == 0xA0
    ||| u == 0x1680
    ||| 0x2000 <= u <= 0x200A
    ||| u == 0x2028
    ||| u == 0x2029
    ||| u == 0x202F
    ||| u == 0x205F
    ||| u == 0x3000
}

/// `s` without the blanks it starts with.
pub open spec fn trim_start(s: Seq<char>) -> Seq<char>
    decreases s.len(),
{
    if s.len() > 0 && is_whitespace(s[0]) {
        trim_start(s.drop_first())
    } else {
        s
    }
}

/// `s` without the blanks it ends with.
pub open spec fn trim_end(s: Seq<char>) -> Seq<char>
    decreases s.len(),
{
    if s.len() > 0 && is_whitespace(s.last()) {
        trim_end(s.drop_last())
    } else {
        s
    }
}

/// `s` without the blanks at either end.
pub open spec fn trim(s: Seq<char>) -> Seq<char> {
    trim_end(trim_start(s))
}

/// The digits of `n`, most significant first, without leading zeros.
pub open spec fn decimal_digits(n: nat) -> Seq<char>
    decreases n,
{
    if n < 10 {
        seq![digit_char(n)]
    } else {
        decimal_digits(n / 10).push(digit_char(n % 10))
    }
}

/// The text of `v`: its digits, after a `-` where it is negative.
pub open spec fn decimal_text(v: int) -> Seq<char> {
    if v < 0 {
        seq!['-'] + decimal_digits((-v) as nat)
    } else {
        decimal_digits(v as nat)
    }
}

/// Tells whether `c` is a blank.
pub fn char_is_whitespace(c: char) -> (b: bool)
    ensures
        b == is_whitespace(c),
{
    let u: u32 = c as u32;
    (0x09 <= u && u <= 0x0D) || u == 0x20 || u == 0x85 || u == 0xA0 || u == 0x1680 || (0x2000 <= u
        && u <= 0x200A) || u == 0x2028 || u == 0x2029 || u == 0x202F || u == 0x205F || u == 0x3000
}

/// The characters of `s`, one element each.
pub fn chars_of(s: &str) -> (v: Vec<char>)
    ensures
        v@ == s@,
{
    let mut v: Vec<char> = Vec::new();
    for c in it: s.chars()
        invariant
            v@ == it.seq().take(it.index() as int),
            it.seq() == s@,
    {
        v.push(c);
    }
    v
}

/// Appending a digit to a run multiplies its value by ten and adds the digit.
proof fn lemma_digits_value_extend(s: Seq<char>, from: int, to: int)
    requires
        0 <= from <= to < s.len(),
    ensures
        digits_value(s.subrange(from, to + 1)) == digits_value(s.subrange(from, to)) * 10
            + digit_value(s[to]),
{
    let longer = s.subrange(from, to + 1);
    assert(longer.drop_last() =~= s.subrange(from, to));
    assert(longer.last() == s[to]);
}

/// The value of the digits `chars[start..end]`, where that is a run of at
/// least one digit whose value fits in 32 bits.
fn parse_digits(chars: &Vec<char>, start: usize, end: usize) -> (r: Option<u32>)
    requires
        start <= end <= chars.len(),
    ensures
        r == ({
            let run = chars@.subrange(start as int, end as int);
            if run.len() > 0 && all_digits(run) && digits_value(run) <= u32::MAX {
                Some(digits_value(run) as u32)
            } else {
                None
            }
        }),
{
    let ghost run = chars@.subrange(start as int, end as int);
    let mut acc: u64 = 0;
    let mut over: bool = false;
    let mut i: usize = start;
    while i < end
        invariant
            start <= i <= end <= chars.len(),
            run == chars@.subrange(start as int, end as int),
            all_digits(chars@.subrange(start as int, i as int)),
            !over ==> acc == digits_value(chars@.subrange(start as int, i as int)) && acc
                <= u32::MAX,
            over ==> digits_value(chars@.subrange(start as int, i as int)) > u32::MAX,
        decreases end - i,
    {
        let c: char = chars[i];
        let u: u32 = c as u32;
        if u < 0x30 || u > 0x39 {
            assert(run[i - start] == c);
            return None;
        }
        proof {
            lemma_digits_value_extend(chars@, start as int, i as int);
            let seen = chars@.subrange(start as int, i as int);
            let next = chars@.subrange(start as int, i + 1);
            assert forall|k: int| 0 <= k < next.len() implies is_digit(#[trigger] next[k]) by {
                if k < seen.len() {
                    assert(next[k] == seen[k]);
                }
            }
        }
        if !over {
            let next: u64 = acc * 10 + (u - 0x30) as u64;
            if next > 0xFFFF_FFFF {
                over = true;
            } else {
                acc = next;
            }
        }
        i = i + 1;
    }
    assert(chars@.subrange(start as int, i as int) == run);
    if start == end || over {
        None
    } else {
        Some(acc as u32)
    }
}

/// The signed number that `chars[start..end]` is the text of.
fn parse_signed(chars: &Vec<char>, start: usize, end: usize) -> (r: Option<i32>)
    requires
        start <= end <= chars.len(),
    ensures
        r == parse_i32_spec(chars@.subrange(start as int, end as int)),
{
    if start == end {
        return None;
    }
    let ghost s = chars@.subrange(start as int, end as int);
    assert(s.subrange(1, s.len() as int) =~= chars@.subrange(start + 1, end as int));
    let first: char = chars[start];
    assert(s[0] == first);
    if first == '+' {
        match parse_digits(chars, start + 1, end) {
            Some(m) => if m <= 0x7FFF_FFFF {
                Some(m as i32)
            } else {
                None
            },
            None => None,
        }
    } else if first == '-' {
        match parse_digits(chars, start + 1, end) {
            Some(m) => if m <= 0x8000_0000 {
                Some((-(m as i64)) as i32)
            } else {
                None
            },
            None => None,
        }
    } else {
        assert(chars@.subrange(start as int, end as int) == s);
        match parse_digits(chars, start, end) {
            Some(m) => if m <= 0x7FFF_FFFF {
                Some(m as i32)
            } else {
                None
            },
            None => None,
        }
    }
}

/// The unsigned number that `chars[start..end]` is the text of.
fn parse_unsigned(chars: &Vec<char>, start: usize, end: usize) -> (r: Option<u32>)
    requires
        start <= end <= chars.len(),
    ensures
        r == parse_u32_spec(chars@.subrange(start as int, end as int)),
{
    if start == end {
        return None;
    }
    let ghost s = chars@.subrange(start as int, end as int);
    assert(s.subrange(1, s.len() as int) =~= chars@.subrange(start + 1, end as int));
    let first: char = chars[start];
    assert(s[0] == first);
    if first == '+' {
        parse_digits(chars, start + 1, end)
    } else {
        parse_digits(chars, start, end)
    }
}

/// Where `chars` without the blanks at either end starts and ends.
fn trim_bounds(chars: &Vec<char>) -> (r: (usize, usize))
    ensures
        r.0 <= r.1 <= chars.len(),
        chars@.subrange(r.0 as int, r.1 as int) == trim(chars@),
{
    let len: usize = chars.len();
    let mut start: usize = 0;
    assert(chars@.subrange(0, len as int) =~= chars@);
    while start < len && char_is_whitespace(chars[start])
        invariant
            start <= len == chars.len(),
            trim_start(chars@) == trim_start(chars@.subrange(start as int, len as int)),
        decreases len - start,
    {
        assert(chars@.subrange(start as int, len as int).drop_first() =~= chars@.subrange(
            start + 1,
            len as int,
        ));
        start = start + 1;
    }
    assert(trim_start(chars@) == chars@.subrange(start as int, len as int));
    let mut end: usize = len;
    while end > start && char_is_whitespace(chars[end - 1])
        invariant
            start <= end <= len == chars.len(),
            trim(chars@) == trim_end(chars@.subrange(start as int, end as int)),
        decreases end - start,
    {
        assert(chars@.subrange(start as int, end as int).drop_last() =~= chars@.subrange(
            start as int,
            end - 1,
        ));
        end = end - 1;
    }
    (start, end)
}

/// Reads `s` as a signed decimal: `Some` of its value where `s` is an optional
/// sign and then digits that give a number of 32 bits, else `None`.
pub fn parse_i32(s: &str) -> (r: Option<i32>)
    ensures
        r == parse_i32_spec(s@),
{
    let chars = chars_of(s);
    assert(chars@.subrange(0, chars.len() as int) =~= s@);
    parse_signed(&chars, 0, chars.len())
}

/// Reads `s` as a decimal without a minus sign: `Some` of its value where `s`
/// is an optional `+` and then digits that give a number of 32 bits, else
/// `None`.
pub fn parse_u32(s: &str) -> (r: Option<u32>)
    ensures
        r == parse_u32_spec(s@),
{
    let chars = chars_of(s);
    assert(chars@.subrange(0, chars.len() as int) =~= s@);
    parse_unsigned(&chars, 0, chars.len())
}

/// Reads `s` as a signed decimal after the blanks at either end are taken
/// away.
pub fn parse_trimmed_i32(s: &str) -> (r: Option<i32>)
    ensures
        r == parse_i32_spec(trim(s@)),
{
    let chars = chars_of(s);
    let (start, end) = trim_bounds(&chars);
    parse_signed(&chars, start, end)
}

/// The one-character text of the digit `d`.
fn digit_str(d: u32) -> (r: &'static str)
    requires
        d < 10,
    ensures
        r@ == seq![digit_char(d as nat)],
{
    proof {
        reveal_strlit("0");
        reveal_strlit("1");
        reveal_strlit("2");
        reveal_strlit("3");
        reveal_strlit("4");
        reveal_strlit("5");
        reveal_strlit("6");
        reveal_strlit("7");
        reveal_strlit("8");
        reveal_strlit("9");
    }
    let r = if d == 0 {
        "0"
    } else if d == 1 {
        "1"
    } else if d == 2 {
        "2"
    } else if d == 3 {
        "3"
    } else if d == 4 {
        "4"
    } else if d == 5 {
        "5"
    } else if d == 6 {
        "6"
    } else if d == 7 {
        "7"
    } else if d == 8 {
        "8"
    } else {
        "9"
    };
    assert(r@ =~= seq![digit_char(d as nat)]);
    r
}

/// Appends the digits of `n` to `out`.
fn push_digits(n: u32, out: &mut String)
    ensures
        final(out)@ == old(out)@ + decimal_digits(n as nat),
    decreases n,
{
    if n >= 10 {
        push_digits(n / 10, out);
    }
    out.append(digit_str(n % 10));
    assert(final(out)@ =~= old(out)@ + decimal_digits(n as nat));
}

/// Writes `v` out in decimal: the text that `parse_i32` reads back as `v`.
pub fn render_i32(v: i32) -> (text: String)
    ensures
        text@ == decimal_text(v as int),
{
    let mut text = String::new();
    if v < 0 {
        proof {
            reveal_strlit("-");
        }
        text.append("-");
        assert(text@ =~= seq!['-']);
        push_digits((-(v as i64)) as u32, &mut text);
    } else {
        push_digits(v as u32, &mut text);
    }
    assert(text@ =~= decimal_text(v as int));
    text
}

/// Writes `v` out in decimal: the text that `parse_u32` reads back as `v`.
pub fn render_u32(v: u32) -> (text: String)
    ensures
        text@ == decimal_text(v as int),
{
    let mut text = String::new();
    push_digits(v, &mut text);
    assert(text@ =~= decimal_text(v as int));
    text
}

/// The digits of a number are digits, there is at least one, and their value
/// is the number.
pub proof fn lemma_digits_round_trip(n: nat)
    ensures
        decimal_digits(n).len() > 0,
        all_digits(decimal_digits(n)),
        digits_value(decimal_digits(n)) == n,
    decreases n,
{
    let text = decimal_digits(n);
    if n < 10 {
        assert(text.drop_last() =~= Seq::<char>::empty());
        assert(digits_value(text.drop_last()) == 0);
        assert(text.last() == digit_char(n));
    } else {
        lemma_digits_round_trip(n / 10);
        let front = decimal_digits(n / 10);
        assert(text.drop_last() =~= front);
        assert(text.last() == digit_char(n % 10));
        assert forall|i: int| 0 <= i < text.len() implies is_digit(#[trigger] text[i]) by {
            if i < front.len() {
                assert(text[i] == front[i]);
            }
        }
    }
}

/// Reading back what was written gives the number that was written: the text
/// of `v` has no blank at either end, and is the text of `v` alone.
pub proof fn lemma_text_round_trip(v: int)
    ensures
        trim(decimal_text(v)) == decimal_text(v),
        decimal_value(decimal_text(v), true) == Some(v),
        v >= 0 ==> decimal_value(decimal_text(v), false) == Some(v),
{
    let text = decimal_text(v);
    if v < 0 {
        let digits = decimal_digits((-v) as nat);
        lemma_digits_round_trip((-v) as nat);
        assert(text.subrange(1, text.len() as int) =~= digits);
        assert(text[0] == '-');
        assert(text.last() == digits.last());
        assert(is_digit(digits[digits.len() - 1]));
    } else {
        lemma_digits_round_trip(v as nat);
        assert(is_digit(text[0]));
        assert(is_digit(text[text.len() - 1]));
    }
}

/// A 32-bit number that is written and read again is the same number.
pub proof fn lemma_render_then_parse(v: i32)
    ensures
        parse_i32_spec(trim(decimal_text(v as int))) == Some(v),
        parse_i32_spec(decimal_text(v as int)) == Some(v),
{
    lemma_text_round_trip(v as int);
}

/// A 32-bit number without sign that is written and read again is the same
/// number.
pub proof fn lemma_render_then_parse_unsigned(v: u32)
    ensures
        parse_u32_spec(decimal_text(v as int)) == Some(v),
{
    lemma_text_round_trip(v as int);
}

} // verus!
