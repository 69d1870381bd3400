//! Decimal and boolean text: how integers and booleans are written as text
//! and read back from it.

use vstd::prelude::*;

verus! {

/// `String::push` appends one character to the end of the string.
pub assume_specification[ String::push ](s: &mut String, c: char)
    ensures
        final(s)@ == old(s)@.push(c),
;

/// Whether `c` is one of the ten ASCII digits.
pub open spec fn is_digit(c: char) -> bool {
    48 <= c as u32 <= 57
}

/// The number a digit stands for.
pub open spec fn digit_value(c: char) -> nat
    recommends
        is_digit(c),
{
    (c as u32 - 48) as nat
}

/// The digit that stands for `d`.
pub open spec fn digit_char(d: nat) -> char
    recommends
        d < 10,
{
    ((48 + d) as u8) as char
}

/// The decimal digits of `n`, most significant first, without leading zeros.
pub open spec fn decimal_digits(n: nat) -> Seq<char>
    decreases n,
{
    if n < 10 {
        seq![digit_char(n)]
    } else {
        decimal_digits(n / 10).push(digit_char(n % 10))
    }
}

/// The canonical text of an integer: its decimal digits, behind a minus
/// sign when it is negative.
pub open spec fn int_text(i: int) -> Seq<char> {
    if i < 0 {
        seq!['-'] + decimal_digits((-i) as nat)
    } else {
        decimal_digits(i as nat)
    }
}

/// The number that a run of digits spells.
pub open spec fn digits_value(s: Seq<char>) -> nat
    decreases s.len(),
{
    if s.len() == 0 {
        0
    } else {
        digits_value(s.drop_last()) * 10 + digit_value(s.last())
    }
}

/// Whether `s` is a non-empty run of ASCII digits.
pub open spec fn is_digits(s: Seq<char>) -> bool {
    s.len() > 0 && forall|i: int| 0 <= i < s.len() ==> is_digit(#[trigger] s[i])
}

/// The integer that `s` spells, if it spells one: an optional `+` or `-`
/// followed by one or more ASCII digits and nothing else.
pub open spec fn parsed_int(s: Seq<char>) -> Option<int> {
    if s.len() > 0 && s[0] == '-' {
        if is_digits(s.skip(1)) {
            Some(-(digits_value(s.skip(1)) as int))
        } else {
            None
        }
    } else if s.len() > 0 && s[0] == '+' {
        if is_digits(s.skip(1)) {
            Some(digits_value(s.skip(1)) as int)
        } else {
            None
        }
    } else if is_digits(s) {
        Some(digits_value(s) as int)
    } else {
        None
    }
}

/// The 64-bit signed integer that `s` spells: `parsed_int`, where the
/// number fits.
pub open spec fn parsed_i64(s: Seq<char>) -> Option<i64> {
    match parsed_int(s) {
        Some(v) => if i64::MIN <= v <= i64::MAX {
            Some(v as i64)
        } else {
            None
        },
        None => None,
    }
}

/// The text of a boolean.
pub open spec fn bool_text(b: bool) -> Seq<char> {
    if b {
        seq!['t', 'r', 'u', 'e']
    } else {
        seq!['f', 'a', 'l', 's', 'e']
    }
}

/// The boolean that `s` spells, if it is exactly one of the two texts.
pub open spec fn parsed_bool(s: Seq<char>) -> Option<bool> {
    if s == bool_text(true) {
        Some(true)
    } else if s == bool_text(false) {
        Some(false)
    } else {
        None
    }
}

/// What a run of digits spells is at least what any prefix of it spells.
proof fn lemma_prefix_spells_less(s: Seq<char>, k: int)
    requires
        0 <= k <= s.len(),
    ensures
        digits_value(s.subrange(0, k)) <= digits_value(s),
    decreases s.len(),
{
    if k == s.len() {
        assert(s.subrange(0, k) =~= s);
    } else {
        lemma_prefix_spells_less(s.drop_last(), k);
        assert(s.drop_last().subrange(0, k) =~= s.subrange(0, k));
    }
}

/// The decimal digits of a number are digits and spell the number.
pub proof fn lemma_decimal_digits_spell(n: nat)
    ensures
        is_digits(decimal_digits(n)),
        digits_value(decimal_digits(n)) == n,
    decreases n,
{
    if n < 10 {
        let s = decimal_digits(n);
        assert(s.drop_last() =~= Seq::<char>::empty());
        assert(digits_value(s.drop_last()) == 0);
    } else {
        lemma_decimal_digits_spell(n / 10);
        let s = decimal_digits(n);
        assert(s.drop_last() =~= decimal_digits(n / 10));
    }
}

/// Reading back the canonical text of an integer gives the integer.
pub proof fn lemma_int_text_reads_back(i: int)
    ensures
        parsed_int(int_text(i)) == Some(i),
        i64::MIN <= i <= i64::MAX ==> parsed_i64(int_text(i)) == Some(i as i64),
{
    if i < 0 {
        let d = decimal_digits((-i) as nat);
        lemma_decimal_digits_spell((-i) as nat);
        assert(int_text(i).skip(1) =~= d);
    } else {
        lemma_decimal_digits_spell(i as nat);
        let d = decimal_digits(i as nat);
        assert(is_digit(d[0]));
    }
}

/// Reading back the text of a boolean gives the boolean.
pub proof fn lemma_bool_text_reads_back(b: bool)
    ensures
        parsed_bool(bool_text(b)) == Some(b),
{
    assert(bool_text(true).len() != bool_text(false).len());
}

/// Different numbers have different decimal digits.
pub proof fn lemma_decimal_digits_differ(m: nat, n: nat)
    requires
        m != n,
    ensures
        decimal_digits(m) != decimal_digits(n),
{
    lemma_decimal_digits_spell(m);
    lemma_decimal_digits_spell(n);
}

/// The digit that stands for `d`.
fn digit_of(d: u64) -> (c: char)
    requires
        d < 10,
    ensures
        c == digit_char(d as nat),
{
    let b: u8 = 48 + d as u8;
    b as char
}

/// Appends the decimal digits of `n` to `out`.
fn push_decimal(n: u64, out: &mut String)
    ensures
        final(out)@ == old(out)@ + decimal_digits(n as nat),
    decreases n,
{
    if n >= 10 {
        push_decimal(n / 10, out);
    }
    out.push(digit_of(n % 10));
}

/// Writes `n` in decimal.
pub fn format_unsigned(n: u64) -> (text: String)
    ensures
        text@ == decimal_digits(n as nat),
{
    let mut text = String::new();
    push_decimal(n, &mut text);
    text
}

/// Writes `i` in its canonical text.
pub fn format_int(i: i64) -> (text: String)
    ensures
        text@ == int_text(i as int),
{
    let mut text = String::new();
    if i < 0 {
        text.push('-');
        let magnitude: u64 = (-(i + 1)) as u64 + 1;
        push_decimal(magnitude, &mut text);
    } else {
        push_decimal(i as u64, &mut text);
    }
    text
}

/// Reads a 64-bit signed integer: an optional sign, then digits only.  Text
/// that is empty, holds anything else, or spells a number out of range reads
/// as nothing.
pub fn parse_int(s: &str) -> (r: Option<i64>)
    ensures
        r == parsed_i64(s@),
{
    let n = s.unicode_len();
    if n == 0 {
        return None;
    }
    let first = s.get_char(0);
    let negative = first == '-';
    let start: usize = if first == '-' || first == '+' {
        1
    } else {
        0
    };
    let ghost body = s@.skip(start as int);
    if start == n {
        return None;
    }
    let limit: u64 = if negative {
        9223372036854775808
    } else {
        9223372036854775807
    };
    let mut magnitude: u64 = 0;
    let mut i: usize = start;
    assert(body.subrange(0, 0) =~= Seq::<char>::empty());
    assert(start == 0 ==> body =~= s@);
    while i < n
        invariant
            start <= i <= n,
            n == s@.len(),
            body == s@.skip(start as int),
            start == 0 ==> body == s@,
            forall|k: int| 0 <= k < i - start ==> is_digit(#[trigger] body[k]),
            magnitude == digits_value(body.subrange(0, i - start)),
            magnitude <= limit,
            negative == (s@[0] == '-'),
            start == (if s@[0] == '-' || s@[0] == '+' { 1int } else { 0int }),
            limit == (if negative { 9223372036854775808u64 } else { 9223372036854775807u64 }),
        decreases n - i,
    {
        let c = s.get_char(i);
        let code: u32 = c as u32;
        if code < 48 || code > 57 {
            assert(!is_digit(body[i - start]));
            return None;
        }
        let d: u64 = (code - 48) as u64;
        proof {
            assert(body.subrange(0, i - start + 1).drop_last() =~= body.subrange(0, i - start));
            assert(digits_value(body.subrange(0, i - start + 1)) == magnitude * 10 + d);
        }
        if magnitude > (limit - d) / 10 {
            proof {
                lemma_prefix_spells_less(body, i - start + 1);
            }
            return None;
        }
        magnitude = magnitude * 10 + d;
        i += 1;
    }
    assert(body.subrange(0, n - start) =~= body);
    assert(is_digits(body));
    if negative {
        if magnitude == 9223372036854775808 {
            Some(i64::MIN)
        } else {
            Some(-(magnitude as i64))
        }
    } else {
        Some(magnitude as i64)
    }
}

/// Writes a boolean as `true` or `false`.
pub fn format_bool(b: bool) -> (text: String)
    ensures
        text@ == bool_text(b),
{
    let mut text = String::new();
    if b {
        text.push('t');
        text.push('r');
        text.push('u');
        text.push('e');
    } else {
        text.push('f');
        text.push('a');
        text.push('l');
        text.push('s');
        text.push('e');
    }
    assert(text@ =~= bool_text(b));
    text
}

/// Reads a boolean: exactly `true` or `false`, anything else reads as
/// nothing.
pub fn parse_bool(s: &str) -> (r: Option<bool>)
    ensures
        r == parsed_bool(s@),
{
    let n = s.unicode_len();
    if n == 4 && s.get_char(0) == 't' && s.get_char(1) == 'r' && s.get_char(2) == 'u'
        && s.get_char(3) == 'e' {
        assert(s@ =~= bool_text(true));
        Some(true)
    } else if n == 5 && s.get_char(0) == 'f' && s.get_char(1) == 'a' && s.get_char(2) == 'l'
        && s.get_char(3) == 's' && s.get_char(4) == 'e' {
        assert(s@ =~= bool_text(false));
        Some(false)
    } else {
        None
    }
}

} // verus!
