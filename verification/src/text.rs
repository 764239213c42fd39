//! Text as sequences of characters: the conversions and comparisons the
//! rest of the crate is built on.

use vstd::prelude::*;
use vstd::std_specs::iter::IteratorSpec;

verus! {

/// `String::push` appends one character to the end of the string.
pub assume_specification[ String::push ](s: &mut String, ch: char)
    ensures
        final(s)@ == old(s)@.push(ch),
;

/// The characters of `s`, in order.
pub fn chars_of(s: &str) -> (r: Vec<char>)
    ensures
        r@ == s@,
{
    let mut out: Vec<char> = Vec::new();
    let it = s.chars();
    for c in iter: it
        invariant
            out@ == iter.seq().take(iter.index()),
            iter.seq() == s@,
    {
        out.push(c);
    }
    out
}

/// The text made of `chars`, in order.
pub fn text_of(chars: &Vec<char>) -> (r: String)
    ensures
        r@ == chars@,
{
    let mut out = String::new();
    let mut i: usize = 0;
    while i < chars.len()
        invariant
            i <= chars.len(),
            out@ == chars@.take(i as int),
        decreases chars.len() - i,
    {
        out.push(chars[i]);
        i += 1;
    }
    out
}

/// Whether two texts hold the same characters.
pub fn same_text(a: &str, b: &str) -> (r: bool)
    ensures
        r == (a@ == b@),
{
    let x = chars_of(a);
    let y = chars_of(b);
    if x.len() != y.len() {
        return false;
    }
    let mut i: usize = 0;
    while i < x.len()
        invariant
            i <= x.len(),
            x.len() == y.len(),
            x@ == a@,
            y@ == b@,
            forall|j: int| 0 <= j < i ==> x@[j] == y@[j],
        decreases x.len() - i,
    {
        if x[i] != y[i] {
            return false;
        }
        i += 1;
    }
    assert(x@ =~= y@);
    true
}

/// The lower-case form of an ASCII capital; any other character itself.
pub open spec fn lower_char(c: char) -> char {
    if 'A' <= c && c <= 'Z' {
        ((c as u8 + 32) as u8) as char
    } else {
        c
    }
}

/// `s` with its ASCII capitals in lower case.
pub open spec fn lower(s: Seq<char>) -> Seq<char> {
    Seq::new(s.len(), |i: int| lower_char(s[i]))
}

/// Whether `s` begins with `prefix`.
pub open spec fn begins_with(s: Seq<char>, prefix: Seq<char>) -> bool {
    prefix.len() <= s.len() && s.take(prefix.len() as int) == prefix
}

/// Whether `c` is an ASCII decimal digit.
pub open spec fn is_digit(c: char) -> bool {
    '0' <= c && c <= '9'
}

/// The number that a run of decimal digits writes.
pub open spec fn digits_value(s: Seq<char>) -> nat
    decreases s.len(),
{
    if s.len() == 0 {
        0
    } else {
        (digits_value(s.drop_last()) * 10 + (s.last() as u8 - 48)) as nat
    }
}

/// Whether `s` is one or more decimal digits.
pub open spec fn is_digits(s: Seq<char>) -> bool {
    s.len() > 0 && forall|i: int| 0 <= i < s.len() ==> is_digit(#[trigger] s[i])
}

/// `s` without one leading `+`.
pub open spec fn unsigned_part(s: Seq<char>) -> Seq<char> {
    if s.len() > 0 && s[0] == '+' {
        s.drop_first()
    } else {
        s
    }
}

/// The count that `s` writes in decimal: digits after an optional `+`, up
/// to the largest 64-bit count.
pub open spec fn decimal(s: Seq<char>) -> Option<u64> {
    let body = unsigned_part(s);
    if is_digits(body) && digits_value(body) <= u64::MAX {
        Some(digits_value(body) as u64)
    } else {
        None
    }
}

/// The whole number that `s` writes in decimal: digits after an optional
/// sign, within the signed 64-bit range.
pub open spec fn integer(s: Seq<char>) -> Option<int> {
    if s.len() > 0 && s[0] == '-' {
        let body = s.drop_first();
        if is_digits(body) && digits_value(body) <= 0x8000_0000_0000_0000 {
            Some(-(digits_value(body) as int))
        } else {
            None
        }
    } else {
        let body = unsigned_part(s);
        if is_digits(body) && digits_value(body) <= 0x7fff_ffff_ffff_ffff {
            Some(digits_value(body) as int)
        } else {
            None
        }
    }
}

/// A longer run of digits writes a number at least as large as any of its
/// prefixes.
pub proof fn lemma_digits_value_grows(s: Seq<char>, n: int)
    requires
        0 <= n <= s.len(),
        forall|i: int| 0 <= i < s.len() ==> is_digit(#[trigger] s[i]),
    ensures
        digits_value(s.take(n)) <= digits_value(s),
    decreases s.len(),
{
    if n < s.len() {
        assert(is_digit(s[s.len() - 1]));
        lemma_digits_value_grows(s.drop_last(), n);
        assert(s.drop_last().take(n) =~= s.take(n));
    } else {
        assert(s.take(n) =~= s);
    }
}

/// The lower-case form of `c`.
pub fn to_lower(c: char) -> (r: char)
    ensures
        r == lower_char(c),
{
    if 'A' <= c && c <= 'Z' {
        ((c as u8) + 32) as char
    } else {
        c
    }
}

/// `chars` with its ASCII capitals in lower case.
pub fn lower_chars(chars: &Vec<char>) -> (r: Vec<char>)
    ensures
        r@ == lower(chars@),
{
    let mut out: Vec<char> = Vec::new();
    let mut i: usize = 0;
    while i < chars.len()
        invariant
            i <= chars.len(),
            out@ == lower(chars@).take(i as int),
        decreases chars.len() - i,
    {
        out.push(to_lower(chars[i]));
        i += 1;
    }
    out
}

/// `s` with its ASCII capitals in lower case.
pub fn lowercase(s: &str) -> (r: String)
    ensures
        r@ == lower(s@),
{
    let chars = chars_of(s);
    let lowered = lower_chars(&chars);
    text_of(&lowered)
}

/// Whether `chars`, read from index `from`, continues with `prefix`.
pub(crate) fn continues_with(chars: &Vec<char>, from: usize, prefix: &Vec<char>) -> (r: bool)
    requires
        from <= chars.len(),
    ensures
        r == begins_with(chars@.skip(from as int), prefix@),
{
    if prefix.len() > chars.len() - from {
        return false;
    }
    let mut i: usize = 0;
    while i < prefix.len()
        invariant
            i <= prefix.len(),
            from <= chars.len(),
            prefix.len() <= chars.len() - from,
            forall|j: int| 0 <= j < i ==> chars@[from + j] == prefix@[j],
        decreases prefix.len() - i,
    {
        if chars[from + i] != prefix[i] {
            assert(chars@.skip(from as int).take(prefix.len() as int)[i as int] != prefix@[i as
                int]);
            return false;
        }
        i += 1;
    }
    assert(chars@.skip(from as int).take(prefix.len() as int) =~= prefix@);
    true
}

/// The number written by the digits of `chars` from index `from` on, when
/// they are digits, at least one, and the number fits.
fn digits_from(chars: &Vec<char>, from: usize) -> (r: Option<u64>)
    requires
        from <= chars.len(),
    ensures
        r == (if is_digits(chars@.skip(from as int)) && digits_value(chars@.skip(from as int))
            <= u64::MAX {
            Some(digits_value(chars@.skip(from as int)) as u64)
        } else {
            None
        }),
{
    let ghost body = chars@.skip(from as int);
    if from == chars.len() {
        return None;
    }
    let mut total: u64 = 0;
    let mut i: usize = from;
    while i < chars.len()
        invariant
            from <= i <= chars.len(),
            body == chars@.skip(from as int),
            forall|j: int| 0 <= j < i - from ==> is_digit(#[trigger] body[j]),
            total == digits_value(body.take(i - from)),
        decreases chars.len() - i,
    {
        let c = chars[i];
        assert(body[i - from] == c);
        if !('0' <= c && c <= '9') {
            return None;
        }
        let digit: u64 = ((c as u8) - 48) as u64;
        proof {
            if is_digits(body) {
                lemma_digits_value_grows(body, i - from + 1);
            }
            assert(body.take(i - from + 1).drop_last() =~= body.take(i - from));
        }
        if total > (u64::MAX - digit) / 10 {
            return None;
        }
        total = total * 10 + digit;
        i += 1;
    }
    assert(body.take(i - from) =~= body);
    Some(total)
}

/// The count that `s` writes in decimal.
pub fn parse_decimal(s: &str) -> (r: Option<u64>)
    ensures
        r == decimal(s@),
{
    let chars = chars_of(s);
    if chars.len() > 0 && chars[0] == '+' {
        assert(chars@.skip(1) =~= s@.drop_first());
        digits_from(&chars, 1)
    } else {
        assert(chars@.skip(0) =~= s@);
        digits_from(&chars, 0)
    }
}

/// The whole number that `s` writes in decimal.
pub fn parse_integer(s: &str) -> (r: Option<i64>)
    ensures
        match integer(s@) {
            Some(n) => r == Some(n as i64) && n as i64 == n,
            None => r is None,
        },
{
    let chars = chars_of(s);
    if chars.len() > 0 && chars[0] == '-' {
        assert(chars@.skip(1) =~= s@.drop_first());
        match digits_from(&chars, 1) {
            Some(n) => {
                if n <= 0x7fff_ffff_ffff_ffff {
                    Some(-(n as i64))
                } else if n == 0x8000_0000_0000_0000 {
                    Some(i64::MIN)
                } else {
                    None
                }
            },
            None => None,
        }
    } else {
        let from: usize = if chars.len() > 0 && chars[0] == '+' {
            1
        } else {
            0
        };
        assert(chars@.skip(from as int) =~= unsigned_part(s@));
        match digits_from(&chars, from) {
            Some(n) => {
                if n <= 0x7fff_ffff_ffff_ffff {
                    Some(n as i64)
                } else {
                    None
                }
            },
            None => None,
        }
    }
}

/// The character that writes the digit `d`.
pub open spec fn digit_char(d: int) -> char {
    ((48 + d) as u8) as char
}

/// A natural number written in decimal, without leading zeros.
pub open spec fn nat_text(n: nat) -> Seq<char>
    decreases n,
{
    if n < 10 {
        seq![digit_char(n as int)]
    } else {
        nat_text(n / 10).push(digit_char((n % 10) as int))
    }
}

/// A whole number written in decimal, with `-` before a negative one.
pub open spec fn int_text(i: int) -> Seq<char> {
    if i < 0 {
        seq!['-'] + nat_text((-i) as nat)
    } else {
        nat_text(i as nat)
    }
}

/// The decimal digits of `n`.
pub fn render_digits(n: u128) -> (r: Vec<char>)
    ensures
        r@ == nat_text(n as nat),
    decreases n,
{
    if n < 10 {
        let mut out: Vec<char> = Vec::new();
        out.push((48 + (n as u8)) as char);
        assert(out@ =~= seq![digit_char(n as int)]);
        out
    } else {
        let mut out = render_digits(n / 10);
        out.push((48 + ((n % 10) as u8)) as char);
        out
    }
}

/// `n` written in decimal.
pub fn render_unsigned(n: u128) -> (r: String)
    ensures
        r@ == int_text(n as int),
{
    let digits = render_digits(n);
    text_of(&digits)
}

/// `i` written in decimal.
pub fn render_signed(i: i128) -> (r: String)
    ensures
        r@ == int_text(i as int),
{
    if i >= 0 {
        render_unsigned(i as u128)
    } else {
        let magnitude: u128 = if i == i128::MIN {
            0x8000_0000_0000_0000_0000_0000_0000_0000
        } else {
            (-i) as u128
        };
        let digits = render_digits(magnitude);
        let mut out: Vec<char> = Vec::new();
        out.push('-');
        let mut k: usize = 0;
        while k < digits.len()
            invariant
                k <= digits.len(),
                out@ == seq!['-'] + digits@.take(k as int),
            decreases digits.len() - k,
        {
            out.push(digits[k]);
            k += 1;
        }
        assert(digits@.take(k as int) =~= digits@);
        text_of(&out)
    }
}

} // verus!
