//! Decimal text of integers, both ways: the digits that `Display` writes
//! for an integer, and the `FromStr` parse of an unsigned integer.

use vstd::prelude::*;

verus! {

/// The character of the decimal digit `d`.
pub open spec fn digit_char(d: int) -> char {
    (d + 48) as char
}

/// Whether `c` is an ASCII decimal digit.
pub open spec fn is_digit(c: char) -> bool {
    48 <= (c as int) <= 57
}

/// The value of the ASCII decimal digit `c`.
pub open spec fn digit_value(c: char) -> nat {
    ((c as int) - 48) as nat
}

pub(crate) fn digit_str(d: u64) -> (s: &'static str)
    requires
        d < 10,
    ensures
        s@ == seq![digit_char(d as int)],
{
    proof {
        assert('0' as int == 48);
    }
    match d {
        0 => { proof { reveal_strlit("0"); } "0" },
        1 => { proof { reveal_strlit("1"); } "1" },
        2 => { proof { reveal_strlit("2"); } "2" },
        3 => { proof { reveal_strlit("3"); } "3" },
        4 => { proof { reveal_strlit("4"); } "4" },
        5 => { proof { reveal_strlit("5"); } "5" },
        6 => { proof { reveal_strlit("6"); } "6" },
        7 => { proof { reveal_strlit("7"); } "7" },
        8 => { proof { reveal_strlit("8"); } "8" },
        _ => { proof { reveal_strlit("9"); } "9" },
    }
}


/// The decimal digits of `n`, most significant first, without leading zeros.
pub open spec fn decimal(n: nat) -> Seq<char>
    decreases n,
{
    if n < 10 {
        seq![digit_char(n as int)]
    } else {
        decimal(n / 10).push(digit_char((n % 10) as int))
    }
}

/// The text that `Display` writes for the integer `i`: a minus sign for a
/// negative number, then the digits of its magnitude.
pub open spec fn signed_decimal(i: int) -> Seq<char> {
    if i < 0 {
        seq!['-'] + decimal((-i) as nat)
    } else {
        decimal(i as nat)
    }
}

/// Appends the decimal digits of `n` to `s`.
fn append_decimal(s: &mut String, n: u64)
    ensures
        final(s)@ == old(s)@ + decimal(n as nat),
    decreases n,
{
    if n >= 10 {
        append_decimal(s, n / 10);
    }
    s.append(digit_str(n % 10));
}

/// The decimal text of `n`, as `n.to_string()` writes it.
pub fn u64_to_decimal(n: u64) -> (s: String)
    ensures
        s@ == decimal(n as nat),
{
    let mut s = String::new();
    append_decimal(&mut s, n);
    s
}

/// The decimal text of `i`, as `i.to_string()` writes it.
pub fn i32_to_decimal(i: i32) -> (s: String)
    ensures
        s@ == signed_decimal(i as int),
{
    let mut s = String::new();
    if i < 0 {
        proof { reveal_strlit("-"); }
        s.append("-");
        let magnitude: i64 = -(i as i64);
        append_decimal(&mut s, magnitude as u64);
    } else {
        append_decimal(&mut s, i as u64);
    }
    s
}

/// The number that the decimal digits `s` stand for.
pub open spec fn digits_value(s: Seq<char>) -> nat
    decreases s.len(),
{
    if s.len() == 0 {
        0
    } else {
        digits_value(s.drop_last()) * 10 + digit_value(s.last())
    }
}

/// Whether every character of `s` is a decimal digit.
pub open spec fn all_digits(s: Seq<char>) -> bool {
    forall|i: int| 0 <= i < s.len() ==> #[trigger] is_digit(s[i])
}

/// The digits of an unsigned number's text: the text without one leading `+`.
pub open spec fn unsigned_body(s: Seq<char>) -> Seq<char> {
    if s.len() > 0 && s[0] == '+' {
        s.drop_first()
    } else {
        s
    }
}

/// What `str::parse::<u64>` gives for `s`: an optional `+` followed by one or
/// more decimal digits whose value fits in a `u64`; anything else is refused.
pub open spec fn parse_u64_spec(s: Seq<char>) -> Option<u64> {
    let body = unsigned_body(s);
    if body.len() > 0 && all_digits(body) && digits_value(body) <= u64::MAX {
        Some(digits_value(body) as u64)
    } else {
        None
    }
}

proof fn lemma_digits_value_prefix_monotone(s: Seq<char>, k: int)
    requires
        0 <= k <= s.len(),
    ensures
        digits_value(s.take(k)) <= digits_value(s),
    decreases s.len() - k,
{
    if k < s.len() {
        lemma_digits_value_prefix_monotone(s, k + 1);
        assert(s.take(k + 1).drop_last() =~= s.take(k));
    } else {
        assert(s.take(k) =~= s);
    }
}

/// Parses `text` as `str::parse::<u64>` does.
pub fn parse_u64(text: &str) -> (r: Option<u64>)
    ensures
        r == parse_u64_spec(text@),
{
    let len = text.unicode_len();
    let ghost s = text@;
    if len == 0 {
        return None;
    }
    let mut start: usize = 0;
    if text.get_char(0) == '+' {
        start = 1;
    }
    let ghost body = unsigned_body(s);
    assert(body =~= s.subrange(start as int, s.len() as int));
    if start == len {
        return None;
    }
    let mut acc: u64 = 0;
    let mut i: usize = start;
    while i < len
        invariant
            s == text@,
            len == s.len(),
            start <= i <= len,
            start < len,
            body == s.subrange(start as int, len as int),
            body == unsigned_body(s),
            acc as nat == digits_value(body.take(i - start)),
            forall|j: int| 0 <= j < i - start ==> #[trigger] is_digit(body[j]),
        decreases len - i,
    {
        let c = text.get_char(i);
        assert(c == body[i - start]);
        assert(body.take(i - start + 1).drop_last() =~= body.take(i - start));
        if !('0' <= c && c <= '9') {
            proof {
                assert('0' as int == 48 && '9' as int == 57);
                assert(!is_digit(body[i - start]));
            }
            return None;
        }
        proof { assert('0' as int == 48 && '9' as int == 57); }
        let d: u64 = (c as u32 - 48) as u64;
        assert(digits_value(body.take(i - start + 1)) == acc * 10 + d);
        match acc.checked_mul(10) {
            None => {
                proof {
                    lemma_digits_value_prefix_monotone(body, i - start + 1);
                    assert(digits_value(body) > u64::MAX);
                }
                return None;
            }
            Some(t) => match t.checked_add(d) {
                None => {
                    proof {
                        lemma_digits_value_prefix_monotone(body, i - start + 1);
                    }
                    return None;
                }
                Some(v) => {
                    acc = v;
                }
            },
        }
        i = i + 1;
    }
    assert(body.take(len - start) =~= body);
    Some(acc)
}

pub(crate) proof fn lemma_decimal_parses(n: nat)
    ensures
        decimal(n).len() > 0,
        all_digits(decimal(n)),
        digits_value(decimal(n)) == n,
    decreases n,
{
    if n >= 10 {
        lemma_decimal_parses(n / 10);
        let d = decimal(n);
        assert(d.drop_last() =~= decimal(n / 10));
        assert(digit_value(digit_char((n % 10) as int)) == n % 10);
        assert(d.last() == digit_char((n % 10) as int));
        assert(digits_value(d) == digits_value(decimal(n / 10)) * 10 + n % 10);
        assert(n == (n / 10) * 10 + n % 10);
        assert forall|i: int| 0 <= i < d.len() implies #[trigger] is_digit(d[i]) by {
            if i < d.len() - 1 {
                assert(d[i] == decimal(n / 10)[i]);
            }
        }
    } else {
        assert(decimal(n).drop_last() =~= Seq::<char>::empty());
        assert(digit_value(digit_char(n as int)) == n);
        assert(digits_value(Seq::<char>::empty()) == 0);
        assert(decimal(n).last() == digit_char(n as int));
        assert(digits_value(decimal(n)) == n);
    }
}

/// Reading back the text that `u64_to_decimal` writes gives the number again.
pub proof fn law_decimal_round_trip(n: u64)
    ensures
        parse_u64_spec(decimal(n as nat)) == Some(n),
{
    lemma_decimal_parses(n as nat);
    let d = decimal(n as nat);
    assert(is_digit(d[0]));
    assert('+' as int == 43);
    assert(unsigned_body(d) == d);
}


/// The text of an integer is its magnitude's digits, after a minus sign exactly
/// when the integer is negative.
pub proof fn law_signed_decimal_value(i: int)
    ensures
        i < 0 ==> signed_decimal(i)[0] == '-' && all_digits(signed_decimal(i).drop_first()) && digits_value(
            signed_decimal(i).drop_first(),
        ) == -i,
        i >= 0 ==> signed_decimal(i).len() > 0 && all_digits(signed_decimal(i)) && digits_value(
            signed_decimal(i),
        ) == i,
{
    if i < 0 {
        lemma_decimal_parses((-i) as nat);
        assert(signed_decimal(i).drop_first() =~= decimal((-i) as nat));
    } else {
        lemma_decimal_parses(i as nat);
    }
}

/// A `+` in front and zeros in front do not change the number read; a text
/// with a character that is neither a digit nor a leading `+`, or with no
/// digit at all, is refused.
pub proof fn law_parse_u64_accepts_and_refuses(n: u64, s: Seq<char>)
    ensures
        parse_u64_spec(seq!['+'] + decimal(n as nat)) == Some(n),
        parse_u64_spec(seq!['0'] + decimal(n as nat)) == Some(n),
        parse_u64_spec(Seq::<char>::empty()) is None,
        parse_u64_spec(seq!['+']) is None,
        (exists|i: int| 0 < i < s.len() && !#[trigger] is_digit(s[i])) ==> parse_u64_spec(s) is None,
        (s.len() > 0 && !is_digit(s[0]) && s[0] != '+') ==> parse_u64_spec(s) is None,
{
    lemma_decimal_parses(n as nat);
    let d = decimal(n as nat);
    assert('+' as int == 43 && '0' as int == 48);
    assert((seq!['+'] + d).drop_first() =~= d);
    let z = seq!['0'] + d;
    assert(z.drop_last() =~= seq!['0'] + d.drop_last());
    lemma_zero_prefix_value(d);
    assert forall|i: int| 0 <= i < z.len() implies #[trigger] is_digit(z[i]) by {
        if i > 0 {
            assert(z[i] == d[i - 1]);
        }
    }
    if exists|i: int| 0 < i < s.len() && !#[trigger] is_digit(s[i]) {
        let i = choose|i: int| 0 < i < s.len() && !#[trigger] is_digit(s[i]);
        let b = unsigned_body(s);
        if s[0] == '+' {
            assert(b[i - 1] == s[i]);
        } else {
            assert(b[i] == s[i]);
        }
    }
    if s.len() > 0 && !is_digit(s[0]) && s[0] != '+' {
        assert(unsigned_body(s)[0] == s[0]);
    }
}

proof fn lemma_zero_prefix_value(s: Seq<char>)
    ensures
        digits_value(seq!['0'] + s) == digits_value(s),
    decreases s.len(),
{
    assert('0' as int == 48);
    if s.len() == 0 {
        assert((seq!['0'] + s).drop_last() =~= Seq::<char>::empty());
        assert(digits_value(Seq::<char>::empty()) == 0);
    } else {
        lemma_zero_prefix_value(s.drop_last());
        assert((seq!['0'] + s).drop_last() =~= seq!['0'] + s.drop_last());
    }
}

} // verus!
