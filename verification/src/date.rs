//! The text `%Y-%m-%d` of a calendar day, as chrono's formatter writes it.

use vstd::prelude::*;
use crate::decimal::{
    all_digits, decimal, digit_char, digit_str, digit_value, digits_value, is_digit,
    lemma_decimal_parses, u64_to_decimal,
};

verus! {

/// `digits` with zeros in front up to `width` characters.
pub open spec fn zero_pad(digits: Seq<char>, width: nat) -> Seq<char> {
    if digits.len() >= width {
        digits
    } else {
        Seq::new((width - digits.len()) as nat, |i: int| '0') + digits
    }
}

/// The year as `%Y` writes it: four digits at least, zero-padded, with a sign
/// in front of a year before 0 or after 9999.
pub open spec fn year_text(year: int) -> Seq<char> {
    if 0 <= year <= 9999 {
        zero_pad(decimal(year as nat), 4)
    } else if year < 0 {
        seq!['-'] + zero_pad(decimal((-year) as nat), 4)
    } else {
        seq!['+'] + zero_pad(decimal(year as nat), 4)
    }
}

/// A number below 100 as two digits, as `%m` and `%d` write a month and a day.
pub open spec fn two_digits(v: nat) -> Seq<char> {
    seq![digit_char((v / 10) as int), digit_char((v % 10) as int)]
}

/// The text `%Y-%m-%d` of the day `day` of month `month` of `year`.
pub open spec fn iso_day_text(year: int, month: nat, day: nat) -> Seq<char> {
    year_text(year) + seq!['-'] + two_digits(month) + seq!['-'] + two_digits(day)
}

fn append_zero_padded(s: &mut String, n: u64, width: usize)
    ensures
        final(s)@ == old(s)@ + zero_pad(decimal(n as nat), width as nat),
{
    let digits = u64_to_decimal(n);
    let len = digits.as_str().unicode_len();
    if len < width {
        let mut k = len;
        while k < width
            invariant
                len <= k <= width,
                len == decimal(n as nat).len(),
                s@ == old(s)@ + Seq::new((k - len) as nat, |i: int| '0'),
            decreases width - k,
        {
            proof { reveal_strlit("0"); }
            s.append("0");
            assert(Seq::new((k - len) as nat, |i: int| '0').push('0') =~= Seq::new(
                (k + 1 - len) as nat,
                |i: int| '0',
            ));
            k = k + 1;
        }
        s.append(digits.as_str());
        assert(s@ =~= old(s)@ + zero_pad(decimal(n as nat), width as nat));
    } else {
        s.append(digits.as_str());
    }
}

fn append_two_digits(s: &mut String, v: u32)
    requires
        v < 100,
    ensures
        final(s)@ == old(s)@ + two_digits(v as nat),
{
    s.append(digit_str((v / 10) as u64));
    s.append(digit_str((v % 10) as u64));
    assert(s@ =~= old(s)@ + two_digits(v as nat));
}

/// Writes the calendar day `year`-`month`-`day` as `%Y-%m-%d`.
pub fn iso_day(year: i32, month: u32, day: u32) -> (text: String)
    requires
        1 <= month <= 12,
        1 <= day <= 31,
    ensures
        text@ == iso_day_text(year as int, month as nat, day as nat),
{
    let mut text = String::new();
    proof {
        reveal_strlit("-");
        reveal_strlit("+");
    }
    if 0 <= year && year <= 9999 {
        append_zero_padded(&mut text, year as u64, 4);
    } else if year < 0 {
        text.append("-");
        let magnitude: i64 = -(year as i64);
        append_zero_padded(&mut text, magnitude as u64, 4);
    } else {
        text.append("+");
        append_zero_padded(&mut text, year as u64, 4);
    }
    assert(text@ =~= year_text(year as int));
    text.append("-");
    append_two_digits(&mut text, month);
    text.append("-");
    append_two_digits(&mut text, day);
    assert(text@ =~= iso_day_text(year as int, month as nat, day as nat));
    text
}


proof fn lemma_two_digits(v: nat)
    requires
        v < 100,
    ensures
        two_digits(v).len() == 2,
        all_digits(two_digits(v)),
        digits_value(two_digits(v)) == v,
{
    let t = two_digits(v);
    let a = (v / 10) as int;
    let b = (v % 10) as int;
    assert(digit_value(digit_char(a)) == a);
    assert(digit_value(digit_char(b)) == b);
    assert(is_digit(digit_char(a)) && is_digit(digit_char(b)));
    assert(t.drop_last() =~= seq![digit_char(a)]);
    assert(t.drop_last().drop_last() =~= Seq::<char>::empty());
    assert(digits_value(Seq::<char>::empty()) == 0);
    assert(digits_value(t.drop_last()) == a);
    assert(v == a * 10 + b);
}

proof fn lemma_leading_zero(s: Seq<char>)
    ensures
        digits_value(seq!['0'] + s) == digits_value(s),
    decreases s.len(),
{
    assert('0' as int == 48);
    if s.len() == 0 {
        assert((seq!['0'] + s).drop_last() =~= Seq::<char>::empty());
        assert(digits_value(Seq::<char>::empty()) == 0);
    } else {
        lemma_leading_zero(s.drop_last());
        assert((seq!['0'] + s).drop_last() =~= seq!['0'] + s.drop_last());
        assert((seq!['0'] + s).last() == s.last());
    }
}

proof fn lemma_zeros_prefix(k: nat, s: Seq<char>)
    ensures
        digits_value(Seq::new(k, |i: int| '0') + s) == digits_value(s),
        all_digits(s) ==> all_digits(Seq::new(k, |i: int| '0') + s),
    decreases k,
{
    assert('0' as int == 48);
    let z = Seq::new(k, |i: int| '0') + s;
    if k > 0 {
        lemma_zeros_prefix((k - 1) as nat, s);
        let rest = Seq::new((k - 1) as nat, |i: int| '0') + s;
        assert(z =~= seq!['0'] + rest);
        lemma_leading_zero(rest);
        if all_digits(s) {
            assert forall|i: int| 0 <= i < z.len() implies #[trigger] is_digit(z[i]) by {
                if i > 0 {
                    assert(z[i] == rest[i - 1]);
                }
            }
        }
    } else {
        assert(z =~= s);
    }
}

proof fn lemma_zero_pad_value(n: nat, width: nat)
    ensures
        zero_pad(decimal(n), width).len() >= width,
        all_digits(zero_pad(decimal(n), width)),
        digits_value(zero_pad(decimal(n), width)) == n,
{
    lemma_decimal_parses(n);
    let d = decimal(n);
    if d.len() < width {
        lemma_zeros_prefix((width - d.len()) as nat, d);
    }
}

/// The text of a calendar day has its three fields in the order year, month,
/// day, separated by `-`: the last two digits are the day, the two before the
/// last `-` the month, and what comes before the month's `-` is the year, with
/// at least four digits, and with a sign exactly when the year is before 0 or
/// after 9999.
pub proof fn law_iso_day_fields(year: int, month: nat, day: nat)
    requires
        1 <= month <= 12,
        1 <= day <= 31,
    ensures
        ({
            let t = iso_day_text(year, month, day);
            let n = t.len() as int;
            &&& n >= 10
            &&& t[n - 3] == '-' && t[n - 6] == '-'
            &&& all_digits(t.subrange(n - 2, n)) && digits_value(t.subrange(n - 2, n)) == day
            &&& all_digits(t.subrange(n - 5, n - 3)) && digits_value(t.subrange(n - 5, n - 3)) == month
            &&& 0 <= year <= 9999 ==> n == 10 && all_digits(t.subrange(0, 4)) && digits_value(
                t.subrange(0, 4),
            ) == year
            &&& year < 0 ==> t[0] == '-' && n - 6 >= 5 && all_digits(t.subrange(1, n - 6)) && digits_value(
                t.subrange(1, n - 6),
            ) == -year
            &&& year > 9999 ==> t[0] == '+' && n - 6 >= 5 && all_digits(t.subrange(1, n - 6))
                && digits_value(t.subrange(1, n - 6)) == year
        }),
{
    lemma_two_digits(month);
    lemma_two_digits(day);
    let y = year_text(year);
    let t = iso_day_text(year, month, day);
    let n = t.len() as int;
    let mm = two_digits(month);
    let dd = two_digits(day);
    assert(t =~= y + seq!['-'] + mm + seq!['-'] + dd);
    assert(t.subrange(n - 2, n) =~= dd);
    assert(t.subrange(n - 5, n - 3) =~= mm);
    assert(t.subrange(0, n - 6) =~= y);
    if 0 <= year <= 9999 {
        lemma_zero_pad_value(year as nat, 4);
        lemma_decimal_parses(year as nat);
        assert(decimal(year as nat).len() <= 4) by {
            lemma_decimal_len_bound(year as nat);
        }
        assert(t.subrange(0, 4) =~= y);
    } else if year < 0 {
        lemma_zero_pad_value((-year) as nat, 4);
        let p = zero_pad(decimal((-year) as nat), 4);
        assert(y =~= seq!['-'] + p);
        assert(t.subrange(1, n - 6) =~= p);
    } else {
        lemma_zero_pad_value(year as nat, 4);
        let p = zero_pad(decimal(year as nat), 4);
        assert(y =~= seq!['+'] + p);
        assert(t.subrange(1, n - 6) =~= p);
    }
}

proof fn lemma_decimal_len_bound(n: nat)
    requires
        n <= 9999,
    ensures
        decimal(n).len() <= 4,
{
    if n >= 10 {
        assert(decimal(n).len() == decimal(n / 10).len() + 1);
        if n / 10 >= 10 {
            assert(decimal(n / 10).len() == decimal(n / 100).len() + 1);
            if n / 100 >= 10 {
                assert(decimal(n / 100).len() == decimal(n / 1000).len() + 1);
                assert(n / 1000 < 10);
            }
        }
    }
}

} // verus!
