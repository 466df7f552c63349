//! Decimal text for unsigned amounts: reading a `u128` from its decimal
//! notation (as balances come back from a contract) and writing one (as
//! amounts are handed to a contract).
use vstd::prelude::*;

use crate::text::{chars_of, push_char};

verus! {

/// An ASCII decimal digit.
pub open spec fn is_digit(c: char) -> bool {
    '0' <= c && c <= '9'
}

/// The value of an ASCII decimal digit.
pub open spec fn digit_value(c: char) -> nat {
    (c as int - '0' as int) as nat
}

/// Every character of `s` is a decimal digit.
pub open spec fn all_digits(s: Seq<char>) -> bool {
    forall|i: int| 0 <= i < s.len() ==> is_digit(#[trigger] s[i])
}

/// The number that a run of decimal digits denotes, most significant first.
pub open spec fn digits_value(s: Seq<char>) -> nat
    decreases s.len(),
{
    if s.len() == 0 {
        0
    } else {
        digits_value(s.drop_last()) * 10 + digit_value(s.last())
    }
}

/// The part of a text that holds the digits of an unsigned number:
/// one leading `+` is allowed and dropped.
pub open spec fn unsigned_digits(s: Seq<char>) -> Seq<char> {
    if s.len() > 0 && s[0] == '+' {
        s.drop_first()
    } else {
        s
    }
}

/// What reading `s` as a `u128` gives: the value of its digits when, after
/// an optional `+`, it is a non-empty run of decimal digits whose value fits
/// in a `u128`; `None` for anything else (empty text, a sign alone, any other
/// character, or a value that is too large).
pub open spec fn parse_u128_spec(s: Seq<char>) -> Option<u128> {
    let d = unsigned_digits(s);
    if d.len() > 0 && all_digits(d) && digits_value(d) <= u128::MAX {
        Some(digits_value(d) as u128)
    } else {
        None
    }
}

/// The digit character for a value below ten.
pub open spec fn digit_char(d: nat) -> char {
    if d == 0 {
        '0'
    } else if d == 1 {
        '1'
    } else if d == 2 {
        '2'
    } else if d == 3 {
        '3'
    } else if d == 4 {
        '4'
    } else if d == 5 {
        '5'
    } else if d == 6 {
        '6'
    } else if d == 7 {
        '7'
    } else if d == 8 {
        '8'
    } else {
        '9'
    }
}

/// The decimal notation of `n`: its digits, most significant first, with no
/// sign and no leading zero ("0" for zero).
pub open spec fn decimal_digits(n: nat) -> Seq<char>
    decreases n,
{
    if n < 10 {
        seq![digit_char(n)]
    } else {
        decimal_digits(n / 10).push(digit_char(n % 10))
    }
}

proof fn lemma_digit_char(d: nat)
    requires
        d < 10,
    ensures
        is_digit(digit_char(d)),
        digit_value(digit_char(d)) == d,
        digit_char(d) != '+',
{
}

/// Appending digits never makes the value smaller than that of a prefix.
proof fn lemma_prefix_value_le(s: Seq<char>, k: int)
    requires
        all_digits(s),
        0 <= k <= s.len(),
    ensures
        digits_value(s.take(k)) <= digits_value(s),
    decreases s.len(),
{
    if k == s.len() {
        assert(s.take(k) =~= s);
    } else {
        let p = s.drop_last();
        assert(all_digits(p)) by {
            assert forall|i: int| 0 <= i < p.len() implies is_digit(#[trigger] p[i]) by {
                assert(p[i] == s[i]);
            }
        }
        lemma_prefix_value_le(p, k);
        assert(p.take(k) =~= s.take(k));
    }
}

/// The value of the first `k + 1` digits, from that of the first `k`.
proof fn lemma_take_step(s: Seq<char>, k: int)
    requires
        0 <= k < s.len(),
    ensures
        digits_value(s.take(k + 1)) == digits_value(s.take(k)) * 10 + digit_value(s[k]),
{
    assert(s.take(k + 1).drop_last() =~= s.take(k));
}

/// The notation of `n` is a non-empty run of digits, without a sign, whose
/// value is `n`.
pub proof fn lemma_decimal_digits(n: nat)
    ensures
        decimal_digits(n).len() > 0,
        all_digits(decimal_digits(n)),
        decimal_digits(n)[0] != '+',
        digits_value(decimal_digits(n)) == n,
    decreases n,
{
    if n < 10 {
        lemma_digit_char(n);
        let s = decimal_digits(n);
        assert(s.drop_last() =~= Seq::<char>::empty());
        assert(digits_value(s.drop_last()) == 0);
        assert(s.last() == digit_char(n));
    } else {
        lemma_decimal_digits(n / 10);
        lemma_digit_char(n % 10);
        let p = decimal_digits(n / 10);
        let s = decimal_digits(n);
        assert(s.drop_last() =~= p);
        assert(s.last() == digit_char(n % 10));
        assert(digits_value(s) == digits_value(p) * 10 + digit_value(s.last()));
        assert((n / 10) * 10 + n % 10 == n);
        assert(s[0] == p[0]);
        assert forall|i: int| 0 <= i < s.len() implies is_digit(#[trigger] s[i]) by {
            if i < p.len() {
                assert(s[i] == p[i]);
            }
        }
    }
}

/// Reads a `u128` from its decimal notation, as `u128::from_str` does:
/// `Some` of the value exactly when the text is an optional `+` followed by
/// a non-empty run of ASCII digits whose value fits in a `u128`.
pub fn parse_u128(s: &str) -> (r: Option<u128>)
    ensures
        r == parse_u128_spec(s@),
{
    let cs = chars_of(s);
    let n = cs.len();
    let ghost d = unsigned_digits(s@);
    let mut start: usize = 0;
    if n > 0 && cs[0] == '+' {
        start = 1;
    }
    assert(d =~= s@.subrange(start as int, n as int));
    if start == n {
        return None;
    }
    let mut acc: u128 = 0;
    let mut i: usize = start;
    assert(d.take(0) =~= Seq::<char>::empty());
    while i < n
        invariant
            cs@ == s@,
            n == s@.len(),
            start <= i <= n,
            d == unsigned_digits(s@),
            d =~= s@.subrange(start as int, n as int),
            d.len() == n - start,
            all_digits(d.take(i - start)),
            acc == digits_value(d.take(i - start)),
        decreases n - i,
    {
        let c = cs[i];
        let k: Ghost<int> = Ghost(i - start);
        assert(d[k@] == c);
        if !('0' <= c && c <= '9') {
            assert(!all_digits(d)) by {
                assert(!is_digit(d[k@]));
            }
            return None;
        }
        let v: u128 = ((c as u32) - ('0' as u32)) as u128;
        assert(v == digit_value(c));
        proof {
            lemma_take_step(d, k@);
            assert forall|j: int| 0 <= j < k@ + 1 implies is_digit(#[trigger] d.take(k@ + 1)[j]) by {
                if j < k@ {
                    assert(d.take(k@ + 1)[j] == d.take(k@)[j]);
                }
            }
        }
        match acc.checked_mul(10) {
            None => {
                proof {
                    if all_digits(d) {
                        lemma_prefix_value_le(d, k@ + 1);
                    }
                }
                return None;
            },
            Some(m) => match m.checked_add(v) {
                None => {
                    proof {
                        if all_digits(d) {
                            lemma_prefix_value_le(d, k@ + 1);
                        }
                    }
                    return None;
                },
                Some(a) => {
                    acc = a;
                },
            },
        }
        i = i + 1;
    }
    assert(d.take(n - start) =~= d);
    Some(acc)
}

/// The character of a digit value below ten.
fn digit_to_char(d: u128) -> (c: char)
    requires
        d < 10,
    ensures
        c == digit_char(d as nat),
{
    if d == 0 {
        '0'
    } else if d == 1 {
        '1'
    } else if d == 2 {
        '2'
    } else if d == 3 {
        '3'
    } else if d == 4 {
        '4'
    } else if d == 5 {
        '5'
    } else if d == 6 {
        '6'
    } else if d == 7 {
        '7'
    } else if d == 8 {
        '8'
    } else {
        '9'
    }
}

/// Writes `n` in decimal, as `n.to_string()` does: its digits, most
/// significant first, with no sign and no leading zero.
pub fn decimal_string(n: u128) -> (r: String)
    ensures
        r@ == decimal_digits(n as nat),
    decreases n,
{
    if n < 10 {
        let mut s = String::new();
        push_char(&mut s, digit_to_char(n));
        assert(s@ =~= decimal_digits(n as nat));
        s
    } else {
        let mut s = decimal_string(n / 10);
        push_char(&mut s, digit_to_char(n % 10));
        s
    }
}

/// Reading back the decimal notation of an amount gives the amount.
pub proof fn law_parse_decimal_roundtrip(n: u128)
    ensures
        parse_u128_spec(decimal_digits(n as nat)) == Some(n),
{
    lemma_decimal_digits(n as nat);
    let s = decimal_digits(n as nat);
    assert(unsigned_digits(s) == s);
}

/// Reading an empty text, or a `+` alone, gives nothing.
pub proof fn law_parse_empty()
    ensures
        parse_u128_spec(Seq::<char>::empty()) is None,
        parse_u128_spec(seq!['+']) is None,
{
    assert(seq!['+'].drop_first() =~= Seq::<char>::empty());
}

/// A single ASCII digit reads as its value: `'0'` is 0, and each next
/// character code one more.
pub proof fn law_parse_single_digit(c: char)
    requires
        '0' <= c <= '9',
    ensures
        parse_u128_spec(seq![c]) == Some((c as int - '0' as int) as u128),
{
    let s = seq![c];
    assert(unsigned_digits(s) == s);
    assert(s.drop_last() =~= Seq::<char>::empty());
    assert(digits_value(s.drop_last()) == 0);
}

/// Appending a digit to a text that reads as `v` gives one that reads as
/// `10 * v` plus the digit's value, or as nothing when that overflows.
pub proof fn law_parse_push_digit(s: Seq<char>, c: char)
    requires
        parse_u128_spec(s) is Some,
        '0' <= c <= '9',
    ensures
        ({
            let v = parse_u128_spec(s)->0 as int;
            let w = 10 * v + (c as int - '0' as int);
            parse_u128_spec(s.push(c)) == if w <= u128::MAX {
                Some(w as u128)
            } else {
                None::<u128>
            }
        }),
{
    let d = unsigned_digits(s);
    let t = s.push(c);
    assert(s.len() > 0);
    assert(t[0] == s[0]);
    if s[0] == '+' {
        assert(unsigned_digits(t) =~= d.push(c));
    } else {
        assert(unsigned_digits(t) =~= d.push(c));
    }
    let e = d.push(c);
    assert(e.drop_last() =~= d);
    assert(all_digits(e)) by {
        assert forall|i: int| 0 <= i < e.len() implies is_digit(#[trigger] e[i]) by {
            if i < d.len() {
                assert(e[i] == d[i]);
            }
        }
    }
    assert(digits_value(e) == digits_value(d) * 10 + digit_value(c));
}

/// A text with a character that is not an ASCII digit, other than one
/// leading `+`, reads as nothing.
pub proof fn law_parse_rejects_non_digit(s: Seq<char>, i: int)
    requires
        0 <= i < s.len(),
        !('0' <= s[i] <= '9'),
        !(i == 0 && s[i] == '+'),
    ensures
        parse_u128_spec(s) is None,
{
    let d = unsigned_digits(s);
    if s[0] == '+' {
        assert(d[i - 1] == s[i]);
        assert(!is_digit(d[i - 1]));
    } else {
        assert(d[i] == s[i]);
        assert(!is_digit(d[i]));
    }
}

/// One leading `+` does not change what a text reads as; two read as
/// nothing.
pub proof fn law_parse_plus(s: Seq<char>)
    requires
        s.len() > 0,
    ensures
        parse_u128_spec(seq!['+'] + s) == if s[0] == '+' {
            None::<u128>
        } else {
            parse_u128_spec(s)
        },
{
    let t = seq!['+'] + s;
    assert(t.drop_first() =~= s);
    if s[0] == '+' {
        assert(!is_digit(s[0]));
    } else {
        assert(unsigned_digits(s) == s);
    }
}

/// The decimal notation of `n` is made of ASCII digits, starts with a
/// digit other than `0` unless `n` is zero, and reads back as `n`.
pub proof fn law_decimal_digits_shape(n: u128)
    ensures
        decimal_digits(n as nat).len() > 0,
        forall|i: int|
            0 <= i < decimal_digits(n as nat).len() ==> '0' <= #[trigger] decimal_digits(
                n as nat,
            )[i] <= '9',
        n > 0 ==> decimal_digits(n as nat)[0] != '0',
        n == 0 ==> decimal_digits(n as nat) == seq!['0'],
        parse_u128_spec(decimal_digits(n as nat)) == Some(n),
{
    lemma_decimal_digits(n as nat);
    lemma_leading_digit(n as nat);
    law_parse_decimal_roundtrip(n);
    let s = decimal_digits(n as nat);
    assert forall|i: int| 0 <= i < s.len() implies '0' <= #[trigger] s[i] <= '9' by {
        assert(is_digit(s[i]));
    }
}

proof fn lemma_leading_digit(n: nat)
    ensures
        n > 0 ==> decimal_digits(n)[0] != '0',
    decreases n,
{
    if n >= 10 {
        lemma_leading_digit(n / 10);
        lemma_decimal_digits(n / 10);
        assert(decimal_digits(n)[0] == decimal_digits(n / 10)[0]);
    }
}

} // verus!
