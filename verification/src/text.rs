//! Decimal text of integers: how numbers of the language are printed and read back.
use vstd::prelude::*;

verus! {

/// The character of a decimal digit `d` (with `0 <= d < 10`).
pub open spec fn digit_char(d: int) -> char {
    (('0' as int) + d) as char
}

pub open spec fn is_digit(c: char) -> bool {
    '0' <= c && c <= '9'
}

pub open spec fn digit_value(c: char) -> int {
    (c as int) - ('0' as int)
}

/// Decimal digits of a natural number, most significant first, without leading zeros.
pub open spec fn nat_text(n: nat) -> Seq<char>
    decreases n,
{
    if n < 10 {
        seq![digit_char(n as int)]
    } else {
        nat_text(n / 10).push(digit_char((n % 10) as int))
    }
}

/// Decimal text of an integer: a `-` sign for negatives, then the digits of its magnitude.
pub open spec fn int_text(i: int) -> Seq<char> {
    if i < 0 {
        seq!['-'] + nat_text((-i) as nat)
    } else {
        nat_text(i as nat)
    }
}

pub open spec fn all_digits(s: Seq<char>) -> bool {
    forall|k: int| 0 <= k < s.len() ==> is_digit(#[trigger] s[k])
}

/// The number that a string of decimal digits denotes.
pub open spec fn digits_value(s: Seq<char>) -> int
    decreases s.len(),
{
    if s.len() == 0 {
        0
    } else {
        digits_value(s.drop_last()) * 10 + digit_value(s.last())
    }
}

/// The integer a string denotes in the form `i32::from_str` reads:
/// an optional `+` or `-`, then one or more decimal digits, nothing else.
pub open spec fn int_of_text(s: Seq<char>) -> Option<int> {
    if s.len() > 0 && (s[0] == '-' || s[0] == '+') {
        let body = s.drop_first();
        if body.len() > 0 && all_digits(body) {
            if s[0] == '-' {
                Some(-digits_value(body))
            } else {
                Some(digits_value(body))
            }
        } else {
            None
        }
    } else if s.len() > 0 && all_digits(s) {
        Some(digits_value(s))
    } else {
        None
    }
}

/// The `i32` a string denotes; `None` where it is no number or out of range.
pub open spec fn i32_of_text(s: Seq<char>) -> Option<i32> {
    match int_of_text(s) {
        Some(v) => if i32::MIN <= v && v <= i32::MAX {
            Some(v as i32)
        } else {
            None
        },
        None => None,
    }
}

pub proof fn lemma_digits_value_nonneg(s: Seq<char>)
    requires
        all_digits(s),
    ensures
        digits_value(s) >= 0,
    decreases s.len(),
{
    if s.len() > 0 {
        assert(is_digit(s[s.len() - 1]));
        lemma_digits_value_nonneg(s.drop_last());
    }
}

/// The digits of `n` are digits, and read back as `n`.
pub proof fn lemma_nat_text(n: nat)
    ensures
        nat_text(n).len() > 0,
        all_digits(nat_text(n)),
        digits_value(nat_text(n)) == n,
        nat_text(n)[0] != '-',
        nat_text(n)[0] != '+',
    decreases n,
{
    let d = (n % 10) as int;
    assert(digit_value(digit_char(d)) == d);
    if n < 10 {
        assert(nat_text(n).drop_last() =~= Seq::<char>::empty());
        assert(digits_value(nat_text(n)) == digits_value(Seq::<char>::empty()) * 10 + d);
    } else {
        lemma_nat_text(n / 10);
        let t = nat_text(n);
        assert(t.drop_last() =~= nat_text(n / 10));
        assert(t.last() == digit_char(d));
        assert(digits_value(t) == (n / 10) * 10 + d);
        assert((n / 10) * 10 + d == n);
        assert forall|k: int| 0 <= k < t.len() implies is_digit(#[trigger] t[k]) by {
            if k < t.len() - 1 {
                assert(t[k] == nat_text(n / 10)[k]);
            }
        }
    }
}

/// Printing an integer and reading it back gives the integer.
pub proof fn lemma_int_text_roundtrip(i: int)
    ensures
        int_of_text(int_text(i)) == Some(i),
{
    if i < 0 {
        let m = (-i) as nat;
        lemma_nat_text(m);
        let t = int_text(i);
        assert(t.drop_first() =~= nat_text(m));
    } else {
        lemma_nat_text(i as nat);
    }
}

/// Printing an `i32` and reading it back gives the same `i32`.
pub proof fn lemma_i32_text_roundtrip(v: i32)
    ensures
        i32_of_text(int_text(v as int)) == Some(v),
{
    lemma_int_text_roundtrip(v as int);
}

/// Distinct natural numbers have distinct decimal text.
pub proof fn lemma_nat_text_injective(a: nat, b: nat)
    requires
        a != b,
    ensures
        nat_text(a) != nat_text(b),
{
    lemma_nat_text(a);
    lemma_nat_text(b);
}

/// The text of a digit `d < 10`, as a string literal.
fn digit_str(d: u32) -> (s: &'static str)
    requires
        d < 10,
    ensures
        s@ == seq![digit_char(d as int)],
{
    proof {
        reveal_strlit("0");
        reveal_strlit("1");
        reveal_strlit("2");
        reveal_strlit("3");
        reveal_strlit("4");
        reveal_strlit("5");
        reveal_strlit("6");
        reveal_strlit("7");
        reveal_strlit("8");
        reveal_strlit("9");
    }
    if d == 0 {
        "0"
    } else if d == 1 {
        "1"
    } else if d == 2 {
        "2"
    } else if d == 3 {
        "3"
    } else if d == 4 {
        "4"
    } else if d == 5 {
        "5"
    } else if d == 6 {
        "6"
    } else if d == 7 {
        "7"
    } else if d == 8 {
        "8"
    } else {
        "9"
    }
}

/// Appends the decimal digits of `n` to `out`.
pub fn push_nat_text(out: &mut String, n: u32)
    ensures
        final(out)@ == old(out)@ + nat_text(n as nat),
    decreases n,
{
    if n >= 10 {
        push_nat_text(out, n / 10);
    }
    let d = digit_str(n % 10);
    out.append(d);
    proof {
        if n >= 10 {
            assert(nat_text(n as nat) == nat_text((n / 10) as nat).push(digit_char((n % 10) as int)));
        }
    }
}

/// The decimal text of an `i32`, as `format!("{}", v)` writes it.
pub fn i32_text(v: i32) -> (s: String)
    ensures
        s@ == int_text(v as int),
{
    let mut s = String::new();
    if v < 0 {
        proof {
            reveal_strlit("-");
        }
        s.append("-");
        let m: i64 = -(v as i64);
        push_nat_text(&mut s, m as u32);
    } else {
        push_nat_text(&mut s, v as u32);
    }
    s
}

/// The saturation bound used while reading digits: one more than any `i32` magnitude.
pub open spec fn read_cap() -> int {
    2147483649
}

pub open spec fn min_int(a: int, b: int) -> int {
    if a <= b {
        a
    } else {
        b
    }
}

/// Reads `s` as `i32::from_str` does: `Some` exactly where the text denotes an `i32`.
pub fn parse_i32(s: &str) -> (r: Option<i32>)
    ensures
        r == i32_of_text(s@),
{
    let n = s.unicode_len();
    if n == 0 {
        return None;
    }
    let first = s.get_char(0);
    let start: usize = if first == '-' || first == '+' {
        1
    } else {
        0
    };
    if start == n {
        return None;
    }
    let ghost body = s@.subrange(start as int, s@.len() as int);
    let mut acc: i64 = 0;
    let mut i: usize = start;
    while i < n
        invariant
            start <= i <= n,
            n == s@.len(),
            start <= 1,
            first == s@[0],
            start == 1 <==> (first == '-' || first == '+'),
            start < n,
            body == s@.subrange(start as int, n as int),
            all_digits(s@.subrange(start as int, i as int)),
            acc == min_int(digits_value(s@.subrange(start as int, i as int)), read_cap()),
            0 <= acc <= read_cap(),
        decreases n - i,
    {
        let c = s.get_char(i);
        if !(c >= '0' && c <= '9') {
            proof {
                assert(body[i - start] == c);
                assert(!all_digits(body));
                if start == 1 {
                    assert(body =~= s@.drop_first());
                } else {
                    assert(body =~= s@);
                }
            }
            return None;
        }
        let d = (c as u32 - '0' as u32) as i64;
        let ghost prev = s@.subrange(start as int, i as int);
        let ghost next = s@.subrange(start as int, i + 1);
        proof {
            assert(next.drop_last() =~= prev);
            assert(next.last() == c);
            lemma_digits_value_nonneg(prev);
            assert forall|k: int| 0 <= k < next.len() implies is_digit(#[trigger] next[k]) by {
                if k < next.len() - 1 {
                    assert(next[k] == prev[k]);
                }
            }
        }
        let grown = acc * 10 + d;
        acc = if grown > 2147483649 {
            2147483649
        } else {
            grown
        };
        i = i + 1;
    }
    proof {
        assert(s@.subrange(start as int, n as int) == body);
        lemma_digits_value_nonneg(body);
        if start == 1 {
            assert(body =~= s@.drop_first());
        } else {
            assert(body =~= s@);
        }
    }
    if first == '-' {
        if acc <= 2147483648 {
            Some((-acc) as i32)
        } else {
            None
        }
    } else {
        if acc <= 2147483647 {
            Some(acc as i32)
        } else {
            None
        }
    }
}

} // verus!
