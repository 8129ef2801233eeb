//! Decimal text of 64-bit signed integers: the reading that `str::parse::<i64>`
//! performs and the writing that `i64`'s `Display` performs.
use vstd::prelude::*;

verus! {

/// An ASCII decimal digit.
pub open spec fn is_ascii_digit(c: char) -> bool {
    '0' <= c && c <= '9'
}

/// The value of an ASCII decimal digit.
pub open spec fn digit_value(c: char) -> int {
    (c as int) - ('0' as int)
}

/// The character of a decimal digit `d` (`0 <= d < 10`).
pub open spec fn digit_char(d: int) -> char {
    (('0' as int) + d) as char
}

pub open spec fn all_ascii_digits(s: Seq<char>) -> bool {
    forall|i: int| 0 <= i < s.len() ==> is_ascii_digit(#[trigger] s[i])
}

/// The number that a string of decimal digits denotes (most significant first).
pub open spec fn digits_value(s: Seq<char>) -> int
    decreases s.len(),
{
    if s.len() == 0 {
        0
    } else {
        digits_value(s.drop_last()) * 10 + digit_value(s.last())
    }
}

/// What `str::parse::<i64>` accepts and yields: an optional single sign
/// (`+` or `-`), then one or more ASCII digits, denoting a value in range.
pub open spec fn spec_parse_i64(s: Seq<char>) -> Option<i64> {
    let negative = s.len() > 0 && s[0] == '-';
    let signed = s.len() > 0 && (s[0] == '-' || s[0] == '+');
    let body = if signed {
        s.skip(1)
    } else {
        s
    };
    if body.len() == 0 || !all_ascii_digits(body) {
        None
    } else {
        let v = if negative {
            -digits_value(body)
        } else {
            digits_value(body)
        };
        if i64::MIN <= v && v <= i64::MAX {
            Some(v as i64)
        } else {
            None
        }
    }
}

/// Decimal digits of a natural number, without leading zeros.
pub open spec fn nat_text(n: nat) -> Seq<char>
    decreases n,
{
    if n < 10 {
        seq![digit_char(n as int)]
    } else {
        nat_text(n / 10).push(digit_char((n % 10) as int))
    }
}

/// The text that `i64`'s `Display` writes.
pub open spec fn i64_text(x: i64) -> Seq<char> {
    if x < 0 {
        seq!['-'] + nat_text((-x) as nat)
    } else {
        nat_text(x as nat)
    }
}

proof fn lemma_digit_char(d: int)
    requires
        0 <= d < 10,
    ensures
        is_ascii_digit(digit_char(d)),
        digit_value(digit_char(d)) == d,
{
}

proof fn lemma_digits_value_nonneg(s: Seq<char>)
    requires
        all_ascii_digits(s),
    ensures
        digits_value(s) >= 0,
    decreases s.len(),
{
    if s.len() > 0 {
        lemma_digits_value_nonneg(s.drop_last());
        assert(is_ascii_digit(s[s.len() - 1]));
    }
}

/// Appending a digit never makes the denoted number smaller.
proof fn lemma_digits_value_grows(s: Seq<char>, k: int)
    requires
        all_ascii_digits(s),
        0 <= k <= s.len(),
    ensures
        digits_value(s.take(k)) <= digits_value(s),
    decreases s.len() - k,
{
    if k < s.len() {
        lemma_digits_value_grows(s, k + 1);
        assert(s.take(k + 1).drop_last() =~= s.take(k));
        assert(is_ascii_digit(s[k]));
        lemma_digits_value_nonneg(s.take(k));
        assert(s.take(k + 1).last() == s[k]);
    } else {
        assert(s.take(k) =~= s);
    }
}

proof fn lemma_nat_text(n: nat)
    ensures
        nat_text(n).len() >= 1,
        all_ascii_digits(nat_text(n)),
        digits_value(nat_text(n)) == n,
    decreases n,
{
    if n < 10 {
        lemma_digit_char(n as int);
        let t = seq![digit_char(n as int)];
        assert(t.drop_last() =~= Seq::<char>::empty());
        assert(digits_value(Seq::<char>::empty()) == 0);
        assert(digits_value(t) == digits_value(t.drop_last()) * 10 + digit_value(t.last()));
    } else {
        lemma_nat_text(n / 10);
        lemma_digit_char((n % 10) as int);
        let t = nat_text(n / 10).push(digit_char((n % 10) as int));
        assert(t.drop_last() =~= nat_text(n / 10));
        assert(t.last() == digit_char((n % 10) as int));
        assert(digits_value(t) == digits_value(t.drop_last()) * 10 + digit_value(t.last()));
        assert(n == (n / 10) * 10 + n % 10) by (nonlinear_arith);
        assert(nat_text(n) == t);
    }
}

/// Reading back what `i64`'s `Display` writes gives the same number.
pub proof fn lemma_parse_i64_text(x: i64)
    ensures
        spec_parse_i64(i64_text(x)) == Some(x),
{
    if x < 0 {
        let m = (-x) as nat;
        lemma_nat_text(m);
        let s = seq!['-'] + nat_text(m);
        assert(s[0] == '-');
        assert(s.skip(1) =~= nat_text(m));
    } else {
        lemma_nat_text(x as nat);
        let s = nat_text(x as nat);
        assert(is_ascii_digit(s[0]));
    }
}

/// Reads a decimal `i64` as `str::parse::<i64>` does.
pub fn parse_i64(s: &str) -> (r: Option<i64>)
    ensures
        r == spec_parse_i64(s@),
{
    let n = s.unicode_len();
    if n == 0 {
        return None;
    }
    let first = s.get_char(0);
    let negative = first == '-';
    let start: usize = if first == '-' || first == '+' {
        1
    } else {
        0
    };
    let ghost body = s@.skip(start as int);
    assert(body =~= if s@[0] == '-' || s@[0] == '+' { s@.skip(1) } else { s@ });
    if start == n {
        assert(body.len() == 0);
        return None;
    }
    let limit: u64 = if negative {
        9223372036854775808
    } else {
        9223372036854775807
    };
    let mut mag: u64 = 0;
    let mut overflow = false;
    let mut i: usize = start;
    while i < n
        invariant
            start <= i <= n,
            n == s@.len(),
            body == s@.skip(start as int),
            s@.len() > 0,
            body == (if s@[0] == '-' || s@[0] == '+' { s@.skip(1) } else { s@ }),
            negative == (s@[0] == '-'),
            limit == (if negative { 9223372036854775808u64 } else { 9223372036854775807u64 }),
            all_ascii_digits(body.take(i - start)),
            !overflow ==> mag as int == digits_value(body.take(i - start)) && mag <= limit,
            overflow ==> digits_value(body.take(i - start)) > limit,
        decreases n - i,
    {
        let c = s.get_char(i);
        assert(body[i - start] == c);
        if !('0' <= c && c <= '9') {
            assert(!all_ascii_digits(body));
            return None;
        }
        let d: u64 = (c as u64) - ('0' as u64);
        let ghost prefix = body.take(i - start + 1);
        assert(prefix.drop_last() =~= body.take(i - start));
        assert(prefix.last() == c);
        if !overflow {
            let next: u128 = (mag as u128) * 10 + (d as u128);
            if next > limit as u128 {
                overflow = true;
            } else {
                mag = next as u64;
            }
        }
        i = i + 1;
        assert(all_ascii_digits(body.take(i - start)));
    }
    assert(body.take(n - start) =~= body);
    if overflow {
        return None;
    }
    if negative {
        if mag == 9223372036854775808 {
            Some(i64::MIN)
        } else {
            Some(-(mag as i64))
        }
    } else {
        Some(mag as i64)
    }
}

fn digit_str(d: u64) -> (r: &'static str)
    requires
        d < 10,
    ensures
        r@ == seq![digit_char(d as int)],
{
    proof {
        reveal_strlit("0");
        reveal_strlit("1");
        reveal_strlit("2");
        reveal_strlit("3");
        reveal_strlit("4");
        reveal_strlit("5");
        reveal_strlit("6");
        reveal_strlit("7");
        reveal_strlit("8");
        reveal_strlit("9");
    }
    let r = if d == 0 {
        "0"
    } else if d == 1 {
        "1"
    } else if d == 2 {
        "2"
    } else if d == 3 {
        "3"
    } else if d == 4 {
        "4"
    } else if d == 5 {
        "5"
    } else if d == 6 {
        "6"
    } else if d == 7 {
        "7"
    } else if d == 8 {
        "8"
    } else {
        "9"
    };
    assert(r@ =~= seq![digit_char(d as int)]);
    r
}

fn append_nat_text(out: &mut String, n: u64)
    ensures
        final(out)@ == old(out)@ + nat_text(n as nat),
    decreases n,
{
    if n >= 10 {
        append_nat_text(out, n / 10);
    }
    out.append(digit_str(n % 10));
    proof {
        if n >= 10 {
            assert(old(out)@ + nat_text((n / 10) as nat) + seq![digit_char((n % 10) as int)]
                =~= old(out)@ + nat_text(n as nat));
        } else {
            assert(old(out)@ + seq![digit_char((n % 10) as int)] =~= old(out)@ + nat_text(
                n as nat,
            ));
        }
    }
}

/// Writes an `i64` in decimal, as `i64`'s `Display` does.
pub fn i64_to_text(x: i64) -> (r: String)
    ensures
        r@ == i64_text(x),
{
    let mut out = String::new();
    if x < 0 {
        proof {
            reveal_strlit("-");
        }
        out.append("-");
        let m: u64 = if x == i64::MIN {
            9223372036854775808
        } else {
            (-x) as u64
        };
        append_nat_text(&mut out, m);
    } else {
        append_nat_text(&mut out, x as u64);
    }
    proof {
        if x < 0 {
            assert(out@ =~= i64_text(x));
        } else {
            assert(out@ =~= i64_text(x));
        }
    }
    out
}

} // verus!
