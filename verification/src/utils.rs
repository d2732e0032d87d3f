use vstd::prelude::*;
use vstd::string::*;

verus! {

/// The least number of groups of `d` items that hold `n` items.
pub open spec fn ceil_div(n: int, d: int) -> int
    recommends
        d > 0,
{
    (n + d - 1) / d
}

/// `ceil_div(n, d)` is the ceiling of `n / d`: the least `q` with `q * d >= n`.
pub proof fn lemma_ceil_div_is_ceiling(n: int, d: int)
    requires
        n >= 0,
        d > 0,
    ensures
        ceil_div(n, d) >= 0,
        (ceil_div(n, d) - 1) * d < n <= ceil_div(n, d) * d,
        n % d == 0 ==> ceil_div(n, d) == n / d,
        n % d != 0 ==> ceil_div(n, d) == n / d + 1,
{
    let q = n / d;
    let r = n % d;
    assert(n == q * d + r && 0 <= r < d && q >= 0) by (nonlinear_arith)
        requires
            n >= 0,
            d > 0,
            q == n / d,
            r == n % d,
    ;
    if r == 0 {
        assert((n + d - 1) / d == q) by (nonlinear_arith)
            requires
                n == q * d,
                d > 0,
        ;
        assert((q - 1) * d < n) by (nonlinear_arith)
            requires
                n == q * d,
                d > 0,
        ;
    } else {
        assert((n + d - 1) / d == q + 1) by (nonlinear_arith)
            requires
                n == q * d + r,
                0 < r < d,
        ;
        assert((q + 1 - 1) * d < n && n <= (q + 1) * d) by (nonlinear_arith)
            requires
                n == q * d + r,
                0 < r < d,
        ;
    }
}

/// Rounded-up division, without overflow for any dividend.
pub fn div_ceil(dividend: u32, divisor: u32) -> (q: u32)
    requires
        divisor > 0,
    ensures
        q == ceil_div(dividend as int, divisor as int),
{
    proof {
        lemma_ceil_div_is_ceiling(dividend as int, divisor as int);
    }
    let q: u32 = dividend / divisor;
    if dividend % divisor == 0 {
        q
    } else {
        assert(q < u32::MAX) by (nonlinear_arith)
            requires
                q == dividend as int / divisor as int,
                dividend as int % divisor as int != 0,
                divisor > 0,
                dividend <= u32::MAX,
        ;
        q + 1
    }
}

/// The character of one decimal digit.
pub open spec fn digit_char(d: int) -> char {
    if d == 0 {
        '0'
    } else if d == 1 {
        '1'
    } else if d == 2 {
        '2'
    } else if d == 3 {
        '3'
    } else if d == 4 {
        '4'
    } else if d == 5 {
        '5'
    } else if d == 6 {
        '6'
    } else if d == 7 {
        '7'
    } else if d == 8 {
        '8'
    } else {
        '9'
    }
}

/// The value of a decimal digit, if the character is one.
pub open spec fn digit_value(c: char) -> Option<int> {
    if c == '0' {
        Some(0int)
    } else if c == '1' {
        Some(1int)
    } else if c == '2' {
        Some(2int)
    } else if c == '3' {
        Some(3int)
    } else if c == '4' {
        Some(4int)
    } else if c == '5' {
        Some(5int)
    } else if c == '6' {
        Some(6int)
    } else if c == '7' {
        Some(7int)
    } else if c == '8' {
        Some(8int)
    } else if c == '9' {
        Some(9int)
    } else {
        None
    }
}

/// A number in decimal digits, without leading zeros.
pub open spec fn decimal(n: nat) -> Seq<char>
    decreases n,
{
    if n < 10 {
        seq![digit_char(n as int)]
    } else {
        decimal(n / 10).push(digit_char((n % 10) as int))
    }
}

/// The number that a text of decimal digits writes. A text that is empty or
/// holds anything but digits writes none.
pub open spec fn decimal_value(s: Seq<char>) -> Option<nat>
    decreases s.len(),
{
    if s.len() == 0 {
        None
    } else if s.len() == 1 {
        match digit_value(s[0]) {
            Some(d) => Some(d as nat),
            None => None,
        }
    } else {
        match (decimal_value(s.drop_last()), digit_value(s.last())) {
            (Some(v), Some(d)) => Some((v * 10 + d) as nat),
            _ => None,
        }
    }
}

/// Reading a number's decimal digits gives the number.
pub proof fn lemma_decimal_round_trip(n: nat)
    ensures
        decimal(n).len() >= 1,
        decimal_value(decimal(n)) == Some(n),
    decreases n,
{
    if n < 10 {
        assert(digit_value(digit_char(n as int)) == Some(n as int));
    } else {
        lemma_decimal_round_trip(n / 10);
        let s = decimal(n);
        assert(s.drop_last() =~= decimal(n / 10));
        assert(s.last() == digit_char((n % 10) as int));
        assert(digit_value(digit_char((n % 10) as int)) == Some((n % 10) as int));
        if decimal(n / 10).len() == 1 && s.len() == 1 {
            assert(false);
        }
    }
}

fn digit_str(d: u32) -> (r: &'static str)
    requires
        d < 10,
    ensures
        r@ == seq![digit_char(d as int)],
{
    proof {
        reveal_strlit("0");
        reveal_strlit("1");
        reveal_strlit("2");
        reveal_strlit("3");
        reveal_strlit("4");
        reveal_strlit("5");
        reveal_strlit("6");
        reveal_strlit("7");
        reveal_strlit("8");
        reveal_strlit("9");
    }
    let r = if d == 0 {
        "0"
    } else if d == 1 {
        "1"
    } else if d == 2 {
        "2"
    } else if d == 3 {
        "3"
    } else if d == 4 {
        "4"
    } else if d == 5 {
        "5"
    } else if d == 6 {
        "6"
    } else if d == 7 {
        "7"
    } else if d == 8 {
        "8"
    } else {
        "9"
    };
    assert(r@ =~= seq![digit_char(d as int)]);
    r
}

/// Writes a number in decimal digits.
pub fn u32_to_string(n: u32) -> (s: String)
    ensures
        s@ == decimal(n as nat),
    decreases n,
{
    if n < 10 {
        String::from_str(digit_str(n))
    } else {
        let mut s = u32_to_string(n / 10);
        s.append(digit_str(n % 10));
        assert(s@ =~= decimal((n / 10) as nat).push(digit_char((n % 10) as int)));
        s
    }
}

fn digit_of(c: char) -> (r: Option<u32>)
    ensures
        match r {
            Some(d) => digit_value(c) == Some(d as int) && d < 10,
            None => digit_value(c) is None,
        },
{
    if c == '0' {
        Some(0)
    } else if c == '1' {
        Some(1)
    } else if c == '2' {
        Some(2)
    } else if c == '3' {
        Some(3)
    } else if c == '4' {
        Some(4)
    } else if c == '5' {
        Some(5)
    } else if c == '6' {
        Some(6)
    } else if c == '7' {
        Some(7)
    } else if c == '8' {
        Some(8)
    } else if c == '9' {
        Some(9)
    } else {
        None
    }
}

/// The number below 2^32 that the characters of `s` from `from` on write in
/// decimal digits; `None` where they write none, or a larger one.
pub open spec fn spec_parse_u32(s: Seq<char>, from: int) -> Option<u32> {
    if 0 <= from <= s.len() {
        match decimal_value(s.subrange(from, s.len() as int)) {
            Some(v) => if v <= u32::MAX {
                Some(v as u32)
            } else {
                None
            },
            None => None,
        }
    } else {
        None
    }
}

/// Reads the decimal number that `s` holds from its `from`-th character on.
pub fn parse_u32_from(s: &str, from: usize) -> (r: Option<u32>)
    ensures
        r == spec_parse_u32(s@, from as int),
{
    let n = s.unicode_len();
    if from >= n {
        proof {
            if from == n {
                assert(s@.subrange(from as int, n as int).len() == 0);
            }
        }
        return None;
    }
    let ghost t = s@.subrange(from as int, n as int);
    let mut acc: u64 = 0;
    let mut i: usize = from;
    let mut over: bool = false;
    while i < n
        invariant
            n == s@.len(),
            from <= i <= n,
            from < n,
            t == s@.subrange(from as int, n as int),
            !over ==> acc <= u32::MAX,
            i > from && !over ==> decimal_value(t.subrange(0, i - from)) == Some(acc as nat),
            i > from && over ==> (decimal_value(t.subrange(0, i - from)) matches Some(v) && v
                > u32::MAX),
            i == from ==> acc == 0 && !over,
        decreases n - i,
    {
        let c = s.get_char(i);
        let ghost k = i - from;
        proof {
            let u = t.subrange(0, k + 1);
            assert(u.last() == c);
            assert(u.drop_last() =~= t.subrange(0, k));
            if k == 0 {
                assert(u.len() == 1);
                assert(u[0] == c);
            }
        }
        match digit_of(c) {
            Some(d) => {
                if !over {
                    acc = acc * 10 + d as u64;
                    if acc > 0xffff_ffff {
                        over = true;
                    }
                }
            },
            None => {
                proof {
                    lemma_no_value_after(t, k + 1);
                }
                return None;
            },
        }
        i = i + 1;
    }
    proof {
        assert(t.subrange(0, n - from) =~= t);
    }
    if over {
        None
    } else {
        Some(acc as u32)
    }
}

/// A text with a prefix that writes no number writes none.
proof fn lemma_no_value_after(t: Seq<char>, k: int)
    requires
        1 <= k <= t.len(),
        decimal_value(t.subrange(0, k)) is None,
    ensures
        decimal_value(t) is None,
    decreases t.len() - k,
{
    if k == t.len() {
        assert(t.subrange(0, k) =~= t);
    } else {
        let u = t.subrange(0, k + 1);
        assert(u.drop_last() =~= t.subrange(0, k));
        lemma_no_value_after(t, k + 1);
    }
}

} // verus!
