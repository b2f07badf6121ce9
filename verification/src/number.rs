use vstd::prelude::*;

verus! {

/// Whether `c` is an ASCII decimal digit.
pub open spec fn is_digit(c: char) -> bool {
    '0' <= c && c <= '9'
}

/// Whether every character of `s` is a decimal digit.
pub open spec fn all_digits(s: Seq<char>) -> bool {
    forall|i: int| 0 <= i < s.len() ==> is_digit(#[trigger] s[i])
}

/// The number that the decimal digits `s` spell.
pub open spec fn digits_value(s: Seq<char>) -> int
    decreases s.len(),
{
    if s.len() == 0 {
        0
    } else {
        digits_value(s.drop_last()) * 10 + (s.last() as int - '0' as int)
    }
}

/// `s` without a leading sign character.
pub open spec fn unsigned_part(s: Seq<char>) -> Seq<char> {
    if s.len() > 0 && (s[0] == '-' || s[0] == '+') {
        s.drop_first()
    } else {
        s
    }
}

/// The `i64` that `s` spells in decimal, with an optional leading `+` or
/// `-`: `None` when there are no digits, any other character occurs, or the
/// number does not fit.
pub open spec fn spec_parse_i64(s: Seq<char>) -> Option<i64> {
    let body = unsigned_part(s);
    let v = if s.len() > 0 && s[0] == '-' {
        -digits_value(body)
    } else {
        digits_value(body)
    };
    if body.len() == 0 || !all_digits(body) {
        None
    } else if i64::MIN <= v <= i64::MAX {
        Some(v as i64)
    } else {
        None
    }
}

proof fn lemma_digits_value_prefix(s: Seq<char>, k: int)
    requires
        all_digits(s),
        0 <= k <= s.len(),
    ensures
        0 <= digits_value(s.take(k)) <= digits_value(s),
    decreases s.len(),
{
    if s.len() > 0 {
        let rest = s.drop_last();
        assert(all_digits(rest)) by {
            assert forall|i: int| 0 <= i < rest.len() implies is_digit(#[trigger] rest[i]) by {
                assert(rest[i] == s[i]);
            }
        }
        assert(is_digit(s[s.len() - 1]));
        if k == s.len() {
            assert(s.take(k) == s);
            lemma_digits_value_prefix(rest, rest.len() as int);
            assert(rest.take(rest.len() as int) == rest);
        } else {
            lemma_digits_value_prefix(rest, k);
            assert(rest.take(k) == s.take(k));
            lemma_digits_value_prefix(rest, rest.len() as int);
            assert(rest.take(rest.len() as int) == rest);
        }
    } else {
        assert(s.take(k) == s);
    }
}

/// Parses `s` as a decimal `i64` the way `str::parse::<i64>` does: an
/// optional `+` or `-`, then one or more digits, within the range of `i64`.
pub fn parse_i64(s: &str) -> (res: Option<i64>)
    ensures
        res == spec_parse_i64(s@),
{
    let n = s.unicode_len();
    let mut start: usize = 0;
    let mut negative = false;
    if n > 0 {
        let first = s.get_char(0);
        if first == '-' {
            negative = true;
            start = 1;
        } else if first == '+' {
            start = 1;
        }
    }
    let ghost body = unsigned_part(s@);
    proof {
        assert(body == s@.subrange(start as int, n as int));
        assert(negative == (s@.len() > 0 && s@[0] == '-'));
    }
    if start == n {
        return None;
    }
    let limit: i128 = 0x8000_0000_0000_0000;
    let mut acc: i128 = 0;
    let mut i: usize = start;
    while i < n
        invariant
            n == s@.len(),
            start <= i <= n,
            body == s@.subrange(start as int, n as int),
            body == unsigned_part(s@),
            body.len() > 0,
            0 <= acc <= limit,
            limit == 0x8000_0000_0000_0000,
            acc == digits_value(body.take(i - start)),
            all_digits(body.take(i - start)),
        decreases n - i,
    {
        let c = s.get_char(i);
        proof {
            assert(body[i - start] == c);
            assert(body.take(i - start + 1).drop_last() == body.take(i - start));
            assert(body.take(i - start + 1).last() == c);
        }
        if c < '0' || c > '9' {
            proof {
                assert(!is_digit(body[i - start]));
                assert(!all_digits(body));
                assert(spec_parse_i64(s@) is None);
            }
            return None;
        }
        let d = (c as u32 - '0' as u32) as i128;
        acc = acc * 10 + d;
        proof {
            assert(acc == digits_value(body.take(i - start + 1)));
            assert(all_digits(body.take(i - start + 1))) by {
                assert forall|j: int| 0 <= j < i - start + 1 implies is_digit(
                    #[trigger] body.take(i - start + 1)[j],
                ) by {
                    if j < i - start {
                        assert(body.take(i - start + 1)[j] == body.take(i - start)[j]);
                    }
                }
            }
        }
        if acc > limit {
            proof {
                if all_digits(body) {
                    lemma_digits_value_prefix(body, i - start + 1);
                    assert(digits_value(body) > 0x8000_0000_0000_0000);
                }
                assert(spec_parse_i64(s@) is None);
            }
            return None;
        }
        i = i + 1;
    }
    proof {
        assert(body.take(n - start) == body);
    }
    if negative {
        Some((0 - acc) as i64)
    } else if acc <= 0x7fff_ffff_ffff_ffff {
        Some(acc as i64)
    } else {
        None
    }
}

/// The decimal digit character for `d`, which is below ten.
pub open spec fn digit_char(d: nat) -> char {
    if d == 0 {
        '0'
    } else if d == 1 {
        '1'
    } else if d == 2 {
        '2'
    } else if d == 3 {
        '3'
    } else if d == 4 {
        '4'
    } else if d == 5 {
        '5'
    } else if d == 6 {
        '6'
    } else if d == 7 {
        '7'
    } else if d == 8 {
        '8'
    } else {
        '9'
    }
}

/// The decimal digits of `n`, without leading zeros (`0` for zero).
pub open spec fn spec_digits(n: nat) -> Seq<char>
    decreases n,
{
    if n < 10 {
        seq![digit_char(n)]
    } else {
        spec_digits(n / 10).push(digit_char(n % 10))
    }
}

/// The decimal text of `x`: a `-` before the digits of a negative number.
pub open spec fn spec_format_i64(x: i64) -> Seq<char> {
    if x < 0 {
        seq!['-'] + spec_digits((-x) as nat)
    } else {
        spec_digits(x as nat)
    }
}

proof fn lemma_digits(n: nat)
    ensures
        spec_digits(n).len() >= 1,
        all_digits(spec_digits(n)),
        digits_value(spec_digits(n)) == n,
    decreases n,
{
    if n >= 10 {
        lemma_digits(n / 10);
        let d = spec_digits(n);
        assert(d.drop_last() == spec_digits(n / 10));
        assert(forall|i: int| 0 <= i < d.len() - 1 ==> d[i] == spec_digits(n / 10)[i]);
        assert(is_digit(digit_char(n % 10)));
        assert(digit_char(n % 10) as int - '0' as int == n % 10);
        assert(d.last() == digit_char(n % 10));
        assert(n == (n / 10) * 10 + n % 10) by (nonlinear_arith);
        assert(digits_value(d) == digits_value(spec_digits(n / 10)) * 10 + (n % 10));
    } else {
        assert(digit_char(n) as int - '0' as int == n);
        assert(spec_digits(n).drop_last() =~= Seq::<char>::empty());
        assert(digits_value(Seq::<char>::empty()) == 0);
        assert(spec_digits(n).last() == digit_char(n));
        assert(digits_value(spec_digits(n)) == digits_value(spec_digits(n).drop_last()) * 10 + (
        digit_char(n) as int - '0' as int));
    }
}

/// Printing a number in decimal and parsing the text gives the number back.
pub proof fn lemma_format_i64_parses_back(x: i64)
    ensures
        spec_parse_i64(spec_format_i64(x)) == Some(x),
{
    if x < 0 {
        let m = (-x) as nat;
        lemma_digits(m);
        let s = spec_format_i64(x);
        assert(s[0] == '-');
        assert(s.drop_first() =~= spec_digits(m));
        assert(unsigned_part(s) == spec_digits(m));
    } else {
        lemma_digits(x as nat);
        let s = spec_format_i64(x);
        assert(is_digit(s[0]));
        assert(unsigned_part(s) == s);
    }
}

fn digit_text(d: u64) -> (t: &'static str)
    requires
        d < 10,
    ensures
        t@ == seq![digit_char(d as nat)],
{
    proof {
        reveal_strlit("0");
        reveal_strlit("1");
        reveal_strlit("2");
        reveal_strlit("3");
        reveal_strlit("4");
        reveal_strlit("5");
        reveal_strlit("6");
        reveal_strlit("7");
        reveal_strlit("8");
        reveal_strlit("9");
    }
    if d == 0 {
        "0"
    } else if d == 1 {
        "1"
    } else if d == 2 {
        "2"
    } else if d == 3 {
        "3"
    } else if d == 4 {
        "4"
    } else if d == 5 {
        "5"
    } else if d == 6 {
        "6"
    } else if d == 7 {
        "7"
    } else if d == 8 {
        "8"
    } else {
        "9"
    }
}

fn append_digits(out: &mut String, n: u64)
    ensures
        final(out)@ == old(out)@ + spec_digits(n as nat),
    decreases n,
{
    if n >= 10 {
        append_digits(out, n / 10);
    }
    out.append(digit_text(n % 10));
    proof {
        if n >= 10 {
            assert(spec_digits(n as nat) == spec_digits((n / 10) as nat).push(digit_char((n % 10) as nat)));
        }
    }
}

/// The decimal text of `x`, as `parse_i64` reads it back.
pub fn format_i64(x: i64) -> (text: String)
    ensures
        text@ == spec_format_i64(x),
        spec_parse_i64(text@) == Some(x),
{
    proof {
        lemma_format_i64_parses_back(x);
    }
    let mut out = String::new();
    let magnitude: u64 = if x < 0 {
        (0 - (x as i128)) as u64
    } else {
        x as u64
    };
    if x < 0 {
        out.append("-");
        proof {
            reveal_strlit("-");
        }
    }
    append_digits(&mut out, magnitude);
    out
}

} // verus!
