//! Verified conversions between decimal text and 32-bit integers.

use vstd::prelude::*;

verus! {

/// An ASCII decimal digit.
pub open spec fn is_digit(c: char) -> bool {
    '0' <= c && c <= '9'
}

/// The value of one digit.
pub open spec fn digit_val(c: char) -> int {
    c as int - 48
}

/// The digit for a value below ten.
pub open spec fn digit_char(d: int) -> char {
    (48 + d) as char
}

/// Every character of `s` is a digit.
pub open spec fn all_digits(s: Seq<char>) -> bool {
    forall|i: int| 0 <= i < s.len() ==> is_digit(#[trigger] s[i])
}

/// The value of a digit string, most significant first.
pub open spec fn digits_val(s: Seq<char>) -> int
    decreases s.len(),
{
    if s.len() == 0 {
        0
    } else {
        digits_val(s.drop_last()) * 10 + digit_val(s.last())
    }
}

/// A digit string's value is nonnegative and grows with every appended
/// digit: the value of the whole is at least the value of any prefix.
pub proof fn lemma_digits_val_grows(s: Seq<char>, k: int)
    requires
        all_digits(s),
        0 <= k <= s.len(),
    ensures
        0 <= digits_val(s.take(k)) <= digits_val(s),
    decreases s.len(),
{
    if s.len() == 0 {
        assert(s.take(k) =~= s);
    } else {
        let head = s.drop_last();
        assert(all_digits(head));
        assert(is_digit(s.last()));
        lemma_digits_val_grows(head, if k <= head.len() {
            k
        } else {
            head.len() as int
        });
        if k <= head.len() {
            assert(s.take(k) =~= head.take(k));
        } else {
            assert(s.take(k) =~= s);
            assert(head.take(head.len() as int) =~= head);
        }
        assert(digits_val(head) * 10 >= digits_val(head)) by (nonlinear_arith)
            requires
                digits_val(head) >= 0,
        ;
    }
}

/// The meaning of `i32` decimal parsing: an optional sign, then at least
/// one digit and nothing else, with the value in range; everything else is
/// no parse.
pub open spec fn spec_parse_i32(s: Seq<char>) -> Option<int> {
    let neg = s.len() > 0 && s[0] == '-';
    let signed = neg || (s.len() > 0 && s[0] == '+');
    let ds = if signed {
        s.skip(1)
    } else {
        s
    };
    if ds.len() == 0 || !all_digits(ds) {
        None
    } else {
        let v = if neg {
            -digits_val(ds)
        } else {
            digits_val(ds)
        };
        if -0x8000_0000 <= v <= 0x7fff_ffff {
            Some(v)
        } else {
            None
        }
    }
}

/// Parses `s` as a decimal `i32`, exactly as [`spec_parse_i32`] reads it.
#[verifier::loop_isolation(false)]
pub fn parse_i32(s: &str) -> (r: Option<i32>)
    ensures
        match r {
            Some(v) => spec_parse_i32(s@) == Some(v as int),
            None => spec_parse_i32(s@) == None::<int>,
        },
{
    let n = s.unicode_len();
    if n == 0 {
        return None;
    }
    let first = s.get_char(0);
    let neg = first == '-';
    let signed = neg || first == '+';
    let start: usize = if signed {
        1
    } else {
        0
    };
    let ghost ds = if signed {
        s@.skip(1)
    } else {
        s@
    };
    if start == n {
        proof {
            assert(ds.len() == 0);
        }
        return None;
    }
    let mut i: usize = start;
    let mut m: u64 = 0;
    while i < n
        invariant
            start <= i <= n,
            n == s@.len(),
            start == (if signed {
                1int
            } else {
                0int
            }),
            ds == (if signed {
                s@.skip(1)
            } else {
                s@
            }),
            all_digits(ds.take(i - start)),
            m == digits_val(ds.take(i - start)),
            m <= 0x8000_0000,
        decreases n - i,
    {
        let c = s.get_char(i);
        if !(c >= '0' && c <= '9') {
            proof {
                assert(ds[i - start] == c);
                assert(!is_digit(ds[i - start]));
                assert(!all_digits(ds));
            }
            return None;
        }
        let d: u64 = (c as u32 as u64) - 48;
        proof {
            let k = i - start;
            assert(ds.take(k + 1).drop_last() =~= ds.take(k));
            assert(ds.take(k + 1).last() == ds[k]);
            assert(ds[k] == c);
            assert(is_digit(ds[k]));
            assert(all_digits(ds.take(k + 1)));
        }
        m = m * 10 + d;
        if m > 0x8000_0000 {
            proof {
                let k = i + 1 - start;
                assert(m == digits_val(ds.take(k as int)));
                if all_digits(ds) {
                    lemma_digits_val_grows(ds, k as int);
                    assert(digits_val(ds) >= m as int);
                }
            }
            return None;
        }
        i = i + 1;
    }
    proof {
        assert(ds.take(n - start as int) =~= ds);
        assert(ds.len() > 0);
    }
    if neg {
        let v: i64 = -(m as i64);
        Some(v as i32)
    } else {
        if m > 0x7fff_ffff {
            return None;
        }
        Some(m as i32)
    }
}

/// The decimal digits of a nonnegative value, most significant first.
pub open spec fn dec_rep(n: int) -> Seq<char>
    decreases n,
{
    if n < 10 {
        seq![digit_char(n)]
    } else {
        dec_rep(n / 10) + seq![digit_char(n % 10)]
    }
}

/// The decimal text of a value: a minus sign and the magnitude's digits,
/// or just the digits.
pub open spec fn spec_format_i32(v: int) -> Seq<char> {
    if v < 0 {
        seq!['-'] + dec_rep(-v)
    } else {
        dec_rep(v)
    }
}

/// One digit as text.
fn digit_string(d: u64) -> (r: &'static str)
    requires
        d < 10,
    ensures
        r@ == seq![digit_char(d as int)],
{
    proof {
        reveal_strlit("0");
        reveal_strlit("1");
        reveal_strlit("2");
        reveal_strlit("3");
        reveal_strlit("4");
        reveal_strlit("5");
        reveal_strlit("6");
        reveal_strlit("7");
        reveal_strlit("8");
        reveal_strlit("9");
    }
    let r = if d == 0 {
        "0"
    } else if d == 1 {
        "1"
    } else if d == 2 {
        "2"
    } else if d == 3 {
        "3"
    } else if d == 4 {
        "4"
    } else if d == 5 {
        "5"
    } else if d == 6 {
        "6"
    } else if d == 7 {
        "7"
    } else if d == 8 {
        "8"
    } else {
        "9"
    };
    proof {
        assert(r@ =~= seq![digit_char(d as int)]);
    }
    r
}

/// The decimal digits of a magnitude.
pub fn format_u64(m: u64) -> (r: String)
    ensures
        r@ == dec_rep(m as int),
    decreases m,
{
    if m < 10 {
        let d = digit_string(m);
        d.to_owned()
    } else {
        let mut out = format_u64(m / 10);
        let d = digit_string(m % 10);
        out.append(d);
        out
    }
}

/// Formats `v` in decimal, exactly as [`spec_format_i32`] spells it.
pub fn format_i32(v: i32) -> (r: String)
    ensures
        r@ == spec_format_i32(v as int),
{
    if v < 0 {
        let m: u64 = (-(v as i64)) as u64;
        let mut out = String::from_str("-");
        let digits = format_u64(m);
        out.append(digits.as_str());
        proof {
            reveal_strlit("-");
            assert(out@ =~= spec_format_i32(v as int));
        }
        out
    } else {
        format_u64(v as u64)
    }
}

} // verus!
