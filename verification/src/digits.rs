//! Decimal numerals: parsing a signed 32-bit exit code from a word, and
//! rendering an index for the history listing.

use vstd::prelude::*;

verus! {

/// Whether a character is a decimal digit.
pub open spec fn is_digit(c: char) -> bool {
    48 <= c as int <= 57
}

/// The value of a decimal digit.
pub open spec fn digit_val(c: char) -> int {
    c as int - 48
}

/// The value of a digit string, most significant digit first.
pub open spec fn digits_val(s: Seq<char>) -> int
    decreases s.len(),
{
    if s.len() == 0 {
        0
    } else {
        digits_val(s.drop_last()) * 10 + digit_val(s.last())
    }
}

/// Whether a string is one or more decimal digits.
pub open spec fn all_digits(s: Seq<char>) -> bool {
    s.len() >= 1 && forall|i: int| 0 <= i < s.len() ==> is_digit(#[trigger] s[i])
}

/// The number a word denotes as a signed 32-bit value: an optional sign,
/// then one or more digits, with the value in range; anything else is
/// `None`.
pub open spec fn spec_parse_i32(s: Seq<char>) -> Option<i32> {
    let neg = s.len() >= 1 && s[0] == '-';
    let signed = s.len() >= 1 && (s[0] == '-' || s[0] == '+');
    let ds = if signed {
        s.skip(1)
    } else {
        s
    };
    if all_digits(ds) {
        let v = if neg {
            -digits_val(ds)
        } else {
            digits_val(ds)
        };
        if -0x8000_0000 <= v <= 0x7fff_ffff {
            Some(v as i32)
        } else {
            None
        }
    } else {
        None
    }
}

proof fn lemma_digits_val_nonneg(s: Seq<char>)
    requires
        forall|i: int| 0 <= i < s.len() ==> is_digit(#[trigger] s[i]),
    ensures
        digits_val(s) >= 0,
    decreases s.len(),
{
    if s.len() > 0 {
        lemma_digits_val_nonneg(s.drop_last());
    }
}

/// Parses a word as a signed 32-bit decimal number.
pub fn parse_i32(s: &String) -> (r: Option<i32>)
    ensures
        r == spec_parse_i32(s@),
{
    let n = s.as_str().unicode_len();
    if n == 0 {
        return None;
    }
    let c0 = s.as_str().get_char(0);
    let neg = c0 == '-';
    let signed = neg || c0 == '+';
    let start: usize = if signed {
        1
    } else {
        0
    };
    let ghost ds: Seq<char> = if signed {
        s@.skip(1)
    } else {
        s@
    };
    proof {
        assert(ds =~= s@.subrange(start as int, n as int));
    }
    if start == n {
        proof {
            assert(!all_digits(ds));
        }
        return None;
    }
    let mut acc: u64 = 0;
    let mut too_big = false;
    let mut i: usize = start;
    while i < n
        invariant
            start <= i <= n,
            n == s@.len(),
            start as int == (if s@.len() >= 1 && (s@[0] == '-' || s@[0] == '+') {
                1int
            } else {
                0int
            }),
            ds == s@.subrange(start as int, n as int),
            forall|k: int| start <= k < i ==> is_digit(#[trigger] s@[k]),
            !too_big ==> acc <= 4_000_000_000 && acc as int == digits_val(
                s@.subrange(start as int, i as int),
            ),
            too_big ==> digits_val(s@.subrange(start as int, i as int)) > 4_000_000_000,
        decreases n - i,
    {
        let c = s.as_str().get_char(i);
        let cv = c as u32;
        if cv < 48 || cv > 57 {
            proof {
                assert(ds[i - start as int] == s@[i as int]);
                assert(!all_digits(ds));
            }
            return None;
        }
        let d: u64 = (cv - 48) as u64;
        proof {
            let pre = s@.subrange(start as int, i as int);
            let post = s@.subrange(start as int, i as int + 1);
            assert(post.drop_last() =~= pre);
            assert(post.last() == s@[i as int]);
            assert(forall|k: int| 0 <= k < pre.len() ==> is_digit(#[trigger] pre[k]));
            lemma_digits_val_nonneg(pre);
        }
        if too_big {
            proof {
                let pre = s@.subrange(start as int, i as int);
                let post = s@.subrange(start as int, i as int + 1);
                assert(digits_val(post) == digits_val(pre) * 10 + digit_val(s@[i as int]));
            }
        } else {
            let next = acc * 10 + d;
            if next > 4_000_000_000 {
                too_big = true;
            } else {
                acc = next;
            }
        }
        i = i + 1;
    }
    proof {
        assert(s@.subrange(start as int, n as int) == ds);
        assert(all_digits(ds));
    }
    if too_big {
        return None;
    }
    if neg {
        if acc > 0x8000_0000 {
            None
        } else {
            let v: i64 = -(acc as i64);
            Some(v as i32)
        }
    } else {
        if acc > 0x7fff_ffff {
            None
        } else {
            Some(acc as i32)
        }
    }
}

/// The digit character for a value below ten.
pub open spec fn dec_digit(n: int) -> char {
    if n == 0 {
        '0'
    } else if n == 1 {
        '1'
    } else if n == 2 {
        '2'
    } else if n == 3 {
        '3'
    } else if n == 4 {
        '4'
    } else if n == 5 {
        '5'
    } else if n == 6 {
        '6'
    } else if n == 7 {
        '7'
    } else if n == 8 {
        '8'
    } else {
        '9'
    }
}

/// The decimal numeral of a non-negative number, without sign or padding.
pub open spec fn dec_str(n: int) -> Seq<char>
    decreases n,
{
    if n < 10 {
        seq![dec_digit(n)]
    } else {
        dec_str(n / 10).push(dec_digit(n % 10))
    }
}

fn digit_str(d: u64) -> (r: &'static str)
    requires
        d < 10,
    ensures
        r@ == seq![dec_digit(d as int)],
{
    proof {
        reveal_strlit("0");
        reveal_strlit("1");
        reveal_strlit("2");
        reveal_strlit("3");
        reveal_strlit("4");
        reveal_strlit("5");
        reveal_strlit("6");
        reveal_strlit("7");
        reveal_strlit("8");
        reveal_strlit("9");
    }
    let r = if d == 0 {
        "0"
    } else if d == 1 {
        "1"
    } else if d == 2 {
        "2"
    } else if d == 3 {
        "3"
    } else if d == 4 {
        "4"
    } else if d == 5 {
        "5"
    } else if d == 6 {
        "6"
    } else if d == 7 {
        "7"
    } else if d == 8 {
        "8"
    } else {
        "9"
    };
    proof {
        assert(r@ =~= seq![dec_digit(d as int)]);
    }
    r
}

fn push_dec(n: u64, out: &mut String)
    ensures
        final(out)@ == old(out)@ + dec_str(n as int),
    decreases n,
{
    if n >= 10 {
        push_dec(n / 10, out);
    }
    out.append(digit_str(n % 10));
    proof {
        assert(out@ =~= old(out)@ + dec_str(n as int));
    }
}

/// A numeral padded on the left with spaces to at least four characters.
pub open spec fn pad4(s: Seq<char>) -> Seq<char> {
    if s.len() >= 4 {
        s
    } else if s.len() == 3 {
        " "@ + s
    } else if s.len() == 2 {
        "  "@ + s
    } else if s.len() == 1 {
        "   "@ + s
    } else {
        "    "@ + s
    }
}

/// Renders a number as its decimal numeral, right-aligned to four
/// columns.
pub fn dec_padded4(n: u64) -> (r: String)
    ensures
        r@ == pad4(dec_str(n as int)),
{
    let mut digits = String::new();
    push_dec(n, &mut digits);
    proof {
        assert(digits@ =~= dec_str(n as int));
    }
    let len = digits.as_str().unicode_len();
    let mut out: String = if len >= 4 {
        String::new()
    } else if len == 3 {
        String::from_str(" ")
    } else if len == 2 {
        String::from_str("  ")
    } else if len == 1 {
        String::from_str("   ")
    } else {
        String::from_str("    ")
    };
    out.append(digits.as_str());
    proof {
        assert(out@ =~= pad4(dec_str(n as int)));
    }
    out
}

} // verus!
