//! Decimal digits: reading a number out of a character range and rendering
//! a number back as characters, with exact specifications of both.

use vstd::prelude::*;

verus! {

/// `c` is a decimal digit.
pub open spec fn is_digit(c: char) -> bool {
    '0' <= c && c <= '9'
}

/// The value of a decimal digit.
pub open spec fn digit_val(c: char) -> int {
    (c as int) - ('0' as int)
}

/// Every character of `s` is a decimal digit.
pub open spec fn all_digits(s: Seq<char>) -> bool {
    forall|k: int| 0 <= k < s.len() ==> is_digit(s[k])
}

/// The number written in decimal as `s`.
pub open spec fn dec_val(s: Seq<char>) -> int
    decreases s.len(),
{
    if s.len() == 0 {
        0
    } else {
        dec_val(s.drop_last()) * 10 + digit_val(s.last())
    }
}

/// The digit character for a value below ten.
pub open spec fn char_of_digit(d: int) -> char {
    if d == 0 {
        '0'
    } else if d == 1 {
        '1'
    } else if d == 2 {
        '2'
    } else if d == 3 {
        '3'
    } else if d == 4 {
        '4'
    } else if d == 5 {
        '5'
    } else if d == 6 {
        '6'
    } else if d == 7 {
        '7'
    } else if d == 8 {
        '8'
    } else {
        '9'
    }
}

/// The decimal writing of `n`, without leading zeros (just `0` for zero).
pub open spec fn dec_str(n: nat) -> Seq<char>
    decreases n,
{
    if n < 10 {
        seq![char_of_digit(n as int)]
    } else {
        dec_str(n / 10) + seq![char_of_digit((n % 10) as int)]
    }
}

/// Reads the number written in `s[lo..hi)`: `None` unless the range is all
/// digits, and otherwise exactly its decimal value. The range is at most
/// four digits, so the value is below ten thousand.
pub fn read_decimal(s: &str, lo: usize, hi: usize) -> (r: Option<u32>)
    requires
        lo <= hi <= s@.len(),
        hi - lo <= 4,
    ensures
        r is Some <==> all_digits(s@.subrange(lo as int, hi as int)),
        (r matches Some(v) ==> v as int == dec_val(s@.subrange(lo as int, hi as int))),
        (r matches Some(v) ==> v <= 9999),
{
    let ghost seg = s@.subrange(lo as int, hi as int);
    let n = hi - lo;
    let mut j: usize = 0;
    let mut v: u32 = 0;
    while j < n
        invariant
            lo <= hi <= s@.len(),
            n == hi - lo <= 4,
            0 <= j <= n,
            seg == s@.subrange(lo as int, hi as int),
            all_digits(seg.subrange(0, j as int)),
            v as int == dec_val(seg.subrange(0, j as int)),
            j == 0 ==> v == 0,
            j == 1 ==> v <= 9,
            j == 2 ==> v <= 99,
            j == 3 ==> v <= 999,
            j == 4 ==> v <= 9999,
        decreases n - j,
    {
        let c = s.get_char(lo + j);
        proof {
            assert(seg[j as int] == s@[(lo + j) as int]);
        }
        if !(c >= '0' && c <= '9') {
            proof {
                assert(!is_digit(seg[j as int]));
            }
            return None;
        }
        let d: u32 = (c as u32) - ('0' as u32);
        v = v * 10 + d;
        proof {
            assert(seg.subrange(0, (j + 1) as int).drop_last() =~= seg.subrange(0, j as int));
            assert(seg.subrange(0, (j + 1) as int).last() == seg[j as int]);
        }
        j = j + 1;
    }
    proof {
        assert(seg.subrange(0, n as int) =~= seg);
    }
    Some(v)
}

/// Renders `n` in decimal: the result reads back as exactly the characters
/// `dec_str` describes.
pub fn to_decimal(n: usize) -> (s: String)
    ensures
        s@ == dec_str(n as nat),
    decreases n,
{
    let d = n % 10;
    let digit: &str = if d == 0 {
        "0"
    } else if d == 1 {
        "1"
    } else if d == 2 {
        "2"
    } else if d == 3 {
        "3"
    } else if d == 4 {
        "4"
    } else if d == 5 {
        "5"
    } else if d == 6 {
        "6"
    } else if d == 7 {
        "7"
    } else if d == 8 {
        "8"
    } else {
        "9"
    };
    proof {
        reveal_strlit("0");
        reveal_strlit("1");
        reveal_strlit("2");
        reveal_strlit("3");
        reveal_strlit("4");
        reveal_strlit("5");
        reveal_strlit("6");
        reveal_strlit("7");
        reveal_strlit("8");
        reveal_strlit("9");
        assert(digit@ =~= seq![char_of_digit(d as int)]);
    }
    if n < 10 {
        digit.to_owned()
    } else {
        let mut s = to_decimal(n / 10);
        s.append(digit);
        proof {
            assert(s@ =~= dec_str(n as nat));
        }
        s
    }
}

} // verus!
