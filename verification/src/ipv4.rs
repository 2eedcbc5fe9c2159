//! Destination-address validation: a dotted-quad IPv4 parser with an exact
//! characterization of the strings it accepts. The entry point rejects a
//! malformed destination synchronously, before any transfer is scheduled.

use vstd::prelude::*;
use crate::digits::{is_digit, all_digits, dec_val, read_decimal};

verus! {

/// `s` writes one octet of a dotted-quad address: one to three decimal
/// digits, no leading zero, value at most 255.
pub open spec fn valid_octet(s: Seq<char>) -> bool {
    &&& 1 <= s.len() <= 3
    &&& all_digits(s)
    &&& dec_val(s) <= 255
    &&& (s.len() > 1 ==> s[0] != '0')
}

/// Positions `p1 < p2 < p3` split `s` into four valid octets separated by
/// dots.
pub open spec fn ip_split(s: Seq<char>, p1: int, p2: int, p3: int) -> bool {
    &&& 0 <= p1 < p2 < p3 < s.len()
    &&& s[p1] == '.'
    &&& s[p2] == '.'
    &&& s[p3] == '.'
    &&& valid_octet(s.subrange(0, p1))
    &&& valid_octet(s.subrange(p1 + 1, p2))
    &&& valid_octet(s.subrange(p2 + 1, p3))
    &&& valid_octet(s.subrange(p3 + 1, s.len() as int))
}

/// `s` writes a syntactically valid dotted-quad IPv4 address.
pub open spec fn valid_ipv4(s: Seq<char>) -> bool {
    exists|p1: int, p2: int, p3: int| ip_split(s, p1, p2, p3)
}

/// In a valid split the three separator positions are the only dots in the
/// string: every other character sits inside an octet and is a digit.
pub proof fn lemma_split_dots(s: Seq<char>, p1: int, p2: int, p3: int)
    requires
        ip_split(s, p1, p2, p3),
    ensures
        forall|q: int| 0 <= q < s.len() && s[q] == '.' ==> q == p1 || q == p2 || q == p3,
{
    assert forall|q: int| 0 <= q < s.len() && s[q] == '.' implies q == p1 || q == p2 || q == p3 by {
        if q != p1 && q != p2 && q != p3 {
            if q < p1 {
                assert(s.subrange(0, p1)[q] == s[q]);
            } else if q < p2 {
                assert(s.subrange(p1 + 1, p2)[q - (p1 + 1)] == s[q]);
            } else if q < p3 {
                assert(s.subrange(p2 + 1, p3)[q - (p2 + 1)] == s[q]);
            } else {
                assert(s.subrange(p3 + 1, s.len() as int)[q - (p3 + 1)] == s[q]);
            }
        }
    }
}

/// Reads the octet written in `s[lo..hi)`; `None` unless that range is a
/// valid octet, and on success exactly its decimal value.
fn parse_octet(s: &str, lo: usize, hi: usize) -> (r: Option<u8>)
    requires
        lo <= hi <= s@.len(),
    ensures
        r is Some <==> valid_octet(s@.subrange(lo as int, hi as int)),
        (r matches Some(v) ==> v as int == dec_val(s@.subrange(lo as int, hi as int))),
{
    let ghost seg = s@.subrange(lo as int, hi as int);
    let n = hi - lo;
    if n == 0 || n > 3 {
        return None;
    }
    let v = match read_decimal(s, lo, hi) {
        Some(v) => v,
        None => {
            return None;
        },
    };
    if n > 1 && s.get_char(lo) == '0' {
        proof {
            assert(seg[0] == s@[lo as int]);
        }
        return None;
    }
    if v > 255 {
        return None;
    }
    Some(v as u8)
}

/// Parses a dotted-quad IPv4 address. Returns `Some` exactly on the strings
/// `valid_ipv4` describes, and then the four octet values of the (unique)
/// split of the string.
pub fn parse_ipv4(s: &str) -> (r: Option<(u8, u8, u8, u8)>)
    ensures
        r is Some <==> valid_ipv4(s@),
        (r matches Some(addr) ==> exists|p1: int, p2: int, p3: int|
            {
                &&& ip_split(s@, p1, p2, p3)
                &&& addr.0 as int == dec_val(s@.subrange(0, p1))
                &&& addr.1 as int == dec_val(s@.subrange(p1 + 1, p2))
                &&& addr.2 as int == dec_val(s@.subrange(p2 + 1, p3))
                &&& addr.3 as int == dec_val(s@.subrange(p3 + 1, s@.len() as int))
            }),
{
    let len = s.unicode_len();
    let mut i: usize = 0;
    let mut ndots: usize = 0;
    let mut d1: usize = 0;
    let mut d2: usize = 0;
    let mut d3: usize = 0;
    while i < len
        invariant
            len == s@.len(),
            0 <= i <= len,
            ndots <= 3,
            ndots >= 1 ==> 0 <= d1 < i && s@[d1 as int] == '.',
            ndots >= 2 ==> d1 < d2 < i && s@[d2 as int] == '.',
            ndots >= 3 ==> d2 < d3 < i && s@[d3 as int] == '.',
            forall|q: int|
                0 <= q < i && s@[q] == '.' ==> ((ndots >= 1 && q == d1) || (ndots >= 2 && q == d2)
                    || (ndots >= 3 && q == d3)),
        decreases len - i,
    {
        let c = s.get_char(i);
        if c == '.' {
            if ndots == 3 {
                // a fourth dot: no split can place four distinct dots on
                // three separator positions
                proof {
                    if valid_ipv4(s@) {
                        let (p1, p2, p3) = choose|p1: int, p2: int, p3: int|
                            ip_split(s@, p1, p2, p3);
                        lemma_split_dots(s@, p1, p2, p3);
                    }
                }
                return None;
            }
            if ndots == 0 {
                d1 = i;
            } else if ndots == 1 {
                d2 = i;
            } else {
                d3 = i;
            }
            ndots = ndots + 1;
        }
        i = i + 1;
    }
    if ndots != 3 {
        proof {
            if valid_ipv4(s@) {
                let (p1, p2, p3) = choose|p1: int, p2: int, p3: int| ip_split(s@, p1, p2, p3);
                lemma_split_dots(s@, p1, p2, p3);
            }
        }
        return None;
    }
    let a = parse_octet(s, 0, d1);
    let b = parse_octet(s, d1 + 1, d2);
    let c = parse_octet(s, d2 + 1, d3);
    let d = parse_octet(s, d3 + 1, len);
    proof {
        if valid_ipv4(s@) {
            let (p1, p2, p3) = choose|p1: int, p2: int, p3: int| ip_split(s@, p1, p2, p3);
            lemma_split_dots(s@, p1, p2, p3);
            assert(p1 == d1 && p2 == d2 && p3 == d3);
        }
    }
    match (a, b, c, d) {
        (Some(a), Some(b), Some(c), Some(d)) => {
            proof {
                assert(ip_split(s@, d1 as int, d2 as int, d3 as int));
            }
            Some((a, b, c, d))
        },
        _ => None,
    }
}

/// Validates the destination address of a send request: the octets of the
/// address when it is well formed, and an error message otherwise. This is
/// the synchronous check the entry point makes before it schedules any
/// transfer task.
pub fn validate_destination(dst_ip: &str) -> (r: Result<(u8, u8, u8, u8), String>)
    ensures
        r is Ok <==> valid_ipv4(dst_ip@),
        (r matches Ok(addr) ==> exists|p1: int, p2: int, p3: int|
            {
                &&& ip_split(dst_ip@, p1, p2, p3)
                &&& addr.0 as int == dec_val(dst_ip@.subrange(0, p1))
                &&& addr.1 as int == dec_val(dst_ip@.subrange(p1 + 1, p2))
                &&& addr.2 as int == dec_val(dst_ip@.subrange(p2 + 1, p3))
                &&& addr.3 as int == dec_val(dst_ip@.subrange(p3 + 1, dst_ip@.len() as int))
            }),
        (r matches Err(m) ==> m@ == "Invalid dst_ip"@),
{
    match parse_ipv4(dst_ip) {
        Some(addr) => Ok(addr),
        None => Err("Invalid dst_ip".to_owned()),
    }
}

} // verus!
