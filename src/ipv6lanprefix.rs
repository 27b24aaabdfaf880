use vstd::prelude::*;
use vstd::string::*;

use crate::config::{Ipv6PrefixLen, Ipv6PrefixLenError};
use crate::search::{is_first, lemma_first_is_unique};

verus! {

/// A network prefix that a client reports for its LAN, written `<address>/<length>`.
#[derive(Clone, Copy, Debug)]
pub struct Ipv6LanPrefix {
    pub prefix: u128,
    pub prefix_length: Ipv6PrefixLen,
}

#[derive(Debug)]
#[allow(inconsistent_fields)]
pub enum Ipv6LanPrefixError {
    /// There is no `/` between the address and the length.
    NoSlash { string: String },
    /// The text before the first `/` is not an IPv6 address.
    InvalidAddress { prefix: String },
    /// The text after the first `/` is not a number from 0 to 255.
    PrefixLengthNotANumber { prefix_length: String },
    /// The length is a number above 128.
    InvalidPrefixLength { prefix_length: u8, source: Ipv6PrefixLenError },
}

/// `i` is the position of the first `/` in `s`.
pub open spec fn is_first_slash(s: Seq<char>, i: int) -> bool {
    is_first(|j: int| j < s.len() && s[j] == '/', i)
}

/// `s` holds a `/`.
pub open spec fn has_slash(s: Seq<char>) -> bool {
    exists|i: int| 0 <= i < s.len() && s[i] == '/'
}

pub open spec fn is_digit(c: char) -> bool {
    '0' <= c <= '9'
}

pub open spec fn all_digits(s: Seq<char>) -> bool {
    forall|i: int| 0 <= i < s.len() ==> is_digit(#[trigger] s[i])
}

/// The value of a string of decimal digits.
pub open spec fn digits_value(s: Seq<char>) -> nat
    decreases s.len(),
{
    if s.len() == 0 {
        0
    } else {
        digits_value(s.drop_last()) * 10 + (s.last() as nat - '0' as nat) as nat
    }
}

/// The number that `s` denotes as an unsigned 8-bit integer: an optional `+`, then one
/// or more decimal digits, of value at most 255.
pub open spec fn u8_of(s: Seq<char>) -> Option<u8> {
    let d = if s.len() > 1 && s[0] == '+' {
        s.subrange(1, s.len() as int)
    } else {
        s
    };
    if d.len() > 0 && all_digits(d) && digits_value(d) <= 255 {
        Some(digits_value(d) as u8)
    } else {
        None
    }
}

/// The length of `<address>/<length>`: the number after the first `/`, if it is one.
pub open spec fn lan_prefix_length(value: Seq<char>) -> Option<u8> {
    if has_slash(value) {
        let i = choose|i: int| is_first_slash(value, i);
        u8_of(value.subrange(i + 1, value.len() as int))
    } else {
        None
    }
}

/// Whether `<address>/<length>` parses, where `address` is the IPv6 address that the
/// text before the first `/` denotes, if any.
pub open spec fn lan_prefix_parses(value: Seq<char>, address: Option<u128>) -> bool {
    &&& has_slash(value)
    &&& address is Some
    &&& lan_prefix_length(value) matches Some(n)
    &&& n <= 128
}

/// The error that `<address>/<length>` gives where it does not parse: no `/`; else no
/// IPv6 address before the first `/`; else no number from 0 to 255 after it; else a
/// number above 128.
pub open spec fn lan_prefix_error_matches(
    value: Seq<char>,
    address: Option<u128>,
    e: Ipv6LanPrefixError,
) -> bool {
    if !has_slash(value) {
        e matches Ipv6LanPrefixError::NoSlash { string } && string@ == value
    } else {
        let i = choose|i: int| is_first_slash(value, i);
        let left = value.subrange(0, i);
        let right = value.subrange(i + 1, value.len() as int);
        match address {
            None => e matches Ipv6LanPrefixError::InvalidAddress { prefix } && prefix@ == left,
            Some(_) => match u8_of(right) {
                None => e matches Ipv6LanPrefixError::PrefixLengthNotANumber { prefix_length }
                    && prefix_length@ == right,
                Some(n) => e matches Ipv6LanPrefixError::InvalidPrefixLength {
                    prefix_length,
                    source,
                } && prefix_length == n && n > 128 && source == Ipv6PrefixLenError::TooLong {
                    prefixlen: n,
                },
            },
        }
    }
}

/// Parses an unsigned 8-bit decimal number, as `str::parse::<u8>` does.
pub fn parse_u8(s: &str) -> (r: Option<u8>)
    ensures
        r == u8_of(s@),
{
    let n = s.unicode_len();
    let mut k: usize = 0;
    if n > 1 && s.get_char(0) == '+' {
        k = 1;
    }
    let ghost d = if n > 1 && s@[0] == '+' {
        s@.subrange(1, n as int)
    } else {
        s@
    };
    if k == n {
        return None;
    }
    let ghost first = k;
    let mut value: u32 = 0;
    let mut too_big = false;
    assert(d =~= s@.subrange(first as int, n as int));
    assert(s@.subrange(first as int, first as int) =~= Seq::<char>::empty());
    while k < n
        invariant
            first <= k <= n,
            n == s@.len(),
            d == s@.subrange(first as int, n as int),
            d == (if n > 1 && s@[0] == '+' {
                s@.subrange(1, n as int)
            } else {
                s@
            }),
            forall|i: int| first <= i < k ==> is_digit(#[trigger] s@[i]),
            too_big ==> digits_value(s@.subrange(first as int, k as int)) > 255,
            !too_big ==> value == digits_value(s@.subrange(first as int, k as int)),
            value <= 255,
        decreases n - k,
    {
        let c = s.get_char(k);
        if !('0' <= c && c <= '9') {
            assert(d[k - first] == c);
            assert(!is_digit(d[k - first]));
            return None;
        }
        let ghost prev = s@.subrange(first as int, k as int);
        assert(s@.subrange(first as int, k + 1).drop_last() =~= prev);
        let digit = (c as u32) - ('0' as u32);
        if !too_big {
            let next = value * 10 + digit;
            if next > 255 {
                too_big = true;
            } else {
                value = next;
            }
        }
        k = k + 1;
    }
    assert(forall|i: int| 0 <= i < d.len() ==> d[i] == s@[first + i]);
    assert(all_digits(d));
    if too_big {
        None
    } else {
        Some(value as u8)
    }
}

/// The position of the first `/` in `s`, if any.
fn find_slash(s: &str) -> (r: Option<usize>)
    ensures
        match r {
            Some(i) => is_first_slash(s@, i as int),
            None => !has_slash(s@),
        },
{
    let n = s.unicode_len();
    let mut i: usize = 0;
    while i < n
        invariant
            i <= n,
            n == s@.len(),
            forall|j: int| 0 <= j < i ==> s@[j] != '/',
        decreases n - i,
    {
        if s.get_char(i) == '/' {
            assert(is_first_slash(s@, i as int));
            return Some(i);
        }
        i = i + 1;
    }
    None
}

impl Ipv6LanPrefix {
    /// The text before the first `/` of `value`: the part that names the address.
    pub fn address_text(value: &str) -> (r: Option<&str>)
        ensures
            match r {
                Some(a) => exists|i: int| is_first_slash(value@, i) && a@ == value@.subrange(0, i),
                None => !has_slash(value@),
            },
    {
        match find_slash(value) {
            Some(i) => Some(value.substring_char(0, i)),
            None => None,
        }
    }

    /// Parses `<address>/<length>`. The value is split at its first `/`; `address` is
    /// the IPv6 address that the text before it denotes, or `None` where that text is
    /// no IPv6 address. The length must be a number of at most 128.
    pub fn try_from(value: &str, address: Option<u128>) -> (r: Result<
        Ipv6LanPrefix,
        Ipv6LanPrefixError,
    >)
        ensures
            r is Ok <==> lan_prefix_parses(value@, address),
            r matches Ok(p) ==> Some(p.prefix) == address && Some(p.prefix_length@)
                == lan_prefix_length(value@),
            r matches Err(e) ==> lan_prefix_error_matches(value@, address, e),
    {
        let i = match find_slash(value) {
            Some(i) => i,
            None => {
                return Err(Ipv6LanPrefixError::NoSlash { string: value.to_owned() });
            },
        };
        let n = value.unicode_len();
        let prefix_str = value.substring_char(0, i);
        let prefix_length_str = value.substring_char(i + 1, n);
        assert(has_slash(value@));
        proof {
            let j = choose|j: int| is_first_slash(value@, j);
            lemma_first_is_unique(|k: int| k < value@.len() && value@[k] == '/', i as int, j);
        }
        let prefix = match address {
            Some(a) => a,
            None => {
                return Err(Ipv6LanPrefixError::InvalidAddress { prefix: prefix_str.to_owned() });
            },
        };
        let prefix_length_u8 = match parse_u8(prefix_length_str) {
            Some(l) => l,
            None => {
                return Err(
                    Ipv6LanPrefixError::PrefixLengthNotANumber {
                        prefix_length: prefix_length_str.to_owned(),
                    },
                );
            },
        };
        match Ipv6PrefixLen::try_from(prefix_length_u8) {
            Ok(prefix_length) => Ok(Ipv6LanPrefix { prefix, prefix_length }),
            Err(source) => Err(
                Ipv6LanPrefixError::InvalidPrefixLength { prefix_length: prefix_length_u8, source },
            ),
        }
    }
}

} // verus!
