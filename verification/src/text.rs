//! Small verified text utilities: string equality, decimal formatting,
//! and sanitizing an RPC URL for logging.

use vstd::prelude::*;

verus! {

/// Whether two string slices hold the same characters.
pub fn str_eq(a: &str, b: &str) -> (r: bool)
    ensures
        r == (a@ == b@),
{
    let alen = a.unicode_len();
    let blen = b.unicode_len();
    if alen != blen {
        proof {
            assert(a@.len() != b@.len());
        }
        return false;
    }
    let mut i: usize = 0;
    while i < alen
        invariant
            i <= alen,
            alen == a@.len(),
            alen == b@.len(),
            forall|j: int| 0 <= j < i ==> a@[j] == b@[j],
        decreases alen - i,
    {
        if a.get_char(i) != b.get_char(i) {
            return false;
        }
        i += 1;
    }
    proof {
        assert(a@ =~= b@);
    }
    true
}

/// The decimal digit character for `d`.
pub open spec fn spec_digit_char(d: int) -> char
    recommends
        0 <= d < 10,
{
    if d == 0 {
        '0'
    } else if d == 1 {
        '1'
    } else if d == 2 {
        '2'
    } else if d == 3 {
        '3'
    } else if d == 4 {
        '4'
    } else if d == 5 {
        '5'
    } else if d == 6 {
        '6'
    } else if d == 7 {
        '7'
    } else if d == 8 {
        '8'
    } else {
        '9'
    }
}

/// The usual decimal rendering of `n`, without leading zeroes
/// (except for `n == 0` itself).
pub open spec fn spec_decimal(n: nat) -> Seq<char>
    decreases n,
{
    if n < 10 {
        seq![spec_digit_char(n as int)]
    } else {
        spec_decimal(n / 10) + seq![spec_digit_char((n % 10) as int)]
    }
}

/// A one-character string slice for the decimal digit `d`.
fn digit_str(d: u64) -> (r: &'static str)
    requires
        d < 10,
    ensures
        r@ == seq![spec_digit_char(d as int)],
{
    proof {
        reveal_strlit("0");
        reveal_strlit("1");
        reveal_strlit("2");
        reveal_strlit("3");
        reveal_strlit("4");
        reveal_strlit("5");
        reveal_strlit("6");
        reveal_strlit("7");
        reveal_strlit("8");
        reveal_strlit("9");
    }
    let r = if d == 0 {
        "0"
    } else if d == 1 {
        "1"
    } else if d == 2 {
        "2"
    } else if d == 3 {
        "3"
    } else if d == 4 {
        "4"
    } else if d == 5 {
        "5"
    } else if d == 6 {
        "6"
    } else if d == 7 {
        "7"
    } else if d == 8 {
        "8"
    } else {
        "9"
    };
    proof {
        assert(r@ =~= seq![spec_digit_char(d as int)]);
    }
    r
}

/// Render `n` in decimal.
pub fn u64_to_decimal(n: u64) -> (s: String)
    ensures
        s@ == spec_decimal(n as nat),
    decreases n,
{
    if n < 10 {
        String::from_str(digit_str(n))
    } else {
        let s = u64_to_decimal(n / 10);
        s.concat(digit_str(n % 10))
    }
}

/// Render `n` in decimal.
pub fn usize_to_decimal(n: usize) -> (s: String)
    ensures
        s@ == spec_decimal(n as nat),
{
    u64_to_decimal(n as u64)
}

/// Whether the scheme separator "://" starts at position `i` of `s`.
pub open spec fn spec_sep_at(s: Seq<char>, i: int) -> bool {
    &&& 0 <= i
    &&& i + 3 <= s.len()
    &&& s[i] == ':'
    &&& s[i + 1] == '/'
    &&& s[i + 2] == '/'
}

/// The first position at or after `i` where the scheme separator
/// starts, if any.
pub open spec fn spec_find_sep_from(s: Seq<char>, i: int) -> Option<int>
    decreases s.len() - i,
{
    if i < 0 || i + 3 > s.len() {
        None
    } else if spec_sep_at(s, i) {
        Some(i)
    } else {
        spec_find_sep_from(s, i + 1)
    }
}

/// The first position at or after `i` where `c` occurs, if any.
pub open spec fn spec_find_char_from(s: Seq<char>, i: int, c: char) -> Option<int>
    decreases s.len() - i,
{
    if i < 0 || i >= s.len() {
        None
    } else if s[i] == c {
        Some(i)
    } else {
        spec_find_char_from(s, i + 1, c)
    }
}

/// An RPC URL with its path hidden: everything after the first slash
/// that follows the scheme separator is replaced by "***", so that API
/// keys carried in the path are not exposed. A URL without a scheme
/// separator, or without a path, is left unchanged.
pub open spec fn spec_sanitized(s: Seq<char>) -> Seq<char> {
    match spec_find_sep_from(s, 0) {
        Some(i) => match spec_find_char_from(s, i + 3, '/') {
            Some(j) => s.take(i) + "://"@ + s.subrange(i + 3, j) + "/***"@,
            None => s,
        },
        None => s,
    }
}

/// Sanitize an RPC URL for logging: hide everything after the host, so
/// that an API key in the path is not written to the log.
pub fn sanitize_rpc_url(url: &str) -> (r: String)
    ensures
        r@ == spec_sanitized(url@),
{
    let n = url.unicode_len();
    if n < 3 {
        proof {
            assert(spec_find_sep_from(url@, 0) is None);
        }
        return url.to_owned();
    }
    let mut i: usize = 0;
    while i <= n - 3
        invariant
            n == url@.len(),
            3 <= n,
            i <= n - 2,
            spec_find_sep_from(url@, 0) == spec_find_sep_from(url@, i as int),
        decreases n - i,
    {
        if url.get_char(i) == ':' && url.get_char(i + 1) == '/' && url.get_char(i + 2) == '/' {
            proof {
                assert(spec_sep_at(url@, i as int));
                assert(spec_find_sep_from(url@, i as int) == Some(i as int));
            }
            let mut j = i + 3;
            while j < n
                invariant
                    n == url@.len(),
                    i + 3 <= j <= n,
                    spec_sep_at(url@, i as int),
                    spec_find_sep_from(url@, 0) == Some(i as int),
                    spec_find_char_from(url@, i + 3, '/') == spec_find_char_from(
                        url@,
                        j as int,
                        '/',
                    ),
                decreases n - j,
            {
                if url.get_char(j) == '/' {
                    proof {
                        assert(spec_find_char_from(url@, j as int, '/') == Some(j as int));
                    }
                    let mut out = url.substring_char(0, i).to_owned();
                    out.append("://");
                    out.append(url.substring_char(i + 3, j));
                    out.append("/***");
                    proof {
                        assert(out@ =~= spec_sanitized(url@));
                    }
                    return out;
                }
                j = j + 1;
            }
            proof {
                assert(spec_find_char_from(url@, j as int, '/') is None);
            }
            return url.to_owned();
        }
        i = i + 1;
    }
    proof {
        assert(spec_find_sep_from(url@, i as int) is None);
    }
    url.to_owned()
}

} // verus!
