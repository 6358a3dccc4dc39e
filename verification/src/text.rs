//! Character-level string helpers: equality, dash prefixes, padding and
//! decimal rendering, all verified against `Seq<char>` views.

use vstd::prelude::*;
use vstd::string::*;

verus! {

/// True when `t` begins with at least one dash.
pub open spec fn spec_is_dash(t: Seq<char>) -> bool {
    t.len() >= 1 && t[0] == '-'
}

/// True when `t` begins with two dashes.
pub open spec fn spec_is_long(t: Seq<char>) -> bool {
    t.len() >= 2 && t[0] == '-' && t[1] == '-'
}

/// Character-for-character equality of two string slices.
pub fn str_eq(a: &str, b: &str) -> (r: bool)
    ensures
        r == (a@ == b@),
{
    let alen = a.unicode_len();
    let blen = b.unicode_len();
    if alen != blen {
        return false;
    }
    let mut i: usize = 0;
    while i < alen
        invariant
            alen == a@.len(),
            blen == b@.len(),
            alen == blen,
            i <= alen,
            forall|j: int| 0 <= j < i ==> a@[j] == b@[j],
        decreases alen - i,
    {
        if a.get_char(i) != b.get_char(i) {
            return false;
        }
        i += 1;
    }
    proof {
        assert(a@ =~= b@);
    }
    true
}

/// Whether the token begins with a dash.
pub fn is_dash_token(t: &str) -> (r: bool)
    ensures
        r == spec_is_dash(t@),
{
    t.unicode_len() >= 1 && t.get_char(0) == '-'
}

/// Whether the token begins with two dashes.
pub fn is_long_token(t: &str) -> (r: bool)
    ensures
        r == spec_is_long(t@),
{
    t.unicode_len() >= 2 && t.get_char(0) == '-' && t.get_char(1) == '-'
}

/// `t` with every leading pair of dashes removed, the long-option key.
pub open spec fn strip_long_spec(t: Seq<char>) -> Seq<char>
    decreases t.len(),
{
    if t.len() >= 2 && t[0] == '-' && t[1] == '-' {
        strip_long_spec(t.skip(2))
    } else {
        t
    }
}

/// `t` with every leading dash removed, the short-option key.
pub open spec fn strip_short_spec(t: Seq<char>) -> Seq<char>
    decreases t.len(),
{
    if t.len() >= 1 && t[0] == '-' {
        strip_short_spec(t.skip(1))
    } else {
        t
    }
}

/// Removes every leading pair of dashes from `t`.
pub fn strip_long_dashes(t: &str) -> (r: String)
    ensures
        r@ == strip_long_spec(t@),
{
    let n = t.unicode_len();
    let mut i: usize = 0;
    proof {
        assert(t@.skip(0) =~= t@);
    }
    while i < n && i + 1 < n && t.get_char(i) == '-' && t.get_char(i + 1) == '-'
        invariant
            n == t@.len(),
            i <= n,
            strip_long_spec(t@) == strip_long_spec(t@.skip(i as int)),
        decreases n - i,
    {
        proof {
            assert(t@.skip(i as int).skip(2) =~= t@.skip(i as int + 2));
        }
        i += 2;
    }
    let tail = t.substring_char(i, n);
    proof {
        assert(tail@ =~= t@.skip(i as int));
    }
    String::from_str(tail)
}

/// Removes every leading dash from `t`.
pub fn strip_short_dashes(t: &str) -> (r: String)
    ensures
        r@ == strip_short_spec(t@),
{
    let n = t.unicode_len();
    let mut i: usize = 0;
    proof {
        assert(t@.skip(0) =~= t@);
    }
    while i < n && t.get_char(i) == '-'
        invariant
            n == t@.len(),
            i <= n,
            strip_short_spec(t@) == strip_short_spec(t@.skip(i as int)),
        decreases n - i,
    {
        proof {
            assert(t@.skip(i as int).skip(1) =~= t@.skip(i as int + 1));
        }
        i += 1;
    }
    let tail = t.substring_char(i, n);
    proof {
        assert(tail@ =~= t@.skip(i as int));
    }
    String::from_str(tail)
}

/// A run of `n` spaces.
pub open spec fn spaces(n: nat) -> Seq<char> {
    Seq::new(n, |i: int| ' ')
}

/// Appends `n` spaces to `s`.
pub fn push_spaces(s: &mut String, n: usize)
    ensures
        final(s)@ == old(s)@ + spaces(n as nat),
{
    let mut i: usize = 0;
    while i < n
        invariant
            i <= n,
            s@ == old(s)@ + spaces(i as nat),
        decreases n - i,
    {
        s.append(" ");
        proof {
            reveal_strlit(" ");
            assert(old(s)@ + spaces(i as nat) + " "@ =~= old(s)@ + spaces(i as nat + 1));
        }
        i += 1;
    }
    proof {
        assert(old(s)@ + spaces(0nat) =~= old(s)@);
    }
}

/// The character for one decimal digit.
pub open spec fn dec_digit(d: int) -> char {
    if d == 0 {
        '0'
    } else if d == 1 {
        '1'
    } else if d == 2 {
        '2'
    } else if d == 3 {
        '3'
    } else if d == 4 {
        '4'
    } else if d == 5 {
        '5'
    } else if d == 6 {
        '6'
    } else if d == 7 {
        '7'
    } else if d == 8 {
        '8'
    } else {
        '9'
    }
}

/// The decimal rendering of a non-negative integer, most significant digit
/// first, with no leading zeros except for zero itself.
pub open spec fn dec_str(n: int) -> Seq<char>
    decreases n,
{
    if n < 10 {
        seq![dec_digit(n)]
    } else {
        dec_str(n / 10).push(dec_digit(n % 10))
    }
}

/// One decimal digit as a string slice.
fn digit_str(d: u8) -> (r: &'static str)
    requires
        d < 10,
    ensures
        r@ == seq![dec_digit(d as int)],
{
    proof {
        reveal_strlit("0");
        reveal_strlit("1");
        reveal_strlit("2");
        reveal_strlit("3");
        reveal_strlit("4");
        reveal_strlit("5");
        reveal_strlit("6");
        reveal_strlit("7");
        reveal_strlit("8");
        reveal_strlit("9");
        assert("0"@ =~= seq![dec_digit(0)]);
        assert("1"@ =~= seq![dec_digit(1)]);
        assert("2"@ =~= seq![dec_digit(2)]);
        assert("3"@ =~= seq![dec_digit(3)]);
        assert("4"@ =~= seq![dec_digit(4)]);
        assert("5"@ =~= seq![dec_digit(5)]);
        assert("6"@ =~= seq![dec_digit(6)]);
        assert("7"@ =~= seq![dec_digit(7)]);
        assert("8"@ =~= seq![dec_digit(8)]);
        assert("9"@ =~= seq![dec_digit(9)]);
    }
    if d == 0 {
        "0"
    } else if d == 1 {
        "1"
    } else if d == 2 {
        "2"
    } else if d == 3 {
        "3"
    } else if d == 4 {
        "4"
    } else if d == 5 {
        "5"
    } else if d == 6 {
        "6"
    } else if d == 7 {
        "7"
    } else if d == 8 {
        "8"
    } else {
        "9"
    }
}

/// Appends the decimal rendering of `n` to `s`.
pub fn push_u8_dec(s: &mut String, n: u8)
    ensures
        final(s)@ == old(s)@ + dec_str(n as int),
    decreases n,
{
    if n >= 10 {
        push_u8_dec(s, n / 10);
    }
    let d = digit_str(n % 10);
    s.append(d);
    proof {
        if n < 10 {
            assert(old(s)@ + seq![dec_digit(n as int)] =~= old(s)@ + dec_str(n as int));
        } else {
            assert(dec_str(n as int) == dec_str(n as int / 10).push(dec_digit(n as int % 10)));
            assert(old(s)@ + dec_str(n as int / 10) + seq![dec_digit(n as int % 10)] =~= old(
                s,
            )@ + dec_str(n as int));
        }
    }
}

} // verus!
