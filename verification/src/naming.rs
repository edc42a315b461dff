//! Deterministic naming: path-segment joining and the zero-padded
//! positional prefix that keeps download batches ordered and collision-free.

use vstd::prelude::*;

use crate::trusted::safe_segment_char;
use crate::trusted::sanitize_of;
use crate::trusted::sanitize_raw;

verus! {

/// The single joined path `dest/name`.
pub open spec fn join_path_spec(dest: Seq<char>, name: Seq<char>) -> Seq<char> {
    dest + seq!['/'] + name
}

/// Joins one child segment onto a destination path with a `/` separator.
pub fn join_path(dest: &str, name: &str) -> (r: String)
    ensures
        r@ == join_path_spec(dest@, name@),
{
    let mut s = dest.to_owned();
    s.append("/");
    s.append(name);
    proof {
        reveal_strlit("/");
        assert(("/")@ =~= seq!['/']);
        assert(s@ =~= join_path_spec(dest@, name@));
    }
    s
}

/// The decimal digit character for a value below ten.
pub open spec fn digit_char(d: nat) -> char {
    if d == 0 {
        '0'
    } else if d == 1 {
        '1'
    } else if d == 2 {
        '2'
    } else if d == 3 {
        '3'
    } else if d == 4 {
        '4'
    } else if d == 5 {
        '5'
    } else if d == 6 {
        '6'
    } else if d == 7 {
        '7'
    } else if d == 8 {
        '8'
    } else {
        '9'
    }
}

/// The decimal digits of `n`, most significant first, with no leading zero
/// except for `n == 0` itself.
pub open spec fn dec_spec(n: nat) -> Seq<char>
    decreases n,
{
    if n < 10 {
        seq![digit_char(n)]
    } else {
        dec_spec(n / 10).push(digit_char(n % 10))
    }
}

/// The decimal digits of `n`, left-padded with zeros to at least three
/// characters, as `{:03}` formatting renders it.
pub open spec fn padded3_spec(n: nat) -> Seq<char> {
    if n < 10 {
        seq!['0', '0'] + dec_spec(n)
    } else if n < 100 {
        seq!['0'] + dec_spec(n)
    } else {
        dec_spec(n)
    }
}

/// Whether `c` is one of the ten decimal digit characters.
pub open spec fn is_dec_digit(c: char) -> bool {
    ||| c == '0'
    ||| c == '1'
    ||| c == '2'
    ||| c == '3'
    ||| c == '4'
    ||| c == '5'
    ||| c == '6'
    ||| c == '7'
    ||| c == '8'
    ||| c == '9'
}

/// A decimal rendering is never empty, holds digit characters only, never
/// starts with a zero unless the value is zero, and is a single character
/// exactly for values below ten.
pub proof fn lemma_dec_props(n: nat)
    ensures
        dec_spec(n).len() >= 1,
        forall|i: int| 0 <= i < dec_spec(n).len() ==> is_dec_digit(#[trigger] dec_spec(n)[i]),
        n >= 1 ==> dec_spec(n)[0] != '0',
        n < 10 ==> dec_spec(n).len() == 1,
        n >= 10 ==> dec_spec(n).len() >= 2,
    decreases n,
{
    if n >= 10 {
        lemma_dec_props(n / 10);
    }
}

proof fn lemma_digit_injective(a: nat, b: nat)
    requires
        a < 10,
        b < 10,
        digit_char(a) == digit_char(b),
    ensures
        a == b,
{
}

/// Two equal decimal renderings come from the same value.
pub proof fn lemma_dec_injective(m: nat, n: nat)
    requires
        dec_spec(m) == dec_spec(n),
    ensures
        m == n,
    decreases m + n,
{
    lemma_dec_props(m);
    lemma_dec_props(n);
    if m < 10 && n < 10 {
        lemma_digit_injective(m, n);
    } else if m >= 10 && n >= 10 {
        assert(dec_spec(m).last() == digit_char(m % 10));
        assert(dec_spec(n).last() == digit_char(n % 10));
        lemma_digit_injective(m % 10, n % 10);
        assert(dec_spec(m).drop_last() =~= dec_spec(m / 10));
        assert(dec_spec(n).drop_last() =~= dec_spec(n / 10));
        lemma_dec_injective(m / 10, n / 10);
    } else {
        assert(dec_spec(m).len() == dec_spec(n).len());
        assert(false);
    }
}

/// A zero-padded rendering holds digit characters only and is at least
/// three characters long.
pub proof fn lemma_padded3_props(n: nat)
    ensures
        padded3_spec(n).len() >= 3,
        forall|i: int|
            0 <= i < padded3_spec(n).len() ==> is_dec_digit(#[trigger] padded3_spec(n)[i]),
{
    lemma_dec_props(n);
    let p = padded3_spec(n);
    if n < 10 {
        assert(p.len() == 3);
        assert forall|i: int| 0 <= i < p.len() implies is_dec_digit(p[i]) by {
            if i >= 2 {
                assert(p[i] == dec_spec(n)[i - 2]);
            } else {
                assert(p[i] == '0');
            }
        }
    } else if n < 100 {
        assert forall|i: int| 0 <= i < p.len() implies is_dec_digit(p[i]) by {
            if i >= 1 {
                assert(p[i] == dec_spec(n)[i - 1]);
            } else {
                assert(p[i] == '0');
            }
        }
    } else {
        lemma_dec_props(n / 10);
        lemma_dec_props(n / 10 / 10);
        assert(dec_spec(n).len() >= 3);
    }
}

/// Two equal zero-padded renderings come from the same value.
pub proof fn lemma_padded3_injective(m: nat, n: nat)
    requires
        padded3_spec(m) == padded3_spec(n),
    ensures
        m == n,
{
    lemma_dec_props(m);
    lemma_dec_props(n);
    let pm = padded3_spec(m);
    let pn = padded3_spec(n);
    if m < 100 && n >= 100 {
        assert(pm[0] == '0');
        assert(pn[0] != '0');
    } else if m >= 100 && n < 100 {
        assert(pm[0] != '0');
        assert(pn[0] == '0');
    } else if m >= 100 && n >= 100 {
        lemma_dec_injective(m, n);
    } else if m < 10 && n >= 10 {
        assert(pm =~= seq!['0', '0'] + dec_spec(m));
        assert(pn =~= seq!['0'] + dec_spec(n));
        assert(pm[1] == '0');
        assert(pn[1] == dec_spec(n)[0]);
    } else if m >= 10 && n < 10 {
        assert(pm =~= seq!['0'] + dec_spec(m));
        assert(pn =~= seq!['0', '0'] + dec_spec(n));
        assert(pm[1] == dec_spec(m)[0]);
        assert(pn[1] == '0');
    } else if m < 10 && n < 10 {
        assert(pm =~= seq!['0', '0'] + dec_spec(m));
        assert(pn =~= seq!['0', '0'] + dec_spec(n));
        assert(pm[2] == dec_spec(m)[0]);
        assert(pn[2] == dec_spec(n)[0]);
        assert(dec_spec(m)[0] == digit_char(m));
        assert(dec_spec(n)[0] == digit_char(n));
        lemma_digit_injective(m, n);
    } else {
        lemma_dec_props(m / 10);
        lemma_dec_props(n / 10);
        assert(dec_spec(m).len() == 2);
        assert(dec_spec(n).len() == 2);
        assert(pm =~= seq!['0'] + dec_spec(m));
        assert(pn =~= seq!['0'] + dec_spec(n));
        assert(dec_spec(m)[0] == pm[1] && dec_spec(m)[1] == pm[2]);
        assert(dec_spec(n)[0] == pn[1] && dec_spec(n)[1] == pn[2]);
        assert(dec_spec(m) =~= dec_spec(n));
        lemma_dec_injective(m, n);
    }
}

/// The one-character string for a digit value.
fn digit_str(d: u64) -> (r: &'static str)
    requires
        d < 10,
    ensures
        r@ == seq![digit_char(d as nat)],
{
    let r: &'static str = if d == 0 {
        "0"
    } else if d == 1 {
        "1"
    } else if d == 2 {
        "2"
    } else if d == 3 {
        "3"
    } else if d == 4 {
        "4"
    } else if d == 5 {
        "5"
    } else if d == 6 {
        "6"
    } else if d == 7 {
        "7"
    } else if d == 8 {
        "8"
    } else {
        "9"
    };
    proof {
        reveal_strlit("0");
        reveal_strlit("1");
        reveal_strlit("2");
        reveal_strlit("3");
        reveal_strlit("4");
        reveal_strlit("5");
        reveal_strlit("6");
        reveal_strlit("7");
        reveal_strlit("8");
        reveal_strlit("9");
        assert(r@ =~= seq![digit_char(d as nat)]);
    }
    r
}

/// Renders `n` in decimal.
pub fn dec_string(n: u64) -> (r: String)
    ensures
        r@ == dec_spec(n as nat),
    decreases n,
{
    if n < 10 {
        digit_str(n).to_owned()
    } else {
        let mut s = dec_string(n / 10);
        s.append(digit_str(n % 10));
        proof {
            assert(s@ =~= dec_spec(n as nat));
        }
        s
    }
}

/// Renders `n` in decimal, zero-padded to at least three characters.
pub fn padded3(n: u64) -> (r: String)
    ensures
        r@ == padded3_spec(n as nat),
{
    if n < 10 {
        let mut s = String::new();
        s.append("00");
        s.append(digit_str(n));
        proof {
            reveal_strlit("00");
            assert(("00")@ =~= seq!['0', '0']);
            assert(s@ =~= padded3_spec(n as nat));
        }
        s
    } else if n < 100 {
        let mut s = String::new();
        s.append("0");
        let d = dec_string(n);
        s.append(d.as_str());
        proof {
            reveal_strlit("0");
            assert(("0")@ =~= seq!['0']);
            assert(s@ =~= padded3_spec(n as nat));
        }
        s
    } else {
        dec_string(n)
    }
}

/// The filesystem-safe single path segment for a candidate name: what a
/// link-expansion step names a child directory after. The result never
/// holds a path separator or a control character, and is never longer
/// than the input.
pub fn sanitize_segment(s: &str) -> (r: String)
    ensures
        r@ == sanitize_of(s@),
        r@.len() <= s@.len(),
        forall|i: int| 0 <= i < r@.len() ==> safe_segment_char(#[trigger] r@[i]),
{
    sanitize_raw(s)
}

} // verus!
