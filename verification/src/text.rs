//! Small verified text helpers: decimal rendering of register values,
//! character-exact string comparison and concatenation, and the decimal
//! scanner used by the temperature write transform.

use vstd::prelude::*;
use vstd::string::{StrSliceExecFns, StringExecFns};

verus! {

/// The character for one decimal digit.
pub open spec fn spec_digit_char(d: int) -> char {
    if d == 0 {
        '0'
    } else if d == 1 {
        '1'
    } else if d == 2 {
        '2'
    } else if d == 3 {
        '3'
    } else if d == 4 {
        '4'
    } else if d == 5 {
        '5'
    } else if d == 6 {
        '6'
    } else if d == 7 {
        '7'
    } else if d == 8 {
        '8'
    } else {
        '9'
    }
}

/// The decimal rendering of a non-negative integer, without leading
/// zeroes (a single zero for 0).
pub open spec fn spec_u32_decimal(n: int) -> Seq<char>
    decreases n,
{
    if n < 10 {
        seq![spec_digit_char(n)]
    } else {
        spec_u32_decimal(n / 10).push(spec_digit_char(n % 10))
    }
}

/// The one-character string for a decimal digit.
fn digit_str(d: u8) -> (r: &'static str)
    requires
        d < 10,
    ensures
        r@ == seq![spec_digit_char(d as int)],
{
    proof {
        reveal_strlit("0");
        reveal_strlit("1");
        reveal_strlit("2");
        reveal_strlit("3");
        reveal_strlit("4");
        reveal_strlit("5");
        reveal_strlit("6");
        reveal_strlit("7");
        reveal_strlit("8");
        reveal_strlit("9");
    }
    let r = if d == 0 {
        "0"
    } else if d == 1 {
        "1"
    } else if d == 2 {
        "2"
    } else if d == 3 {
        "3"
    } else if d == 4 {
        "4"
    } else if d == 5 {
        "5"
    } else if d == 6 {
        "6"
    } else if d == 7 {
        "7"
    } else if d == 8 {
        "8"
    } else {
        "9"
    };
    proof {
        assert(r@ =~= seq![spec_digit_char(d as int)]);
    }
    r
}

/// Render a register value in decimal, as the dispatcher publishes it when
/// a field has no symbolic reading.
pub fn u32_to_string(n: u32) -> (s: String)
    ensures
        s@ == spec_u32_decimal(n as int),
    decreases n,
{
    if n < 10 {
        String::from_str(digit_str(n as u8))
    } else {
        let mut s = u32_to_string(n / 10);
        s.append(digit_str((n % 10) as u8));
        s
    }
}

/// Character-exact comparison of two string slices.
pub fn str_eq(a: &str, b: &str) -> (r: bool)
    ensures
        r == (a@ == b@),
{
    let n = a.unicode_len();
    if n != b.unicode_len() {
        return false;
    }
    let mut i: usize = 0;
    while i < n
        invariant
            i <= n,
            n == a@.len(),
            n == b@.len(),
            forall|j: int| 0 <= j < i ==> a@[j] == b@[j],
        decreases n - i,
    {
        if a.get_char(i) != b.get_char(i) {
            return false;
        }
        i = i + 1;
    }
    proof {
        assert(a@ =~= b@);
    }
    true
}

/// Concatenation of two string slices.
pub fn concat2(a: &str, b: &str) -> (r: String)
    ensures
        r@ == a@ + b@,
{
    let mut s = String::from_str(a);
    s.append(b);
    s
}

/// Concatenation of five string slices.
pub fn concat5(a: &str, b: &str, c: &str, d: &str, e: &str) -> (r: String)
    ensures
        r@ == a@ + b@ + c@ + d@ + e@,
{
    let mut s = String::from_str(a);
    s.append(b);
    s.append(c);
    s.append(d);
    s.append(e);
    s
}

/// Whether a character is a decimal digit.
pub open spec fn spec_is_digit(c: char) -> bool {
    48 <= c as int <= 57
}

/// The numeric value of a decimal digit character.
pub open spec fn spec_digit_val(c: char) -> int {
    c as int - 48
}

/// Every character of the sequence is a decimal digit.
pub open spec fn spec_all_digits(s: Seq<char>) -> bool {
    forall|i: int| 0 <= i < s.len() ==> spec_is_digit(#[trigger] s[i])
}

/// The value of a digit string read as a decimal number (0 when empty).
pub open spec fn spec_digits_val(s: Seq<char>) -> int
    decreases s.len(),
{
    if s.len() == 0 {
        0
    } else {
        spec_digits_val(s.drop_last()) * 10 + spec_digit_val(s.last())
    }
}

/// A digit string's value is non-negative.
pub proof fn lemma_digits_val_nonneg(s: Seq<char>)
    requires
        spec_all_digits(s),
    ensures
        spec_digits_val(s) >= 0,
    decreases s.len(),
{
    if s.len() > 0 {
        assert(spec_all_digits(s.drop_last()));
        lemma_digits_val_nonneg(s.drop_last());
    }
}

/// The index of the first `.` in the sequence, or its length when there
/// is none.
pub open spec fn spec_dot_pos(s: Seq<char>) -> int
    decreases s.len(),
{
    if s.len() == 0 {
        0
    } else if s[0] == '.' {
        0
    } else {
        1 + spec_dot_pos(s.skip(1))
    }
}

/// A scan that saw no `.` before position `i`, and a `.` (or the end) at
/// `i`, has found the first dot.
pub proof fn lemma_dot_pos(s: Seq<char>, i: int)
    requires
        0 <= i <= s.len(),
        forall|j: int| 0 <= j < i ==> s[j] != '.',
        i < s.len() ==> s[i] == '.',
    ensures
        spec_dot_pos(s) == i,
    decreases i,
{
    if s.len() == 0 {
    } else if i == 0 {
        if s.len() > 0 && s[0] != '.' {
            assert(i < s.len());
        }
    } else {
        assert(s[0] != '.');
        lemma_dot_pos(s.skip(1), i - 1);
    }
}

/// Shape of a temperature input: a non-empty integer part of decimal
/// digits, optionally followed by a dot and any further fraction digits
/// (a trailing dot with no fraction reads as a whole number).
pub open spec fn spec_temp_shape(s: Seq<char>) -> bool {
    let dot = spec_dot_pos(s);
    &&& dot > 0
    &&& spec_all_digits(s.take(dot))
    &&& (dot == s.len() || spec_all_digits(s.skip(dot + 1)))
}

/// The value of the two leading fraction digits, zero padded on the
/// right: the fraction `d1 d2 d3 ...` gives `d1 * 10 + d2`.
pub open spec fn spec_frac2(frac: Seq<char>) -> int {
    (if frac.len() >= 1 {
        spec_digit_val(frac[0])
    } else {
        0
    }) * 10 + (if frac.len() >= 2 {
        spec_digit_val(frac[1])
    } else {
        0
    })
}

/// Twice a decimal temperature string's value, rounded to the nearest
/// integer with halves rounded up.  Only the two leading fraction digits
/// decide the rounding: the fraction contributes 0 below 0.25, 1 from
/// 0.25 up to (not including) 0.75, and 2 from 0.75 — exactly where
/// `4 * fraction` crosses the next whole number.  `None` for a string
/// without the digits-dot-fraction shape (the fraction may be empty),
/// and for an integer part too large for the doubled value to fit a
/// register.
pub open spec fn spec_temp_register(s: Seq<char>) -> Option<u32> {
    if !spec_temp_shape(s) {
        None
    } else {
        let dot = spec_dot_pos(s);
        let whole = spec_digits_val(s.take(dot));
        let frac2 = if dot == s.len() {
            0
        } else {
            spec_frac2(s.skip(dot + 1))
        };
        let round: int = if frac2 < 25 {
            0
        } else if frac2 < 75 {
            1
        } else {
            2
        };
        if whole > 2147483646 {
            None
        } else {
            Some((2 * whole + round) as u32)
        }
    }
}

/// Scan a decimal temperature string and compute its register value:
/// twice the value, rounded to the nearest integer, halves up.
pub fn parse_temperature(s: &str) -> (r: Option<u32>)
    ensures
        r == spec_temp_register(s@),
{
    let n = s.unicode_len();

    let mut dot: usize = 0;
    loop
        invariant
            dot <= n,
            n == s@.len(),
            forall|j: int| 0 <= j < dot ==> s@[j] != '.',
        ensures
            dot <= n,
            n == s@.len(),
            forall|j: int| 0 <= j < dot ==> s@[j] != '.',
            dot == n || s@[dot as int] == '.',
        decreases n - dot,
    {
        if dot >= n {
            break;
        }
        if s.get_char(dot) == '.' {
            break;
        }
        dot = dot + 1;
    }

    proof {
        lemma_dot_pos(s@, dot as int);
    }

    if dot == 0 {
        return None;
    }

    let mut acc: u64 = 0;
    let mut i: usize = 0;
    while i < dot
        invariant
            i <= dot <= n,
            n == s@.len(),
            spec_dot_pos(s@) == dot,
            spec_all_digits(s@.take(i as int)),
            spec_digits_val(s@.take(i as int)) <= 2147483646 ==> acc == spec_digits_val(
                s@.take(i as int),
            ),
            spec_digits_val(s@.take(i as int)) > 2147483646 ==> acc == 2147483647,
            acc <= 2147483647,
        decreases dot - i,
    {
        let c = s.get_char(i);
        let cv = c as u32;
        if cv < 48 || cv > 57 {
            proof {
                assert(s@.take(dot as int)[i as int] == c);
                assert(!spec_all_digits(s@.take(dot as int)));
            }
            return None;
        }
        let d = (cv - 48) as u64;
        let mut newacc: u64 = acc * 10 + d;
        if newacc > 2147483646 {
            newacc = 2147483647;
        }
        proof {
            let p = s@.take(i + 1);
            assert(p.drop_last() =~= s@.take(i as int));
            assert(p.last() == c);
            assert(spec_digits_val(p) == spec_digits_val(s@.take(i as int)) * 10
                + spec_digit_val(c));
            assert(spec_all_digits(p));
            lemma_digits_val_nonneg(s@.take(i as int));
        }
        acc = newacc;
        i = i + 1;
    }

    let mut frac2: u32 = 0;
    if dot < n {
        let mut k: usize = dot + 1;
        while k < n
            invariant
                dot + 1 <= k <= n,
                n == s@.len(),
                spec_dot_pos(s@) == dot < n,
                forall|j: int| dot + 1 <= j < k ==> spec_is_digit(#[trigger] s@[j]),
            decreases n - k,
        {
            let c = s.get_char(k);
            let cv = c as u32;
            if cv < 48 || cv > 57 {
                proof {
                    assert(s@.skip(dot + 1)[k - dot - 1] == c);
                    assert(!spec_all_digits(s@.skip(dot + 1)));
                }
                return None;
            }
            k = k + 1;
        }
        proof {
            assert(forall|j: int|
                0 <= j < s@.skip(dot + 1).len() ==> spec_is_digit(
                    #[trigger] s@.skip(dot + 1)[j],
                ));
        }
        if dot + 1 < n {
            let d1 = s.get_char(dot + 1) as u32 - 48;
            let d2: u32 = if dot + 2 < n {
                s.get_char(dot + 2) as u32 - 48
            } else {
                0
            };
            frac2 = d1 * 10 + d2;
            proof {
                let frac = s@.skip(dot + 1);
                assert(frac[0] == s@[dot + 1]);
                assert(frac.len() >= 2 ==> frac[1] == s@[dot + 2]);
                assert(frac2 as int == spec_frac2(frac));
            }
        } else {
            proof {
                assert(s@.skip(dot + 1).len() == 0);
                assert(spec_frac2(s@.skip(dot + 1)) == 0);
            }
        }
    }

    proof {
        assert(s@.take(dot as int).len() == dot);
        assert(spec_temp_shape(s@));
    }

    if acc > 2147483646 {
        return None;
    }

    let whole = acc as u32;
    let round: u32 = if frac2 < 25 {
        0
    } else if frac2 < 75 {
        1
    } else {
        2
    };
    Some(2 * whole + round)
}

} // verus!
