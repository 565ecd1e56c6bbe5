//! Decimal text for the `port` attribute.
//!
//! `int_text` is the canonical decimal form of an integer; `parse_i32`
//! reads a decimal back and rejects values outside the `i32` range and
//! numbers with leading zeros.  `lemma_parse_int_text` shows that parsing
//! inverts printing.

use vstd::prelude::*;
use vstd::arithmetic::div_mod::lemma_fundamental_div_mod;
use vstd::utf8::char_u32_cast;

verus! {

pub open spec fn is_digit(c: char) -> bool {
    48 <= c as u32 && c as u32 <= 57
}

pub open spec fn digit_val(c: char) -> int {
    c as u32 - 48
}

pub open spec fn digit_char(d: int) -> char {
    if d == 0 {
        '0'
    } else if d == 1 {
        '1'
    } else if d == 2 {
        '2'
    } else if d == 3 {
        '3'
    } else if d == 4 {
        '4'
    } else if d == 5 {
        '5'
    } else if d == 6 {
        '6'
    } else if d == 7 {
        '7'
    } else if d == 8 {
        '8'
    } else {
        '9'
    }
}

/// The decimal digits of a non-negative integer, most significant first.
pub open spec fn dec_digits(n: int) -> Seq<char>
    decreases n,
{
    if n <= 9 {
        seq![digit_char(if n < 0 { 0 } else { n })]
    } else {
        dec_digits(n / 10) + seq![digit_char(n % 10)]
    }
}

/// The canonical decimal text of an integer.
pub open spec fn int_text(v: int) -> Seq<char> {
    if v < 0 {
        seq!['-'] + dec_digits(-v)
    } else {
        dec_digits(v)
    }
}

/// The value of a digit string; `None` if any character is not a digit.
pub open spec fn digits_val(s: Seq<char>) -> Option<int>
    decreases s.len(),
{
    if s.len() == 0 {
        None
    } else if s.len() == 1 {
        if is_digit(s[0]) {
            Some(digit_val(s[0]))
        } else {
            None
        }
    } else {
        match digits_val(s.drop_last()) {
            Some(v) => if is_digit(s.last()) {
                Some(v * 10 + digit_val(s.last()))
            } else {
                None
            },
            None => None,
        }
    }
}

/// A digit string with no redundant leading zero.
pub open spec fn uint_val(s: Seq<char>) -> Option<int> {
    if s.len() > 1 && s[0] == '0' {
        None
    } else {
        digits_val(s)
    }
}

/// An optional minus sign followed by digits.
pub open spec fn int_val(s: Seq<char>) -> Option<int> {
    if s.len() > 0 && s[0] == '-' {
        match uint_val(s.skip(1)) {
            Some(v) => Some(-v),
            None => None,
        }
    } else {
        uint_val(s)
    }
}

/// The value of a decimal text, restricted to the `i32` range.
pub open spec fn parse_i32_text(s: Seq<char>) -> Option<int> {
    match int_val(s) {
        Some(v) => if -0x8000_0000 <= v && v <= 0x7fff_ffff {
            Some(v)
        } else {
            None
        },
        None => None,
    }
}

pub open spec fn pow10(n: nat) -> int
    decreases n,
{
    if n == 0 {
        1
    } else {
        10 * pow10((n - 1) as nat)
    }
}

/// Every digit string's value sits under `pow10` of its length, and a
/// string without a leading zero reaches `pow10` of one less.
pub proof fn lemma_digits_val_bounds(s: Seq<char>)
    requires
        digits_val(s) is Some,
    ensures
        0 <= digits_val(s)->0 < pow10(s.len()),
        s[0] != '0' ==> digits_val(s)->0 >= pow10((s.len() - 1) as nat),
    decreases s.len(),
{
    if s.len() == 1 {
        assert(pow10(1) == 10);
        assert(pow10(0) == 1);
        if s[0] != '0' {
            assert('0' as u32 == 48);
            char_u32_cast(s[0], s[0] as u32);
            char_u32_cast('0', 48);
            assert(digit_val(s[0]) >= 1);
        }
    } else {
        lemma_digits_val_bounds(s.drop_last());
        assert(s.drop_last()[0] == s[0]);
        assert(pow10(s.len()) == 10 * pow10((s.len() - 1) as nat));
        assert(pow10((s.len() - 1) as nat) == 10 * pow10((s.len() - 2) as nat));
    }
}

/// The digits of a value start with no zero unless the value is zero.
pub proof fn lemma_dec_digits_shape(n: int)
    requires
        n >= 0,
    ensures
        dec_digits(n).len() >= 1,
        forall|i: int| 0 <= i < dec_digits(n).len() ==> is_digit(#[trigger] dec_digits(n)[i]),
        n >= 1 ==> dec_digits(n)[0] != '0',
        n <= 9 ==> dec_digits(n) == seq![digit_char(n)],
    decreases n,
{
    if n <= 9 {
    } else {
        lemma_dec_digits_shape(n / 10);
        let a = dec_digits(n / 10);
        let d = seq![digit_char(n % 10)];
        assert(dec_digits(n) == a + d);
        assert(n / 10 >= 1);
        assert(dec_digits(n)[0] == a[0]);
        assert forall|i: int| 0 <= i < dec_digits(n).len() implies is_digit(
            #[trigger] dec_digits(n)[i],
        ) by {
            if i < a.len() {
                assert(dec_digits(n)[i] == a[i]);
            } else {
                assert(dec_digits(n)[i] == d[i - a.len()]);
            }
        }
    }
}

/// Reading the digits of a value gives the value back.
pub proof fn lemma_digits_val_dec_digits(n: int)
    requires
        n >= 0,
    ensures
        digits_val(dec_digits(n)) == Some(n),
    decreases n,
{
    if n <= 9 {
    } else {
        lemma_digits_val_dec_digits(n / 10);
        let a = dec_digits(n / 10);
        let s = dec_digits(n);
        assert(s == a + seq![digit_char(n % 10)]);
        assert(s.drop_last() =~= a);
        assert(s.last() == digit_char(n % 10));
        assert(0 <= n % 10 <= 9);
        assert(digit_val(digit_char(n % 10)) == n % 10);
        lemma_fundamental_div_mod(n, 10);
    }
}

/// Parsing inverts printing for every `i32` value.
pub proof fn lemma_parse_int_text(v: int)
    requires
        -0x8000_0000 <= v <= 0x7fff_ffff,
    ensures
        parse_i32_text(int_text(v)) == Some(v),
{
    if v < 0 {
        let s = int_text(v);
        assert(s == seq!['-'] + dec_digits(-v));
        assert(s[0] == '-');
        assert(s.skip(1) =~= dec_digits(-v));
        lemma_dec_digits_shape(-v);
        lemma_digits_val_dec_digits(-v);
        if -v > 9 {
            assert(dec_digits(-v)[0] != '0');
        }
    } else {
        let s = int_text(v);
        assert(s == dec_digits(v));
        lemma_dec_digits_shape(v);
        lemma_digits_val_dec_digits(v);
        assert(is_digit(s[0]));
        assert(s[0] != '-');
        if v > 9 {
            assert(s[0] != '0');
        }
    }
}

/// Prints a non-negative number in decimal.
fn dec_digits_exec(n: u64) -> (r: String)
    ensures
        r@ == dec_digits(n as int),
    decreases n,
{
    proof {
        reveal_strlit("0");
        reveal_strlit("1");
        reveal_strlit("2");
        reveal_strlit("3");
        reveal_strlit("4");
        reveal_strlit("5");
        reveal_strlit("6");
        reveal_strlit("7");
        reveal_strlit("8");
        reveal_strlit("9");
    }
    let d: u64 = n % 10;
    let digit: &'static str = if d == 0 {
        "0"
    } else if d == 1 {
        "1"
    } else if d == 2 {
        "2"
    } else if d == 3 {
        "3"
    } else if d == 4 {
        "4"
    } else if d == 5 {
        "5"
    } else if d == 6 {
        "6"
    } else if d == 7 {
        "7"
    } else if d == 8 {
        "8"
    } else {
        "9"
    };
    proof {
        assert(digit@ =~= seq![digit_char(n as int % 10)]);
    }
    if n <= 9 {
        proof {
            assert(n as int % 10 == n as int);
        }
        String::from_str(digit)
    } else {
        let mut s = dec_digits_exec(n / 10);
        s.append(digit);
        s
    }
}

/// Prints an `i32` in its canonical decimal form.
pub fn i32_text(v: i32) -> (r: String)
    ensures
        r@ == int_text(v as int),
{
    if v < 0 {
        let m: u64 = (-(v as i64)) as u64;
        let mut s = String::from_str("-");
        s.append(dec_digits_exec(m).as_str());
        proof {
            reveal_strlit("-");
            assert(s@ =~= seq!['-'] + dec_digits(m as int));
        }
        s
    } else {
        dec_digits_exec(v as u64)
    }
}

/// The value of a digit string short enough not to overflow.
fn digits_val_exec(s: &str) -> (r: Option<u64>)
    requires
        s@.len() <= 10,
    ensures
        match r {
            Some(v) => digits_val(s@) == Some(v as int) && v < 10_000_000_000,
            None => digits_val(s@) is None,
        },
    decreases s@.len(),
{
    let n = s.unicode_len();
    if n == 0 {
        None
    } else if n == 1 {
        let c = s.get_char(0);
        let u = c as u32;
        if 48 <= u && u <= 57 {
            Some((u - 48) as u64)
        } else {
            None
        }
    } else {
        let head = s.substring_char(0, n - 1);
        proof {
            assert(head@ =~= s@.drop_last());
        }
        match digits_val_exec(head) {
            None => None,
            Some(v) => {
                let c = s.get_char(n - 1);
                let u = c as u32;
                if 48 <= u && u <= 57 {
                    proof {
                        lemma_digits_val_bounds(head@);
                        reveal_with_fuel(pow10, 11);
                        assert(pow10(9) == 1_000_000_000);
                        assert(pow10(10) == 10_000_000_000);
                        if head@.len() < 9 {
                            lemma_pow10_increases(head@.len(), 9nat);
                        }
                    }
                    Some(v * 10 + ((u - 48) as u64))
                } else {
                    None
                }
            },
        }
    }
}

proof fn lemma_pow10_pos(n: nat)
    ensures
        pow10(n) >= 1,
    decreases n,
{
    if n > 0 {
        lemma_pow10_pos((n - 1) as nat);
    }
}

proof fn lemma_pow10_increases(a: nat, b: nat)
    requires
        a <= b,
    ensures
        pow10(a) <= pow10(b),
    decreases b,
{
    if a < b {
        lemma_pow10_increases(a, (b - 1) as nat);
        lemma_pow10_pos((b - 1) as nat);
    }
}

/// Reads a decimal text as an `i32`; `None` when the text is not a
/// canonical decimal or the value does not fit.
pub fn parse_i32(s: &str) -> (r: Option<i32>)
    ensures
        match r {
            Some(v) => parse_i32_text(s@) == Some(v as int),
            None => parse_i32_text(s@) is None,
        },
{
    let n = s.unicode_len();
    let neg = n > 0 && s.get_char(0) == '-';
    let body = if neg {
        s.substring_char(1, n)
    } else {
        s
    };
    proof {
        if neg {
            assert(body@ =~= s@.skip(1));
        }
    }
    let m = body.unicode_len();
    if m == 0 {
        None
    } else if m > 1 && body.get_char(0) == '0' {
        None
    } else if m > 10 {
        proof {
            if digits_val(body@) is Some {
                lemma_digits_val_bounds(body@);
                reveal_with_fuel(pow10, 11);
                assert(pow10(10) == 10_000_000_000);
                lemma_pow10_increases(10nat, (body@.len() - 1) as nat);
            }
        }
        None
    } else {
        match digits_val_exec(body) {
            None => None,
            Some(v) => {
                if neg {
                    if v <= 2_147_483_648 {
                        Some((-(v as i64)) as i32)
                    } else {
                        None
                    }
                } else {
                    if v <= 2_147_483_647 {
                        Some(v as i32)
                    } else {
                        None
                    }
                }
            },
        }
    }
}

} // verus!
