//! Verified text helpers for the dynamic-configuration path: equality of
//! string slices, and printing and parsing of small decimal numbers.

use vstd::prelude::*;

verus! {

/// Character-wise equality of two string slices.
pub fn str_eq(a: &str, b: &str) -> (r: bool)
    ensures
        r == (a@ == b@),
{
    let n = a.unicode_len();
    let m = b.unicode_len();
    if n != m {
        return false;
    }
    let mut i: usize = 0;
    while i < n
        invariant
            n == a@.len(),
            n == b@.len(),
            0 <= i <= n,
            forall|j: int| 0 <= j < i ==> a@[j] == b@[j],
        decreases n - i,
    {
        if a.get_char(i) != b.get_char(i) {
            return false;
        }
        i = i + 1;
    }
    proof {
        assert(a@ =~= b@);
    }
    true
}

/// The character is a decimal digit.
pub open spec fn is_digit(c: char) -> bool {
    48 <= c as u32 <= 57
}

/// Every character of `s` is a decimal digit.
pub open spec fn all_digits(s: Seq<char>) -> bool {
    forall|i: int| 0 <= i < s.len() ==> is_digit(#[trigger] s[i])
}

/// Numeric value of one digit character.
pub open spec fn digit_val(c: char) -> int {
    c as u32 - 48
}

/// The digit character for a value below ten.
pub open spec fn digit_char(d: int) -> char {
    ((48 + d) as u8) as char
}

/// Value of a digit string read in base ten.
pub open spec fn dec_val(s: Seq<char>) -> int
    decreases s.len(),
{
    if s.len() == 0 {
        0
    } else {
        dec_val(s.drop_last()) * 10 + digit_val(s.last())
    }
}

/// The canonical decimal digits of `n`, most significant first.
pub open spec fn dec_digits(n: nat) -> Seq<char>
    decreases n,
{
    if n < 10 {
        seq![digit_char(n as int)]
    } else {
        dec_digits(n / 10).push(digit_char((n % 10) as int))
    }
}

/// What parsing a decimal number into an eight-bit value yields: the value
/// of the digits if the string is nonempty, all digits, and in range;
/// nothing otherwise.
pub open spec fn spec_parse_u8(s: Seq<char>) -> Option<u8> {
    if s.len() >= 1 && all_digits(s) && dec_val(s) <= 255 {
        Some(dec_val(s) as u8)
    } else {
        None
    }
}

pub proof fn lemma_dec_val_nonneg(s: Seq<char>)
    requires
        all_digits(s),
    ensures
        dec_val(s) >= 0,
    decreases s.len(),
{
    if s.len() > 0 {
        assert(is_digit(s[s.len() - 1]));
        lemma_dec_val_nonneg(s.drop_last());
    }
}

/// Under digits, the value of a prefix never exceeds the value of a longer
/// prefix.
pub proof fn lemma_dec_val_prefix(s: Seq<char>, i: int, j: int)
    requires
        0 <= i <= j <= s.len(),
        all_digits(s),
    ensures
        dec_val(s.take(i)) <= dec_val(s.take(j)),
    decreases j - i,
{
    if i < j {
        lemma_dec_val_prefix(s, i, j - 1);
        assert(s.take(j).drop_last() =~= s.take(j - 1));
        assert(all_digits(s.take(j - 1))) by {
            assert(forall|m: int| 0 <= m < j - 1 ==> s.take(j - 1)[m] == s[m]);
        }
        lemma_dec_val_nonneg(s.take(j - 1));
        assert(is_digit(s[j - 1]));
        assert(dec_val(s.take(j)) == dec_val(s.take(j - 1)) * 10 + digit_val(s[j - 1]));
        assert(dec_val(s.take(j - 1)) * 10 >= dec_val(s.take(j - 1))) by (nonlinear_arith)
            requires
                dec_val(s.take(j - 1)) >= 0,
        ;
    }
}

/// Printing then reading a number is the identity: the canonical digits are
/// all digits and carry the value they were printed from.
pub proof fn lemma_dec_digits_roundtrip(n: nat)
    ensures
        dec_digits(n).len() >= 1,
        all_digits(dec_digits(n)),
        dec_val(dec_digits(n)) == n,
    decreases n,
{
    if n < 10 {
        assert(digit_char(n as int) as u32 == 48 + n);
        let s = seq![digit_char(n as int)];
        assert(s.drop_last() =~= Seq::<char>::empty());
        assert(dec_val(s) == dec_val(s.drop_last()) * 10 + digit_val(s.last()));
        assert(dec_val(s) == digit_val(digit_char(n as int)));
    } else {
        lemma_dec_digits_roundtrip(n / 10);
        vstd::arithmetic::div_mod::lemma_fundamental_div_mod(n as int, 10);
        let d = (n % 10) as int;
        assert(0 <= d < 10);
        assert(digit_char(d) as u32 == 48 + d);
        assert(dec_digits(n).drop_last() =~= dec_digits(n / 10));
        assert(dec_val(dec_digits(n)) == dec_val(dec_digits(n / 10)) * 10 + digit_val(
            digit_char(d),
        ));
    }
}

/// Round trip of a period value's external form: printing any eight-bit
/// value and parsing the result yields the value back.
pub proof fn lemma_u8_string_roundtrip(n: u8)
    ensures
        spec_parse_u8(dec_digits(n as nat)) == Some(n),
{
    lemma_dec_digits_roundtrip(n as nat);
}

/// One digit as a string slice.
fn digit_str(d: u8) -> (r: &'static str)
    requires
        d < 10,
    ensures
        r@ =~= seq![digit_char(d as int)],
{
    proof {
        reveal_strlit("0");
        reveal_strlit("1");
        reveal_strlit("2");
        reveal_strlit("3");
        reveal_strlit("4");
        reveal_strlit("5");
        reveal_strlit("6");
        reveal_strlit("7");
        reveal_strlit("8");
        reveal_strlit("9");
    }
    match d {
        0 => "0",
        1 => "1",
        2 => "2",
        3 => "3",
        4 => "4",
        5 => "5",
        6 => "6",
        7 => "7",
        8 => "8",
        _ => "9",
    }
}

/// Prints `n` as its canonical decimal digits.
pub fn u8_to_string(n: u8) -> (s: String)
    ensures
        s@ == dec_digits(n as nat),
    decreases n,
{
    if n < 10 {
        let s = String::from_str(digit_str(n));
        proof {
            assert(s@ =~= dec_digits(n as nat));
        }
        s
    } else {
        let mut s = u8_to_string(n / 10);
        s.append(digit_str(n % 10));
        proof {
            assert(s@ =~= dec_digits(n as nat));
        }
        s
    }
}

/// Parses a decimal number into an eight-bit value: succeeds exactly on a
/// nonempty, all-digit string whose value fits.
pub fn parse_u8(s: &str) -> (r: Option<u8>)
    ensures
        r == spec_parse_u8(s@),
{
    let n = s.unicode_len();
    if n == 0 {
        return None;
    }
    let mut acc: u32 = 0;
    let mut i: usize = 0;
    while i < n
        invariant
            n == s@.len(),
            0 <= i <= n,
            all_digits(s@.take(i as int)),
            acc == dec_val(s@.take(i as int)),
            acc <= 255,
        decreases n - i,
    {
        let c = s.get_char(i);
        let v = c as u32;
        if v < 48 || v > 57 {
            proof {
                assert(!is_digit(s@[i as int]));
            }
            return None;
        }
        proof {
            assert(s@.take(i + 1).drop_last() =~= s@.take(i as int));
            assert(s@.take(i + 1).last() == s@[i as int]);
        }
        acc = acc * 10 + (v - 48);
        if acc > 255 {
            proof {
                if all_digits(s@) {
                    lemma_dec_val_prefix(s@, i + 1, n as int);
                    assert(s@.take(n as int) =~= s@);
                }
            }
            return None;
        }
        i = i + 1;
    }
    proof {
        assert(s@.take(n as int) =~= s@);
    }
    Some(acc as u8)
}

} // verus!
