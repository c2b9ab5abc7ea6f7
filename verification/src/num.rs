//! Decimal numerals: the integer value of a digit string and the decimal
//! rendering of an integer.
//!
//! The increment amount of the application state is kept as text so that it
//! can be displayed and edited in place; whenever it is used arithmetically
//! it is read back with [`parse_amount`], which falls back to 1 when the
//! text is not a decimal integer in `i32` range.

use vstd::prelude::*;
use vstd::string::*;

verus! {

/// Decimal digit characters.
pub open spec fn is_digit(c: char) -> bool {
    c == '0' || c == '1' || c == '2' || c == '3' || c == '4' || c == '5' || c == '6' || c == '7'
        || c == '8' || c == '9'
}

/// Numeric value of a digit character (0 for anything that is not a digit).
pub open spec fn digit_val(c: char) -> int {
    if c == '0' {
        0
    } else if c == '1' {
        1
    } else if c == '2' {
        2
    } else if c == '3' {
        3
    } else if c == '4' {
        4
    } else if c == '5' {
        5
    } else if c == '6' {
        6
    } else if c == '7' {
        7
    } else if c == '8' {
        8
    } else if c == '9' {
        9
    } else {
        0
    }
}

/// Digit character for a value (the digit 9 for anything out of range).
pub open spec fn digit_char(d: int) -> char {
    if d == 0 {
        '0'
    } else if d == 1 {
        '1'
    } else if d == 2 {
        '2'
    } else if d == 3 {
        '3'
    } else if d == 4 {
        '4'
    } else if d == 5 {
        '5'
    } else if d == 6 {
        '6'
    } else if d == 7 {
        '7'
    } else if d == 8 {
        '8'
    } else {
        '9'
    }
}

/// Value of a digit string, most significant digit first.
pub open spec fn dec_value(s: Seq<char>) -> int
    decreases s.len(),
{
    if s.len() == 0 {
        0
    } else {
        dec_value(s.drop_last()) * 10 + digit_val(s.last())
    }
}

pub open spec fn all_digits(s: Seq<char>) -> bool {
    forall|i: int| 0 <= i < s.len() ==> is_digit(#[trigger] s[i])
}

/// A numeric string: an optional leading plus or minus sign, then at
/// least one digit.
pub open spec fn is_numeric_string(s: Seq<char>) -> bool {
    if s.len() > 0 && (s[0] == '-' || s[0] == '+') {
        s.len() >= 2 && all_digits(s.skip(1))
    } else {
        s.len() >= 1 && all_digits(s)
    }
}

/// Signed value of a numeric string.
pub open spec fn str_value(s: Seq<char>) -> int {
    if s.len() > 0 && s[0] == '-' {
        -dec_value(s.skip(1))
    } else if s.len() > 0 && s[0] == '+' {
        dec_value(s.skip(1))
    } else {
        dec_value(s)
    }
}

/// The amount an `amount` string stands for: its value when it is a numeric
/// string in `i32` range, and 1 otherwise.
pub open spec fn amount_value(s: Seq<char>) -> int {
    if is_numeric_string(s) && i32::MIN as int <= str_value(s) <= i32::MAX as int {
        str_value(s)
    } else {
        1
    }
}

/// Decimal digits of a non-negative value, most significant first.
pub open spec fn dec_digits_of(n: int) -> Seq<char>
    decreases n,
{
    if n < 10 {
        seq![digit_char(n)]
    } else {
        dec_digits_of(n / 10).push(digit_char(n % 10))
    }
}

/// Decimal rendering of an integer, with a minus sign when negative.
pub open spec fn dec_seq_of(v: int) -> Seq<char> {
    if v < 0 {
        seq!['-'] + dec_digits_of(-v)
    } else {
        dec_digits_of(v)
    }
}

pub proof fn lemma_dec_value_nonneg(s: Seq<char>)
    ensures
        dec_value(s) >= 0,
    decreases s.len(),
{
    if s.len() > 0 {
        lemma_dec_value_nonneg(s.drop_last());
    }
}

/// The digits of a non-negative value form a numeric string whose value is
/// the value they were taken from.
pub proof fn lemma_dec_digits_of(n: int)
    requires
        n >= 0,
    ensures
        dec_digits_of(n).len() >= 1,
        all_digits(dec_digits_of(n)),
        dec_value(dec_digits_of(n)) == n,
    decreases n,
{
    if n < 10 {
        let s = dec_digits_of(n);
        assert(s =~= seq![digit_char(n)]);
        assert(s.drop_last() =~= Seq::<char>::empty());
        assert(dec_value(s.drop_last()) == 0);
        assert(digit_val(digit_char(n)) == n);
        assert(s.last() == digit_char(n));
        assert(dec_value(s) == dec_value(s.drop_last()) * 10 + digit_val(s.last()));
    } else {
        lemma_dec_digits_of(n / 10);
        let s = dec_digits_of(n);
        assert(s =~= dec_digits_of(n / 10).push(digit_char(n % 10)));
        assert(s.drop_last() =~= dec_digits_of(n / 10));
        assert(s.last() == digit_char(n % 10));
        assert(digit_val(digit_char(n % 10)) == n % 10);
        assert(forall|i: int| 0 <= i < s.len() ==> is_digit(#[trigger] s[i])) by {
            assert(forall|i: int|
                0 <= i < s.len() - 1 ==> #[trigger] s[i] == dec_digits_of(n / 10)[i]);
        }
    }
}

/// Parsing the decimal rendering of an `i32`-range value gives the value
/// back: the two directions of the textual amount encoding agree.
pub proof fn lemma_amount_round_trip(v: int)
    requires
        i32::MIN as int <= v <= i32::MAX as int,
    ensures
        is_numeric_string(dec_seq_of(v)),
        amount_value(dec_seq_of(v)) == v,
{
    if v < 0 {
        lemma_dec_digits_of(-v);
        let s = dec_seq_of(v);
        assert(s[0] == '-');
        assert(s.skip(1) =~= dec_digits_of(-v));
        assert(str_value(s) == -dec_value(dec_digits_of(-v)));
    } else {
        lemma_dec_digits_of(v);
        let s = dec_seq_of(v);
        assert(is_digit(s[0]));
        assert(s[0] != '-' && s[0] != '+');
    }
}

/// Converts a digit character, refusing anything else.
fn digit_of(c: char) -> (r: Option<u8>)
    ensures
        r is Some <==> is_digit(c),
        r is Some ==> r->Some_0 as int == digit_val(c),
{
    match c {
        '0' => Some(0),
        '1' => Some(1),
        '2' => Some(2),
        '3' => Some(3),
        '4' => Some(4),
        '5' => Some(5),
        '6' => Some(6),
        '7' => Some(7),
        '8' => Some(8),
        '9' => Some(9),
        _ => None,
    }
}

/// Reads the amount a string stands for: its value as a decimal integer,
/// or 1 when the string is not a numeric string in `i32` range.
pub fn parse_amount(s: &str) -> (r: i32)
    ensures
        r as int == amount_value(s@),
{
    let n = s.unicode_len();
    let mut neg = false;
    let mut signed = false;
    if n > 0 {
        let c0 = s.get_char(0);
        if c0 == '-' {
            neg = true;
            signed = true;
        } else if c0 == '+' {
            signed = true;
        }
    }
    let start: usize = if signed {
        1
    } else {
        0
    };
    if n == start {
        // the empty string, or a lone sign
        return 1;
    }
    let mut i = start;
    let mut acc: i64 = 0;
    let mut over = false;
    while i < n
        invariant
            start <= i <= n,
            n == s@.len(),
            signed <==> (n > 0 && (s@[0] == '-' || s@[0] == '+')),
            neg <==> (n > 0 && s@[0] == '-'),
            signed <==> start == 1,
            all_digits(s@.subrange(start as int, i as int)),
            !over ==> 0 <= acc <= 2147483648 && acc == dec_value(
                s@.subrange(start as int, i as int),
            ),
            over ==> dec_value(s@.subrange(start as int, i as int)) > 2147483648,
        decreases n - i,
    {
        let c = s.get_char(i);
        let d = match digit_of(c) {
            Some(d) => d,
            None => {
                // a non-digit makes the string non-numeric
                proof {
                    assert(!is_digit(s@[i as int]));
                    if signed {
                        assert(s@.skip(1)[i - 1] == s@[i as int]);
                        assert(!all_digits(s@.skip(1)));
                    } else {
                        assert(!all_digits(s@));
                    }
                    assert(!is_numeric_string(s@));
                }
                return 1;
            },
        };
        proof {
            let pre = s@.subrange(start as int, i as int);
            let post = s@.subrange(start as int, i + 1);
            assert(post.drop_last() =~= pre);
            assert(post.last() == s@[i as int]);
            lemma_dec_value_nonneg(pre);
            assert(all_digits(post)) by {
                assert(forall|k: int| 0 <= k < post.len() - 1 ==> post[k] == pre[k]);
            }
        }
        if !over {
            acc = acc * 10 + (d as i64);
            if acc > 2147483648 {
                over = true;
            }
        }
        i += 1;
    }
    proof {
        let digits = s@.subrange(start as int, n as int);
        if signed {
            assert(digits =~= s@.skip(1));
        } else {
            assert(digits =~= s@);
        }
        assert(is_numeric_string(s@));
    }
    if over {
        // out of i32 range either way
        return 1;
    }
    if neg {
        if acc == 2147483648 {
            return i32::MIN;
        }
        return -(acc as i32);
    }
    if acc > 2147483647 {
        return 1;
    }
    acc as i32
}

/// The one-character string for a digit value.
fn digit_str(d: u8) -> (r: &'static str)
    requires
        d < 10,
    ensures
        r@ =~= seq![digit_char(d as int)],
{
    proof {
        reveal_strlit("0");
        reveal_strlit("1");
        reveal_strlit("2");
        reveal_strlit("3");
        reveal_strlit("4");
        reveal_strlit("5");
        reveal_strlit("6");
        reveal_strlit("7");
        reveal_strlit("8");
        reveal_strlit("9");
    }
    match d {
        0 => "0",
        1 => "1",
        2 => "2",
        3 => "3",
        4 => "4",
        5 => "5",
        6 => "6",
        7 => "7",
        8 => "8",
        _ => "9",
    }
}

/// The digit characters of `ds` read back to front.
pub open spec fn rev_digit_chars(ds: Seq<u8>) -> Seq<char> {
    Seq::new(ds.len(), |i: int| digit_char(ds[ds.len() - 1 - i] as int))
}

/// Renders an integer in decimal, with a minus sign when negative.
pub fn i32_to_string(n: i32) -> (r: String)
    ensures
        r@ == dec_seq_of(n as int),
{
    let neg = n < 0;
    let mut m: u64 = if n < 0 {
        (-(n as i64)) as u64
    } else {
        n as u64
    };
    let ghost m0 = m as int;
    let mut digits: Vec<u8> = Vec::new();
    let d0 = (m % 10) as u8;
    digits.push(d0);
    proof {
        assert(rev_digit_chars(digits@) =~= seq![digit_char(d0 as int)]);
    }
    m = m / 10;
    while m > 0
        invariant
            0 <= m <= m0,
            m == 0 ==> dec_digits_of(m0) =~= rev_digit_chars(digits@),
            m > 0 ==> dec_digits_of(m0) =~= dec_digits_of(m as int) + rev_digit_chars(digits@),
            forall|j: int| 0 <= j < digits@.len() ==> digits@[j] < 10,
        decreases m,
    {
        let d = (m % 10) as u8;
        let ghost pre = digits@;
        digits.push(d);
        proof {
            assert(rev_digit_chars(digits@) =~= seq![digit_char(d as int)] + rev_digit_chars(
                pre,
            ));
        }
        m = m / 10;
    }
    proof {
        assert(dec_digits_of(m0) =~= rev_digit_chars(digits@));
    }
    let mut r = String::new();
    if neg {
        r.append("-");
        proof {
            reveal_strlit("-");
            assert(r@ =~= seq!['-']);
        }
    }
    let ghost prefix = r@;
    let mut j = digits.len();
    while j > 0
        invariant
            0 <= j <= digits@.len(),
            forall|k: int| 0 <= k < digits@.len() ==> digits@[k] < 10,
            r@ =~= prefix + rev_digit_chars(digits@).take(digits@.len() - j),
        decreases j,
    {
        j -= 1;
        let ghost before = r@;
        r.append(digit_str(digits[j]));
        proof {
            let full = rev_digit_chars(digits@);
            assert(full[digits@.len() - 1 - j] == digit_char(digits@[j as int] as int));
            assert(r@ =~= prefix + full.take(digits@.len() - j));
        }
    }
    proof {
        assert(rev_digit_chars(digits@).take(digits@.len() as int) =~= rev_digit_chars(digits@));
        assert(r@ =~= prefix + dec_digits_of(m0));
        if neg {
            assert(m0 == -(n as int));
            assert(r@ =~= dec_seq_of(n as int));
        } else {
            assert(prefix =~= Seq::<char>::empty());
            assert(r@ =~= dec_seq_of(n as int));
        }
    }
    r
}

} // verus!
