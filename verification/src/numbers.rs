//! Spellings of numbers.
use vstd::prelude::*;
use vstd::string::*;

use crate::text;

verus! {

/// The decimal digit of a number below ten.
pub open spec fn digit(n: int) -> char {
    ('0' as int + n) as char
}

/// The decimal spelling of a number, without leading zeros.
pub open spec fn decimal(n: nat) -> Seq<char>
    decreases n,
{
    if n < 10 {
        seq![digit(n as int)]
    } else {
        decimal(n / 10).push(digit((n % 10) as int))
    }
}

/// The decimal spelling of an integer, with a minus sign before a negative one.
pub open spec fn signed(n: int) -> Seq<char> {
    if n < 0 {
        "-"@ + decimal((-n) as nat)
    } else {
        decimal(n as nat)
    }
}

/// The lowercase hexadecimal digit of a number below sixteen.
pub open spec fn hex_digit(n: int) -> char {
    if n < 10 {
        digit(n)
    } else {
        ('a' as int + n - 10) as char
    }
}

/// The lowercase hexadecimal spelling of a number, without leading zeros.
pub open spec fn hexadecimal(n: nat) -> Seq<char>
    decreases n,
{
    if n < 16 {
        seq![hex_digit(n as int)]
    } else {
        hexadecimal(n / 16).push(hex_digit((n % 16) as int))
    }
}

/// Gives the lowercase hexadecimal digit of a number below sixteen.
pub fn hex_char(n: u8) -> (c: char)
    requires
        n < 16,
    ensures
        c == hex_digit(n as int),
{
    if n < 10 {
        (48 + n) as char
    } else {
        (87 + n) as char
    }
}

/// Spells a number in decimal.
pub fn decimal_string(n: u128) -> (r: String)
    ensures
        r@ == decimal(n as nat),
    decreases n,
{
    let mut s: String = if n < 10 {
        String::new()
    } else {
        decimal_string(n / 10)
    };
    s.push(hex_char((n % 10) as u8));
    assert(n < 10 ==> s@ =~= decimal(n as nat));
    s
}

/// Spells a number in lowercase hexadecimal.
pub fn hexadecimal_string(n: u128) -> (r: String)
    ensures
        r@ == hexadecimal(n as nat),
    decreases n,
{
    let mut s: String = if n < 16 {
        String::new()
    } else {
        hexadecimal_string(n / 16)
    };
    s.push(hex_char((n % 16) as u8));
    assert(n < 16 ==> s@ =~= hexadecimal(n as nat));
    s
}

/// Spells an integer in decimal.
pub fn signed_string(n: i32) -> (r: String)
    ensures
        r@ == signed(n as int),
{
    if n < 0 {
        let mut s: String = "-".to_owned();
        let magnitude: i64 = -(n as i64);
        s.append(decimal_string(magnitude as u128).as_str());
        s
    } else {
        decimal_string(n as u128)
    }
}

/// How std's `Debug` formatting spells an optional integer.
pub open spec fn optional(n: Option<i32>) -> Seq<char> {
    match n {
        Some(n) => "Some("@ + signed(n as int) + ")"@,
        None => "None"@,
    }
}

/// Spells an optional integer.
pub fn optional_string(n: Option<i32>) -> (r: String)
    ensures
        r@ == optional(n),
{
    match n {
        Some(n) => {
            let mut s: String = "Some(".to_owned();
            s.append(signed_string(n).as_str());
            s.append(")");
            s
        },
        None => "None".to_owned(),
    }
}

/// The value of a digit in some radix up to sixteen, in either letter case.
pub open spec fn digit_value(c: char, radix: int) -> Option<int> {
    let v = if '0' <= c <= '9' {
        c as int - '0' as int
    } else if 'a' <= c <= 'f' {
        c as int - 'a' as int + 10
    } else if 'A' <= c <= 'F' {
        c as int - 'A' as int + 10
    } else {
        16
    };
    if v < radix {
        Some(v)
    } else {
        None
    }
}

/// The value of the first `n` characters, when all of them are digits.
pub open spec fn digits_value(s: Seq<char>, radix: int, n: int) -> Option<int>
    decreases n,
{
    if n <= 0 {
        Some(0)
    } else {
        match (digits_value(s, radix, n - 1), digit_value(s[n - 1], radix)) {
            (Some(v), Some(d)) => Some(v * radix + d),
            _ => None,
        }
    }
}

/// The value of one or more digits.
pub open spec fn number_value(s: Seq<char>, radix: int) -> Option<int> {
    if s.len() == 0 {
        None
    } else {
        digits_value(s, radix, s.len() as int)
    }
}

/// The value of an unsigned number, which may follow a plus sign.
pub open spec fn unsigned_value(s: Seq<char>, radix: int) -> Option<int> {
    if s.len() > 0 && s[0] == '+' {
        number_value(s.subrange(1, s.len() as int), radix)
    } else {
        number_value(s, radix)
    }
}

/// The value of an unsigned number no larger than `max`.
pub open spec fn bounded_value(s: Seq<char>, radix: int, max: int) -> Option<int> {
    match unsigned_value(s, radix) {
        Some(v) if v <= max => Some(v),
        _ => None,
    }
}

/// The value of a signed number.
pub open spec fn signed_value(s: Seq<char>) -> Option<int> {
    if s.len() > 0 && s[0] == '-' {
        match number_value(s.subrange(1, s.len() as int), 10) {
            Some(v) => Some(-v),
            None => None,
        }
    } else {
        unsigned_value(s, 10)
    }
}

proof fn digits_value_grows(s: Seq<char>, radix: int, n: int, m: int)
    requires
        0 <= n <= m,
        radix == 10 || radix == 16,
    ensures
        digits_value(s, radix, n) is None ==> digits_value(s, radix, m) is None,
        digits_value(s, radix, m) is Some ==> digits_value(s, radix, n) is Some && 0
            <= digits_value(s, radix, n)->0 <= digits_value(s, radix, m)->0,
    decreases m,
{
    if m > 0 {
        digits_value_grows(s, radix, if n < m { n } else { n - 1 }, m - 1);
    }
}

/// Gives the value of a digit.
fn digit_of(c: char, radix: u8) -> (r: Option<u8>)
    requires
        radix <= 16,
    ensures
        match r {
            Some(v) => digit_value(c, radix as int) == Some(v as int) && v < radix,
            None => digit_value(c, radix as int) is None,
        },
{
    let v: u8 = if '0' <= c && c <= '9' {
        (c as u32 - 48) as u8
    } else if 'a' <= c && c <= 'f' {
        (c as u32 - 87) as u8
    } else if 'A' <= c && c <= 'F' {
        (c as u32 - 55) as u8
    } else {
        16
    };
    if v < radix {
        Some(v)
    } else {
        None
    }
}

/// The value of the digits of `v` from `from` on, when it is at most `max`.
fn digits_from(v: &Vec<char>, from: usize, radix: u8, max: u128) -> (r: Option<u128>)
    requires
        radix == 10 || radix == 16,
        from <= v@.len(),
    ensures
        match r {
            Some(n) => number_value(v@.subrange(from as int, v@.len() as int), radix as int) == Some(
                n as int,
            ) && n <= max,
            None => number_value(
                v@.subrange(from as int, v@.len() as int),
                radix as int,
            ) matches Some(n) ==> n > max,
        },
{
    let ghost s = v@.subrange(from as int, v@.len() as int);
    if from == v.len() {
        return None;
    }
    let mut i: usize = from;
    let mut value: u128 = 0;
    while i < v.len()
        invariant
            from <= i <= v@.len(),
            s == v@.subrange(from as int, v@.len() as int),
            s.len() > 0,
            radix == 10 || radix == 16,
            digits_value(s, radix as int, i - from) == Some(value as int),
            value <= max,
        decreases v@.len() - i,
    {
        proof {
            digits_value_grows(s, radix as int, i - from + 1, s.len() as int);
        }
        assert(s[i - from] == v@[i as int]);
        match digit_of(v[i], radix) {
            Some(d) => {
                match value.checked_mul(radix as u128) {
                    Some(shifted) => {
                        match shifted.checked_add(d as u128) {
                            Some(next) => {
                                if next > max {
                                    return None;
                                }
                                value = next;
                            },
                            None => return None,
                        }
                    },
                    None => return None,
                }
            },
            None => return None,
        }
        i = i + 1;
    }
    Some(value)
}

/// Reads an unsigned number of at most `max`, as std's `from_str_radix` does.
pub fn unsigned_number(s: &str, radix: u8, max: u128) -> (r: Option<u128>)
    requires
        radix == 10 || radix == 16,
    ensures
        match r {
            Some(n) => bounded_value(s@, radix as int, max as int) == Some(n as int) && n <= max,
            None => bounded_value(s@, radix as int, max as int) is None,
        },
{
    let v: Vec<char> = text::chars_of(s);
    if v.len() > 0 && v[0] == '+' {
        digits_from(&v, 1, radix, max)
    } else {
        assert(v@.subrange(0, v@.len() as int) == v@);
        digits_from(&v, 0, radix, max)
    }
}

/// Whether a text is a signed 64-bit number that is not negative.
pub fn is_nonnegative_i64(s: &str) -> (r: bool)
    ensures
        r == (signed_value(s@) matches Some(v) && 0 <= v <= i64::MAX),
{
    let v: Vec<char> = text::chars_of(s);
    if v.len() > 0 && v[0] == '-' {
        proof {
            let t = s@.subrange(1, s@.len() as int);
            digits_value_grows(t, 10, 0, t.len() as int);
        }
        match digits_from(&v, 1, 10, 0) {
            Some(_) => true,
            None => false,
        }
    } else {
        proof {
            let t = s@.subrange(1, s@.len() as int);
            digits_value_grows(t, 10, 0, t.len() as int);
            digits_value_grows(s@, 10, 0, s@.len() as int);
        }
        unsigned_number(s, 10, i64::MAX as u128).is_some()
    }
}

/// The value of a signed 32-bit number.
pub open spec fn i32_value(s: Seq<char>) -> Option<int> {
    match signed_value(s) {
        Some(v) if i32::MIN <= v <= i32::MAX => Some(v),
        _ => None,
    }
}

/// A small unsigned number is read as the same signed number.
pub proof fn unsigned_reads_as_signed(s: Seq<char>, max: int)
    requires
        max <= i32::MAX,
        bounded_value(s, 10, max) is Some,
    ensures
        i32_value(s) == bounded_value(s, 10, max),
{
    let t = s.subrange(1, s.len() as int);
    digits_value_grows(t, 10, 0, t.len() as int);
    digits_value_grows(s, 10, 0, s.len() as int);
    if s[0] == '-' {
        digits_value_grows(s, 10, 1, s.len() as int);
        assert(digits_value(s, 10, 0) == Some(0int));
        assert(digits_value(s, 10, 1) is None);
    }
}

/// Reads a signed 32-bit number, as std's `parse` does.
pub fn signed_number(s: &str) -> (r: Option<i32>)
    ensures
        match r {
            Some(n) => i32_value(s@) == Some(n as int),
            None => i32_value(s@) is None,
        },
{
    let v: Vec<char> = text::chars_of(s);
    proof {
        let t = s@.subrange(1, s@.len() as int);
        digits_value_grows(t, 10, 0, t.len() as int);
        digits_value_grows(s@, 10, 0, s@.len() as int);
    }
    if v.len() > 0 && v[0] == '-' {
        match digits_from(&v, 1, 10, 0x8000_0000) {
            Some(n) => {
                let negated: i64 = -(n as i64);
                Some(negated as i32)
            },
            None => None,
        }
    } else {
        match unsigned_number(s, 10, 0x7fff_ffff) {
            Some(n) => Some(n as i32),
            None => None,
        }
    }
}

/// The value of the first digits does not depend on what follows them.
proof fn digits_value_prefix(a: Seq<char>, b: Seq<char>, radix: int, n: int)
    requires
        n <= a.len(),
        n <= b.len(),
        forall|i: int| 0 <= i < n ==> a[i] == b[i],
    ensures
        digits_value(a, radix, n) == digits_value(b, radix, n),
    decreases n,
{
    if n > 0 {
        digits_value_prefix(a, b, radix, n - 1);
    }
}

/// Reading the decimal spelling of a number gives the number back.
pub proof fn decimal_reads_back(n: nat)
    ensures
        decimal(n).len() > 0,
        number_value(decimal(n), 10) == Some(n as int),
        unsigned_value(decimal(n), 10) == Some(n as int),
        text::all_digits(decimal(n)),
    decreases n,
{
    let s = decimal(n);
    reveal_with_fuel(digits_value, 2);
    if n >= 10 {
        let t = decimal(n / 10);
        decimal_reads_back(n / 10);
        digits_value_prefix(s, t, 10, t.len() as int);
        assert(s.len() == t.len() + 1);
        assert(s[s.len() - 1] == digit((n % 10) as int));
        assert forall|i: int| 0 <= i < s.len() implies text::ascii_digit(#[trigger] s[i]) by {
            if i < t.len() {
                assert(s[i] == t[i]);
            }
        }
    }
    assert(text::ascii_digit(s[0]));
}

/// Reading the hexadecimal spelling of a number gives the number back.
pub proof fn hexadecimal_reads_back(n: nat)
    ensures
        hexadecimal(n).len() > 0,
        number_value(hexadecimal(n), 16) == Some(n as int),
        unsigned_value(hexadecimal(n), 16) == Some(n as int),
        forall|i: int|
            0 <= i < hexadecimal(n).len() ==> '0' <= #[trigger] hexadecimal(n)[i] <= '9' || 'a'
                <= hexadecimal(n)[i] <= 'f',
    decreases n,
{
    let s = hexadecimal(n);
    reveal_with_fuel(digits_value, 2);
    if n >= 16 {
        let t = hexadecimal(n / 16);
        hexadecimal_reads_back(n / 16);
        digits_value_prefix(s, t, 16, t.len() as int);
        assert(s.len() == t.len() + 1);
        assert forall|i: int| 0 <= i < s.len() implies '0' <= #[trigger] s[i] <= '9' || 'a' <= s[i]
            <= 'f' by {
            if i < t.len() {
                assert(s[i] == t[i]);
            }
        }
    }
    assert('0' <= s[0] <= '9' || 'a' <= s[0] <= 'f');
}

/// What an unsigned number is read as is not negative, and no larger than its bound.
pub proof fn bounded_is_nonnegative(s: Seq<char>, radix: int, max: int)
    requires
        radix == 10 || radix == 16,
    ensures
        bounded_value(s, radix, max) matches Some(v) ==> 0 <= v <= max,
{
    let rest = s.subrange(1, s.len() as int);
    digits_value_grows(s, radix, 0, s.len() as int);
    digits_value_grows(rest, radix, 0, rest.len() as int);
}

/// A text that starts with a letter beyond the digits is no decimal number.
pub proof fn letters_are_no_number(s: Seq<char>)
    requires
        s.len() > 0,
        'A' <= s[0] <= 'z',
    ensures
        forall|max: int| bounded_value(s, 10, max) is None,
        signed_value(s) is None,
{
    digits_value_grows(s, 10, 1, s.len() as int);
    reveal_with_fuel(digits_value, 2);
}

/// The spelling of an integer is read back as it, and is that of no other.
pub proof fn signed_reads_back(n: int)
    ensures
        signed_value(signed(n)) == Some(n),
        signed(n).len() > 0,
        n < 0 <==> signed(n)[0] == '-',
        forall|i: int|
            0 <= i < signed(n).len() ==> (#[trigger] signed(n)[i] == '-' && i == 0) || '0'
                <= signed(n)[i] <= '9',
{
    reveal_strlit("-");
    if n < 0 {
        let m = (-n) as nat;
        decimal_reads_back(m);
        let s = signed(n);
        assert(s.subrange(1, s.len() as int) =~= decimal(m));
    } else {
        decimal_reads_back(n as nat);
    }
}

/// Numbers are spelled digit by digit, the ones last.
pub proof fn numbers_are_spelled_by_digits(n: nat, d: nat)
    requires
        d < 10,
    ensures
        decimal(0) == seq!['0'],
        decimal(1) == seq!['1'],
        decimal(9) == seq!['9'],
        d > 0 ==> decimal(d)[0] as int == decimal((d - 1) as nat)[0] as int + 1,
        n > 0 ==> decimal(n * 10 + d) == decimal(n) + decimal(d),
{
    if n > 0 {
        assert((n * 10 + d) / 10 == n && (n * 10 + d) % 10 == d);
        assert(decimal(n * 10 + d) =~= decimal(n) + decimal(d));
    }
}

/// Numbers are spelled by hexadecimal digits, lowercase, the ones last.
pub proof fn numbers_are_spelled_by_hexadecimal_digits(n: nat, d: nat)
    requires
        d < 16,
    ensures
        hexadecimal(0) == seq!['0'],
        hexadecimal(9) == seq!['9'],
        hexadecimal(10) == seq!['a'],
        hexadecimal(15) == seq!['f'],
        d > 0 && d != 10 ==> hexadecimal(d)[0] as int == hexadecimal((d - 1) as nat)[0] as int + 1,
        n > 0 ==> hexadecimal(n * 16 + d) == hexadecimal(n) + hexadecimal(d),
{
    if n > 0 {
        assert((n * 16 + d) / 16 == n && (n * 16 + d) % 16 == d);
        assert(hexadecimal(n * 16 + d) =~= hexadecimal(n) + hexadecimal(d));
    }
}

} // verus!
