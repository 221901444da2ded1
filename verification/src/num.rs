//! Verified numeric text handling: rendering unsigned values as decimal or
//! uppercase hexadecimal, and parsing the numeric attribute values of the
//! source vocabulary (decimal, or hexadecimal after a `0x`/`0X` prefix).
use vstd::prelude::*;
use vstd::string::*;

verus! {

/// The decimal digit character for `d` (`d < 10`).
pub open spec fn dec_digit_char(d: nat) -> char {
    if d == 0 { '0' } else if d == 1 { '1' } else if d == 2 { '2' } else if d == 3 { '3' }
    else if d == 4 { '4' } else if d == 5 { '5' } else if d == 6 { '6' } else if d == 7 { '7' }
    else if d == 8 { '8' } else { '9' }
}

/// The uppercase hexadecimal digit character for `d` (`d < 16`).
pub open spec fn hex_digit_char(d: nat) -> char {
    if d < 10 { dec_digit_char(d) } else if d == 10 { 'A' } else if d == 11 { 'B' }
    else if d == 12 { 'C' } else if d == 13 { 'D' } else if d == 14 { 'E' } else { 'F' }
}

/// The decimal rendering of `n`, most significant digit first, no sign and
/// no leading zeros (`0` itself is rendered `"0"`).
pub open spec fn dec_str(n: nat) -> Seq<char>
    decreases n,
{
    if n < 10 {
        seq![dec_digit_char(n)]
    } else {
        dec_str(n / 10).push(dec_digit_char(n % 10))
    }
}

/// The uppercase hexadecimal rendering of `n`, without a `0x` prefix and
/// without leading zeros.
pub open spec fn hex_str(n: nat) -> Seq<char>
    decreases n,
{
    if n < 16 {
        seq![hex_digit_char(n)]
    } else {
        hex_str(n / 16).push(hex_digit_char(n % 16))
    }
}

fn dec_digit(d: u64) -> (r: String)
    requires
        d < 10,
    ensures
        r@ =~= seq![dec_digit_char(d as nat)],
{
    let s = "0123456789";
    proof {
        reveal_strlit("0123456789");
    }
    let t = s.substring_char(d as usize, d as usize + 1);
    proof {
        assert(t@ =~= seq![s@[d as int]]);
    }
    String::from_str(t)
}

fn hex_digit(d: u64) -> (r: String)
    requires
        d < 16,
    ensures
        r@ =~= seq![hex_digit_char(d as nat)],
{
    let s = "0123456789ABCDEF";
    proof {
        reveal_strlit("0123456789ABCDEF");
    }
    let t = s.substring_char(d as usize, d as usize + 1);
    proof {
        assert(t@ =~= seq![s@[d as int]]);
    }
    String::from_str(t)
}

/// Render `n` in decimal.
pub fn u64_to_dec(n: u64) -> (r: String)
    ensures
        r@ == dec_str(n as nat),
    decreases n,
{
    if n < 10 {
        dec_digit(n)
    } else {
        let mut r = u64_to_dec(n / 10);
        let d = dec_digit(n % 10);
        r.append(d.as_str());
        proof {
            assert(r@ =~= dec_str((n / 10) as nat).push(dec_digit_char((n % 10) as nat)));
        }
        r
    }
}

/// Render `n` in uppercase hexadecimal, without a `0x` prefix.
pub fn u64_to_hex_upper(n: u64) -> (r: String)
    ensures
        r@ == hex_str(n as nat),
    decreases n,
{
    if n < 16 {
        hex_digit(n)
    } else {
        let mut r = u64_to_hex_upper(n / 16);
        let d = hex_digit(n % 16);
        r.append(d.as_str());
        proof {
            assert(r@ =~= hex_str((n / 16) as nat).push(hex_digit_char((n % 16) as nat)));
        }
        r
    }
}

/// Whether `c` is a decimal digit.
pub open spec fn is_dec_digit(c: char) -> bool {
    48 <= c as u32 <= 57
}

/// Whether `c` is a hexadecimal digit (either case).
pub open spec fn is_hex_digit(c: char) -> bool {
    is_dec_digit(c) || 97 <= c as u32 <= 102 || 65 <= c as u32 <= 70
}

/// The numeric value of a digit character; zero for any other character.
pub open spec fn dec_val(c: char) -> nat {
    if is_dec_digit(c) {
        (c as u32 - 48) as nat
    } else {
        0
    }
}

/// The numeric value of a hexadecimal digit character; zero otherwise.
pub open spec fn hex_val(c: char) -> nat {
    if is_dec_digit(c) {
        (c as u32 - 48) as nat
    } else if 97 <= c as u32 <= 102 {
        (c as u32 - 87) as nat
    } else if 65 <= c as u32 <= 70 {
        (c as u32 - 55) as nat
    } else {
        0
    }
}

/// The value of a digit string read in the given base.
pub open spec fn digits_val(s: Seq<char>, base: nat) -> nat
    decreases s.len(),
{
    if s.len() == 0 {
        0
    } else {
        digits_val(s.drop_last(), base) * base + (if base == 16 {
            hex_val(s.last())
        } else {
            dec_val(s.last())
        })
    }
}

/// The digit body of a numeral: everything after an optional leading `+`.
pub open spec fn num_body(s: Seq<char>) -> Seq<char> {
    if s.len() > 0 && s[0] == '+' {
        s.skip(1)
    } else {
        s
    }
}

/// What parsing a decimal numeral yields: the value of the digits if the
/// body is non-empty, all digits, and the value fits in 64 bits.
pub open spec fn parse_dec_spec(s: Seq<char>) -> Option<u64> {
    let b = num_body(s);
    if b.len() > 0 && (forall|i: int| 0 <= i < b.len() ==> is_dec_digit(b[i])) && digits_val(b, 10)
        <= u64::MAX {
        Some(digits_val(b, 10) as u64)
    } else {
        None
    }
}

/// What parsing a hexadecimal numeral (after the prefix) yields.
pub open spec fn parse_hex_spec(s: Seq<char>) -> Option<u64> {
    let b = num_body(s);
    if b.len() > 0 && (forall|i: int| 0 <= i < b.len() ==> is_hex_digit(b[i])) && digits_val(b, 16)
        <= u64::MAX {
        Some(digits_val(b, 16) as u64)
    } else {
        None
    }
}

/// What parsing a reset-value numeral yields: hexadecimal when prefixed
/// `0x` or `0X`, decimal otherwise.
pub open spec fn parse_reset_spec(s: Seq<char>) -> Option<u64> {
    if s.len() >= 2 && s[0] == '0' && (s[1] == 'x' || s[1] == 'X') {
        parse_hex_spec(s.skip(2))
    } else {
        parse_dec_spec(s)
    }
}

proof fn lemma_digits_val_mono(s: Seq<char>, base: nat, i: int, j: int)
    requires
        0 <= i <= j <= s.len(),
        base >= 2,
    ensures
        digits_val(s.take(i), base) <= digits_val(s.take(j), base),
    decreases j - i,
{
    if i < j {
        lemma_digits_val_mono(s, base, i, j - 1);
        let t = s.take(j);
        assert(t.drop_last() =~= s.take(j - 1));
        assert(digits_val(s.take(j - 1), base) * base >= digits_val(s.take(j - 1), base)) by (nonlinear_arith)
            requires base >= 2;
    }
}

fn parse_digits(s: &str, base: u64) -> (r: Option<u64>)
    requires
        base == 10 || base == 16,
    ensures
        base == 10 ==> r == parse_dec_spec(s@),
        base == 16 ==> r == parse_hex_spec(s@),
{
    let n = s.unicode_len();
    let start: usize = if n > 0 && s.get_char(0) == '+' {
        1
    } else {
        0
    };
    let ghost b = num_body(s@);
    proof {
        assert(b =~= s@.skip(start as int));
    }
    if start == n {
        return None;
    }
    let mut acc: u64 = 0;
    let mut i: usize = start;
    while i < n
        invariant
            start <= i <= n,
            n == s@.len(),
            base == 10 || base == 16,
            b == num_body(s@),
            b == s@.skip(start as int),
            forall|k: int| 0 <= k < i - start ==> (base == 10 ==> is_dec_digit(b[k])) && (base == 16
                ==> is_hex_digit(b[k])),
            acc as nat == digits_val(b.take(i - start), base as nat),
        decreases n - i,
    {
        let c = s.get_char(i);
        proof {
            assert(b[i - start] == s@[i as int]);
        }
        let cv = c as u32;
        let d: u64 = if cv >= 48 && cv <= 57 {
            (cv - 48) as u64
        } else if base == 16 && cv >= 97 && cv <= 102 {
            (cv - 87) as u64
        } else if base == 16 && cv >= 65 && cv <= 70 {
            (cv - 55) as u64
        } else {
            proof {
                if base == 10 {
                    assert(!is_dec_digit(b[i - start]));
                } else {
                    assert(!is_hex_digit(b[i - start]));
                }
            }
            return None;
        };
        let ghost k = i - start;
        proof {
            assert(b.take(k + 1).drop_last() =~= b.take(k as int));
            assert(b.take(k + 1).last() == b[k as int]);
            if base == 10 {
                assert(dec_val(b[k as int]) == d as nat);
            } else {
                assert(hex_val(b[k as int]) == d as nat);
            }
        }
        let wide: u128 = acc as u128 * base as u128 + d as u128;
        proof {
            assert(acc as u128 * base as u128 + d as u128 == acc as nat * base as nat
                + d as nat) by (nonlinear_arith)
                requires
                    acc <= u64::MAX,
                    base <= 16,
                    d < base,
            {}
            assert(digits_val(b.take(k + 1), base as nat) == wide as nat);
        }
        if wide > u64::MAX as u128 {
            proof {
                lemma_digits_val_mono(b, base as nat, k + 1, b.len() as int);
                assert(b.take(b.len() as int) =~= b);
            }
            return None;
        }
        acc = wide as u64;
        i = i + 1;
    }
    proof {
        assert(b.take(b.len() as int) =~= b);
    }
    Some(acc)
}

/// Parse a decimal numeral (an optional `+`, then decimal digits).
pub fn parse_u64_dec(s: &str) -> (r: Option<u64>)
    ensures
        r == parse_dec_spec(s@),
{
    parse_digits(s, 10)
}

/// Parse a reset-value numeral: hexadecimal when prefixed `0x` or `0X`,
/// decimal otherwise.
pub fn parse_u64_reset(s: &str) -> (r: Option<u64>)
    ensures
        r == parse_reset_spec(s@),
{
    let n = s.unicode_len();
    if n >= 2 && s.get_char(0) == '0' {
        let c1 = s.get_char(1);
        if c1 == 'x' || c1 == 'X' {
            let rest = s.substring_char(2, n);
            proof {
                assert(rest@ =~= s@.skip(2));
            }
            return parse_digits(rest, 16);
        }
    }
    parse_digits(s, 10)
}

} // verus!
