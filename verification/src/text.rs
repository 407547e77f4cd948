//! Texts: numbers in the two notations that error messages use, and equality.

use vstd::prelude::*;

verus! {

/// The character that stands for `d`, `0` to `9` and then `a` to `f`.
pub open spec fn digit_char(d: int) -> char
{
    if d < 10 {
        (48 + d) as char
    } else {
        (87 + d) as char
    }
}

/// `n` written in base `base`, most significant digit first, without leading
/// zeros.
pub open spec fn digits(n: nat, base: nat) -> Seq<char>
    decreases n,
{
    if base < 2 || n < base {
        seq![digit_char(n as int)]
    } else {
        proof {
            assert(n / base < n) by (nonlinear_arith)
                requires
                    n >= base,
                    base >= 2,
            ;
        }
        digits(n / base, base).push(digit_char((n % base) as int))
    }
}

/// `n` in decimal.
pub open spec fn decimal(n: nat) -> Seq<char> {
    digits(n, 10)
}

/// `n` in lower-case hexadecimal behind `0x`.
pub open spec fn hex(n: nat) -> Seq<char> {
    seq!['0', 'x'] + digits(n, 16)
}

/// The text of one digit.
fn digit_str(d: u64) -> (s: &'static str)
    requires
        d < 16,
    ensures
        s@ == seq![digit_char(d as int)],
{
    proof {
        reveal_strlit("0");
        reveal_strlit("1");
        reveal_strlit("2");
        reveal_strlit("3");
        reveal_strlit("4");
        reveal_strlit("5");
        reveal_strlit("6");
        reveal_strlit("7");
        reveal_strlit("8");
        reveal_strlit("9");
        reveal_strlit("a");
        reveal_strlit("b");
        reveal_strlit("c");
        reveal_strlit("d");
        reveal_strlit("e");
        reveal_strlit("f");
    }
    match d {
        0 => "0",
        1 => "1",
        2 => "2",
        3 => "3",
        4 => "4",
        5 => "5",
        6 => "6",
        7 => "7",
        8 => "8",
        9 => "9",
        10 => "a",
        11 => "b",
        12 => "c",
        13 => "d",
        14 => "e",
        _ => "f",
    }
}

/// Appends `n` in base `base` to `out`.
fn append_digits(out: &mut String, n: u64, base: u64)
    requires
        2 <= base <= 16,
    ensures
        final(out)@ == old(out)@ + digits(n as nat, base as nat),
    decreases n,
{
    if n < base {
        out.append(digit_str(n));
    } else {
        assert(n / base < n) by (nonlinear_arith)
            requires
                n >= base,
                base >= 2,
        ;
        append_digits(out, n / base, base);
        out.append(digit_str(n % base));
    }
}

/// Appends `n` in decimal to `out`.
pub fn append_decimal(out: &mut String, n: u64)
    ensures
        final(out)@ == old(out)@ + decimal(n as nat),
{
    append_digits(out, n, 10)
}

/// Appends `n` to `out` in lower-case hexadecimal behind `0x`.
pub fn append_hex(out: &mut String, n: u64)
    ensures
        final(out)@ == old(out)@ + hex(n as nat),
{
    proof {
        reveal_strlit("0x");
    }
    out.append("0x");
    append_digits(out, n, 16)
}

/// Whether two texts are the same.
pub fn same_text(a: &str, b: &str) -> (r: bool)
    ensures
        r == (a@ == b@),
{
    let len: usize = a.unicode_len();
    if b.unicode_len() != len {
        return false;
    }
    let mut i: usize = 0;
    while i < len
        invariant
            i <= len,
            a@.len() == len,
            b@.len() == len,
            forall|k: int| 0 <= k < i ==> a@[k] == b@[k],
        decreases len - i,
    {
        if a.get_char(i) != b.get_char(i) {
            return false;
        }
        i += 1;
    }
    assert(a@ =~= b@);
    true
}

/// What a digit stands for, `0` to `9` and then `a` to `f`, or -1.
pub open spec fn digit_value(c: char) -> int {
    if '0' <= c <= '9' {
        c as int - '0' as int
    } else if 'a' <= c <= 'f' {
        c as int - 'a' as int + 10
    } else {
        -1
    }
}

/// The number that a text of digits stands for, most significant digit first.
pub open spec fn text_value(s: Seq<char>, base: int) -> int
    decreases s.len(),
{
    if s.len() == 0 {
        0
    } else {
        text_value(s.drop_last(), base) * base + digit_value(s.last())
    }
}

/// A number in a base reads back as itself, by digits of that base, and begins
/// with no zero unless it is one.
proof fn lemma_digits_read_back(n: nat, base: nat)
    requires
        2 <= base <= 16,
    ensures
        digits(n, base).len() > 0,
        text_value(digits(n, base), base as int) == n,
        forall|i: int|
            0 <= i < digits(n, base).len() ==> 0 <= digit_value(#[trigger] digits(n, base)[i])
                < base,
        n > 0 ==> digits(n, base)[0] != '0',
        n == 0 ==> digits(n, base) == seq!['0'],
    decreases n,
{
    let s = digits(n, base);
    if n < base {
        assert(s.drop_last() =~= seq![]);
        assert(0 * base == 0) by (nonlinear_arith);
        assert(digit_value(digit_char(n as int)) == n);
        assert(text_value(s.drop_last(), base as int) == 0);
        if n == 0 {
            assert(s =~= seq!['0']);
        }
    } else {
        assert(0 < n / base < n && (n / base) * base + n % base == n) by (nonlinear_arith)
            requires
                n >= base,
                base >= 2,
        ;
        lemma_digits_read_back(n / base, base);
        let front = digits(n / base, base);
        assert(s.drop_last() =~= front);
        assert(digit_value(digit_char((n % base) as int)) == n % base);
        assert forall|i: int| 0 <= i < s.len() implies 0 <= digit_value(#[trigger] s[i])
            < base by {
            if i < front.len() {
                assert(s[i] == front[i]);
            }
        }
        assert(s[0] == front[0]);
    }
}

/// A number in decimal is a text of the digits `0` to `9` that reads back as the
/// number, without leading zeros.
pub proof fn law_decimal_reads_back(n: nat)
    ensures
        text_value(decimal(n), 10) == n,
        forall|i: int| 0 <= i < decimal(n).len() ==> '0' <= #[trigger] decimal(n)[i] <= '9',
        n > 0 ==> decimal(n).len() > 0 && decimal(n)[0] != '0',
        n == 0 ==> decimal(n) == seq!['0'],
        n < 10 ==> decimal(n) == seq![(48 + n) as char],
        n >= 10 ==> decimal(n) == decimal(n / 10).push((48 + n % 10) as char),
{
    lemma_digits_read_back(n, 10);
    if n < 10 {
        assert(decimal(n) =~= seq![(48 + n) as char]);
    }
    assert forall|i: int| 0 <= i < decimal(n).len() implies '0' <= #[trigger] decimal(n)[i]
        <= '9' by {
        assert(0 <= digit_value(digits(n, 10)[i]) < 10);
    }
}

/// A number in hexadecimal is `0x` and a text of the digits `0` to `9` and `a`
/// to `f` that reads back as the number, without leading zeros.
pub proof fn law_hex_reads_back(n: nat)
    ensures
        hex(n).len() > 2,
        hex(n)[0] == '0',
        hex(n)[1] == 'x',
        text_value(hex(n).skip(2), 16) == n,
        forall|i: int|
            2 <= i < hex(n).len() ==> ('0' <= #[trigger] hex(n)[i] <= '9' || 'a' <= hex(n)[i]
                <= 'f'),
        n > 0 ==> hex(n)[2] != '0',
        n == 0 ==> hex(n) == seq!['0', 'x', '0'],
        n < 10 ==> hex(n) == seq!['0', 'x', (48 + n) as char],
        10 <= n < 16 ==> hex(n) == seq!['0', 'x', (87 + n) as char],
        n >= 16 ==> hex(n) == hex(n / 16).push(hex(n % 16)[2]),
{
    lemma_digits_read_back(n, 16);
    let s = digits(n, 16);
    assert(hex(n).skip(2) =~= s);
    assert forall|i: int| 2 <= i < hex(n).len() implies ('0' <= #[trigger] hex(n)[i] <= '9'
        || 'a' <= hex(n)[i] <= 'f') by {
        assert(hex(n)[i] == s[i - 2]);
        assert(0 <= digit_value(s[i - 2]));
    }
    assert(hex(n)[2] == s[0]);
    if n == 0 {
        assert(hex(n) =~= seq!['0', 'x', '0']);
    }
    if n < 16 {
        assert(hex(n) =~= seq!['0', 'x', digit_char(n as int)]);
    } else {
        assert(hex(n % 16)[2] == digit_char((n % 16) as int));
        assert(hex(n) =~= hex(n / 16).push(digit_char((n % 16) as int)));
    }
}

} // verus!
