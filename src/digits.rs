use vstd::prelude::*;
use crate::text::push_char;

verus! {

/// The character that writes digit `d` (`0`-`9`, then lower-case `a`-`f`).
pub open spec fn digit_char(d: nat) -> char {
    if d < 10 {
        (('0' as u32) + d) as char
    } else {
        (('a' as u32) + (d - 10)) as char
    }
}

/// Whether `c` is a lower-case hexadecimal digit.
pub open spec fn is_hex_digit(c: char) -> bool {
    ('0' <= c && c <= '9') || ('a' <= c && c <= 'f')
}

/// The value of a digit character; 0 for anything that is not a digit.
pub open spec fn digit_value(c: char) -> nat {
    if '0' <= c && c <= '9' {
        ((c as u32) - ('0' as u32)) as nat
    } else if 'a' <= c && c <= 'f' {
        ((c as u32) - ('a' as u32) + 10) as nat
    } else {
        0
    }
}

/// The digits of `n` in base `radix`, most significant first, without
/// leading zeros (`0` is written as one digit).
pub open spec fn digits_of(n: nat, radix: nat) -> Seq<char>
    decreases n
    via digits_of_decreases
{
    if n < radix || radix < 2 {
        seq![digit_char(n)]
    } else {
        digits_of(n / radix, radix).push(digit_char(n % radix))
    }
}

#[via_fn]
proof fn digits_of_decreases(n: nat, radix: nat) {
    if !(n < radix || radix < 2) {
        assert(n / radix < n) by (nonlinear_arith)
            requires n >= radix >= 2;
    }
}

/// `s` preceded by as many `0` as it takes to reach `width` characters.
pub open spec fn zero_pad(s: Seq<char>, width: nat) -> Seq<char> {
    if s.len() >= width {
        s
    } else {
        Seq::new((width - s.len()) as nat, |i: int| '0') + s
    }
}

/// `n` in base `radix`, padded with zeros to at least `width` digits.
pub open spec fn padded_digits(n: nat, radix: nat, width: nat) -> Seq<char> {
    zero_pad(digits_of(n, radix), width)
}

/// The number that a string of digits in base `radix` writes.
pub open spec fn digits_value(s: Seq<char>, radix: nat) -> nat
    decreases s.len(),
{
    if s.len() == 0 {
        0
    } else {
        digits_value(s.drop_last(), radix) * radix + digit_value(s.last())
    }
}

proof fn lemma_digit_round_trip(d: nat)
    requires
        d < 16,
    ensures
        digit_value(digit_char(d)) == d,
        is_hex_digit(digit_char(d)),
{
}

proof fn lemma_digits_of_hex(n: nat, radix: nat)
    requires
        2 <= radix <= 16,
    ensures
        digits_of(n, radix).len() >= 1,
        forall|i: int| 0 <= i < digits_of(n, radix).len() ==> is_hex_digit(#[trigger] digits_of(n, radix)[i]),
    decreases n,
{
    if n >= radix {
        assert(n / radix < n) by (nonlinear_arith)
            requires n >= radix >= 2;
        lemma_digits_of_hex(n / radix, radix);
        lemma_digit_round_trip(n % radix);
    } else {
        lemma_digit_round_trip(n);
    }
}

proof fn lemma_digits_of_value(n: nat, radix: nat)
    requires
        2 <= radix <= 16,
    ensures
        digits_value(digits_of(n, radix), radix) == n,
    decreases n,
{
    if n >= radix {
        assert(n / radix < n) by (nonlinear_arith)
            requires n >= radix >= 2;
        lemma_digits_of_value(n / radix, radix);
        assert(n % radix < radix) by (nonlinear_arith)
            requires radix >= 2;
        lemma_digit_round_trip(n % radix);
        let s = digits_of(n, radix);
        assert(s.drop_last() =~= digits_of(n / radix, radix));
        assert(s.last() == digit_char(n % radix));
        assert(digits_value(s, radix) == digits_value(s.drop_last(), radix) * radix + digit_value(s.last()));
        assert(n == (n / radix) * radix + n % radix) by (nonlinear_arith)
            requires radix >= 2;
        assert(digits_value(s, radix) == (n / radix) * radix + n % radix);
    } else {
        lemma_digit_round_trip(n);
        let s = digits_of(n, radix);
        assert(s.drop_last() =~= Seq::<char>::empty());
        assert(digits_value(s.drop_last(), radix) == 0);
        assert(digits_value(s, radix) == digits_value(s.drop_last(), radix) * radix + digit_value(s.last()));
    }
}

proof fn lemma_leading_zeros_value(k: nat, s: Seq<char>, radix: nat)
    ensures
        digits_value(Seq::new(k, |i: int| '0') + s, radix) == digits_value(s, radix),
    decreases s.len() + k,
{
    let z = Seq::new(k, |i: int| '0');
    if s.len() == 0 {
        assert(z + s =~= z);
        if k > 0 {
            assert(z.drop_last() =~= Seq::new((k - 1) as nat, |i: int| '0'));
            lemma_leading_zeros_value((k - 1) as nat, s, radix);
            assert(Seq::new((k - 1) as nat, |i: int| '0') + s =~= Seq::new((k - 1) as nat, |i: int| '0'));
            assert(z.last() == '0');
            assert(digits_value(z, radix) == digits_value(z.drop_last(), radix) * radix + digit_value(z.last()));
        } else {
            assert(z =~= Seq::<char>::empty());
        }
    } else {
        assert((z + s).drop_last() =~= z + s.drop_last());
        assert((z + s).last() == s.last());
        lemma_leading_zeros_value(k, s.drop_last(), radix);
    }
}

/// Padded digits are digit characters, at least as many as the width, and
/// read back as the number they write.
pub proof fn lemma_padded_digits(n: nat, radix: nat, width: nat)
    requires
        2 <= radix <= 16,
    ensures
        digits_value(padded_digits(n, radix, width), radix) == n,
        padded_digits(n, radix, width).len() >= width,
        padded_digits(n, radix, width).len() >= 1,
        forall|i: int| 0 <= i < padded_digits(n, radix, width).len()
            ==> is_hex_digit(#[trigger] padded_digits(n, radix, width)[i]),
{
    lemma_digits_of_value(n, radix);
    lemma_digits_of_hex(n, radix);
    let s = digits_of(n, radix);
    if s.len() < width {
        lemma_leading_zeros_value((width - s.len()) as nat, s, radix);
        let p = padded_digits(n, radix, width);
        assert forall|i: int| 0 <= i < p.len() implies is_hex_digit(#[trigger] p[i]) by {
            if i >= width - s.len() {
                assert(p[i] == s[i - (width - s.len())]);
            }
        }
    }
}

/// The digit character for `d`.
fn digit(d: usize) -> (c: char)
    requires
        d < 16,
    ensures
        c == digit_char(d as nat),
{
    let b = d as u8;
    if b < 10 {
        (48u8 + b) as char
    } else {
        (87u8 + b) as char
    }
}

/// Number of digits of `n` in base `radix`.
fn digit_count(n: usize, radix: usize) -> (r: usize)
    requires
        2 <= radix <= 16,
    ensures
        r as nat == digits_of(n as nat, radix as nat).len(),
    decreases n,
{
    if n < radix {
        1
    } else {
        let m = n / radix;
        assert(m < n && m + 1 < usize::MAX) by (nonlinear_arith)
            requires n >= radix >= 2, m == n / radix, n <= usize::MAX;
        let c = digit_count(m, radix);
        proof {
            lemma_count_bound(m as nat, radix as nat);
        }
        c + 1
    }
}

proof fn lemma_count_bound(n: nat, radix: nat)
    requires
        2 <= radix,
    ensures
        digits_of(n, radix).len() <= n + 1,
    decreases n,
{
    if n >= radix {
        let m = n / radix;
        assert(m + 1 <= n) by (nonlinear_arith)
            requires radix >= 2, n >= radix, m == n / radix;
        lemma_count_bound(m, radix);
    }
}

/// Appends the digits of `n` in base `radix`.
pub fn push_digits(out: &mut String, n: usize, radix: usize)
    requires
        2 <= radix <= 16,
    ensures
        final(out)@ == old(out)@ + digits_of(n as nat, radix as nat),
    decreases n,
{
    if n >= radix {
        assert(n / radix < n) by (nonlinear_arith)
            requires n >= radix >= 2;
        push_digits(out, n / radix, radix);
    }
    push_char(out, digit(n % radix));
    assert(old(out)@ + digits_of(n as nat, radix as nat) =~= final(out)@) by {
        if n >= radix {
            assert(digits_of(n as nat, radix as nat) == digits_of((n / radix) as nat, radix as nat).push(
                digit_char((n % radix) as nat),
            ));
        } else {
            assert(n % radix == n) by (nonlinear_arith)
                requires n < radix;
            assert(digits_of(n as nat, radix as nat) == seq![digit_char(n as nat)]);
        }
    }
}

/// Appends `n` in base `radix`, padded with zeros to at least `width` digits.
pub fn push_padded(out: &mut String, n: usize, radix: usize, width: usize)
    requires
        2 <= radix <= 16,
    ensures
        final(out)@ == old(out)@ + padded_digits(n as nat, radix as nat, width as nat),
{
    let count = digit_count(n, radix);
    let ghost start = out@;
    let mut k: usize = count;
    while k < width
        invariant
            count <= k,
            count < width ==> k <= width,
            count >= width ==> k == count,
            out@ == start + Seq::new((k - count) as nat, |i: int| '0'),
        decreases width - k,
    {
        push_char(out, '0');
        k = k + 1;
        assert(out@ =~= start + Seq::new((k - count) as nat, |i: int| '0'));
    }
    let ghost zeros = out@;
    push_digits(out, n, radix);
    assert(out@ =~= start + padded_digits(n as nat, radix as nat, width as nat)) by {
        let d = digits_of(n as nat, radix as nat);
        if count >= width {
            assert(zeros =~= start);
        } else {
            assert(k == width);
        }
    }
}

} // verus!
