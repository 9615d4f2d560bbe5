//! Digits of integers as text: plain decimal, signed decimal, and
//! fixed-width numerals in any base up to sixteen.

use vstd::prelude::*;
use vstd::string::StringExecFns;

verus! {

/// The character that stands for the digit `d`; upper case above nine.
pub open spec fn digit_char(d: nat) -> char {
    if d == 0 {
        '0'
    } else if d == 1 {
        '1'
    } else if d == 2 {
        '2'
    } else if d == 3 {
        '3'
    } else if d == 4 {
        '4'
    } else if d == 5 {
        '5'
    } else if d == 6 {
        '6'
    } else if d == 7 {
        '7'
    } else if d == 8 {
        '8'
    } else if d == 9 {
        '9'
    } else if d == 10 {
        'A'
    } else if d == 11 {
        'B'
    } else if d == 12 {
        'C'
    } else if d == 13 {
        'D'
    } else if d == 14 {
        'E'
    } else {
        'F'
    }
}

/// Whether `c` is one of the ten decimal digits.
pub open spec fn is_decimal_digit(c: char) -> bool {
    exists|d: nat| d < 10 && c == digit_char(d)
}

/// The decimal numeral of `n`, without leading zeros (`0` itself is `"0"`).
pub open spec fn decimal(n: nat) -> Seq<char>
    decreases n,
{
    if n < 10 {
        seq![digit_char(n)]
    } else {
        decimal(n / 10).push(digit_char(n % 10))
    }
}

/// The decimal numeral of `v`, with a leading `-` when `v` is negative.
pub open spec fn signed_decimal(v: int) -> Seq<char> {
    if v < 0 {
        seq!['-'] + decimal((-v) as nat)
    } else {
        decimal(v as nat)
    }
}

/// The hexadecimal numeral of `n` in upper case, without leading zeros.
pub open spec fn hexadecimal(n: nat) -> Seq<char>
    decreases n,
{
    if n < 16 {
        seq![digit_char(n)]
    } else {
        hexadecimal(n / 16).push(digit_char(n % 16))
    }
}

/// A row of `k` zeros.
pub open spec fn zeros(k: nat) -> Seq<char> {
    Seq::new(k, |i: int| '0')
}

/// The last `width` digits of `n` in base `base`, most significant first,
/// with zeros in front where `n` is short.
pub open spec fn padded(n: nat, base: nat, width: nat) -> Seq<char>
    decreases width,
{
    if width == 0 {
        Seq::empty()
    } else {
        padded(n / base, base, (width - 1) as nat).push(digit_char(n % base))
    }
}

/// The one-character text of the digit `d`.
pub(crate) fn digit_text(d: u8) -> (s: &'static str)
    requires
        d < 16,
    ensures
        s@ == seq![digit_char(d as nat)],
{
    proof {
        reveal_strlit("0");
        reveal_strlit("1");
        reveal_strlit("2");
        reveal_strlit("3");
        reveal_strlit("4");
        reveal_strlit("5");
        reveal_strlit("6");
        reveal_strlit("7");
        reveal_strlit("8");
        reveal_strlit("9");
        reveal_strlit("A");
        reveal_strlit("B");
        reveal_strlit("C");
        reveal_strlit("D");
        reveal_strlit("E");
        reveal_strlit("F");
    }
    let s = match d {
        0 => "0",
        1 => "1",
        2 => "2",
        3 => "3",
        4 => "4",
        5 => "5",
        6 => "6",
        7 => "7",
        8 => "8",
        9 => "9",
        10 => "A",
        11 => "B",
        12 => "C",
        13 => "D",
        14 => "E",
        _ => "F",
    };
    assert(s@ =~= seq![digit_char(d as nat)]);
    s
}

/// Appends the decimal numeral of `n` to `out`.
pub fn append_decimal(out: &mut String, n: u64)
    ensures
        final(out)@ == old(out)@ + decimal(n as nat),
    decreases n,
{
    if n >= 10 {
        append_decimal(out, n / 10);
    }
    let d: u8 = (n % 10) as u8;
    out.append(digit_text(d));
    assert(out@ =~= old(out)@ + decimal(n as nat));
}

/// Appends the decimal numeral of `v` to `out`, a `-` first when negative.
pub fn append_signed(out: &mut String, v: i64)
    ensures
        final(out)@ == old(out)@ + signed_decimal(v as int),
{
    if v < 0 {
        proof {
            reveal_strlit("-");
        }
        out.append("-");
        let magnitude: u64 = ((-(v as i128)) as u64);
        append_decimal(out, magnitude);
        assert(out@ =~= old(out)@ + signed_decimal(v as int));
    } else {
        append_decimal(out, v as u64);
    }
}

/// Appends the last `width` digits of `n` in base `base` to `out`, zeros in
/// front where `n` is short.
pub(crate) fn append_padded(out: &mut String, n: u64, base: u64, width: usize)
    requires
        2 <= base <= 16,
    ensures
        final(out)@ == old(out)@ + padded(n as nat, base as nat, width as nat),
    decreases width,
{
    if width > 0 {
        append_padded(out, n / base, base, width - 1);
        let d: u8 = (n % base) as u8;
        out.append(digit_text(d));
        assert(out@ =~= old(out)@ + padded(n as nat, base as nat, width as nat));
    } else {
        assert(out@ =~= old(out)@ + padded(n as nat, base as nat, width as nat));
    }
}

/// A decimal numeral is not empty and holds decimal digits only.
pub proof fn lemma_decimal_digits(n: nat)
    ensures
        decimal(n).len() >= 1,
        forall|i: int| 0 <= i < decimal(n).len() ==> is_decimal_digit(#[trigger] decimal(n)[i]),
    decreases n,
{
    if n >= 10 {
        lemma_decimal_digits(n / 10);
    }
    assert forall|i: int| 0 <= i < decimal(n).len() implies is_decimal_digit(
        #[trigger] decimal(n)[i],
    ) by {
        if i == decimal(n).len() - 1 {
            assert(decimal(n)[i] == digit_char(n % 10));
        }
    }
}

/// A fixed-width numeral has exactly its width; in a base up to ten it
/// holds decimal digits only.
pub proof fn lemma_padded_digits(n: nat, base: nat, width: nat)
    requires
        2 <= base,
    ensures
        padded(n, base, width).len() == width,
        base <= 10 ==> forall|i: int|
            0 <= i < width ==> is_decimal_digit(#[trigger] padded(n, base, width)[i]),
    decreases width,
{
    if width > 0 {
        lemma_padded_digits(n / base, base, (width - 1) as nat);
        if base <= 10 {
            assert forall|i: int| 0 <= i < width implies is_decimal_digit(
                #[trigger] padded(n, base, width)[i],
            ) by {
                if i == width - 1 {
                    assert(n % base < base) by (nonlinear_arith)
                        requires
                            base >= 2,
                    ;
                    assert(padded(n, base, width)[i] == digit_char(n % base));
                }
            }
        }
    }
}

/// The fixed-width numeral of zero is a row of zeros.
pub proof fn lemma_padded_zero(base: nat, width: nat)
    requires
        2 <= base,
    ensures
        padded(0, base, width) == zeros(width),
    decreases width,
{
    if width > 0 {
        lemma_padded_zero(base, (width - 1) as nat);
        assert(0nat / base == 0 && 0nat % base == 0) by (nonlinear_arith)
            requires
                base >= 2,
        ;
    }
    assert(padded(0, base, width) =~= zeros(width));
}

/// A fixed-width hexadecimal numeral that has room for the number is the
/// number's numeral with zeros in front.
pub proof fn lemma_padded_hexadecimal(n: nat, width: nat)
    requires
        hexadecimal(n).len() <= width,
    ensures
        padded(n, 16, width) == zeros((width - hexadecimal(n).len()) as nat) + hexadecimal(n),
    decreases width,
{
    let fill = zeros((width - hexadecimal(n).len()) as nat);
    if n < 16 {
        lemma_padded_zero(16, (width - 1) as nat);
        assert(padded(n, 16, width) =~= fill + hexadecimal(n));
    } else {
        lemma_padded_hexadecimal(n / 16, (width - 1) as nat);
        assert(padded(n, 16, width) =~= fill + hexadecimal(n));
    }
}

} // verus!
