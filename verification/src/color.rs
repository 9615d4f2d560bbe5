//! A colour of three 8-bit channels that renders as
//! `RGB (128, 255, 90) 0x80FF5A`.

use vstd::prelude::*;
use vstd::string::StringExecFns;
use crate::digits::{
    append_decimal, append_padded, decimal, digit_char, hexadecimal, lemma_padded_hexadecimal,
    padded, zeros,
};
use crate::render::{lemma_concat_one, rendered, Renderable};
use crate::sink::{Sink, WriteError};

verus! {

/// A colour by its red, green and blue channels.
#[derive(Clone, Copy, Debug, PartialEq, Eq, Structural)]
pub struct RgbColor {
    pub red: u8,
    pub green: u8,
    pub blue: u8,
}

/// The three channels as one 24-bit number, red highest.
pub open spec fn pack(red: u8, green: u8, blue: u8) -> nat {
    (red * 65536 + green * 256 + blue) as nat
}

/// The text of a colour: the channels in decimal, then the packed number as
/// six upper-case hexadecimal digits.
pub open spec fn color_text(red: u8, green: u8, blue: u8) -> Seq<char> {
    seq!['R', 'G', 'B', ' ', '('] + decimal(red as nat) + seq![',', ' '] + decimal(green as nat)
        + seq![',', ' '] + decimal(blue as nat) + seq![')', ' ', '0', 'x'] + padded(
        pack(red, green, blue),
        16,
        6,
    )
}

impl RgbColor {
    /// The colour with the given channels.
    pub fn new(red: u8, green: u8, blue: u8) -> (c: Self)
        ensures
            c == (RgbColor { red, green, blue }),
    {
        RgbColor { red, green, blue }
    }

    /// The channels as they are: red, green, blue.
    pub fn channels(&self) -> (t: (u8, u8, u8))
        ensures
            t == (self.red, self.green, self.blue),
    {
        (self.red, self.green, self.blue)
    }

    /// The three channels as one 24-bit number, red highest.
    pub fn packed(&self) -> (p: u32)
        ensures
            p == pack(self.red, self.green, self.blue),
            p < 0x100_0000,
    {
        (self.red as u32) * 65536 + (self.green as u32) * 256 + (self.blue as u32)
    }

    /// The text of the colour as a string.
    pub fn to_text(&self) -> (s: String)
        ensures
            s@ == color_text(self.red, self.green, self.blue),
    {
        proof {
            reveal_strlit("RGB (");
            reveal_strlit(", ");
            reveal_strlit(") 0x");
        }
        let mut s = String::new();
        s.append("RGB (");
        append_decimal(&mut s, self.red as u64);
        s.append(", ");
        append_decimal(&mut s, self.green as u64);
        s.append(", ");
        append_decimal(&mut s, self.blue as u64);
        s.append(") 0x");
        append_padded(&mut s, self.packed() as u64, 16, 6);
        assert("RGB ("@ =~= seq!['R', 'G', 'B', ' ', '(']);
        assert(", "@ =~= seq![',', ' ']);
        assert(") 0x"@ =~= seq![')', ' ', '0', 'x']);
        assert(s@ =~= color_text(self.red, self.green, self.blue));
        s
    }
}

impl Renderable for RgbColor {
    /// A colour goes out in one write.
    open spec fn pieces(&self) -> Seq<Seq<char>> {
        seq![color_text(self.red, self.green, self.blue)]
    }

    fn piece(&self, k: usize) -> (p: Option<String>) {
        if k == 0 {
            Some(self.to_text())
        } else {
            None
        }
    }

    fn render<S: Sink>(&self, sink: &mut S) -> (r: Result<(), WriteError>) {
        let text = self.to_text();
        proof {
            lemma_concat_one(text@);
            assert(self.pieces().take(0) =~= Seq::<Seq<char>>::empty());
            assert(old(sink).accepted() + Seq::<char>::empty() =~= old(sink).accepted());
        }
        sink.write_str(text.as_str())
    }
}

/// The text of a colour is its three channels in decimal, in order, and
/// then its packed number in six hexadecimal digits.
pub proof fn lemma_color_text(color: RgbColor)
    ensures
        rendered(&color) == color_text(color.red, color.green, color.blue),
{
    lemma_concat_one(color_text(color.red, color.green, color.blue));
}

/// The hexadecimal digits of `hi * 256 + lo` are those of `hi` and then the
/// two of `lo`.
proof fn lemma_padded_byte(hi: nat, lo: nat, width: nat)
    requires
        lo < 256,
    ensures
        padded(hi * 256 + lo, 16, width + 2) == padded(hi, 16, width) + padded(lo, 16, 2),
{
    let x = hi * 256 + lo;
    assert(x % 16 == lo % 16 && x / 16 == hi * 16 + lo / 16);
    let y = x / 16;
    assert(y % 16 == lo / 16 && y / 16 == hi);
    assert(padded(x, 16, width + 2) == padded(y, 16, (width + 1) as nat).push(
        digit_char(x % 16),
    ));
    assert(padded(y, 16, (width + 1) as nat) == padded(hi, 16, width).push(
        digit_char(y % 16),
    ));
    reveal_with_fuel(padded, 3);
    assert(lo / 16 % 16 == lo / 16);
    assert(padded(lo, 16, 2) =~= seq![
        digit_char(lo / 16),
        digit_char(lo % 16),
    ]);
    assert(padded(x, 16, width + 2) =~= padded(hi, 16, width) + padded(lo, 16, 2));
}

/// The six hexadecimal digits of a packed colour are two for each channel:
/// red, then green, then blue.
pub proof fn lemma_packed_digits(red: u8, green: u8, blue: u8)
    ensures
        padded(pack(red, green, blue), 16, 6) == padded(red as nat, 16, 2) + padded(
            green as nat,
            16,
            2,
        ) + padded(blue as nat, 16, 2),
{
    let upper: nat = (red * 256 + green) as nat;
    assert(pack(red, green, blue) == upper * 256 + blue);
    lemma_padded_byte(upper, blue as nat, 4);
    lemma_padded_byte(red as nat, green as nat, 2);
}

/// The six hexadecimal digits of a packed colour are the hexadecimal numeral
/// of the packed number, with zeros in front to make six.
pub proof fn lemma_packed_zero_filled(red: u8, green: u8, blue: u8)
    ensures
        hexadecimal(pack(red, green, blue)).len() <= 6,
        padded(pack(red, green, blue), 16, 6) == zeros(
            (6 - hexadecimal(pack(red, green, blue)).len()) as nat,
        ) + hexadecimal(pack(red, green, blue)),
{
    let p = pack(red, green, blue);
    assert(p < 0x100_0000);
    assert(hexadecimal(p).len() <= 6) by {
        reveal_with_fuel(hexadecimal, 7);
        assert(p / 16 < 0x10_0000);
        assert(p / 16 / 16 < 0x1_0000);
        assert(p / 16 / 16 / 16 < 0x1000);
        assert(p / 16 / 16 / 16 / 16 < 0x100);
        assert(p / 16 / 16 / 16 / 16 / 16 < 0x10);
    }
    lemma_padded_hexadecimal(p, 6);
}

} // verus!
