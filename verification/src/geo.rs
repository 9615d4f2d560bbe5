//! A named point on the globe that renders as `Dublin: 53.348°N 6.260°W`.

use vstd::prelude::*;
use vstd::string::StringExecFns;
use crate::binary32::{below_zero, is_finite, negative, size_in_thousandths, thousandths};
use crate::digits::{
    append_decimal, append_padded, decimal, is_decimal_digit, lemma_decimal_digits,
    lemma_padded_digits, padded,
};
use crate::render::{lemma_concat_one, rendered, Renderable};
use crate::sink::{Sink, WriteError};

verus! {

/// An angle in degrees, held as a sign and a size in thousandths of a
/// degree. A negative latitude lies south, a negative longitude west.
#[derive(Clone, Copy, Debug, PartialEq, Eq, Structural)]
pub struct Coordinate {
    pub negative: bool,
    pub thousandths: u64,
}

/// A place by its name, latitude and longitude.
#[derive(Debug)]
pub struct GeoPoint {
    pub name: String,
    pub latitude: Coordinate,
    pub longitude: Coordinate,
}

/// The letter of a latitude's hemisphere: `N` from zero up, `S` below.
pub open spec fn latitude_letter(latitude: Coordinate) -> char {
    if latitude.negative {
        'S'
    } else {
        'N'
    }
}

/// The letter of a longitude's hemisphere: `E` from zero up, `W` below.
pub open spec fn longitude_letter(longitude: Coordinate) -> char {
    if longitude.negative {
        'W'
    } else {
        'E'
    }
}

/// A size in thousandths as a numeral with three decimals: whole part,
/// point, three digits.
pub open spec fn fixed3(thousandths: nat) -> Seq<char> {
    decimal(thousandths / 1000) + seq!['.'] + padded(thousandths % 1000, 10, 3)
}

/// The text of a point: name, colon, then for latitude and longitude the
/// size with three decimals, the degree sign and the hemisphere's letter.
pub open spec fn point_text(name: Seq<char>, latitude: Coordinate, longitude: Coordinate) -> Seq<
    char,
> {
    name + seq![':', ' '] + fixed3(latitude.thousandths as nat) + seq![
        '\u{b0}',
        latitude_letter(latitude),
        ' ',
    ] + fixed3(longitude.thousandths as nat) + seq!['\u{b0}', longitude_letter(longitude)]
}

impl Coordinate {
    /// The angle of the given sign and size.
    pub fn new(negative: bool, thousandths: u64) -> (c: Self)
        ensures
            c == (Coordinate { negative, thousandths }),
    {
        Coordinate { negative, thousandths }
    }

    /// The angle that the single-precision number with these bits gives in
    /// degrees: its sign, and its size rounded to the nearest thousandth,
    /// ties to even. `None` for an infinity or a NaN, and for a size whose
    /// thousandths no `u64` holds.
    pub fn from_f32_bits(bits: u32) -> (c: Option<Self>)
        ensures
            c is Some <==> is_finite(bits) && size_in_thousandths(bits) <= u64::MAX,
            c is Some ==> c.unwrap() == (Coordinate {
                negative: below_zero(bits),
                thousandths: size_in_thousandths(bits) as u64,
            }),
    {
        match thousandths(bits) {
            Some(t) => Some(Coordinate { negative: negative(bits), thousandths: t }),
            None => None,
        }
    }

    /// Appends the size with three decimals, without its sign.
    pub fn append_size(&self, out: &mut String)
        ensures
            final(out)@ == old(out)@ + fixed3(self.thousandths as nat),
    {
        proof {
            reveal_strlit(".");
        }
        append_decimal(out, self.thousandths / 1000);
        out.append(".");
        append_padded(out, self.thousandths % 1000, 10, 3);
        assert("."@ =~= seq!['.']);
        assert(out@ =~= old(out)@ + fixed3(self.thousandths as nat));
    }
}

impl GeoPoint {
    /// The point of the given name and place.
    pub fn new(name: String, latitude: Coordinate, longitude: Coordinate) -> (p: Self)
        ensures
            p.name@ == name@,
            p.latitude == latitude,
            p.longitude == longitude,
    {
        GeoPoint { name, latitude, longitude }
    }

    /// The point of the given name whose latitude and longitude are the
    /// single-precision numbers of degrees with these bits; `None` where
    /// either is no angle that a [`Coordinate`] holds.
    pub fn from_f32_bits(name: String, latitude_bits: u32, longitude_bits: u32) -> (p: Option<
        Self,
    >)
        ensures
            p is Some <==> {
                &&& is_finite(latitude_bits)
                &&& size_in_thousandths(latitude_bits) <= u64::MAX
                &&& is_finite(longitude_bits)
                &&& size_in_thousandths(longitude_bits) <= u64::MAX
            },
            p is Some ==> {
                &&& p.unwrap().name@ == name@
                &&& p.unwrap().latitude == (Coordinate {
                    negative: below_zero(latitude_bits),
                    thousandths: size_in_thousandths(latitude_bits) as u64,
                })
                &&& p.unwrap().longitude == (Coordinate {
                    negative: below_zero(longitude_bits),
                    thousandths: size_in_thousandths(longitude_bits) as u64,
                })
            },
    {
        match (Coordinate::from_f32_bits(latitude_bits), Coordinate::from_f32_bits(longitude_bits)) {
            (Some(latitude), Some(longitude)) => Some(GeoPoint { name, latitude, longitude }),
            _ => None,
        }
    }

    /// The letter of the latitude's hemisphere, as text.
    pub fn latitude_hemisphere(&self) -> (s: &'static str)
        ensures
            s@ == seq![latitude_letter(self.latitude)],
    {
        proof {
            reveal_strlit("S");
            reveal_strlit("N");
        }
        let s = if self.latitude.negative {
            "S"
        } else {
            "N"
        };
        assert(s@ =~= seq![latitude_letter(self.latitude)]);
        s
    }

    /// The letter of the longitude's hemisphere, as text.
    pub fn longitude_hemisphere(&self) -> (s: &'static str)
        ensures
            s@ == seq![longitude_letter(self.longitude)],
    {
        proof {
            reveal_strlit("W");
            reveal_strlit("E");
        }
        let s = if self.longitude.negative {
            "W"
        } else {
            "E"
        };
        assert(s@ =~= seq![longitude_letter(self.longitude)]);
        s
    }

    /// The text of the point as a string.
    pub fn to_text(&self) -> (s: String)
        ensures
            s@ == point_text(self.name@, self.latitude, self.longitude),
    {
        proof {
            reveal_strlit(": ");
            reveal_strlit("\u{b0}");
            reveal_strlit(" ");
        }
        let mut s = String::new();
        s.append(self.name.as_str());
        s.append(": ");
        self.latitude.append_size(&mut s);
        s.append("\u{b0}");
        s.append(self.latitude_hemisphere());
        s.append(" ");
        self.longitude.append_size(&mut s);
        s.append("\u{b0}");
        s.append(self.longitude_hemisphere());
        assert(": "@ =~= seq![':', ' ']);
        assert("\u{b0}"@ =~= seq!['\u{b0}']);
        assert(" "@ =~= seq![' ']);
        assert(s@ =~= point_text(self.name@, self.latitude, self.longitude));
        s
    }
}

impl Renderable for GeoPoint {
    /// A point goes out in one write.
    open spec fn pieces(&self) -> Seq<Seq<char>> {
        seq![point_text(self.name@, self.latitude, self.longitude)]
    }

    fn piece(&self, k: usize) -> (p: Option<String>) {
        if k == 0 {
            Some(self.to_text())
        } else {
            None
        }
    }

    fn render<S: Sink>(&self, sink: &mut S) -> (r: Result<(), WriteError>) {
        let text = self.to_text();
        proof {
            lemma_concat_one(text@);
            assert(self.pieces().take(0) =~= Seq::<Seq<char>>::empty());
            assert(old(sink).accepted() + Seq::<char>::empty() =~= old(sink).accepted());
        }
        sink.write_str(text.as_str())
    }
}

/// A size with three decimals is made of digits alone, but for the point
/// that stands fourth from the end: no sign, and exactly three decimals.
pub proof fn lemma_fixed3_shape(thousandths: nat)
    ensures
        fixed3(thousandths).len() >= 5,
        fixed3(thousandths)[fixed3(thousandths).len() - 4] == '.',
        forall|i: int|
            0 <= i < fixed3(thousandths).len() && i != fixed3(thousandths).len() - 4
                ==> is_decimal_digit(#[trigger] fixed3(thousandths)[i]),
{
    let whole = decimal(thousandths / 1000);
    let part = padded(thousandths % 1000, 10, 3);
    let s = fixed3(thousandths);
    lemma_decimal_digits(thousandths / 1000);
    lemma_padded_digits(thousandths % 1000, 10, 3);
    assert(s.len() == whole.len() + 4);
    assert forall|i: int| 0 <= i < s.len() && i != s.len() - 4 implies is_decimal_digit(
        #[trigger] s[i],
    ) by {
        if i < whole.len() {
            assert(s[i] == whole[i]);
        } else {
            assert(s[i] == part[i - whole.len() - 1]);
        }
    }
}

/// The text of a point is its name, a colon, and for latitude and longitude
/// the size with three decimals, the degree sign and a letter: `N` for a
/// latitude from zero up and `S` for one below, `E` for a longitude from
/// zero up and `W` for one below.
pub proof fn lemma_point_text(point: GeoPoint)
    ensures
        rendered(&point) == point.name@ + seq![':', ' '] + fixed3(
            point.latitude.thousandths as nat,
        ) + seq!['\u{b0}', if point.latitude.negative {
            'S'
        } else {
            'N'
        }, ' '] + fixed3(point.longitude.thousandths as nat) + seq![
            '\u{b0}',
            if point.longitude.negative {
                'W'
            } else {
                'E'
            },
        ],
{
    lemma_concat_one(point_text(point.name@, point.latitude, point.longitude));
}

} // verus!
