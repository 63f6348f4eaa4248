//! Colours and font specifications.

use crate::measure::Measure;
use crate::text::{
    all_digits, digit_worth, digits_worth, hex_padded, joined, joined3, lemma_digits_worth_bound,
    lemma_one_more_piece, lemma_one_piece, lemma_padded_hex, lemma_pieces_never_none, padded_hex,
    pieces, place, read_number, split_on, starts_with, strip_prefix, text_views, unsigned_part,
};
use vstd::arithmetic::power2::{
    lemma2_to64, lemma2_to64_rest, lemma_pow2_pos, lemma_pow2_strictly_increases,
    lemma_pow2_unfold, pow2,
};
use vstd::prelude::*;

verus! {

/// A straight ARGB colour, the way a config writes one.
#[derive(Debug, Clone, Copy, PartialEq, Eq, Hash, Structural)]
pub struct Color(pub u32);

/// Four bytes as one colour, most significant first.
pub open spec fn packed(a: int, r: int, g: int, b: int) -> int {
    a * 0x100_0000 + r * 0x1_0000 + g * 0x100 + b
}

/// The text after whichever prefix a colour may lead with.
pub open spec fn color_digits(text: Seq<char>) -> Seq<char> {
    if starts_with(text, "#"@) {
        text.skip(1)
    } else if starts_with(text, "0x"@) || starts_with(text, "0X"@) {
        text.skip(2)
    } else {
        text
    }
}

/// The colour a run of hexadecimal digits writes: three double up and six are
/// opaque.
pub open spec fn color_of_digits(digits: Seq<char>) -> Option<int> {
    let v = digits_worth(digits, 16) as int;
    if !all_digits(digits, 16) {
        None
    } else if digits.len() == 3 {
        Some(
            packed(0xff, ((v / 0x100) % 0x10) * 0x11, ((v / 0x10) % 0x10) * 0x11, (v % 0x10) * 0x11),
        )
    } else if digits.len() == 6 {
        Some(0xff00_0000 + v)
    } else if digits.len() == 8 {
        Some(v)
    } else {
        None
    }
}

/// The colour a text writes.
pub open spec fn color_read(text: Seq<char>) -> Option<int> {
    color_of_digits(color_digits(text))
}

/// What a colour is printed as for a person.
pub open spec fn color_text(color: Color) -> Seq<char> {
    "#"@ + padded_hex(color.0 as nat, 8)
}

/// What a colour is written as for a config to read back.
pub open spec fn color_wire(color: Color) -> Seq<char> {
    "0x"@ + padded_hex(color.0 as nat, 8)
}

/// A text that writes no colour.
#[derive(Debug, Clone, PartialEq, Eq)]
pub struct ParseColorError(String);

impl View for ParseColorError {
    type V = Seq<char>;

    /// The text as it was written.
    closed spec fn view(&self) -> Seq<char> {
        self.0@
    }
}

impl ParseColorError {
    /// The sentence a config's author is shown.
    pub fn to_string(&self) -> (r: String)
        ensures
            r@ == "`"@ + self@ + "` is not a colour: expected #rgb, #rrggbb or #aarrggbb"@,
    {
        joined3("`", &self.0, "` is not a colour: expected #rgb, #rrggbb or #aarrggbb")
    }
}

/// Digits that write a colour fit it, and six of them are worth less than the
/// alpha byte's place.
proof fn lemma_color_digits(digits: Seq<char>)
    requires
        all_digits(digits, 16),
        digits.len() == 3 || digits.len() == 6 || digits.len() == 8,
    ensures
        digits_worth(digits, 16) <= u32::MAX,
        digits.len() == 6 ==> digits_worth(digits, 16) < 0x100_0000,
{
    lemma_digits_worth_bound(digits, 16);
    reveal_with_fuel(place, 10);
    assert(place(16, 3) == 0x1000);
    assert(place(16, 6) == 0x100_0000);
    assert(place(16, 8) == 0x1_0000_0000);
}

impl Color {
    /// A colour of four bytes.
    pub fn argb(a: u8, r: u8, g: u8, b: u8) -> (c: Color)
        ensures
            c.0 == packed(a as int, r as int, g as int, b as int),
    {
        Color(a as u32 * 0x100_0000 + r as u32 * 0x1_0000 + g as u32 * 0x100 + b as u32)
    }

    /// The four bytes of this, most significant first.
    pub fn channels(self) -> (r: (u8, u8, u8, u8))
        ensures
            packed(r.0 as int, r.1 as int, r.2 as int, r.3 as int) == self.0,
    {
        let v: u32 = self.0;
        proof {
            let low: u32 = v / 0x100;
            let mid: u32 = v / 0x1_0000;
            let high: u32 = v / 0x100_0000;
            assert(mid == low / 0x100);
            assert(high == mid / 0x100);
            assert(high < 0x100);
            assert(v == low * 0x100 + v % 0x100);
            assert(low == mid * 0x100 + low % 0x100);
            assert(mid == high * 0x100 + mid % 0x100);
        }
        (
            (v / 0x100_0000) as u8,
            ((v / 0x1_0000) % 0x100) as u8,
            ((v / 0x100) % 0x100) as u8,
            (v % 0x100) as u8,
        )
    }

    /// Whether nothing of this would show.
    pub fn is_invisible(self) -> (r: bool)
        ensures
            r == (self.0 < 0x100_0000),
    {
        self.0 / 0x100_0000 == 0
    }

    /// Reads `#rgb`, `#rrggbb`, `#aarrggbb`, and the same after `0x` or alone.
    /// Every digit is one: a sign is none.
    pub fn parse(text: &str) -> (r: Result<Color, ParseColorError>)
        ensures
            match r {
                Ok(c) => color_read(text@) == Some(c.0 as int),
                Err(e) => color_read(text@) is None && e@ == text@,
            },
    {
        proof {
            reveal_strlit("#");
            reveal_strlit("0x");
            reveal_strlit("0X");
        }
        let digits: &str = match strip_prefix(text, "#") {
            Some(rest) => rest,
            None => match strip_prefix(text, "0x") {
                Some(rest) => rest,
                None => match strip_prefix(text, "0X") {
                    Some(rest) => rest,
                    None => text,
                },
            },
        };
        assert(digits@ == color_digits(text@));
        let len: usize = digits.unicode_len();
        if len != 3 && len != 6 && len != 8 {
            return Err(ParseColorError(text.to_owned()));
        }
        if digits.get_char(0) == '+' {
            proof {
                assert(digit_worth(digits@[0]) >= 16);
            }
            return Err(ParseColorError(text.to_owned()));
        }
        proof {
            assert(unsigned_part(digits@) == digits@);
            if all_digits(digits@, 16) {
                lemma_color_digits(digits@);
            }
        }
        let value: u32 = match read_number(digits, 16, u32::MAX as u64) {
            Some(v) => v as u32,
            None => {
                return Err(ParseColorError(text.to_owned()));
            },
        };
        if len == 3 {
            let r: u32 = (value / 0x100) % 0x10;
            let g: u32 = (value / 0x10) % 0x10;
            let b: u32 = value % 0x10;
            Ok(Color::argb(0xff, (r * 0x11) as u8, (g * 0x11) as u8, (b * 0x11) as u8))
        } else if len == 6 {
            Ok(Color(0xff00_0000 + value))
        } else {
            Ok(Color(value))
        }
    }

    /// `#aarrggbb`.
    pub fn to_string(&self) -> (r: String)
        ensures
            r@ == color_text(*self),
    {
        joined("#", &hex_padded(self.0 as u64, 8))
    }

    /// `0xaarrggbb`, which is what a config reads back.
    pub fn to_wire(&self) -> (r: String)
        ensures
            r@ == color_wire(*self),
    {
        joined("0x", &hex_padded(self.0 as u64, 8))
    }
}

impl Default for Color {
    /// Fully transparent.
    fn default() -> (r: Self)
        ensures
            r.0 == 0,
    {
        Color(0)
    }
}

impl std::str::FromStr for Color {
    type Err = ParseColorError;

    fn from_str(s: &str) -> (r: Result<Self, ParseColorError>)
        ensures
            match r {
                Ok(c) => color_read(s@) == Some(c.0 as int),
                Err(e) => color_read(s@) is None && e@ == s@,
            },
    {
        Color::parse(s)
    }
}

/// A colour printed either way and read back is the same colour.
pub proof fn law_color_round_trip(color: Color)
    ensures
        color_read(color_text(color)) == Some(color.0 as int),
        color_read(color_wire(color)) == Some(color.0 as int),
{
    reveal_strlit("#");
    reveal_strlit("0x");
    reveal_strlit("0X");
    let hex = padded_hex(color.0 as nat, 8);
    lemma_padded_hex(color.0 as nat, 8);
    reveal_with_fuel(place, 10);
    assert(place(16, 8) == 0x1_0000_0000);
    let person = color_text(color);
    assert(person.take(1) =~= "#"@);
    assert(person.skip(1) =~= hex);
    let wire = color_wire(color);
    assert(wire.take(1)[0] == '0');
    assert("#"@[0] == '#');
    assert(wire.take(2) =~= "0x"@);
    assert(wire.skip(2) =~= hex);
}

/// Whether bits of a double are below zero's side, zero aside.
pub open spec fn exponent(bits: u64) -> int {
    ((bits / 0x10_0000_0000_0000) % 0x800) as int
}

/// The fraction bits of a double, with the one before the point.
pub open spec fn significand(bits: u64) -> int {
    0x10_0000_0000_0000 + bits % 0x10_0000_0000_0000
}

/// Whether a double is a whole number of `n` at most thirty-two bits: its
/// significand is that many of its unit in the last place.
pub open spec fn is_whole(bits: u64, n: int) -> bool {
    0 <= n <= u32::MAX && if bits % 0x8000_0000_0000_0000 == 0 {
        n == 0
    } else {
        bits < 0x8000_0000_0000_0000 && 1023 <= exponent(bits) <= 1054 && n * pow2(
            (1075 - exponent(bits)) as nat,
        ) == significand(bits)
    }
}

/// The power of two that many places up.
fn power_of_two(k: u64) -> (r: u64)
    requires
        k <= 52,
    ensures
        r == pow2(k as nat),
{
    let mut i: u64 = 0;
    let mut p: u64 = 1;
    proof {
        lemma2_to64();
        lemma2_to64_rest();
    }
    while i < k
        invariant
            i <= k <= 52,
            p == pow2(i as nat),
            p <= 0x10_0000_0000_0000,
            pow2(52) == 0x10_0000_0000_0000,
        decreases k - i,
    {
        proof {
            lemma_pow2_unfold((i + 1) as nat);
            lemma_pow2_strictly_increases(i as nat, 52);
        }
        p = p * 2;
        proof {
            if i + 1 < 52 {
                lemma_pow2_strictly_increases((i + 1) as nat, 52);
            }
        }
        i = i + 1;
    }
    p
}

impl Color {
    /// The colour a number writes, for an interpreter that holds every number
    /// as a double: only a whole one in range is one.
    pub fn from_measure(value: &Measure) -> (r: Option<Color>)
        ensures
            match r {
                Some(c) => is_whole(value.bits, c.0 as int),
                None => forall|n: int| !is_whole(value.bits, n),
            },
    {
        let bits: u64 = value.bits;
        if bits % 0x8000_0000_0000_0000 == 0 {
            return Some(Color(0));
        }
        if bits >= 0x8000_0000_0000_0000 {
            return None;
        }
        let exp: u64 = (bits / 0x10_0000_0000_0000) % 0x800;
        if exp < 1023 || exp > 1054 {
            return None;
        }
        let unit: u64 = power_of_two(1075 - exp);
        let whole: u64 = 0x10_0000_0000_0000 + bits % 0x10_0000_0000_0000;
        proof {
            lemma_pow2_pos((1075 - exp) as nat);
            lemma2_to64();
        }
        if whole % unit != 0 {
            proof {
                let u = unit as int;
                let w = whole as int;
                assert forall|n: int| !is_whole(bits, n) by {
                    if n * u == w {
                        assert(w % u == 0) by (nonlinear_arith)
                            requires
                                n * u == w,
                                u > 0,
                        ;
                    }
                }
            }
            return None;
        }
        let n: u64 = whole / unit;
        proof {
            let u = unit as int;
            let w = whole as int;
            assert((w / u) * u == w) by (nonlinear_arith)
                requires
                    w % u == 0,
                    u > 0,
            ;
            // The unit is at least 2^21, so what is left fits in 32 bits.
            if exp < 1054 {
                lemma_pow2_strictly_increases(21, (1075 - exp) as nat);
            }
            assert(u >= 0x20_0000);
            assert(w / u < 0x1_0000_0000) by (nonlinear_arith)
                requires
                    0 <= w < 0x20_0000_0000_0000,
                    u >= 0x20_0000,
            ;
        }
        Some(Color(n as u32))
    }
}

/// A double is a whole number in one way at most.
pub proof fn law_whole_is_unique(bits: u64, a: int, b: int)
    requires
        is_whole(bits, a),
        is_whole(bits, b),
    ensures
        a == b,
{
    if bits % 0x8000_0000_0000_0000 != 0 {
        let k = (1075 - exponent(bits)) as nat;
        lemma_pow2_pos(k);
        let p = pow2(k) as int;
        assert(a == b) by (nonlinear_arith)
            requires
                a * p == b * p,
                p > 0,
        ;
    }
}

// ---------------------------------------------------------------------------
// Fonts

/// A font, as named rather than as resolved.
#[derive(Debug, Clone, PartialEq)]
pub struct FontSpec {
    pub family: String,
    pub style: String,
    pub size: Measure,
}

/// [`FontSpec`] over plain text.
pub struct FontView {
    pub family: Seq<char>,
    pub style: Seq<char>,
    pub size_bits: u64,
    pub size_text: Seq<char>,
}

impl View for FontSpec {
    type V = FontView;

    open spec fn view(&self) -> FontView {
        FontView {
            family: self.family@,
            style: self.style@,
            size_bits: self.size.bits,
            size_text: self.size.text@,
        }
    }
}

/// The parts a font was written with, each where it was.
#[derive(Debug, Clone, PartialEq, Eq)]
pub struct FontParts {
    pub family: Option<String>,
    pub style: Option<String>,
    /// The size as it was written, whether or not it reads as a number.
    pub size: Option<String>,
}

/// A text that may be missing, over plain text.
pub open spec fn text_option(text: Option<String>) -> Option<Seq<char>> {
    match text {
        Some(t) => Some(t@),
        None => None,
    }
}

/// The `k`th piece, where there is one.
pub open spec fn nth_piece(parts: Seq<Seq<char>>, k: int) -> Option<Seq<char>> {
    if k < parts.len() {
        Some(parts[k])
    } else {
        None
    }
}

/// A part that says something.
pub open spec fn said(part: Option<Seq<char>>) -> Option<Seq<char>> {
    match part {
        Some(t) => if t.len() == 0 {
            None
        } else {
            Some(t)
        },
        None => None,
    }
}

/// The font of a machine nobody configured.
pub open spec fn default_font() -> FontView {
    FontView {
        family: "SF Pro"@,
        style: "Regular"@,
        size_bits: 0x402a_0000_0000_0000,
        size_text: "13"@,
    }
}

/// What a font is printed as.
pub open spec fn font_text(font: FontView) -> Seq<char> {
    font.family + ":"@ + font.style + ":"@ + font.size_text
}

impl FontParts {
    /// Splits `Family:Style:Size`. A family or a style that says nothing is a
    /// part that is not there, and a fourth part is one nobody reads.
    pub fn split(spec: &str) -> (r: FontParts)
        ensures
            text_option(r.family) == said(nth_piece(pieces(spec@, ':'), 0)),
            text_option(r.style) == said(nth_piece(pieces(spec@, ':'), 1)),
            text_option(r.size) == nth_piece(pieces(spec@, ':'), 2),
    {
        let parts = split_on(spec, ':');
        let ghost views = pieces(spec@, ':');
        proof {
            lemma_pieces_never_none(spec@, ':');
            assert(views.len() == parts@.len());
            assert forall|i: int| 0 <= i < parts@.len() implies views[i] == (#[trigger] parts@[i])@ by {
                assert(text_views(parts@)[i] == parts@[i]@);
            }
        }
        let family: Option<String> = if parts.len() > 0 && parts[0].as_str().unicode_len() > 0 {
            Some(parts[0].clone())
        } else {
            None
        };
        let style: Option<String> = if parts.len() > 1 && parts[1].as_str().unicode_len() > 0 {
            Some(parts[1].clone())
        } else {
            None
        };
        let size: Option<String> = if parts.len() > 2 {
            Some(parts[2].clone())
        } else {
            None
        };
        FontParts { family, style, size }
    }
}

impl FontSpec {
    /// A font of the parts that were given, the rest as the default has them.
    /// A size that was written and reads as no number is not given.
    pub fn of_parts(family: Option<String>, style: Option<String>, size: Option<Measure>) -> (r:
        FontSpec)
        ensures
            r.family@ == match family {
                Some(t) => t@,
                None => default_font().family,
            },
            r.style@ == match style {
                Some(t) => t@,
                None => default_font().style,
            },
            r.size.bits == match size {
                Some(m) => m.bits,
                None => default_font().size_bits,
            },
            r.size.text@ == match size {
                Some(m) => m.text@,
                None => default_font().size_text,
            },
    {
        let default = FontSpec::default();
        FontSpec {
            family: match family {
                Some(t) => t,
                None => default.family,
            },
            style: match style {
                Some(t) => t,
                None => default.style,
            },
            size: match size {
                Some(m) => m,
                None => default.size,
            },
        }
    }

    /// `Family:Style:Size`, which is how a font was written.
    pub fn to_string(&self) -> (r: String)
        ensures
            r@ == font_text(self@),
    {
        joined3(&joined3(&self.family, ":", &self.style), ":", &self.size.text)
    }

    /// The same font again.
    pub fn copied(&self) -> (r: FontSpec)
        ensures
            r@ == self@,
    {
        FontSpec {
            family: self.family.clone(),
            style: self.style.clone(),
            size: self.size.copied(),
        }
    }

    /// Whether two fonts compare equal.
    pub fn same(&self, other: &FontSpec) -> (r: bool)
        ensures
            r == fonts_equal(self@, other@),
    {
        self.family == other.family && self.style == other.style && self.size.same(&other.size)
    }
}

/// Whether two fonts compare equal.
pub open spec fn fonts_equal(a: FontView, b: FontView) -> bool {
    a.family == b.family && a.style == b.style && crate::measure::equal_bits(
        a.size_bits,
        b.size_bits,
    )
}

impl Default for FontSpec {
    fn default() -> (r: Self)
        ensures
            r@ == default_font(),
    {
        FontSpec {
            family: "SF Pro".to_owned(),
            style: "Regular".to_owned(),
            size: Measure { bits: 0x402a_0000_0000_0000, text: "13".to_owned() },
        }
    }
}

/// A font printed and split again has the parts it had.
pub proof fn law_font_round_trip(font: FontView)
    requires
        font.family.len() > 0,
        font.style.len() > 0,
        !font.family.contains(':'),
        !font.style.contains(':'),
        !font.size_text.contains(':'),
    ensures
        said(nth_piece(pieces(font_text(font), ':'), 0)) == Some(font.family),
        said(nth_piece(pieces(font_text(font), ':'), 1)) == Some(font.style),
        nth_piece(pieces(font_text(font), ':'), 2) == Some(font.size_text),
{
    reveal_strlit(":");
    assert(":"@ =~= seq![':']);
    lemma_one_piece(font.family, ':');
    lemma_one_more_piece(font.family, font.style, ':');
    let two = font.family + seq![':'] + font.style;
    lemma_one_more_piece(two, font.size_text, ':');
    assert(font_text(font) =~= two + seq![':'] + font.size_text);
    let parts = seq![font.family].push(font.style).push(font.size_text);
    assert(pieces(font_text(font), ':') == parts);
    assert(parts[0] == font.family && parts[1] == font.style && parts[2] == font.size_text);
}

} // verus!
