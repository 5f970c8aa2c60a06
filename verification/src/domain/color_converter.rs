//! Hex and RGB colors: validation and the canonical `#RRGGBB` form.
use vstd::prelude::*;
use crate::domain::session::{ColorConverterSnapshot, ColorView, default_color};
use crate::text::{
    char_is_hex_digit, chars_of, is_hex_digit, is_ws, lemma_trim_unchanged, push_char, trim,
    trim_range,
};

verus! {

/// Why a color could not be read.
#[derive(Clone, Copy, Debug, PartialEq, Eq, Structural)]
pub enum ColorError {
    InvalidHex,
}

impl ColorError {
    /// The message shown for the error.
    pub fn message(self) -> (r: &'static str)
        ensures
            r@ == "Use a 6-digit hex color such as #336699."@,
    {
        match self {
            ColorError::InvalidHex => "Use a 6-digit hex color such as #336699.",
        }
    }
}

/// The value of a hexadecimal digit.
pub open spec fn hex_value(c: char) -> int {
    if '0' <= c && c <= '9' {
        c as int - '0' as int
    } else if 'a' <= c && c <= 'f' {
        c as int - 'a' as int + 10
    } else {
        c as int - 'A' as int + 10
    }
}

/// The digits of a color: the trimmed input without one leading `#`.
pub open spec fn hex_body(input: Seq<char>) -> Seq<char> {
    let t = trim(input);
    if t.len() > 0 && t[0] == '#' {
        t.drop_first()
    } else {
        t
    }
}

/// Six hexadecimal digits.
pub open spec fn hex_valid(input: Seq<char>) -> bool {
    let h = hex_body(input);
    h.len() == 6 && forall|i: int| 0 <= i < 6 ==> is_hex_digit(#[trigger] h[i])
}

/// The red, green and blue channels the six digits give.
pub open spec fn hex_rgb(input: Seq<char>) -> Seq<u8> {
    let h = hex_body(input);
    seq![
        (hex_value(h[0]) * 16 + hex_value(h[1])) as u8,
        (hex_value(h[2]) * 16 + hex_value(h[3])) as u8,
        (hex_value(h[4]) * 16 + hex_value(h[5])) as u8,
    ]
}

/// An uppercase hexadecimal digit.
pub open spec fn upper_digit(d: int) -> char {
    if d < 10 {
        (('0' as int) + d) as char
    } else {
        (('A' as int) + d - 10) as char
    }
}

/// `#RRGGBB` with uppercase digits.
pub open spec fn hex_text(rgb: Seq<u8>) -> Seq<char> {
    seq![
        '#',
        upper_digit((rgb[0] / 16) as int),
        upper_digit((rgb[0] % 16) as int),
        upper_digit((rgb[1] / 16) as int),
        upper_digit((rgb[1] % 16) as int),
        upper_digit((rgb[2] / 16) as int),
        upper_digit((rgb[2] % 16) as int),
    ]
}

fn hex_value_exec(c: char) -> (r: u8)
    requires
        is_hex_digit(c),
    ensures
        r == hex_value(c),
{
    if '0' <= c && c <= '9' {
        (c as u8) - ('0' as u8)
    } else if 'a' <= c && c <= 'f' {
        (c as u8) - ('a' as u8) + 10
    } else {
        (c as u8) - ('A' as u8) + 10
    }
}

/// `parse_hex_color`: six hexadecimal digits, after trimming and one
/// optional `#`.
pub fn parse_hex_color(input: &str) -> (r: Result<[u8; 3], ColorError>)
    ensures
        r is Ok <==> hex_valid(input@),
        r matches Ok(rgb) ==> rgb@ == hex_rgb(input@),
        r matches Err(e) ==> e == ColorError::InvalidHex,
{
    let v = chars_of(input);
    let (a0, b) = trim_range(&v, 0, v.len());
    assert(v@.subrange(0, v@.len() as int) == v@);
    let ghost t = v@.subrange(a0 as int, b as int);
    let a = if a0 < b && v[a0] == '#' {
        assert(t.drop_first() == v@.subrange(a0 + 1, b as int));
        a0 + 1
    } else {
        a0
    };
    let ghost h = v@.subrange(a as int, b as int);
    assert(h == hex_body(input@));
    if b - a != 6 {
        return Err(ColorError::InvalidHex);
    }
    let mut k: usize = 0;
    while k < 6
        invariant
            k <= 6,
            a + 6 == b,
            b <= v@.len(),
            h == v@.subrange(a as int, b as int),
            h == hex_body(input@),
            forall|i: int| 0 <= i < k ==> is_hex_digit(#[trigger] h[i]),
        decreases 6 - k,
    {
        if !char_is_hex_digit(v[a + k]) {
            assert(!is_hex_digit(h[k as int]));
            return Err(ColorError::InvalidHex);
        }
        k = k + 1;
    }
    assert(h[0] == v@[a as int] && h[1] == v@[a + 1] && h[2] == v@[a + 2]);
    assert(h[3] == v@[a + 3] && h[4] == v@[a + 4] && h[5] == v@[a + 5]);
    assert(is_hex_digit(h[0]) && is_hex_digit(h[1]) && is_hex_digit(h[2]));
    assert(is_hex_digit(h[3]) && is_hex_digit(h[4]) && is_hex_digit(h[5]));
    let hi0 = hex_value_exec(v[a]);
    let lo0 = hex_value_exec(v[a + 1]);
    let hi1 = hex_value_exec(v[a + 2]);
    let lo1 = hex_value_exec(v[a + 3]);
    let hi2 = hex_value_exec(v[a + 4]);
    let lo2 = hex_value_exec(v[a + 5]);
    let r = [hi0 * 16 + lo0, hi1 * 16 + lo1, hi2 * 16 + lo2];
    proof {
        broadcast use vstd::array::group_array_axioms;
        assert(r[0] == hi0 * 16 + lo0 && r[1] == hi1 * 16 + lo1 && r[2] == hi2 * 16 + lo2);
        assert(r@ =~= hex_rgb(input@));
    }
    Ok(r)
}

fn upper_digit_exec(d: u8) -> (r: char)
    requires
        d < 16,
    ensures
        r == upper_digit(d as int),
{
    if d < 10 {
        (('0' as u8) + d) as char
    } else {
        (('A' as u8) + d - 10) as char
    }
}

/// `format_hex`: the canonical `#RRGGBB` text, uppercase.
pub fn format_hex(rgb: [u8; 3]) -> (r: String)
    ensures
        r@ == hex_text(rgb@),
{
    let mut s = String::new();
    push_char(&mut s, '#');
    push_char(&mut s, upper_digit_exec(rgb[0] / 16));
    push_char(&mut s, upper_digit_exec(rgb[0] % 16));
    push_char(&mut s, upper_digit_exec(rgb[1] / 16));
    push_char(&mut s, upper_digit_exec(rgb[1] % 16));
    push_char(&mut s, upper_digit_exec(rgb[2] / 16));
    push_char(&mut s, upper_digit_exec(rgb[2] % 16));
    assert(s@ =~= hex_text(rgb@));
    s
}

/// The canonical text of a color reads back as that color.
pub proof fn lemma_format_parse(rgb: Seq<u8>)
    requires
        rgb.len() == 3,
    ensures
        hex_valid(hex_text(rgb)),
        hex_rgb(hex_text(rgb)) == rgb,
{
    let s = hex_text(rgb);
    lemma_trim_unchanged(s);
    assert(s.drop_first() == s.subrange(1, 7));
    let h = hex_body(s);
    assert forall|i: int| 0 <= i < 6 implies is_hex_digit(#[trigger] h[i]) by {
        assert(h[i] == s[i + 1]);
    }
    assert forall|k: int| 0 <= k < 3 implies #[trigger] hex_rgb(s)[k] == rgb[k] by {
        let x = rgb[k] as int;
        assert(hex_value(upper_digit(x / 16)) == x / 16);
        assert(hex_value(upper_digit(x % 16)) == x % 16);
        assert((x / 16) * 16 + x % 16 == x);
    }
    assert(hex_rgb(s) =~= rgb);
}

/// The color converter: the text being edited and the last valid color.
#[derive(Debug, PartialEq, Eq)]
pub struct ColorConverterState {
    hex_input: String,
    rgb: [u8; 3],
}

impl vstd::view::View for ColorConverterState {
    type V = ColorView;

    closed spec fn view(&self) -> ColorView {
        ColorView { hex_input: self.hex_input@, rgb: self.rgb@ }
    }
}

impl Default for ColorConverterState {
    fn default() -> (r: Self)
        ensures
            r@ == default_color(),
    {
        Self::from_snapshot(ColorConverterSnapshot::default())
    }
}

impl ColorConverterState {
    /// The state a persisted form describes.
    pub fn from_snapshot(snapshot: ColorConverterSnapshot) -> (r: Self)
        ensures
            r@ == snapshot@,
    {
        ColorConverterState { hex_input: snapshot.hex_input, rgb: snapshot.rgb }
    }

    /// The persisted form.
    pub fn snapshot(&self) -> (r: ColorConverterSnapshot)
        ensures
            r@ == self@,
    {
        ColorConverterSnapshot { hex_input: self.hex_input.clone(), rgb: self.rgb }
    }

    /// The text being edited.
    pub fn hex_input(&self) -> (r: &str)
        ensures
            r@ == self@.hex_input,
    {
        self.hex_input.as_str()
    }

    /// The last valid color.
    pub fn rgb(&self) -> (r: [u8; 3])
        ensures
            r@ == self@.rgb,
    {
        self.rgb
    }

    /// Takes the input; a valid color replaces the current one and the text
    /// becomes its canonical form, an invalid one leaves the color and keeps
    /// the text as typed.
    pub fn apply_hex(&mut self, input: &str) -> (r: Result<(), ColorError>)
        ensures
            r is Ok <==> hex_valid(input@),
            r matches Err(e) ==> e == ColorError::InvalidHex && final(self)@ == (ColorView {
                hex_input: input@,
                rgb: old(self)@.rgb,
            }),
            r is Ok ==> final(self)@ == (ColorView {
                hex_input: hex_text(hex_rgb(input@)),
                rgb: hex_rgb(input@),
            }),
    {
        self.hex_input = crate::text::string_from(input);
        let rgb = parse_hex_color(self.hex_input.as_str())?;
        self.rgb = rgb;
        self.hex_input = format_hex(rgb);
        Ok(())
    }

    /// Sets the color; the text becomes its canonical form.
    pub fn set_rgb(&mut self, rgb: [u8; 3])
        ensures
            final(self)@ == (ColorView { hex_input: hex_text(rgb@), rgb: rgb@ }),
    {
        self.rgb = rgb;
        self.hex_input = format_hex(rgb);
    }
}

} // verus!
