//! Colors: a closed palette of sixteen named colors, an open hex color
//! value, and their union. A color's wire form is a bare string: the
//! palette name in lower snake case, or `#rrggbb` in lowercase hex.

use vstd::prelude::*;
use vstd::string::StrSliceExecFns;
use vstd::string::StringExecFns;
use crate::text::str_eq;

verus! {

/// The fixed palette, in its stable order.
#[derive(Clone, Copy, Debug, PartialEq, Eq, Structural)]
pub enum DefaultColor {
    Black,
    DarkBlue,
    DarkGreen,
    DarkAqua,
    DarkRed,
    DarkPurple,
    Gold,
    Gray,
    DarkGray,
    Blue,
    Green,
    Aqua,
    Red,
    LightPurple,
    Yellow,
    White,
}

#[derive(Clone, Copy, Debug, PartialEq, Eq, Structural)]
pub enum HexColorError {
    HexValueContainsBadCharacters,
    HexValueTooLong,
    HexValueTooSmall,
}

/// The lowercase hex character for a value below sixteen.
pub open spec fn hex_digit_char(n: int) -> char {
    if n < 10 {
        (48 + n) as char
    } else {
        (87 + n) as char
    }
}

/// The value of a hex digit character, either case; meaningful only for
/// hex digits.
pub open spec fn hex_val(c: char) -> int {
    if 48 <= c as int <= 57 {
        c as int - 48
    } else if 97 <= c as int <= 102 {
        c as int - 87
    } else {
        c as int - 55
    }
}

pub open spec fn is_hex_digit(c: char) -> bool {
    48 <= c as int <= 57 || 97 <= c as int <= 102 || 65 <= c as int <= 70
}

pub open spec fn is_lower_hex_digit(c: char) -> bool {
    48 <= c as int <= 57 || 97 <= c as int <= 102
}

/// Uppercase hex letters folded to lowercase; all else unchanged.
pub open spec fn to_lower_hex(c: char) -> char {
    if 65 <= c as int <= 70 {
        (c as int + 32) as char
    } else {
        c
    }
}

pub open spec fn lower_hex_seq(s: Seq<char>) -> Seq<char> {
    Seq::new(s.len(), |i: int| to_lower_hex(s[i]))
}

/// The two lowercase hex characters of a byte.
pub open spec fn hex2(b: u8) -> Seq<char> {
    seq![hex_digit_char(b as int / 16), hex_digit_char(b as int % 16)]
}

/// The `#rrggbb` rendering of three bytes.
pub open spec fn hex_render3(rgb: (u8, u8, u8)) -> Seq<char> {
    seq!['#'] + hex2(rgb.0) + hex2(rgb.1) + hex2(rgb.2)
}

/// A valid hex color string: `#` and six hex digits, either case.
pub open spec fn valid_hex_str(s: Seq<char>) -> bool {
    s.len() == 7 && s[0] == '#' && (forall|i: int| 1 <= i < 7 ==> is_hex_digit(#[trigger] s[i]))
}

/// The three bytes read from a valid hex color string.
pub open spec fn hex_parse(s: Seq<char>) -> (u8, u8, u8) {
    (
        (hex_val(s[1]) * 16 + hex_val(s[2])) as u8,
        (hex_val(s[3]) * 16 + hex_val(s[4])) as u8,
        (hex_val(s[5]) * 16 + hex_val(s[6])) as u8,
    )
}

pub proof fn lemma_hex_digit(c: char)
    requires
        is_hex_digit(c),
    ensures
        0 <= hex_val(c) < 16,
        hex_digit_char(hex_val(c)) == to_lower_hex(c),
        is_lower_hex_digit(to_lower_hex(c)),
        hex_val(to_lower_hex(c)) == hex_val(c),
{
}

pub proof fn lemma_hex_digit_char(n: int)
    requires
        0 <= n < 16,
    ensures
        is_lower_hex_digit(hex_digit_char(n)),
        is_hex_digit(hex_digit_char(n)),
        hex_val(hex_digit_char(n)) == n,
        hex_digit_char(n) != '#',
{
}

/// Parsing a valid hex string and rendering the result gives the
/// lowercase fold of the input.
pub proof fn lemma_hex_parse_render(s: Seq<char>)
    requires
        valid_hex_str(s),
    ensures
        hex_render3(hex_parse(s)) == lower_hex_seq(s),
{
    let p = hex_parse(s);
    assert forall|i: int| 1 <= i < 7 implies 0 <= hex_val(#[trigger] s[i]) < 16 by {
        lemma_hex_digit(s[i]);
    }
    assert(p.0 as int / 16 == hex_val(s[1]) && p.0 as int % 16 == hex_val(s[2]));
    assert(p.1 as int / 16 == hex_val(s[3]) && p.1 as int % 16 == hex_val(s[4]));
    assert(p.2 as int / 16 == hex_val(s[5]) && p.2 as int % 16 == hex_val(s[6]));
    assert forall|i: int| 1 <= i < 7 implies hex_digit_char(hex_val(#[trigger] s[i]))
        == to_lower_hex(s[i]) by {
        lemma_hex_digit(s[i]);
    }
    assert(to_lower_hex('#') == '#');
    assert(hex_render3(p) =~= lower_hex_seq(s));
}

/// Rendering three bytes and parsing the rendering gives the bytes back.
pub proof fn lemma_hex_render_parse(rgb: (u8, u8, u8))
    ensures
        valid_hex_str(hex_render3(rgb)),
        hex_parse(hex_render3(rgb)) == rgb,
{
    let s = hex_render3(rgb);
    lemma_hex_digit_char(rgb.0 as int / 16);
    lemma_hex_digit_char(rgb.0 as int % 16);
    lemma_hex_digit_char(rgb.1 as int / 16);
    lemma_hex_digit_char(rgb.1 as int % 16);
    lemma_hex_digit_char(rgb.2 as int / 16);
    lemma_hex_digit_char(rgb.2 as int % 16);
    assert(s[1] == hex_digit_char(rgb.0 as int / 16) && s[2] == hex_digit_char(rgb.0 as int % 16));
    assert(s[3] == hex_digit_char(rgb.1 as int / 16) && s[4] == hex_digit_char(rgb.1 as int % 16));
    assert(s[5] == hex_digit_char(rgb.2 as int / 16) && s[6] == hex_digit_char(rgb.2 as int % 16));
}

#[derive(Debug)]
enum HexRepr {
    Rgb(u8, u8, u8),
    Text(String),
}

/// An open hex color. It stores either three raw byte components or a
/// pre-validated lowercase `#rrggbb` string; the two forms are freely
/// inter-convertible and render identically.
#[derive(Debug)]
pub struct HexColor(HexRepr);

impl View for HexColor {
    type V = (u8, u8, u8);

    closed spec fn view(&self) -> (u8, u8, u8) {
        match self.0 {
            HexRepr::Rgb(r, g, b) => (r, g, b),
            HexRepr::Text(s) => hex_parse(s@),
        }
    }
}

impl HexColor {
    #[verifier::type_invariant]
    spec fn inv(self) -> bool {
        match self.0 {
            HexRepr::Rgb(r, g, b) => true,
            HexRepr::Text(s) => s@.len() == 7 && s@[0] == '#' && (forall|i: int|
                1 <= i < 7 ==> is_lower_hex_digit(#[trigger] s@[i])),
        }
    }

    /// Builds a hex color from its three byte components; this always
    /// succeeds.
    pub fn new_rgb(r: u8, g: u8, b: u8) -> (c: Self)
        ensures
            c@ == (r, g, b),
    {
        HexColor(HexRepr::Rgb(r, g, b))
    }

    /// Accepts a `#rrggbb` string, either case: seven characters, a
    /// leading `#`, six hex digits. The stored string is the lowercase
    /// fold of the input.
    pub fn new_hex(hex: &str) -> (r: Result<Self, HexColorError>)
        ensures
            hex@.len() > 7 ==> r == Err::<Self, _>(HexColorError::HexValueTooLong),
            hex@.len() < 7 ==> r == Err::<Self, _>(HexColorError::HexValueTooSmall),
            (hex@.len() == 7 && !valid_hex_str(hex@)) ==> r == Err::<Self, _>(
                HexColorError::HexValueContainsBadCharacters,
            ),
            valid_hex_str(hex@) ==> (r matches Ok(c) && c@ == hex_parse(hex@)),
    {
        let len = hex.unicode_len();
        if len > 7 {
            return Err(HexColorError::HexValueTooLong);
        }
        if len < 7 {
            return Err(HexColorError::HexValueTooSmall);
        }
        if hex.get_char(0) != '#' {
            return Err(HexColorError::HexValueContainsBadCharacters);
        }
        let mut out = String::new();
        out.append("#");
        proof {
            reveal_strlit("#");
            assert("#"@ =~= seq!['#']);
        }
        let mut i: usize = 1;
        while i < 7
            invariant
                1 <= i <= 7,
                hex@.len() == 7,
                hex@[0] == '#',
                forall|j: int| 1 <= j < i ==> is_hex_digit(#[trigger] hex@[j]),
                out@ == seq!['#'] + lower_hex_seq(hex@).subrange(1, i as int),
            decreases 7 - i,
        {
            let c = hex.get_char(i);
            match hex_digit_val(c) {
                None => {
                    proof {
                        assert(!is_hex_digit(hex@[i as int]));
                    }
                    return Err(HexColorError::HexValueContainsBadCharacters);
                },
                Some(v) => {
                    append_hex_digit(&mut out, v);
                    proof {
                        lemma_hex_digit(hex@[i as int]);
                        assert(out@ =~= seq!['#'] + lower_hex_seq(hex@).subrange(
                            1,
                            i as int + 1,
                        ));
                    }
                },
            }
            i = i + 1;
        }
        proof {
            assert(out@ =~= lower_hex_seq(hex@));
            lemma_hex_parse_render(hex@);
            assert forall|j: int| 1 <= j < 7 implies is_lower_hex_digit(
                #[trigger] lower_hex_seq(hex@)[j],
            ) by {
                lemma_hex_digit(hex@[j]);
            }
            assert forall|j: int| 1 <= j < 7 implies hex_val(#[trigger] lower_hex_seq(hex@)[j])
                == hex_val(hex@[j]) by {
                lemma_hex_digit(hex@[j]);
            }
        }
        Ok(HexColor(HexRepr::Text(out)))
    }

    /// The three byte components, computed from either storage form.
    pub fn get_rgb(&self) -> (rgb: (u8, u8, u8))
        ensures
            rgb == self@,
    {
        proof {
            use_type_invariant(self);
        }
        match &self.0 {
            HexRepr::Rgb(r, g, b) => (*r, *g, *b),
            HexRepr::Text(s) => {
                let st = s.as_str();
                let d1 = hex_char_val(st, 1);
                let d2 = hex_char_val(st, 2);
                let d3 = hex_char_val(st, 3);
                let d4 = hex_char_val(st, 4);
                let d5 = hex_char_val(st, 5);
                let d6 = hex_char_val(st, 6);
                (d1 * 16 + d2, d3 * 16 + d4, d5 * 16 + d6)
            },
        }
    }

    /// The `#rrggbb` rendering, lowercase, from either storage form.
    pub fn get_hex(&self) -> (r: String)
        ensures
            r@ == hex_render3(self@),
    {
        proof {
            use_type_invariant(self);
        }
        match &self.0 {
            HexRepr::Rgb(r, g, b) => {
                let mut out = String::new();
                out.append("#");
                proof {
                    reveal_strlit("#");
                    assert("#"@ =~= seq!['#']);
                }
                let (r, g, b) = (*r, *g, *b);
                append_hex_digit(&mut out, r / 16);
                append_hex_digit(&mut out, r % 16);
                append_hex_digit(&mut out, g / 16);
                append_hex_digit(&mut out, g % 16);
                append_hex_digit(&mut out, b / 16);
                append_hex_digit(&mut out, b % 16);
                proof {
                    assert(out@ =~= hex_render3(self@));
                }
                out
            },
            HexRepr::Text(s) => {
                proof {
                    assert forall|j: int| 1 <= j < 7 implies is_hex_digit(#[trigger] s@[j])
                        && to_lower_hex(s@[j]) == s@[j] by {
                        assert(is_lower_hex_digit(s@[j]));
                    }
                    assert(valid_hex_str(s@));
                    lemma_hex_parse_render(s@);
                    assert(lower_hex_seq(s@) =~= s@);
                }
                s.clone()
            },
        }
    }
}

impl PartialEq for HexColor {
    /// Equality on the color value: the storage form does not matter.
    fn eq(&self, other: &Self) -> (r: bool) {
        let a = self.get_rgb();
        let b = other.get_rgb();
        a.0 == b.0 && a.1 == b.1 && a.2 == b.2
    }
}

impl vstd::std_specs::cmp::PartialEqSpecImpl for HexColor {
    open spec fn obeys_eq_spec() -> bool {
        true
    }

    open spec fn eq_spec(&self, other: &HexColor) -> bool {
        self@ == other@
    }
}

impl Clone for HexColor {
    /// A clone carries the same color in the same storage form.
    fn clone(&self) -> (r: Self)
        ensures
            r@ == self@,
    {
        proof {
            use_type_invariant(self);
        }
        match &self.0 {
            HexRepr::Rgb(r, g, b) => HexColor(HexRepr::Rgb(*r, *g, *b)),
            HexRepr::Text(s) => HexColor(HexRepr::Text(s.clone())),
        }
    }
}

/// The value of the hex digit at a position of a known-lowercase-hex
/// string.
fn hex_char_val(s: &str, i: usize) -> (v: u8)
    requires
        i < s@.len(),
        is_lower_hex_digit(s@[i as int]),
    ensures
        v == hex_val(s@[i as int]),
        v < 16,
{
    let c = s.get_char(i);
    let u = c as u32;
    if u >= 97 {
        (u - 87) as u8
    } else {
        (u - 48) as u8
    }
}

/// The value of a hex digit character of either case, or nothing.
fn hex_digit_val(c: char) -> (r: Option<u8>)
    ensures
        match r {
            Some(v) => is_hex_digit(c) && v == hex_val(c) && v < 16,
            None => !is_hex_digit(c),
        },
{
    let u = c as u32;
    if 48 <= u && u <= 57 {
        Some((u - 48) as u8)
    } else if 97 <= u && u <= 102 {
        Some((u - 87) as u8)
    } else if 65 <= u && u <= 70 {
        Some((u - 55) as u8)
    } else {
        None
    }
}

/// Appends the lowercase hex character of a value below sixteen.
pub fn append_hex_digit(s: &mut String, d: u8)
    requires
        d < 16,
    ensures
        final(s)@ == old(s)@ + seq![hex_digit_char(d as int)],
{
    if d == 0 {
        s.append("0");
        proof {
            reveal_strlit("0");
            assert("0"@ =~= seq![hex_digit_char(0)]);
        }
    } else if d == 1 {
        s.append("1");
        proof {
            reveal_strlit("1");
            assert("1"@ =~= seq![hex_digit_char(1)]);
        }
    } else if d == 2 {
        s.append("2");
        proof {
            reveal_strlit("2");
            assert("2"@ =~= seq![hex_digit_char(2)]);
        }
    } else if d == 3 {
        s.append("3");
        proof {
            reveal_strlit("3");
            assert("3"@ =~= seq![hex_digit_char(3)]);
        }
    } else if d == 4 {
        s.append("4");
        proof {
            reveal_strlit("4");
            assert("4"@ =~= seq![hex_digit_char(4)]);
        }
    } else if d == 5 {
        s.append("5");
        proof {
            reveal_strlit("5");
            assert("5"@ =~= seq![hex_digit_char(5)]);
        }
    } else if d == 6 {
        s.append("6");
        proof {
            reveal_strlit("6");
            assert("6"@ =~= seq![hex_digit_char(6)]);
        }
    } else if d == 7 {
        s.append("7");
        proof {
            reveal_strlit("7");
            assert("7"@ =~= seq![hex_digit_char(7)]);
        }
    } else if d == 8 {
        s.append("8");
        proof {
            reveal_strlit("8");
            assert("8"@ =~= seq![hex_digit_char(8)]);
        }
    } else if d == 9 {
        s.append("9");
        proof {
            reveal_strlit("9");
            assert("9"@ =~= seq![hex_digit_char(9)]);
        }
    } else if d == 10 {
        s.append("a");
        proof {
            reveal_strlit("a");
            assert("a"@ =~= seq![hex_digit_char(10)]);
        }
    } else if d == 11 {
        s.append("b");
        proof {
            reveal_strlit("b");
            assert("b"@ =~= seq![hex_digit_char(11)]);
        }
    } else if d == 12 {
        s.append("c");
        proof {
            reveal_strlit("c");
            assert("c"@ =~= seq![hex_digit_char(12)]);
        }
    } else if d == 13 {
        s.append("d");
        proof {
            reveal_strlit("d");
            assert("d"@ =~= seq![hex_digit_char(13)]);
        }
    } else if d == 14 {
        s.append("e");
        proof {
            reveal_strlit("e");
            assert("e"@ =~= seq![hex_digit_char(14)]);
        }
    } else {
        s.append("f");
        proof {
            reveal_strlit("f");
            assert("f"@ =~= seq![hex_digit_char(15)]);
        }
    }
}

/// A color value: one of the palette, or an open hex color.
#[derive(Debug)]
pub enum Color {
    Default(DefaultColor),
    Hex(HexColor),
}

/// The abstract value of a color.
pub ghost enum ColorView {
    Palette(DefaultColor),
    Rgb(u8, u8, u8),
}

impl View for Color {
    type V = ColorView;

    open spec fn view(&self) -> ColorView {
        match self {
            Color::Default(dc) => ColorView::Palette(*dc),
            Color::Hex(h) => ColorView::Rgb(h@.0, h@.1, h@.2),
        }
    }
}

impl PartialEq for Color {
    /// Equality on the color value: a palette color and a hex color are
    /// never equal, and hex colors compare by their byte components.
    fn eq(&self, other: &Self) -> (r: bool) {
        match (self, other) {
            (Color::Default(a), Color::Default(b)) => *a == *b,
            (Color::Hex(a), Color::Hex(b)) => a == b,
            _ => false,
        }
    }
}

impl vstd::std_specs::cmp::PartialEqSpecImpl for Color {
    open spec fn obeys_eq_spec() -> bool {
        true
    }

    open spec fn eq_spec(&self, other: &Color) -> bool {
        self@ == other@
    }
}

impl Clone for Color {
    /// A clone carries the same color value.
    fn clone(&self) -> (r: Self)
        ensures
            r@ == self@,
    {
        match self {
            Color::Default(dc) => Color::Default(*dc),
            Color::Hex(h) => Color::Hex(h.clone()),
        }
    }
}

/// The wire name of a palette color: its lower-snake-case variant name.
pub open spec fn default_color_name(c: DefaultColor) -> Seq<char> {
    match c {
        DefaultColor::Black => "black"@,
        DefaultColor::DarkBlue => "dark_blue"@,
        DefaultColor::DarkGreen => "dark_green"@,
        DefaultColor::DarkAqua => "dark_aqua"@,
        DefaultColor::DarkRed => "dark_red"@,
        DefaultColor::DarkPurple => "dark_purple"@,
        DefaultColor::Gold => "gold"@,
        DefaultColor::Gray => "gray"@,
        DefaultColor::DarkGray => "dark_gray"@,
        DefaultColor::Blue => "blue"@,
        DefaultColor::Green => "green"@,
        DefaultColor::Aqua => "aqua"@,
        DefaultColor::Red => "red"@,
        DefaultColor::LightPurple => "light_purple"@,
        DefaultColor::Yellow => "yellow"@,
        DefaultColor::White => "white"@,
    }
}

/// The palette color of a wire name, if the name is one.
pub open spec fn spec_name_to_color(s: Seq<char>) -> Option<DefaultColor> {
    if s == "black"@ {
        Some(DefaultColor::Black)
    } else if s == "dark_blue"@ {
        Some(DefaultColor::DarkBlue)
    } else if s == "dark_green"@ {
        Some(DefaultColor::DarkGreen)
    } else if s == "dark_aqua"@ {
        Some(DefaultColor::DarkAqua)
    } else if s == "dark_red"@ {
        Some(DefaultColor::DarkRed)
    } else if s == "dark_purple"@ {
        Some(DefaultColor::DarkPurple)
    } else if s == "gold"@ {
        Some(DefaultColor::Gold)
    } else if s == "gray"@ {
        Some(DefaultColor::Gray)
    } else if s == "dark_gray"@ {
        Some(DefaultColor::DarkGray)
    } else if s == "blue"@ {
        Some(DefaultColor::Blue)
    } else if s == "green"@ {
        Some(DefaultColor::Green)
    } else if s == "aqua"@ {
        Some(DefaultColor::Aqua)
    } else if s == "red"@ {
        Some(DefaultColor::Red)
    } else if s == "light_purple"@ {
        Some(DefaultColor::LightPurple)
    } else if s == "yellow"@ {
        Some(DefaultColor::Yellow)
    } else if s == "white"@ {
        Some(DefaultColor::White)
    } else {
        None
    }
}

/// The wire string of a color value.
pub open spec fn color_wire(cv: ColorView) -> Seq<char> {
    match cv {
        ColorView::Palette(dc) => default_color_name(dc),
        ColorView::Rgb(r, g, b) => hex_render3((r, g, b)),
    }
}

/// The color value of a wire string: a palette name if it is one, else a
/// valid hex string, else nothing. The dispatch is by content alone.
pub open spec fn spec_color_from_wire(s: Seq<char>) -> Option<ColorView> {
    match spec_name_to_color(s) {
        Some(dc) => Some(ColorView::Palette(dc)),
        None => if valid_hex_str(s) {
            Some(
                ColorView::Rgb(hex_parse(s).0, hex_parse(s).1, hex_parse(s).2),
            )
        } else {
            None
        },
    }
}

/// Renders a color to its wire string.
pub fn color_to_string(c: &Color) -> (r: String)
    ensures
        r@ == color_wire(c@),
{
    match c {
        Color::Default(dc) => default_color_to_string(*dc),
        Color::Hex(h) => h.get_hex(),
    }
}

/// The wire name of a palette color.
pub fn default_color_to_string(dc: DefaultColor) -> (r: String)
    ensures
        r@ == default_color_name(dc),
{
    let s: &str = match dc {
        DefaultColor::Black => "black",
        DefaultColor::DarkBlue => "dark_blue",
        DefaultColor::DarkGreen => "dark_green",
        DefaultColor::DarkAqua => "dark_aqua",
        DefaultColor::DarkRed => "dark_red",
        DefaultColor::DarkPurple => "dark_purple",
        DefaultColor::Gold => "gold",
        DefaultColor::Gray => "gray",
        DefaultColor::DarkGray => "dark_gray",
        DefaultColor::Blue => "blue",
        DefaultColor::Green => "green",
        DefaultColor::Aqua => "aqua",
        DefaultColor::Red => "red",
        DefaultColor::LightPurple => "light_purple",
        DefaultColor::Yellow => "yellow",
        DefaultColor::White => "white",
    };
    let mut out = String::new();
    out.append(s);
    proof {
        assert(out@ =~= default_color_name(dc));
    }
    out
}

/// Reads a color from its wire string, routing by content: a known
/// palette name first, then a hex string.
pub fn color_from_str(s: &str) -> (r: Option<Color>)
    ensures
        match spec_color_from_wire(s@) {
            Some(cv) => r matches Some(c) && c@ == cv,
            None => r is None,
        },
{
    if str_eq(s, "black") {
        Some(Color::Default(DefaultColor::Black))
    } else if str_eq(s, "dark_blue") {
        Some(Color::Default(DefaultColor::DarkBlue))
    } else if str_eq(s, "dark_green") {
        Some(Color::Default(DefaultColor::DarkGreen))
    } else if str_eq(s, "dark_aqua") {
        Some(Color::Default(DefaultColor::DarkAqua))
    } else if str_eq(s, "dark_red") {
        Some(Color::Default(DefaultColor::DarkRed))
    } else if str_eq(s, "dark_purple") {
        Some(Color::Default(DefaultColor::DarkPurple))
    } else if str_eq(s, "gold") {
        Some(Color::Default(DefaultColor::Gold))
    } else if str_eq(s, "gray") {
        Some(Color::Default(DefaultColor::Gray))
    } else if str_eq(s, "dark_gray") {
        Some(Color::Default(DefaultColor::DarkGray))
    } else if str_eq(s, "blue") {
        Some(Color::Default(DefaultColor::Blue))
    } else if str_eq(s, "green") {
        Some(Color::Default(DefaultColor::Green))
    } else if str_eq(s, "aqua") {
        Some(Color::Default(DefaultColor::Aqua))
    } else if str_eq(s, "red") {
        Some(Color::Default(DefaultColor::Red))
    } else if str_eq(s, "light_purple") {
        Some(Color::Default(DefaultColor::LightPurple))
    } else if str_eq(s, "yellow") {
        Some(Color::Default(DefaultColor::Yellow))
    } else if str_eq(s, "white") {
        Some(Color::Default(DefaultColor::White))
    } else {
        match HexColor::new_hex(s) {
            Ok(h) => Some(Color::Hex(h)),
            Err(_) => None,
        }
    }
}

/// A color's wire string reads back as the same color value.
pub proof fn lemma_color_round_trip(cv: ColorView)
    ensures
        spec_color_from_wire(color_wire(cv)) == Some(cv),
{
    reveal_strlit("black");
    reveal_strlit("dark_blue");
    reveal_strlit("dark_green");
    reveal_strlit("dark_aqua");
    reveal_strlit("dark_red");
    reveal_strlit("dark_purple");
    reveal_strlit("gold");
    reveal_strlit("gray");
    reveal_strlit("dark_gray");
    reveal_strlit("blue");
    reveal_strlit("green");
    reveal_strlit("aqua");
    reveal_strlit("red");
    reveal_strlit("light_purple");
    reveal_strlit("yellow");
    reveal_strlit("white");
    assert("black"@.len() == 5 && "black"@[0] == 'b');
    assert("dark_blue"@.len() == 9 && "dark_blue"@[5] == 'b');
    assert("dark_green"@.len() == 10 && "dark_green"@[0] == 'd');
    assert("dark_aqua"@.len() == 9 && "dark_aqua"@[5] == 'a');
    assert("dark_red"@.len() == 8 && "dark_red"@[0] == 'd');
    assert("dark_purple"@.len() == 11 && "dark_purple"@[0] == 'd');
    assert("gold"@.len() == 4 && "gold"@[1] == 'o');
    assert("gray"@.len() == 4 && "gray"@[1] == 'r');
    assert("dark_gray"@.len() == 9 && "dark_gray"@[5] == 'g');
    assert("blue"@.len() == 4 && "blue"@[0] == 'b');
    assert("green"@.len() == 5 && "green"@[0] == 'g');
    assert("aqua"@.len() == 4 && "aqua"@[0] == 'a');
    assert("red"@.len() == 3 && "red"@[0] == 'r');
    assert("light_purple"@.len() == 12 && "light_purple"@[0] == 'l');
    assert("yellow"@.len() == 6 && "yellow"@[0] == 'y');
    assert("white"@.len() == 5 && "white"@[0] == 'w');
    match cv {
        ColorView::Palette(dc) => {
            assert(spec_name_to_color(default_color_name(DefaultColor::Black)) == Some(
                DefaultColor::Black,
            ));
            assert(spec_name_to_color(default_color_name(DefaultColor::DarkBlue)) == Some(
                DefaultColor::DarkBlue,
            ));
            assert(spec_name_to_color(default_color_name(DefaultColor::DarkGreen)) == Some(
                DefaultColor::DarkGreen,
            ));
            assert(spec_name_to_color(default_color_name(DefaultColor::DarkAqua)) == Some(
                DefaultColor::DarkAqua,
            ));
            assert(spec_name_to_color(default_color_name(DefaultColor::DarkRed)) == Some(
                DefaultColor::DarkRed,
            ));
            assert(spec_name_to_color(default_color_name(DefaultColor::DarkPurple)) == Some(
                DefaultColor::DarkPurple,
            ));
            assert(spec_name_to_color(default_color_name(DefaultColor::Gold)) == Some(
                DefaultColor::Gold,
            ));
            assert(spec_name_to_color(default_color_name(DefaultColor::Gray)) == Some(
                DefaultColor::Gray,
            ));
            assert(spec_name_to_color(default_color_name(DefaultColor::DarkGray)) == Some(
                DefaultColor::DarkGray,
            ));
            assert(spec_name_to_color(default_color_name(DefaultColor::Blue)) == Some(
                DefaultColor::Blue,
            ));
            assert(spec_name_to_color(default_color_name(DefaultColor::Green)) == Some(
                DefaultColor::Green,
            ));
            assert(spec_name_to_color(default_color_name(DefaultColor::Aqua)) == Some(
                DefaultColor::Aqua,
            ));
            assert(spec_name_to_color(default_color_name(DefaultColor::Red)) == Some(
                DefaultColor::Red,
            ));
            assert(spec_name_to_color(default_color_name(DefaultColor::LightPurple)) == Some(
                DefaultColor::LightPurple,
            ));
            assert(spec_name_to_color(default_color_name(DefaultColor::Yellow)) == Some(
                DefaultColor::Yellow,
            ));
            assert(spec_name_to_color(default_color_name(DefaultColor::White)) == Some(
                DefaultColor::White,
            ));
        },
        ColorView::Rgb(r, g, b) => {
            lemma_hex_render_parse((r, g, b));
            let s = hex_render3((r, g, b));
            assert(s[0] == '#');
        },
    }
}

impl From<DefaultColor> for Color {
    fn from(dc: DefaultColor) -> (r: Color) {
        Color::Default(dc)
    }
}

impl vstd::std_specs::convert::FromSpecImpl<DefaultColor> for Color {
    open spec fn obeys_from_spec() -> bool {
        true
    }

    open spec fn from_spec(dc: DefaultColor) -> Color {
        Color::Default(dc)
    }
}

impl From<HexColor> for Color {
    fn from(h: HexColor) -> (r: Color) {
        Color::Hex(h)
    }
}

impl vstd::std_specs::convert::FromSpecImpl<HexColor> for Color {
    open spec fn obeys_from_spec() -> bool {
        true
    }

    open spec fn from_spec(h: HexColor) -> Color {
        Color::Hex(h)
    }
}

} // verus!
