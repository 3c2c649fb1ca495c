//! Colors with 8-bit channels.
//!
//! A channel `c` stands for the intensity `c / 255` in `[0, 1]`.
use vstd::prelude::*;
use vstd::string::StringSliceAdditionalSpecFns;

verus! {

/// A color with red, green, blue and alpha channels of 8 bits each.
#[derive(Clone, Copy, Debug, PartialEq, Eq, Structural)]
pub struct Color {
    pub r: u8,
    pub g: u8,
    pub b: u8,
    pub a: u8,
}

/// Why a color specification was refused.
#[derive(Clone, Copy, Debug, PartialEq, Eq, Structural)]
pub enum ColorError {
    /// After `#` there must be one to eight hexadecimal digits and nothing else.
    InvalidHex,
}

/// The value of a hexadecimal digit, either case, or `None` for any other byte.
pub open spec fn hex_digit_value(c: u8) -> Option<u8> {
    if 48 <= c <= 57 {
        Some((c - 48) as u8)
    } else if 97 <= c <= 102 {
        Some((c - 87) as u8)
    } else if 65 <= c <= 70 {
        Some((c - 55) as u8)
    } else {
        None
    }
}

pub open spec fn all_hex(s: Seq<u8>) -> bool {
    forall|i: int| 0 <= i < s.len() ==> (#[trigger] hex_digit_value(s[i])).is_some()
}

/// The number that the hexadecimal digits `s` write, most significant first.
pub open spec fn hex_number(s: Seq<u8>) -> nat
    decreases s.len(),
{
    if s.len() == 0 {
        0
    } else {
        hex_number(s.drop_last()) * 16 + hex_digit_value(s.last()).unwrap_or(0) as nat
    }
}

pub open spec fn pow16(n: nat) -> nat
    decreases n,
{
    if n == 0 {
        1
    } else {
        16 * pow16((n - 1) as nat)
    }
}

/// The color packed in `v` as `0xAARRGGBB`; `opaque` overrides the alpha byte with 255.
pub open spec fn packed_color(v: int, opaque: bool) -> Color {
    Color {
        r: ((v / 0x1_0000) % 256) as u8,
        g: ((v / 0x100) % 256) as u8,
        b: (v % 256) as u8,
        a: if opaque { 255 } else { (v / 0x100_0000) as u8 },
    }
}

/// The color written in `v` as `0xRRGGBBAA`.
pub open spec fn rgba_color(v: int) -> Color {
    Color {
        r: (v / 0x100_0000) as u8,
        g: ((v / 0x1_0000) % 256) as u8,
        b: ((v / 0x100) % 256) as u8,
        a: (v % 256) as u8,
    }
}

/// What `#` followed by the bytes `d` specifies: eight digits are `RRGGBBAA`; fewer
/// are a packed color, opaque when there are exactly six (`RRGGBB`).
pub open spec fn hex_color(d: Seq<u8>) -> Result<Color, ColorError> {
    if 1 <= d.len() <= 8 && all_hex(d) {
        if d.len() == 8 {
            Ok(rgba_color(hex_number(d) as int))
        } else {
            Ok(packed_color(hex_number(d) as int, d.len() == 6))
        }
    } else {
        Err(ColorError::InvalidHex)
    }
}

/// The red, green and blue channels of a named color, or `None` for an unknown name.
pub open spec fn named_rgb(name: Seq<char>) -> Option<(u8, u8, u8)> {
    if name == "blueviolet"@ {
        Some((138, 43, 226))
    } else if name == "brown"@ {
        Some((165, 42, 42))
    } else if name == "aliceblue"@ {
        Some((240, 248, 255))
    } else if name == "antiquewhite"@ {
        Some((250, 235, 215))
    } else if name == "aqua"@ {
        Some((0, 255, 255))
    } else if name == "aquamarine"@ {
        Some((127, 255, 212))
    } else if name == "azure"@ {
        Some((240, 255, 255))
    } else if name == "beige"@ {
        Some((245, 245, 220))
    } else if name == "bisque"@ {
        Some((255, 228, 196))
    } else if name == "black"@ {
        Some((0, 0, 0))
    } else if name == "blanchedalmond"@ {
        Some((255, 235, 205))
    } else if name == "blue"@ {
        Some((0, 0, 255))
    } else if name == "burlywood"@ {
        Some((222, 184, 135))
    } else if name == "cadetblue"@ {
        Some((95, 158, 160))
    } else if name == "chartreuse"@ {
        Some((127, 255, 0))
    } else if name == "chocolate"@ {
        Some((210, 105, 30))
    } else if name == "coral"@ {
        Some((255, 127, 80))
    } else if name == "cornflowerblue"@ {
        Some((100, 149, 237))
    } else if name == "cornsilk"@ {
        Some((255, 248, 220))
    } else if name == "crimson"@ {
        Some((220, 20, 60))
    } else if name == "cyan"@ {
        Some((0, 255, 255))
    } else if name == "darkblue"@ {
        Some((0, 0, 139))
    } else if name == "darkcyan"@ {
        Some((0, 139, 139))
    } else if name == "darkgoldenrod"@ {
        Some((184, 134, 11))
    } else if name == "darkgray"@ {
        Some((169, 169, 169))
    } else if name == "darkgreen"@ {
        Some((0, 100, 0))
    } else if name == "darkgrey"@ {
        Some((169, 169, 169))
    } else if name == "darkkhaki"@ {
        Some((189, 183, 107))
    } else if name == "darkmagenta"@ {
        Some((139, 0, 139))
    } else if name == "darkolivegreen"@ {
        Some((85, 107, 47))
    } else if name == "darkorange"@ {
        Some((255, 140, 0))
    } else if name == "darkorchid"@ {
        Some((153, 50, 204))
    } else if name == "darkred"@ {
        Some((139, 0, 0))
    } else if name == "darksalmon"@ {
        Some((233, 150, 122))
    } else if name == "darkseagreen"@ {
        Some((143, 188, 143))
    } else if name == "darkslateblue"@ {
        Some((72, 61, 139))
    } else if name == "darkslategray"@ {
        Some((47, 79, 79))
    } else if name == "darkslategrey"@ {
        Some((47, 79, 79))
    } else if name == "darkturquoise"@ {
        Some((0, 206, 209))
    } else if name == "darkviolet"@ {
        Some((148, 0, 211))
    } else if name == "deeppink"@ {
        Some((255, 20, 147))
    } else if name == "deepskyblue"@ {
        Some((0, 191, 255))
    } else if name == "dimgray"@ {
        Some((105, 105, 105))
    } else if name == "dimgrey"@ {
        Some((105, 105, 105))
    } else if name == "dodgerblue"@ {
        Some((30, 144, 255))
    } else if name == "firebrick"@ {
        Some((178, 34, 34))
    } else if name == "floralwhite"@ {
        Some((255, 250, 240))
    } else if name == "forestgreen"@ {
        Some((34, 139, 34))
    } else if name == "fuchsia"@ {
        Some((255, 0, 255))
    } else if name == "gainsboro"@ {
        Some((220, 220, 220))
    } else if name == "ghostwhite"@ {
        Some((248, 248, 255))
    } else if name == "gold"@ {
        Some((255, 215, 0))
    } else if name == "goldenrod"@ {
        Some((218, 165, 32))
    } else if name == "gray"@ {
        Some((128, 128, 128))
    } else if name == "green"@ {
        Some((0, 128, 0))
    } else if name == "greenyellow"@ {
        Some((173, 255, 47))
    } else if name == "honeydew"@ {
        Some((240, 255, 240))
    } else if name == "hotpink"@ {
        Some((255, 105, 180))
    } else if name == "indianred"@ {
        Some((205, 92, 92))
    } else if name == "indigo"@ {
        Some((75, 0, 130))
    } else if name == "ivory"@ {
        Some((255, 255, 240))
    } else if name == "khaki"@ {
        Some((240, 230, 140))
    } else if name == "lavender"@ {
        Some((230, 230, 250))
    } else if name == "lavenderblush"@ {
        Some((255, 240, 245))
    } else if name == "lawngreen"@ {
        Some((124, 252, 0))
    } else if name == "lemonchiffon"@ {
        Some((255, 250, 205))
    } else if name == "lightblue"@ {
        Some((173, 216, 230))
    } else if name == "lightcoral"@ {
        Some((240, 128, 128))
    } else if name == "lightcyan"@ {
        Some((224, 255, 255))
    } else if name == "lightgoldenrodyellow"@ {
        Some((250, 250, 210))
    } else if name == "lightgray"@ {
        Some((211, 211, 211))
    } else if name == "lightgreen"@ {
        Some((144, 238, 144))
    } else if name == "lightgrey"@ {
        Some((211, 211, 211))
    } else if name == "lightpink"@ {
        Some((255, 182, 193))
    } else if name == "lightsalmon"@ {
        Some((255, 160, 122))
    } else if name == "lightseagreen"@ {
        Some((32, 178, 170))
    } else if name == "lightskyblue"@ {
        Some((135, 206, 250))
    } else if name == "lightslategray"@ {
        Some((119, 136, 153))
    } else if name == "lightslategrey"@ {
        Some((119, 136, 153))
    } else if name == "lightsteelblue"@ {
        Some((176, 196, 222))
    } else if name == "lightyellow"@ {
        Some((255, 255, 224))
    } else if name == "lime"@ {
        Some((0, 255, 0))
    } else if name == "limegreen"@ {
        Some((50, 205, 50))
    } else if name == "linen"@ {
        Some((250, 240, 230))
    } else if name == "magenta"@ {
        Some((255, 0, 255))
    } else if name == "maroon"@ {
        Some((128, 0, 0))
    } else if name == "mediumaquamarine"@ {
        Some((102, 205, 170))
    } else if name == "mediumblue"@ {
        Some((0, 0, 205))
    } else if name == "mediumorchid"@ {
        Some((186, 85, 211))
    } else if name == "mediumpurple"@ {
        Some((147, 112, 219))
    } else if name == "mediumseagreen"@ {
        Some((60, 179, 113))
    } else if name == "mediumslateblue"@ {
        Some((123, 104, 238))
    } else if name == "mediumspringgreen"@ {
        Some((0, 250, 154))
    } else if name == "mediumturquoise"@ {
        Some((72, 209, 204))
    } else if name == "mediumvioletred"@ {
        Some((199, 21, 133))
    } else if name == "midnightblue"@ {
        Some((25, 25, 112))
    } else if name == "mintcream"@ {
        Some((245, 255, 250))
    } else if name == "mistyrose"@ {
        Some((255, 228, 225))
    } else if name == "moccasin"@ {
        Some((255, 228, 181))
    } else if name == "navajowhite"@ {
        Some((255, 222, 173))
    } else if name == "navy"@ {
        Some((0, 0, 128))
    } else if name == "oldlace"@ {
        Some((253, 245, 230))
    } else if name == "olive"@ {
        Some((128, 128, 0))
    } else if name == "olivedrab"@ {
        Some((107, 142, 35))
    } else if name == "orange"@ {
        Some((255, 165, 0))
    } else if name == "orangered"@ {
        Some((255, 69, 0))
    } else if name == "orchid"@ {
        Some((218, 112, 214))
    } else if name == "palegoldenrod"@ {
        Some((238, 232, 170))
    } else if name == "palegreen"@ {
        Some((152, 251, 152))
    } else if name == "paleturquoise"@ {
        Some((175, 238, 238))
    } else if name == "palevioletred"@ {
        Some((219, 112, 147))
    } else if name == "papayawhip"@ {
        Some((255, 239, 213))
    } else if name == "peachpuff"@ {
        Some((255, 218, 185))
    } else if name == "peru"@ {
        Some((205, 133, 63))
    } else if name == "pink"@ {
        Some((255, 192, 203))
    } else if name == "plum"@ {
        Some((221, 160, 221))
    } else if name == "powderblue"@ {
        Some((176, 224, 230))
    } else if name == "purple"@ {
        Some((128, 0, 128))
    } else if name == "rebeccapurple"@ {
        Some((102, 51, 153))
    } else if name == "red"@ {
        Some((255, 0, 0))
    } else if name == "rosybrown"@ {
        Some((188, 143, 143))
    } else if name == "royalblue"@ {
        Some((65, 105, 225))
    } else if name == "saddlebrown"@ {
        Some((139, 69, 19))
    } else if name == "salmon"@ {
        Some((250, 128, 114))
    } else if name == "sandybrown"@ {
        Some((244, 164, 96))
    } else if name == "seagreen"@ {
        Some((46, 139, 87))
    } else if name == "seashell"@ {
        Some((255, 245, 238))
    } else if name == "sienna"@ {
        Some((160, 82, 45))
    } else if name == "silver"@ {
        Some((192, 192, 192))
    } else if name == "skyblue"@ {
        Some((135, 206, 235))
    } else if name == "slateblue"@ {
        Some((106, 90, 205))
    } else if name == "slategray"@ {
        Some((112, 128, 144))
    } else if name == "slategrey"@ {
        Some((112, 128, 144))
    } else if name == "snow"@ {
        Some((255, 250, 250))
    } else if name == "springgreen"@ {
        Some((0, 255, 127))
    } else if name == "steelblue"@ {
        Some((70, 130, 180))
    } else if name == "tan"@ {
        Some((210, 180, 140))
    } else if name == "teal"@ {
        Some((0, 128, 128))
    } else if name == "thistle"@ {
        Some((216, 191, 216))
    } else if name == "tomato"@ {
        Some((255, 99, 71))
    } else if name == "turquoise"@ {
        Some((64, 224, 208))
    } else if name == "violet"@ {
        Some((238, 130, 238))
    } else if name == "wheat"@ {
        Some((245, 222, 179))
    } else if name == "white"@ {
        Some((255, 255, 255))
    } else if name == "whitesmoke"@ {
        Some((245, 245, 245))
    } else if name == "yellow"@ {
        Some((255, 255, 0))
    } else if name == "yellowgreen"@ {
        Some((154, 205, 50))
    } else {
        None
    }
}

/// The color a name stands for; an unknown name is opaque black.
pub open spec fn named_color(name: Seq<char>) -> Color {
    match named_rgb(name) {
        Some((r, g, b)) => Color { r, g, b, a: 255 },
        None => Color { r: 0, g: 0, b: 0, a: 255 },
    }
}

/// What a color specification stands for: `#` and hexadecimal digits, or a name.
pub open spec fn spec_color(text: Seq<char>, bytes: Seq<u8>) -> Result<Color, ColorError> {
    if bytes.len() > 0 && bytes[0] == 35 {
        hex_color(bytes.subrange(1, bytes.len() as int))
    } else {
        Ok(named_color(text))
    }
}

/// Relies on `==` for `str`, which compares the characters.
#[verifier::external_body]
fn same_text(a: &str, b: &str) -> (r: bool)
    ensures
        r == (a@ == b@),
{
    a == b
}

fn hex_digit(c: u8) -> (r: Option<u8>)
    ensures
        r == hex_digit_value(c),
{
    if 48 <= c && c <= 57 {
        Some(c - 48)
    } else if 97 <= c && c <= 102 {
        Some(c - 87)
    } else if 65 <= c && c <= 70 {
        Some(c - 55)
    } else {
        None
    }
}

impl Color {
    /// An opaque color from channels in `0..=255`.
    pub fn rgb_int(r: i32, g: i32, b: i32) -> (c: Color)
        requires
            0 <= r <= 255,
            0 <= g <= 255,
            0 <= b <= 255,
        ensures
            c == (Color { r: r as u8, g: g as u8, b: b as u8, a: 255 }),
    {
        Color::rgba_int(r, g, b, 255)
    }

    /// A color from channels in `0..=255`.
    pub fn rgba_int(r: i32, g: i32, b: i32, a: i32) -> (c: Color)
        requires
            0 <= r <= 255,
            0 <= g <= 255,
            0 <= b <= 255,
            0 <= a <= 255,
        ensures
            c == (Color { r: r as u8, g: g as u8, b: b as u8, a: a as u8 }),
    {
        Color { r: r as u8, g: g as u8, b: b as u8, a: a as u8 }
    }

    /// An opaque grey of the given shade in `0..=255`.
    pub fn grey_int(shade: i32) -> (c: Color)
        requires
            0 <= shade <= 255,
        ensures
            c == (Color { r: shade as u8, g: shade as u8, b: shade as u8, a: 255 }),
    {
        Color::rgb_int(shade, shade, shade)
    }

    /// The color packed in `value` as `0xAARRGGBB`; a 24-bit value has alpha 0.
    pub fn from_int(value: i64) -> (c: Color)
        requires
            0 <= value < 0x1_0000_0000,
        ensures
            c == packed_color(value as int, false),
    {
        let v = value as u64;
        Color {
            r: (v / 0x1_0000 % 256) as u8,
            g: (v / 0x100 % 256) as u8,
            b: (v % 256) as u8,
            a: (v / 0x100_0000) as u8,
        }
    }

    /// Reads `#` followed by one to eight hexadecimal digits (`#RRGGBB` is opaque,
    /// `#RRGGBBAA` carries its alpha), or else a color name. Malformed hexadecimal is
    /// an error; an unknown name is opaque black.
    pub fn from_string(src: &str) -> (r: Result<Color, ColorError>)
        ensures
            r == spec_color(src@, src.spec_bytes()),
    {
        let bytes = src.as_bytes();
        if bytes.len() > 0 && bytes[0] == 35 {
            let n = bytes.len();
            let ghost d = bytes@.subrange(1, n as int);
            if n < 2 || n > 9 {
                return Err(ColorError::InvalidHex);
            }
            let mut value: u64 = 0;
            let mut i: usize = 1;
            proof {
                lemma_pow16_mono(0, 8);
                assert(bytes@.subrange(1, 1) =~= Seq::<u8>::empty());
            }
            while i < n
                invariant
                    bytes@ == src.spec_bytes(),
                    n == bytes.len(),
                    2 <= n <= 9,
                    bytes@[0] == 35,
                    1 <= i <= n,
                    d == bytes@.subrange(1, n as int),
                    all_hex(bytes@.subrange(1, i as int)),
                    value == hex_number(bytes@.subrange(1, i as int)),
                    value < pow16((i - 1) as nat),
                    pow16((i - 1) as nat) <= pow16(8),
                decreases n - i,
            {
                let ghost prev = bytes@.subrange(1, i as int);
                let ghost next = bytes@.subrange(1, i + 1);
                assert(next.drop_last() =~= prev);
                match hex_digit(bytes[i]) {
                    None => {
                        assert(d[i - 1] == bytes@[i as int]);
                        assert(hex_digit_value(d[i - 1]).is_none());
                        assert(!all_hex(d));
                        return Err(ColorError::InvalidHex);
                    },
                    Some(v) => {
                        proof {
                            let p = pow16((i - 1) as nat);
                            assert(pow16(i as nat) == 16 * p);
                            assert(value * 16 + v < 16 * p) by (nonlinear_arith)
                                requires
                                    value < p,
                                    v < 16,
                            ;
                            reveal_with_fuel(pow16, 9);
                            assert(pow16(8) == 0x1_0000_0000);
                            if i < 8 {
                                lemma_pow16_mono((i as nat), 8);
                            }
                        }
                        value = value * 16 + v as u64;
                    },
                }
                i = i + 1;
            }
            assert(bytes@.subrange(1, i as int) =~= d);
            proof {
                reveal_with_fuel(pow16, 9);
            }
            if n == 9 {
                return Ok(Color {
                    r: (value / 0x100_0000) as u8,
                    g: (value / 0x1_0000 % 256) as u8,
                    b: (value / 0x100 % 256) as u8,
                    a: (value % 256) as u8,
                });
            }
            let mut c = Color::from_int(value as i64);
            if n == 7 {
                c.a = 255;
            }
            Ok(c)
        } else {
            Ok(Color::from_named_string(src))
        }
    }

    /// The color a name stands for; names are matched exactly and an unknown one
    /// gives opaque black.
    pub fn from_named_string(src: &str) -> (c: Color)
        ensures
            c == named_color(src@),
    {
        if same_text(src, "blueviolet") {
            Color::rgb_int(138, 43, 226)
        } else if same_text(src, "brown") {
            Color::rgb_int(165, 42, 42)
        } else if same_text(src, "aliceblue") {
            Color::rgb_int(240, 248, 255)
        } else if same_text(src, "antiquewhite") {
            Color::rgb_int(250, 235, 215)
        } else if same_text(src, "aqua") {
            Color::rgb_int(0, 255, 255)
        } else if same_text(src, "aquamarine") {
            Color::rgb_int(127, 255, 212)
        } else if same_text(src, "azure") {
            Color::rgb_int(240, 255, 255)
        } else if same_text(src, "beige") {
            Color::rgb_int(245, 245, 220)
        } else if same_text(src, "bisque") {
            Color::rgb_int(255, 228, 196)
        } else if same_text(src, "black") {
            Color::rgb_int(0, 0, 0)
        } else if same_text(src, "blanchedalmond") {
            Color::rgb_int(255, 235, 205)
        } else if same_text(src, "blue") {
            Color::rgb_int(0, 0, 255)
        } else if same_text(src, "burlywood") {
            Color::rgb_int(222, 184, 135)
        } else if same_text(src, "cadetblue") {
            Color::rgb_int(95, 158, 160)
        } else if same_text(src, "chartreuse") {
            Color::rgb_int(127, 255, 0)
        } else if same_text(src, "chocolate") {
            Color::rgb_int(210, 105, 30)
        } else if same_text(src, "coral") {
            Color::rgb_int(255, 127, 80)
        } else if same_text(src, "cornflowerblue") {
            Color::rgb_int(100, 149, 237)
        } else if same_text(src, "cornsilk") {
            Color::rgb_int(255, 248, 220)
        } else if same_text(src, "crimson") {
            Color::rgb_int(220, 20, 60)
        } else if same_text(src, "cyan") {
            Color::rgb_int(0, 255, 255)
        } else if same_text(src, "darkblue") {
            Color::rgb_int(0, 0, 139)
        } else if same_text(src, "darkcyan") {
            Color::rgb_int(0, 139, 139)
        } else if same_text(src, "darkgoldenrod") {
            Color::rgb_int(184, 134, 11)
        } else if same_text(src, "darkgray") {
            Color::rgb_int(169, 169, 169)
        } else if same_text(src, "darkgreen") {
            Color::rgb_int(0, 100, 0)
        } else if same_text(src, "darkgrey") {
            Color::rgb_int(169, 169, 169)
        } else if same_text(src, "darkkhaki") {
            Color::rgb_int(189, 183, 107)
        } else if same_text(src, "darkmagenta") {
            Color::rgb_int(139, 0, 139)
        } else if same_text(src, "darkolivegreen") {
            Color::rgb_int(85, 107, 47)
        } else if same_text(src, "darkorange") {
            Color::rgb_int(255, 140, 0)
        } else if same_text(src, "darkorchid") {
            Color::rgb_int(153, 50, 204)
        } else if same_text(src, "darkred") {
            Color::rgb_int(139, 0, 0)
        } else if same_text(src, "darksalmon") {
            Color::rgb_int(233, 150, 122)
        } else if same_text(src, "darkseagreen") {
            Color::rgb_int(143, 188, 143)
        } else if same_text(src, "darkslateblue") {
            Color::rgb_int(72, 61, 139)
        } else if same_text(src, "darkslategray") {
            Color::rgb_int(47, 79, 79)
        } else if same_text(src, "darkslategrey") {
            Color::rgb_int(47, 79, 79)
        } else if same_text(src, "darkturquoise") {
            Color::rgb_int(0, 206, 209)
        } else if same_text(src, "darkviolet") {
            Color::rgb_int(148, 0, 211)
        } else if same_text(src, "deeppink") {
            Color::rgb_int(255, 20, 147)
        } else if same_text(src, "deepskyblue") {
            Color::rgb_int(0, 191, 255)
        } else if same_text(src, "dimgray") {
            Color::rgb_int(105, 105, 105)
        } else if same_text(src, "dimgrey") {
            Color::rgb_int(105, 105, 105)
        } else if same_text(src, "dodgerblue") {
            Color::rgb_int(30, 144, 255)
        } else if same_text(src, "firebrick") {
            Color::rgb_int(178, 34, 34)
        } else if same_text(src, "floralwhite") {
            Color::rgb_int(255, 250, 240)
        } else if same_text(src, "forestgreen") {
            Color::rgb_int(34, 139, 34)
        } else if same_text(src, "fuchsia") {
            Color::rgb_int(255, 0, 255)
        } else if same_text(src, "gainsboro") {
            Color::rgb_int(220, 220, 220)
        } else if same_text(src, "ghostwhite") {
            Color::rgb_int(248, 248, 255)
        } else if same_text(src, "gold") {
            Color::rgb_int(255, 215, 0)
        } else if same_text(src, "goldenrod") {
            Color::rgb_int(218, 165, 32)
        } else if same_text(src, "gray") {
            Color::rgb_int(128, 128, 128)
        } else if same_text(src, "green") {
            Color::rgb_int(0, 128, 0)
        } else if same_text(src, "greenyellow") {
            Color::rgb_int(173, 255, 47)
        } else if same_text(src, "honeydew") {
            Color::rgb_int(240, 255, 240)
        } else if same_text(src, "hotpink") {
            Color::rgb_int(255, 105, 180)
        } else if same_text(src, "indianred") {
            Color::rgb_int(205, 92, 92)
        } else if same_text(src, "indigo") {
            Color::rgb_int(75, 0, 130)
        } else if same_text(src, "ivory") {
            Color::rgb_int(255, 255, 240)
        } else if same_text(src, "khaki") {
            Color::rgb_int(240, 230, 140)
        } else if same_text(src, "lavender") {
            Color::rgb_int(230, 230, 250)
        } else if same_text(src, "lavenderblush") {
            Color::rgb_int(255, 240, 245)
        } else if same_text(src, "lawngreen") {
            Color::rgb_int(124, 252, 0)
        } else if same_text(src, "lemonchiffon") {
            Color::rgb_int(255, 250, 205)
        } else if same_text(src, "lightblue") {
            Color::rgb_int(173, 216, 230)
        } else if same_text(src, "lightcoral") {
            Color::rgb_int(240, 128, 128)
        } else if same_text(src, "lightcyan") {
            Color::rgb_int(224, 255, 255)
        } else if same_text(src, "lightgoldenrodyellow") {
            Color::rgb_int(250, 250, 210)
        } else if same_text(src, "lightgray") {
            Color::rgb_int(211, 211, 211)
        } else if same_text(src, "lightgreen") {
            Color::rgb_int(144, 238, 144)
        } else if same_text(src, "lightgrey") {
            Color::rgb_int(211, 211, 211)
        } else if same_text(src, "lightpink") {
            Color::rgb_int(255, 182, 193)
        } else if same_text(src, "lightsalmon") {
            Color::rgb_int(255, 160, 122)
        } else if same_text(src, "lightseagreen") {
            Color::rgb_int(32, 178, 170)
        } else if same_text(src, "lightskyblue") {
            Color::rgb_int(135, 206, 250)
        } else if same_text(src, "lightslategray") {
            Color::rgb_int(119, 136, 153)
        } else if same_text(src, "lightslategrey") {
            Color::rgb_int(119, 136, 153)
        } else if same_text(src, "lightsteelblue") {
            Color::rgb_int(176, 196, 222)
        } else if same_text(src, "lightyellow") {
            Color::rgb_int(255, 255, 224)
        } else if same_text(src, "lime") {
            Color::rgb_int(0, 255, 0)
        } else if same_text(src, "limegreen") {
            Color::rgb_int(50, 205, 50)
        } else if same_text(src, "linen") {
            Color::rgb_int(250, 240, 230)
        } else if same_text(src, "magenta") {
            Color::rgb_int(255, 0, 255)
        } else if same_text(src, "maroon") {
            Color::rgb_int(128, 0, 0)
        } else if same_text(src, "mediumaquamarine") {
            Color::rgb_int(102, 205, 170)
        } else if same_text(src, "mediumblue") {
            Color::rgb_int(0, 0, 205)
        } else if same_text(src, "mediumorchid") {
            Color::rgb_int(186, 85, 211)
        } else if same_text(src, "mediumpurple") {
            Color::rgb_int(147, 112, 219)
        } else if same_text(src, "mediumseagreen") {
            Color::rgb_int(60, 179, 113)
        } else if same_text(src, "mediumslateblue") {
            Color::rgb_int(123, 104, 238)
        } else if same_text(src, "mediumspringgreen") {
            Color::rgb_int(0, 250, 154)
        } else if same_text(src, "mediumturquoise") {
            Color::rgb_int(72, 209, 204)
        } else if same_text(src, "mediumvioletred") {
            Color::rgb_int(199, 21, 133)
        } else if same_text(src, "midnightblue") {
            Color::rgb_int(25, 25, 112)
        } else if same_text(src, "mintcream") {
            Color::rgb_int(245, 255, 250)
        } else if same_text(src, "mistyrose") {
            Color::rgb_int(255, 228, 225)
        } else if same_text(src, "moccasin") {
            Color::rgb_int(255, 228, 181)
        } else if same_text(src, "navajowhite") {
            Color::rgb_int(255, 222, 173)
        } else if same_text(src, "navy") {
            Color::rgb_int(0, 0, 128)
        } else if same_text(src, "oldlace") {
            Color::rgb_int(253, 245, 230)
        } else if same_text(src, "olive") {
            Color::rgb_int(128, 128, 0)
        } else if same_text(src, "olivedrab") {
            Color::rgb_int(107, 142, 35)
        } else if same_text(src, "orange") {
            Color::rgb_int(255, 165, 0)
        } else if same_text(src, "orangered") {
            Color::rgb_int(255, 69, 0)
        } else if same_text(src, "orchid") {
            Color::rgb_int(218, 112, 214)
        } else if same_text(src, "palegoldenrod") {
            Color::rgb_int(238, 232, 170)
        } else if same_text(src, "palegreen") {
            Color::rgb_int(152, 251, 152)
        } else if same_text(src, "paleturquoise") {
            Color::rgb_int(175, 238, 238)
        } else if same_text(src, "palevioletred") {
            Color::rgb_int(219, 112, 147)
        } else if same_text(src, "papayawhip") {
            Color::rgb_int(255, 239, 213)
        } else if same_text(src, "peachpuff") {
            Color::rgb_int(255, 218, 185)
        } else if same_text(src, "peru") {
            Color::rgb_int(205, 133, 63)
        } else if same_text(src, "pink") {
            Color::rgb_int(255, 192, 203)
        } else if same_text(src, "plum") {
            Color::rgb_int(221, 160, 221)
        } else if same_text(src, "powderblue") {
            Color::rgb_int(176, 224, 230)
        } else if same_text(src, "purple") {
            Color::rgb_int(128, 0, 128)
        } else if same_text(src, "rebeccapurple") {
            Color::rgb_int(102, 51, 153)
        } else if same_text(src, "red") {
            Color::rgb_int(255, 0, 0)
        } else if same_text(src, "rosybrown") {
            Color::rgb_int(188, 143, 143)
        } else if same_text(src, "royalblue") {
            Color::rgb_int(65, 105, 225)
        } else if same_text(src, "saddlebrown") {
            Color::rgb_int(139, 69, 19)
        } else if same_text(src, "salmon") {
            Color::rgb_int(250, 128, 114)
        } else if same_text(src, "sandybrown") {
            Color::rgb_int(244, 164, 96)
        } else if same_text(src, "seagreen") {
            Color::rgb_int(46, 139, 87)
        } else if same_text(src, "seashell") {
            Color::rgb_int(255, 245, 238)
        } else if same_text(src, "sienna") {
            Color::rgb_int(160, 82, 45)
        } else if same_text(src, "silver") {
            Color::rgb_int(192, 192, 192)
        } else if same_text(src, "skyblue") {
            Color::rgb_int(135, 206, 235)
        } else if same_text(src, "slateblue") {
            Color::rgb_int(106, 90, 205)
        } else if same_text(src, "slategray") {
            Color::rgb_int(112, 128, 144)
        } else if same_text(src, "slategrey") {
            Color::rgb_int(112, 128, 144)
        } else if same_text(src, "snow") {
            Color::rgb_int(255, 250, 250)
        } else if same_text(src, "springgreen") {
            Color::rgb_int(0, 255, 127)
        } else if same_text(src, "steelblue") {
            Color::rgb_int(70, 130, 180)
        } else if same_text(src, "tan") {
            Color::rgb_int(210, 180, 140)
        } else if same_text(src, "teal") {
            Color::rgb_int(0, 128, 128)
        } else if same_text(src, "thistle") {
            Color::rgb_int(216, 191, 216)
        } else if same_text(src, "tomato") {
            Color::rgb_int(255, 99, 71)
        } else if same_text(src, "turquoise") {
            Color::rgb_int(64, 224, 208)
        } else if same_text(src, "violet") {
            Color::rgb_int(238, 130, 238)
        } else if same_text(src, "wheat") {
            Color::rgb_int(245, 222, 179)
        } else if same_text(src, "white") {
            Color::rgb_int(255, 255, 255)
        } else if same_text(src, "whitesmoke") {
            Color::rgb_int(245, 245, 245)
        } else if same_text(src, "yellow") {
            Color::rgb_int(255, 255, 0)
        } else if same_text(src, "yellowgreen") {
            Color::rgb_int(154, 205, 50)
        } else {
            Color::rgb_int(0, 0, 0)
        }
    }
}

proof fn lemma_pow16_mono(a: nat, b: nat)
    requires
        a <= b,
    ensures
        pow16(a) <= pow16(b),
    decreases b,
{
    if a < b {
        lemma_pow16_mono(a, (b - 1) as nat);
    }
}

} // verus!
