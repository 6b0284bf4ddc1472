use vstd::prelude::*;

verus! {

/// A packed RGB pixel value, one byte per channel. Every byte triple is a
/// valid color.
#[derive(Clone, Copy, Debug, PartialEq, Eq, Structural)]
pub struct Color(pub u8, pub u8, pub u8);

impl Default for Color {
    /// Black, the color a fresh framebuffer holds.
    fn default() -> (r: Color)
        ensures
            r == Color(0, 0, 0),
    {
        Color(0, 0, 0)
    }
}

impl Color {
    /// The color of a named preset.
    pub fn named(name: Palette) -> (r: Color)
        ensures
            r == name.rgb(),
    {
        name.to_color()
    }
}

/// The closed set of named color presets.
#[derive(Clone, Copy, Debug, PartialEq, Eq, Structural)]
pub enum Palette {
    // Basic colors
    Black,
    White,
    Red,
    Green,
    Blue,
    Cyan,
    Magenta,
    Yellow,

    // Pink colors
    MediumVioletRed,
    DeepPink,
    PaleVioletRed,
    HotPink,
    LightPink,
    Pink,

    // Red colors
    DarkRed,
    Firebrick,
    Crimson,
    IndianRed,
    LightCoral,
    Salmon,
    DarkSalmon,
    LightSalmon,

    // Orange colors
    OrangeRed,
    Tomato,
    DarkOrange,
    Coral,
    Orange,

    // Yellow colors
    DarkKhaki,
    Gold,
    Khaki,
    PeachPuff,
    PaleGoldenrod,
    Moccasin,
    PapayaWhip,
    LightGoldenrodYellow,
    LemonChiffon,
    LightYellow,

    // Brown colors
    Maroon,
    Brown,
    SaddleBrown,
    Sienna,
    Chocolate,
    DarkGoldenrod,
    Peru,
    RosyBrown,
    Goldenrod,
    SandyBrown,
    Tan,
    Burlywood,
    Wheat,
    NavajoWhite,
    Bisque,
    BlanchedAlmond,
    Cornsilk,

    // Green colors
    DarkGreen,
    DarkOliveGreen,
    ForestGreen,
    SeaGreen,
    Olive,
    OliveDrab,
    MediumSeaGreen,
    LimeGreen,
    Lime,
    SpringGreen,
    MediumSpringGreen,
    DarkSeaGreen,
    MediumAquamarine,
    YellowGreen,
    LawnGreen,
    Chartreuse,
    LightGreen,
    GreenYellow,
    PaleGreen,

    // Cyan colors
    Teal,
    DarkCyan,
    LightSeaGreen,
    CadetBlue,
    DarkTurquoise,
    MediumTurquoise,
    Turquoise,
    Aqua,
    Aquamarine,
    PaleTurquoise,
    LightCyan,

    // Blue colors
    Navy,
    DarkBlue,
    MediumBlue,
    MidnightBlue,
    RoyalBlue,
    SteelBlue,
    DodgerBlue,
    DeepSkyBlue,
    CornflowerBlue,
    SkyBlue,
    LightSkyBlue,
    LightSteelBlue,
    LightBlue,
    PowderBlue,

    // Purple, violet, and magenta colors
    Indigo,
    DarkMagenta,
    DarkViolet,
    DarkSlateBlue,
    BlueViolet,
    DarkOrchid,
    Fuchsia,
    SlateBlue,
    MediumSlateBlue,
    MediumOrchid,
    MediumPurple,
    Orchid,
    Violet,
    Plum,
    Thistle,
    Lavender,

    // White colors
    MistyRose,
    AntiqueWhite,
    Linen,
    Beige,
    WhiteSmoke,
    LavenderBlush,
    OldLace,
    AliceBlue,
    Seashell,
    GhostWhite,
    Honeydew,
    FloralWhite,
    Azure,
    MintCream,
    Snow,
    Ivory,

    // Gray and black colors
    DarkSlateGray,
    DimGray,
    SlateGray,
    Gray,
    LightSlateGray,
    DarkGray,
    Silver,
    LightGray,
    Gainsboro,
}

impl Palette {
    /// The byte triple of each preset.
    pub open spec fn rgb(self) -> Color {
        match self {
            Palette::Black => Color(0, 0, 0),
            Palette::White => Color(255, 255, 255),
            Palette::Red => Color(255, 0, 0),
            Palette::Green => Color(0, 255, 0),
            Palette::Blue => Color(0, 0, 255),
            Palette::Cyan => Color(0, 255, 255),
            Palette::Magenta => Color(255, 0, 255),
            Palette::Yellow => Color(255, 255, 0),
            Palette::MediumVioletRed => Color(199, 21, 133),
            Palette::DeepPink => Color(255, 20, 147),
            Palette::PaleVioletRed => Color(219, 112, 147),
            Palette::HotPink => Color(255, 105, 180),
            Palette::LightPink => Color(255, 182, 193),
            Palette::Pink => Color(255, 192, 203),
            Palette::DarkRed => Color(139, 0, 0),
            Palette::Firebrick => Color(178, 34, 34),
            Palette::Crimson => Color(220, 20, 60),
            Palette::IndianRed => Color(205, 92, 92),
            Palette::LightCoral => Color(240, 128, 128),
            Palette::Salmon => Color(250, 128, 114),
            Palette::DarkSalmon => Color(233, 150, 122),
            Palette::LightSalmon => Color(255, 160, 122),
            Palette::OrangeRed => Color(255, 69, 0),
            Palette::Tomato => Color(255, 99, 71),
            Palette::DarkOrange => Color(255, 140, 0),
            Palette::Coral => Color(255, 127, 80),
            Palette::Orange => Color(255, 165, 0),
            Palette::DarkKhaki => Color(189, 183, 107),
            Palette::Gold => Color(255, 215, 0),
            Palette::Khaki => Color(240, 230, 140),
            Palette::PeachPuff => Color(255, 218, 185),
            Palette::PaleGoldenrod => Color(238, 232, 170),
            Palette::Moccasin => Color(255, 228, 181),
            Palette::PapayaWhip => Color(255, 239, 213),
            Palette::LightGoldenrodYellow => Color(250, 250, 210),
            Palette::LemonChiffon => Color(255, 250, 205),
            Palette::LightYellow => Color(255, 255, 224),
            Palette::Maroon => Color(128, 0, 0),
            Palette::Brown => Color(165, 42, 42),
            Palette::SaddleBrown => Color(139, 69, 19),
            Palette::Sienna => Color(160, 82, 45),
            Palette::Chocolate => Color(210, 105, 30),
            Palette::DarkGoldenrod => Color(184, 134, 11),
            Palette::Peru => Color(205, 133, 63),
            Palette::RosyBrown => Color(188, 143, 143),
            Palette::Goldenrod => Color(218, 165, 32),
            Palette::SandyBrown => Color(244, 164, 96),
            Palette::Tan => Color(210, 180, 140),
            Palette::Burlywood => Color(222, 184, 135),
            Palette::Wheat => Color(245, 222, 179),
            Palette::NavajoWhite => Color(255, 222, 173),
            Palette::Bisque => Color(255, 228, 196),
            Palette::BlanchedAlmond => Color(255, 235, 205),
            Palette::Cornsilk => Color(255, 248, 220),
            Palette::DarkGreen => Color(0, 100, 0),
            Palette::DarkOliveGreen => Color(85, 107, 47),
            Palette::ForestGreen => Color(34, 139, 34),
            Palette::SeaGreen => Color(46, 139, 87),
            Palette::Olive => Color(128, 128, 0),
            Palette::OliveDrab => Color(107, 142, 35),
            Palette::MediumSeaGreen => Color(60, 179, 113),
            Palette::LimeGreen => Color(50, 205, 50),
            Palette::Lime => Color(0, 255, 0),
            Palette::SpringGreen => Color(0, 255, 127),
            Palette::MediumSpringGreen => Color(0, 250, 154),
            Palette::DarkSeaGreen => Color(143, 188, 143),
            Palette::MediumAquamarine => Color(102, 205, 170),
            Palette::YellowGreen => Color(154, 205, 50),
            Palette::LawnGreen => Color(124, 252, 0),
            Palette::Chartreuse => Color(127, 255, 0),
            Palette::LightGreen => Color(144, 238, 144),
            Palette::GreenYellow => Color(173, 255, 47),
            Palette::PaleGreen => Color(152, 251, 152),
            Palette::Teal => Color(0, 128, 128),
            Palette::DarkCyan => Color(0, 139, 139),
            Palette::LightSeaGreen => Color(32, 178, 170),
            Palette::CadetBlue => Color(95, 158, 160),
            Palette::DarkTurquoise => Color(0, 206, 209),
            Palette::MediumTurquoise => Color(72, 209, 204),
            Palette::Turquoise => Color(64, 224, 208),
            Palette::Aqua => Color(0, 255, 255),
            Palette::Aquamarine => Color(127, 255, 212),
            Palette::PaleTurquoise => Color(175, 238, 238),
            Palette::LightCyan => Color(224, 255, 255),
            Palette::Navy => Color(0, 0, 128),
            Palette::DarkBlue => Color(0, 0, 139),
            Palette::MediumBlue => Color(0, 0, 205),
            Palette::MidnightBlue => Color(25, 25, 112),
            Palette::RoyalBlue => Color(65, 105, 225),
            Palette::SteelBlue => Color(70, 130, 180),
            Palette::DodgerBlue => Color(30, 144, 255),
            Palette::DeepSkyBlue => Color(0, 191, 255),
            Palette::CornflowerBlue => Color(100, 149, 237),
            Palette::SkyBlue => Color(135, 206, 235),
            Palette::LightSkyBlue => Color(135, 206, 250),
            Palette::LightSteelBlue => Color(176, 196, 222),
            Palette::LightBlue => Color(173, 216, 230),
            Palette::PowderBlue => Color(176, 224, 230),
            Palette::Indigo => Color(75, 0, 130),
            Palette::DarkMagenta => Color(139, 0, 139),
            Palette::DarkViolet => Color(148, 0, 211),
            Palette::DarkSlateBlue => Color(72, 61, 139),
            Palette::BlueViolet => Color(138, 43, 226),
            Palette::DarkOrchid => Color(153, 50, 204),
            Palette::Fuchsia => Color(255, 0, 255),
            Palette::SlateBlue => Color(106, 90, 205),
            Palette::MediumSlateBlue => Color(123, 104, 238),
            Palette::MediumOrchid => Color(186, 85, 211),
            Palette::MediumPurple => Color(147, 112, 219),
            Palette::Orchid => Color(218, 112, 214),
            Palette::Violet => Color(238, 130, 238),
            Palette::Plum => Color(221, 160, 221),
            Palette::Thistle => Color(216, 191, 216),
            Palette::Lavender => Color(230, 230, 250),
            Palette::MistyRose => Color(255, 228, 225),
            Palette::AntiqueWhite => Color(250, 235, 215),
            Palette::Linen => Color(250, 240, 230),
            Palette::Beige => Color(245, 245, 220),
            Palette::WhiteSmoke => Color(245, 245, 245),
            Palette::LavenderBlush => Color(255, 240, 245),
            Palette::OldLace => Color(253, 245, 230),
            Palette::AliceBlue => Color(240, 248, 255),
            Palette::Seashell => Color(255, 245, 238),
            Palette::GhostWhite => Color(248, 248, 255),
            Palette::Honeydew => Color(240, 255, 240),
            Palette::FloralWhite => Color(255, 250, 240),
            Palette::Azure => Color(240, 255, 255),
            Palette::MintCream => Color(245, 255, 250),
            Palette::Snow => Color(255, 250, 250),
            Palette::Ivory => Color(255, 255, 240),
            Palette::DarkSlateGray => Color(47, 79, 79),
            Palette::DimGray => Color(105, 105, 105),
            Palette::SlateGray => Color(112, 128, 144),
            Palette::Gray => Color(128, 128, 128),
            Palette::LightSlateGray => Color(119, 136, 153),
            Palette::DarkGray => Color(169, 169, 169),
            Palette::Silver => Color(192, 192, 192),
            Palette::LightGray => Color(211, 211, 211),
            Palette::Gainsboro => Color(220, 220, 220),
        }
    }

    pub fn to_color(self) -> (r: Color)
        ensures
            r == self.rgb(),
    {
        match self {
            Palette::Black => Color(0, 0, 0),
            Palette::White => Color(255, 255, 255),
            Palette::Red => Color(255, 0, 0),
            Palette::Green => Color(0, 255, 0),
            Palette::Blue => Color(0, 0, 255),
            Palette::Cyan => Color(0, 255, 255),
            Palette::Magenta => Color(255, 0, 255),
            Palette::Yellow => Color(255, 255, 0),
            Palette::MediumVioletRed => Color(199, 21, 133),
            Palette::DeepPink => Color(255, 20, 147),
            Palette::PaleVioletRed => Color(219, 112, 147),
            Palette::HotPink => Color(255, 105, 180),
            Palette::LightPink => Color(255, 182, 193),
            Palette::Pink => Color(255, 192, 203),
            Palette::DarkRed => Color(139, 0, 0),
            Palette::Firebrick => Color(178, 34, 34),
            Palette::Crimson => Color(220, 20, 60),
            Palette::IndianRed => Color(205, 92, 92),
            Palette::LightCoral => Color(240, 128, 128),
            Palette::Salmon => Color(250, 128, 114),
            Palette::DarkSalmon => Color(233, 150, 122),
            Palette::LightSalmon => Color(255, 160, 122),
            Palette::OrangeRed => Color(255, 69, 0),
            Palette::Tomato => Color(255, 99, 71),
            Palette::DarkOrange => Color(255, 140, 0),
            Palette::Coral => Color(255, 127, 80),
            Palette::Orange => Color(255, 165, 0),
            Palette::DarkKhaki => Color(189, 183, 107),
            Palette::Gold => Color(255, 215, 0),
            Palette::Khaki => Color(240, 230, 140),
            Palette::PeachPuff => Color(255, 218, 185),
            Palette::PaleGoldenrod => Color(238, 232, 170),
            Palette::Moccasin => Color(255, 228, 181),
            Palette::PapayaWhip => Color(255, 239, 213),
            Palette::LightGoldenrodYellow => Color(250, 250, 210),
            Palette::LemonChiffon => Color(255, 250, 205),
            Palette::LightYellow => Color(255, 255, 224),
            Palette::Maroon => Color(128, 0, 0),
            Palette::Brown => Color(165, 42, 42),
            Palette::SaddleBrown => Color(139, 69, 19),
            Palette::Sienna => Color(160, 82, 45),
            Palette::Chocolate => Color(210, 105, 30),
            Palette::DarkGoldenrod => Color(184, 134, 11),
            Palette::Peru => Color(205, 133, 63),
            Palette::RosyBrown => Color(188, 143, 143),
            Palette::Goldenrod => Color(218, 165, 32),
            Palette::SandyBrown => Color(244, 164, 96),
            Palette::Tan => Color(210, 180, 140),
            Palette::Burlywood => Color(222, 184, 135),
            Palette::Wheat => Color(245, 222, 179),
            Palette::NavajoWhite => Color(255, 222, 173),
            Palette::Bisque => Color(255, 228, 196),
            Palette::BlanchedAlmond => Color(255, 235, 205),
            Palette::Cornsilk => Color(255, 248, 220),
            Palette::DarkGreen => Color(0, 100, 0),
            Palette::DarkOliveGreen => Color(85, 107, 47),
            Palette::ForestGreen => Color(34, 139, 34),
            Palette::SeaGreen => Color(46, 139, 87),
            Palette::Olive => Color(128, 128, 0),
            Palette::OliveDrab => Color(107, 142, 35),
            Palette::MediumSeaGreen => Color(60, 179, 113),
            Palette::LimeGreen => Color(50, 205, 50),
            Palette::Lime => Color(0, 255, 0),
            Palette::SpringGreen => Color(0, 255, 127),
            Palette::MediumSpringGreen => Color(0, 250, 154),
            Palette::DarkSeaGreen => Color(143, 188, 143),
            Palette::MediumAquamarine => Color(102, 205, 170),
            Palette::YellowGreen => Color(154, 205, 50),
            Palette::LawnGreen => Color(124, 252, 0),
            Palette::Chartreuse => Color(127, 255, 0),
            Palette::LightGreen => Color(144, 238, 144),
            Palette::GreenYellow => Color(173, 255, 47),
            Palette::PaleGreen => Color(152, 251, 152),
            Palette::Teal => Color(0, 128, 128),
            Palette::DarkCyan => Color(0, 139, 139),
            Palette::LightSeaGreen => Color(32, 178, 170),
            Palette::CadetBlue => Color(95, 158, 160),
            Palette::DarkTurquoise => Color(0, 206, 209),
            Palette::MediumTurquoise => Color(72, 209, 204),
            Palette::Turquoise => Color(64, 224, 208),
            Palette::Aqua => Color(0, 255, 255),
            Palette::Aquamarine => Color(127, 255, 212),
            Palette::PaleTurquoise => Color(175, 238, 238),
            Palette::LightCyan => Color(224, 255, 255),
            Palette::Navy => Color(0, 0, 128),
            Palette::DarkBlue => Color(0, 0, 139),
            Palette::MediumBlue => Color(0, 0, 205),
            Palette::MidnightBlue => Color(25, 25, 112),
            Palette::RoyalBlue => Color(65, 105, 225),
            Palette::SteelBlue => Color(70, 130, 180),
            Palette::DodgerBlue => Color(30, 144, 255),
            Palette::DeepSkyBlue => Color(0, 191, 255),
            Palette::CornflowerBlue => Color(100, 149, 237),
            Palette::SkyBlue => Color(135, 206, 235),
            Palette::LightSkyBlue => Color(135, 206, 250),
            Palette::LightSteelBlue => Color(176, 196, 222),
            Palette::LightBlue => Color(173, 216, 230),
            Palette::PowderBlue => Color(176, 224, 230),
            Palette::Indigo => Color(75, 0, 130),
            Palette::DarkMagenta => Color(139, 0, 139),
            Palette::DarkViolet => Color(148, 0, 211),
            Palette::DarkSlateBlue => Color(72, 61, 139),
            Palette::BlueViolet => Color(138, 43, 226),
            Palette::DarkOrchid => Color(153, 50, 204),
            Palette::Fuchsia => Color(255, 0, 255),
            Palette::SlateBlue => Color(106, 90, 205),
            Palette::MediumSlateBlue => Color(123, 104, 238),
            Palette::MediumOrchid => Color(186, 85, 211),
            Palette::MediumPurple => Color(147, 112, 219),
            Palette::Orchid => Color(218, 112, 214),
            Palette::Violet => Color(238, 130, 238),
            Palette::Plum => Color(221, 160, 221),
            Palette::Thistle => Color(216, 191, 216),
            Palette::Lavender => Color(230, 230, 250),
            Palette::MistyRose => Color(255, 228, 225),
            Palette::AntiqueWhite => Color(250, 235, 215),
            Palette::Linen => Color(250, 240, 230),
            Palette::Beige => Color(245, 245, 220),
            Palette::WhiteSmoke => Color(245, 245, 245),
            Palette::LavenderBlush => Color(255, 240, 245),
            Palette::OldLace => Color(253, 245, 230),
            Palette::AliceBlue => Color(240, 248, 255),
            Palette::Seashell => Color(255, 245, 238),
            Palette::GhostWhite => Color(248, 248, 255),
            Palette::Honeydew => Color(240, 255, 240),
            Palette::FloralWhite => Color(255, 250, 240),
            Palette::Azure => Color(240, 255, 255),
            Palette::MintCream => Color(245, 255, 250),
            Palette::Snow => Color(255, 250, 250),
            Palette::Ivory => Color(255, 255, 240),
            Palette::DarkSlateGray => Color(47, 79, 79),
            Palette::DimGray => Color(105, 105, 105),
            Palette::SlateGray => Color(112, 128, 144),
            Palette::Gray => Color(128, 128, 128),
            Palette::LightSlateGray => Color(119, 136, 153),
            Palette::DarkGray => Color(169, 169, 169),
            Palette::Silver => Color(192, 192, 192),
            Palette::LightGray => Color(211, 211, 211),
            Palette::Gainsboro => Color(220, 220, 220),
        }
    }
}

} // verus!
