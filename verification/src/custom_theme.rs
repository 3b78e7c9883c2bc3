//! The colours of the board's buttons and the rule that picks one for a
//! button's status. Colours are kept as whole numbers: the three channels in
//! 0..=255 and the opacity in hundredths.

use vstd::prelude::*;

verus! {

/// A colour: red, green and blue in 0..=255, opacity in hundredths (100 is
/// opaque).
#[derive(Clone, Copy, Debug, PartialEq, Eq, Structural)]
pub struct Rgba {
    pub r: u8,
    pub g: u8,
    pub b: u8,
    pub alpha_percent: u8,
}

/// What the pointer does to a button.
#[derive(Clone, Copy, Debug, PartialEq, Eq, Structural)]
pub enum ButtonStatus {
    Active,
    Hovered,
    Pressed,
    Disabled,
}

/// How a button of the board is drawn: its background. The text colour,
/// the border and the shadow are the toolkit's defaults, with square corners.
#[derive(Clone, Copy, Debug, PartialEq, Eq, Structural)]
pub struct ButtonStyle {
    pub background: Rgba,
}

/// The three shades a tile's button can have.
#[derive(Clone, Copy, Debug, PartialEq, Eq, Structural)]
pub enum Shade {
    Highlighted,
    Bright,
    Dark,
}

pub open spec fn rgba(r: u8, g: u8, b: u8, alpha_percent: u8) -> Rgba {
    Rgba { r, g, b, alpha_percent }
}

pub struct ChessColor;

impl ChessColor {
    pub fn highlight_bt_active() -> (c: Rgba)
        ensures
            c == rgba(0xFF, 0xFF, 0x00, 100),
    {
        Rgba { r: 0xFF, g: 0xFF, b: 0x00, alpha_percent: 100 }
    }

    pub fn highlight_bt_hovered() -> (c: Rgba)
        ensures
            c == rgba(0xcc, 0xc0, 0xb4, 60),
    {
        Rgba { r: 0xcc, g: 0xc0, b: 0xb4, alpha_percent: 60 }
    }

    pub fn dark_bt_active() -> (c: Rgba)
        ensures
            c == rgba(0xb6, 0x87, 0x6b, 100),
    {
        Rgba { r: 0xb6, g: 0x87, b: 0x6b, alpha_percent: 100 }
    }

    pub fn dark_bt_hovered() -> (c: Rgba)
        ensures
            c == rgba(0xb6, 0x87, 0x6b, 60),
    {
        Rgba { r: 0xb6, g: 0x87, b: 0x6b, alpha_percent: 60 }
    }

    pub fn bright_bt_active() -> (c: Rgba)
        ensures
            c == rgba(0xf4, 0xdf, 0xc1, 100),
    {
        Rgba { r: 0xf4, g: 0xdf, b: 0xc1, alpha_percent: 100 }
    }

    pub fn bright_bt_hovered() -> (c: Rgba)
        ensures
            c == rgba(0xf4, 0xdf, 0xc1, 60),
    {
        Rgba { r: 0xf4, g: 0xdf, b: 0xc1, alpha_percent: 60 }
    }
}

/// The background of a button of shade `shade` in status `status`: the
/// hovered colour of the shade while the pointer is over the button, its
/// active colour in every other status.
pub open spec fn background_of(shade: Shade, status: ButtonStatus) -> Rgba {
    match (shade, status) {
        (Shade::Highlighted, ButtonStatus::Hovered) => rgba(0xcc, 0xc0, 0xb4, 60),
        (Shade::Highlighted, _) => rgba(0xFF, 0xFF, 0x00, 100),
        (Shade::Dark, ButtonStatus::Hovered) => rgba(0xb6, 0x87, 0x6b, 60),
        (Shade::Dark, _) => rgba(0xb6, 0x87, 0x6b, 100),
        (Shade::Bright, ButtonStatus::Hovered) => rgba(0xf4, 0xdf, 0xc1, 60),
        (Shade::Bright, _) => rgba(0xf4, 0xdf, 0xc1, 100),
    }
}

/// The shade of the tile in row `h` and column `w`: highlighted if the tile
/// is, else bright where row and column have the same parity, dark elsewhere.
pub open spec fn shade_of(high_light: bool, h: usize, w: usize) -> Shade {
    if high_light {
        Shade::Highlighted
    } else if h % 2 == w % 2 {
        Shade::Bright
    } else {
        Shade::Dark
    }
}

pub struct ChessStyle;

impl ChessStyle {
    pub fn hightlighted_button_wrapper(status: ButtonStatus) -> (style: ButtonStyle)
        ensures
            style.background == background_of(Shade::Highlighted, status),
    {
        ButtonStyle {
            background: match status {
                ButtonStatus::Active => ChessColor::highlight_bt_active(),
                ButtonStatus::Hovered => ChessColor::highlight_bt_hovered(),
                _ => ChessColor::highlight_bt_active(),
            },
        }
    }

    pub fn dark_button_wrapper(status: ButtonStatus) -> (style: ButtonStyle)
        ensures
            style.background == background_of(Shade::Dark, status),
    {
        ButtonStyle {
            background: match status {
                ButtonStatus::Active => ChessColor::dark_bt_active(),
                ButtonStatus::Hovered => ChessColor::dark_bt_hovered(),
                _ => ChessColor::dark_bt_active(),
            },
        }
    }

    pub fn bright_button_wrapper(status: ButtonStatus) -> (style: ButtonStyle)
        ensures
            style.background == background_of(Shade::Bright, status),
    {
        ButtonStyle {
            background: match status {
                ButtonStatus::Active => ChessColor::bright_bt_active(),
                ButtonStatus::Hovered => ChessColor::bright_bt_hovered(),
                _ => ChessColor::bright_bt_active(),
            },
        }
    }

    /// The shade of the tile in row `h` and column `w`.
    pub fn tile_shade(high_light: bool, h: usize, w: usize) -> (shade: Shade)
        ensures
            shade == shade_of(high_light, h, w),
    {
        if high_light {
            Shade::Highlighted
        } else if h % 2 == w % 2 {
            Shade::Bright
        } else {
            Shade::Dark
        }
    }

    /// The style of a button of shade `shade` in status `status`.
    pub fn button_wrapper(shade: Shade, status: ButtonStatus) -> (style: ButtonStyle)
        ensures
            style.background == background_of(shade, status),
    {
        match shade {
            Shade::Highlighted => ChessStyle::hightlighted_button_wrapper(status),
            Shade::Bright => ChessStyle::bright_button_wrapper(status),
            Shade::Dark => ChessStyle::dark_button_wrapper(status),
        }
    }
}

} // verus!
