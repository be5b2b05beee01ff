//! The colours of the instrument.
//!
//! One rule holds: containers are grey, and colour belongs to measured
//! channels. The tokens stand here so that no widget reintroduces decorative
//! colours of its own.
use vstd::prelude::*;

verus! {

/// A colour: red, green, blue and opacity, a byte each, from the highest byte
/// down. The opacity is not multiplied in.
pub type Color = u32;

pub const BACKPLANE: Color = 0x0D1117FF;

pub const PANEL: Color = 0x161B22FF;

pub const PANEL_RAISED: Color = 0x1C2128FF;

pub const DIVIDER: Color = 0x30363DFF;

pub const TEXT_PRIMARY: Color = 0xE6EDF3FF;

pub const TEXT_SECONDARY: Color = 0x9198A1FF;

pub const TEXT_MUTED: Color = 0x6E7681FF;

pub const VOLTAGE: Color = 0x58A6FFFF;

pub const CURRENT: Color = 0x3FB950FF;

pub const POWER: Color = 0xD29922FF;

pub const ENERGY: Color = 0xF76EB6FF;

pub const CAPACITY: Color = 0xA37AF2FF;

pub const RECORDING: Color = 0xF85149FF;

/// The colour of extended protocol messages.
pub const EXTENDED: Color = 0xC67AD9FF;

/// A look of the whole interface.
#[derive(Debug, Clone, Copy, PartialEq, Eq, Structural)]
pub enum SkinId {
    Industrial,
    CleanAnime,
}

impl Default for SkinId {
    fn default() -> (skin: SkinId)
        ensures
            skin == SkinId::Industrial,
    {
        SkinId::Industrial
    }
}

/// Container and text colours of a skin. The colours of measured channels are
/// no part of it: they keep their meaning when the skin changes.
#[derive(Debug, Clone, Copy, PartialEq, Eq, Structural)]
pub struct SkinPalette {
    pub backplane: Color,
    pub panel: Color,
    pub panel_raised: Color,
    pub divider: Color,
    pub text_primary: Color,
    pub text_secondary: Color,
    pub text_muted: Color,
    pub accent: Color,
    pub accent_soft: Color,
    pub hovered: Color,
    pub active: Color,
    /// How opaque the picture behind the window is; zero for none.
    pub wallpaper_alpha: u8,
    /// The dark veil above the picture.
    pub wallpaper_overlay: Color,
}

/// The colours of `skin`.
pub open spec fn skin_colors(skin: SkinId) -> SkinPalette {
    match skin {
        SkinId::Industrial => SkinPalette {
            backplane: BACKPLANE,
            panel: PANEL,
            panel_raised: PANEL_RAISED,
            divider: DIVIDER,
            text_primary: TEXT_PRIMARY,
            text_secondary: TEXT_SECONDARY,
            text_muted: TEXT_MUTED,
            accent: VOLTAGE,
            accent_soft: TEXT_SECONDARY,
            hovered: 0x242A32FF,
            active: 0x2A3038FF,
            wallpaper_alpha: 0,
            wallpaper_overlay: 0x00000000,
        },
        SkinId::CleanAnime => SkinPalette {
            backplane: 0x0F152290,
            panel: 0x172130B8,
            panel_raised: 0x202C3DD8,
            divider: 0x3A4A60E0,
            text_primary: 0xEFF6FFFF,
            text_secondary: 0xAFC1D9FF,
            text_muted: 0x7789A3FF,
            accent: 0x78D9FFFF,
            accent_soft: 0xB7A7FFFF,
            hovered: 0x283A52FF,
            active: 0x314666FF,
            wallpaper_alpha: 225,
            wallpaper_overlay: 0x070C1658,
        },
    }
}

impl SkinPalette {
    /// The colours of `skin`.
    pub fn for_skin(skin: SkinId) -> (palette: SkinPalette)
        ensures
            palette == skin_colors(skin),
    {
        match skin {
            SkinId::Industrial => SkinPalette {
                backplane: BACKPLANE,
                panel: PANEL,
                panel_raised: PANEL_RAISED,
                divider: DIVIDER,
                text_primary: TEXT_PRIMARY,
                text_secondary: TEXT_SECONDARY,
                text_muted: TEXT_MUTED,
                accent: VOLTAGE,
                accent_soft: TEXT_SECONDARY,
                hovered: 0x242A32FF,
                active: 0x2A3038FF,
                wallpaper_alpha: 0,
                wallpaper_overlay: 0x00000000,
            },
            SkinId::CleanAnime => SkinPalette {
                backplane: 0x0F152290,
                panel: 0x172130B8,
                panel_raised: 0x202C3DD8,
                divider: 0x3A4A60E0,
                text_primary: 0xEFF6FFFF,
                text_secondary: 0xAFC1D9FF,
                text_muted: 0x7789A3FF,
                accent: 0x78D9FFFF,
                accent_soft: 0xB7A7FFFF,
                hovered: 0x283A52FF,
                active: 0x314666FF,
                wallpaper_alpha: 225,
                wallpaper_overlay: 0x070C1658,
            },
        }
    }
}

} // verus!
