//! Colours, chip skins and the "unavailable" placeholder kinds the pages use.
use vstd::prelude::*;

verus! {

/// An RGB colour.
#[derive(Clone, Copy, Debug, PartialEq, Eq, Structural)]
pub struct Color {
    pub r: u8,
    pub g: u8,
    pub b: u8,
}

/// The colour `#rrggbb` built from its three components.
pub open spec fn rgb(r: u8, g: u8, b: u8) -> Color {
    Color { r, g, b }
}

/// The named semantic colours.
pub struct Palette;

impl Palette {
    /// Danger red `#FF6B6B`.
    pub fn danger() -> (c: Color)
        ensures
            c == rgb(0xFF, 0x6B, 0x6B),
    {
        Color { r: 0xFF, g: 0x6B, b: 0x6B }
    }

    /// Success green `#2FDB8A`.
    pub fn ok() -> (c: Color)
        ensures
            c == rgb(0x2F, 0xDB, 0x8A),
    {
        Color { r: 0x2F, g: 0xDB, b: 0x8A }
    }

    /// Neutral grey for unknown / unavailable `#8C98AC`.
    pub fn stopped() -> (c: Color)
        ensures
            c == rgb(0x8C, 0x98, 0xAC),
    {
        Color { r: 0x8C, g: 0x98, b: 0xAC }
    }

    /// Fault-lamp red `#DC3545`.
    pub fn link_down() -> (c: Color)
        ensures
            c == rgb(0xDC, 0x35, 0x45),
    {
        Color { r: 0xDC, g: 0x35, b: 0x45 }
    }

    /// Run-lamp green `#28A745`.
    pub fn link_ok() -> (c: Color)
        ensures
            c == rgb(0x28, 0xA7, 0x45),
    {
        Color { r: 0x28, g: 0xA7, b: 0x45 }
    }

    /// Lamp-off grey `#5F6368`.
    pub fn link_unconfigured() -> (c: Color)
        ensures
            c == rgb(0x5F, 0x63, 0x68),
    {
        Color { r: 0x5F, g: 0x63, b: 0x68 }
    }

    /// Background of the audit "append only" banner `#14231F`.
    pub fn audit_bg() -> (c: Color)
        ensures
            c == rgb(0x14, 0x23, 0x1F),
    {
        Color { r: 0x14, g: 0x23, b: 0x1F }
    }

    /// Accent bar of audit rows and the audit banner `#35D0C4`.
    pub fn soc_ok() -> (c: Color)
        ensures
            c == rgb(0x35, 0xD0, 0xC4),
    {
        Color { r: 0x35, g: 0xD0, b: 0xC4 }
    }
}

/// The chip skins (background + text colour pairs) a status chip can wear.
#[derive(Clone, Copy, Debug, PartialEq, Eq, Structural)]
pub enum ChipSkin {
    /// Amber warning (`#3A2E12` on `#FFD75E`).
    Warning,
    /// Neutral (`#1B2942` on `#A6B6D6`).
    Neutral,
    /// Grey "state cannot be known".
    Unavailable,
    /// Green success.
    Success,
    /// Red failure.
    Failure,
}

/// The kinds of "this cannot be known" placeholder shown in place of data.
#[derive(Clone, Copy, Debug, PartialEq, Eq, Structural)]
pub enum UnavailableKind {
    /// The interlock state source is unavailable.
    Interlock,
    /// The audit store is unavailable.
    Audit,
}

pub const TEXT_INTERLOCK_UNAVAILABLE: &'static str = "联锁状态不可用";

pub const TEXT_AUDIT_UNAVAILABLE_TITLE: &'static str = "审计记录不可用";

pub const ICON_UNAVAILABLE: &'static str = "?";

impl UnavailableKind {
    /// The placeholder title.
    pub fn title(self) -> (r: &'static str)
        ensures
            r@ == (match self {
                UnavailableKind::Interlock => TEXT_INTERLOCK_UNAVAILABLE@,
                UnavailableKind::Audit => TEXT_AUDIT_UNAVAILABLE_TITLE@,
            }),
    {
        match self {
            UnavailableKind::Interlock => TEXT_INTERLOCK_UNAVAILABLE,
            UnavailableKind::Audit => TEXT_AUDIT_UNAVAILABLE_TITLE,
        }
    }

    /// The placeholder icon: a question mark, never a tick or a warning sign.
    pub fn icon(self) -> (r: &'static str)
        ensures
            r@ == ICON_UNAVAILABLE@,
    {
        ICON_UNAVAILABLE
    }

    /// The placeholder accent colour (neutral grey).
    pub fn accent(self) -> (c: Color)
        ensures
            c == rgb(0x8C, 0x98, 0xAC),
    {
        Palette::stopped()
    }

    /// Whether the placeholder means "nothing happened": it never does —
    /// "unknown" is not "empty".
    pub fn means_nothing_happened(self) -> (r: bool)
        ensures
            !r,
    {
        false
    }
}

/// The palette entries by name, where a decision picks an entry rather than
/// a value.
#[derive(Clone, Copy, Debug, PartialEq, Eq, Structural)]
pub enum Swatch {
    /// Success green.
    Green,
    /// Amber of stale or warning states.
    Stale,
    /// Danger red.
    Danger,
    /// Neutral grey of a stopped device.
    Stopped,
    /// Weak note text.
    TextWeak,
    /// Secondary text.
    TextSecond,
    /// Background of the audit banner.
    AuditBg,
    /// Background of warning banners.
    WarnBg,
    /// Background of danger banners.
    DangerBg,
    /// Alternate card surface.
    SurfaceAlt,
    /// Card surface.
    Surface,
    /// Page background.
    Bg,
    /// Primary text.
    TextPrimary,
    /// Lit indicator of an active bit.
    LinkOk,
    /// Unlit indicator of an inactive bit.
    LinkUnconfigured,
}

} // verus!
