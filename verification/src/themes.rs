//! Visual themes: the built-in presets, their names, and the accent colour
//! of each system.
use vstd::prelude::*;

use crate::text::{lower_string, str_eq};

verus! {

/// A built-in theme preset.
#[derive(Debug, Clone, Copy, PartialEq, Eq)]
pub enum ThemeId {
    DefaultDark,
    Neon,
    Minimal,
}

impl Default for ThemeId {
    fn default() -> (r: Self)
        ensures
            r == ThemeId::DefaultDark,
    {
        ThemeId::DefaultDark
    }
}

/// The name shown for a preset.
pub open spec fn theme_label(t: ThemeId) -> Seq<char> {
    match t {
        ThemeId::DefaultDark => "Escuro (Steam-like)"@,
        ThemeId::Neon => "Neon"@,
        ThemeId::Minimal => "Minimal"@,
    }
}

impl ThemeId {
    /// Every preset, in menu order.
    pub fn all() -> (r: [ThemeId; 3])
        ensures
            r@ == seq![ThemeId::DefaultDark, ThemeId::Neon, ThemeId::Minimal],
    {
        let r = [ThemeId::DefaultDark, ThemeId::Neon, ThemeId::Minimal];
        assert(r@ =~= seq![ThemeId::DefaultDark, ThemeId::Neon, ThemeId::Minimal]);
        r
    }

    /// The name shown for this preset.
    pub fn label(self) -> (r: &'static str)
        ensures
            r@ == theme_label(self),
    {
        match self {
            ThemeId::DefaultDark => "Escuro (Steam-like)",
            ThemeId::Neon => "Neon",
            ThemeId::Minimal => "Minimal",
        }
    }
}

/// Where custom themes will be read from.
pub fn user_theme_dir_hint() -> (r: &'static str)
    ensures
        r@ == "Coloque temas custom no diretório de dados da app (futuro)."@,
{
    "Coloque temas custom no diretório de dados da app (futuro)."
}

/// The hash of a system key's bytes used to derive a colour for unknown
/// systems (`h = h * 31 + b`, wrapping).
pub open spec fn key_hash(bytes: Seq<u8>) -> u32
    decreases bytes.len(),
{
    if bytes.len() == 0 {
        0
    } else {
        key_hash(bytes.drop_last()).wrapping_mul(31).wrapping_add(bytes.last() as u32)
    }
}

/// The colour derived from a hash: each channel in a fixed band.
pub open spec fn hashed_rgb(n: u32) -> (u8, u8, u8) {
    ((90 + n % 110) as u8, (110 + (n >> 7) % 90) as u8, (130 + (n >> 14) % 90) as u8)
}

/// The accent colour of a (lower-cased) system key.
pub open spec fn accent_of(key: Seq<char>) -> (u8, u8, u8) {
    if key == "nes"@ {
        (220, 58, 58)
    } else if key == "snes"@ {
        (140, 90, 220)
    } else if key == "gba"@ {
        (80, 120, 255)
    } else if key == "gb"@ || key == "gbc"@ {
        (90, 160, 90)
    } else if key == "genesis"@ || key == "mastersystem"@ || key == "gamegear"@ || key == "segacd"@
        || key == "sega32x"@ || key == "sg1000"@ {
        (80, 200, 120)
    } else if key == "n64"@ {
        (40, 120, 255)
    } else if key == "nds"@ {
        (60, 140, 220)
    } else if key == "psx"@ || key == "psp"@ || key == "ps2"@ {
        (180, 180, 220)
    } else if key == "dreamcast"@ || key == "saturn"@ {
        (255, 140, 80)
    } else if key == "arcade"@ || key == "neogeo"@ || key == "fbneo"@ {
        (220, 100, 60)
    } else if key == "gamecube"@ || key == "wii"@ {
        (100, 160, 255)
    } else if key == "pce"@ || key == "supergrafx"@ || key == "pcfx"@ {
        (200, 80, 140)
    } else {
        hashed_rgb(key_hash(crate::text::utf8_bytes(key)))
    }
}

fn hash_bytes(bytes: &[u8]) -> (n: u32)
    ensures
        n == key_hash(bytes@),
{
    let mut n: u32 = 0;
    for i in 0..bytes.len()
        invariant
            n == key_hash(bytes@.take(i as int)),
    {
        assert(bytes@.take(i + 1).drop_last() == bytes@.take(i as int));
        n = n.wrapping_mul(31).wrapping_add(bytes[i] as u32);
    }
    assert(bytes@.take(bytes@.len() as int) == bytes@);
    n
}

/// The accent colour (red, green, blue) of a system: a fixed colour for the
/// well-known platforms (keys compared after ASCII lower-casing), otherwise
/// one derived from a hash of the lower-cased key.
pub fn accent_rgb_for_system(system_key: &str) -> (r: (u8, u8, u8))
    ensures
        r == accent_of(crate::text::lower(system_key@)),
{
    let key = lower_string(system_key);
    let k = key.as_str();
    if str_eq(k, "nes") {
        (220, 58, 58)
    } else if str_eq(k, "snes") {
        (140, 90, 220)
    } else if str_eq(k, "gba") {
        (80, 120, 255)
    } else if str_eq(k, "gb") || str_eq(k, "gbc") {
        (90, 160, 90)
    } else if str_eq(k, "genesis") || str_eq(k, "mastersystem") || str_eq(k, "gamegear") || str_eq(
        k,
        "segacd",
    ) || str_eq(k, "sega32x") || str_eq(k, "sg1000") {
        (80, 200, 120)
    } else if str_eq(k, "n64") {
        (40, 120, 255)
    } else if str_eq(k, "nds") {
        (60, 140, 220)
    } else if str_eq(k, "psx") || str_eq(k, "psp") || str_eq(k, "ps2") {
        (180, 180, 220)
    } else if str_eq(k, "dreamcast") || str_eq(k, "saturn") {
        (255, 140, 80)
    } else if str_eq(k, "arcade") || str_eq(k, "neogeo") || str_eq(k, "fbneo") {
        (220, 100, 60)
    } else if str_eq(k, "gamecube") || str_eq(k, "wii") {
        (100, 160, 255)
    } else if str_eq(k, "pce") || str_eq(k, "supergrafx") || str_eq(k, "pcfx") {
        (200, 80, 140)
    } else {
        let n = hash_bytes(k.as_bytes());
        ((90 + n % 110) as u8, (110 + (n >> 7) % 90) as u8, (130 + (n >> 14) % 90) as u8)
    }
}

} // verus!
