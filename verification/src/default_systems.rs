//! The table of Libretro systems used to seed a configuration: one core per
//! platform and the file extensions it accepts. Keys name the sub-folders
//! `ROMs/<key>/` and `BIOS/<key>/`.
use vstd::prelude::*;

use crate::config::{entry_views, keys_distinct, system_keys, SystemConfig, SystemView};
use crate::order::{lemma_lex_antisym, lemma_lex_refl, lemma_lex_trans, lex_le};
use crate::paths::views;

verus! {

/// The views of a list of string slices.
pub open spec fn str_views(v: Seq<&str>) -> Seq<Seq<char>> {
    v.map_values(|s: &str| s@)
}

/// Owned copies of a list of string slices.
pub fn owned_strings(xs: &[&str]) -> (r: Vec<String>)
    ensures
        views(r@) == str_views(xs@),
{
    let mut out: Vec<String> = Vec::new();
    for i in 0..xs.len()
        invariant
            views(out@) == str_views(xs@.take(i as int)),
    {
        out.push(xs[i].to_owned());
        assert(str_views(xs@.take(i + 1)) == str_views(xs@.take(i as int)).push(xs@[i as int]@));
        assert(views(out@) =~= str_views(xs@.take(i as int)).push(xs@[i as int]@));
    }
    assert(xs@.take(xs@.len() as int) == xs@);
    out
}

/// A system with core `core`, the extensions `exts` and no extra arguments.
pub fn s(core: &str, exts: &[&str]) -> (r: SystemConfig)
    ensures
        r@ == (SystemView { default_core: core@, accepted_extensions: str_views(exts@), extra_args: seq![] }),
{
    let r = SystemConfig {
        default_core: core.to_owned(),
        accepted_extensions: owned_strings(exts),
        extra_args: Vec::new(),
    };
    assert(views(r.extra_args@) =~= Seq::<Seq<char>>::empty());
    r
}

} // verus!

verus! {

/// The default Libretro systems, as (key, core, extensions) rows, by key.
pub open spec fn default_system_table() -> Seq<(Seq<char>, SystemView)> {
    seq![
        ("3do"@, SystemView { default_core: "4do_libretro.so"@, accepted_extensions: seq!["iso"@, "bin"@, "chd"@], extra_args: seq![] }),
        ("3ds"@, SystemView { default_core: "citra_libretro.so"@, accepted_extensions: seq!["3ds"@, "cci"@, "cxi"@, "app"@, "axf"@], extra_args: seq![] }),
        ("amstrad"@, SystemView { default_core: "caprice32_libretro.so"@, accepted_extensions: seq!["dsk"@, "sna"@, "cpr"@, "kcr"@], extra_args: seq![] }),
        ("apple2"@, SystemView { default_core: "linapple_libretro.so"@, accepted_extensions: seq!["dsk"@, "do"@, "po"@, "nib"@, "hdv"@], extra_args: seq![] }),
        ("arcade"@, SystemView { default_core: "mame2003_plus_libretro.so"@, accepted_extensions: seq!["zip"@], extra_args: seq![] }),
        ("atari2600"@, SystemView { default_core: "stella_libretro.so"@, accepted_extensions: seq!["a26"@, "bin"@], extra_args: seq![] }),
        ("atari5200"@, SystemView { default_core: "atari800_libretro.so"@, accepted_extensions: seq!["a52"@, "bin"@, "car"@, "rom"@, "xfd"@], extra_args: seq![] }),
        ("atari7800"@, SystemView { default_core: "prosystem_libretro.so"@, accepted_extensions: seq!["a78"@, "bin"@], extra_args: seq![] }),
        ("atari800"@, SystemView { default_core: "atari800_libretro.so"@, accepted_extensions: seq!["atr"@, "xfd"@, "bin"@, "cas"@, "com"@], extra_args: seq![] }),
        ("atari_st"@, SystemView { default_core: "hatari_libretro.so"@, accepted_extensions: seq!["st"@, "msa"@, "stx"@, "dim"@, "ipf"@], extra_args: seq![] }),
        ("c128"@, SystemView { default_core: "vice_x128_libretro.so"@, accepted_extensions: seq!["d64"@, "t64"@, "tap"@, "prg"@, "crt"@], extra_args: seq![] }),
        ("c64"@, SystemView { default_core: "vice_x64_libretro.so"@, accepted_extensions: seq!["d64"@, "t64"@, "tap"@, "prg"@, "p00"@, "crt"@], extra_args: seq![] }),
        ("coleco"@, SystemView { default_core: "bluemsx_libretro.so"@, accepted_extensions: seq!["col"@, "cv"@, "rom"@], extra_args: seq![] }),
        ("dos"@, SystemView { default_core: "dosbox_pure_libretro.so"@, accepted_extensions: seq!["com"@, "exe"@, "bat"@, "conf"@], extra_args: seq![] }),
        ("dreamcast"@, SystemView { default_core: "flycast_libretro.so"@, accepted_extensions: seq!["gdi"@, "cdi"@, "chd"@, "cue"@, "bin"@], extra_args: seq![] }),
        ("easyrpg"@, SystemView { default_core: "easyrpg_libretro.so"@, accepted_extensions: seq!["ldb"@, "ini"@, "zip"@], extra_args: seq![] }),
        ("gamecube"@, SystemView { default_core: "dolphin_libretro.so"@, accepted_extensions: seq!["iso"@, "gcm"@, "gcz"@, "dol"@, "tgc"@], extra_args: seq![] }),
        ("gamegear"@, SystemView { default_core: "genesis_plus_gx_libretro.so"@, accepted_extensions: seq!["gg"@, "bin"@], extra_args: seq![] }),
        ("gb"@, SystemView { default_core: "gambatte_libretro.so"@, accepted_extensions: seq!["gb"@, "sgb"@], extra_args: seq![] }),
        ("gba"@, SystemView { default_core: "mgba_libretro.so"@, accepted_extensions: seq!["gba"@, "agb"@], extra_args: seq![] }),
        ("gbc"@, SystemView { default_core: "gambatte_libretro.so"@, accepted_extensions: seq!["gbc"@], extra_args: seq![] }),
        ("genesis"@, SystemView { default_core: "genesis_plus_gx_libretro.so"@, accepted_extensions: seq!["md"@, "smd"@, "gen"@, "cue"@, "iso"@], extra_args: seq![] }),
        ("gw"@, SystemView { default_core: "gw_libretro.so"@, accepted_extensions: seq!["mgw"@], extra_args: seq![] }),
        ("intellivision"@, SystemView { default_core: "freeintv_libretro.so"@, accepted_extensions: seq!["int"@, "rom"@, "bin"@], extra_args: seq![] }),
        ("jaguar"@, SystemView { default_core: "virtualjaguar_libretro.so"@, accepted_extensions: seq!["j64"@, "abs"@, "cof"@, "rom"@, "bin"@], extra_args: seq![] }),
        ("lynx"@, SystemView { default_core: "handy_libretro.so"@, accepted_extensions: seq!["lnx"@, "lyx"@], extra_args: seq![] }),
        ("mastersystem"@, SystemView { default_core: "genesis_plus_gx_libretro.so"@, accepted_extensions: seq!["sms"@, "ms"@], extra_args: seq![] }),
        ("msx"@, SystemView { default_core: "bluemsx_libretro.so"@, accepted_extensions: seq!["rom"@, "mx1"@, "mx2"@, "dsk"@, "cas"@, "sc"@], extra_args: seq![] }),
        ("n64"@, SystemView { default_core: "mupen64plus_next_libretro.so"@, accepted_extensions: seq!["n64"@, "z64"@, "v64"@, "ndd"@, "u64"@], extra_args: seq![] }),
        ("nds"@, SystemView { default_core: "melonds_libretro.so"@, accepted_extensions: seq!["nds"@], extra_args: seq![] }),
        ("neogeo"@, SystemView { default_core: "fbneo_libretro.so"@, accepted_extensions: seq!["neo"@, "zip"@, "7z"@], extra_args: seq![] }),
        ("nes"@, SystemView { default_core: "nestopia_libretro.so"@, accepted_extensions: seq!["nes"@, "fds"@, "unf"@, "unif"@], extra_args: seq![] }),
        ("ngp"@, SystemView { default_core: "mednafen_ngp_libretro.so"@, accepted_extensions: seq!["ngp"@, "ngc"@], extra_args: seq![] }),
        ("odyssey2"@, SystemView { default_core: "o2em_libretro.so"@, accepted_extensions: seq!["o2"@], extra_args: seq![] }),
        ("pc98"@, SystemView { default_core: "nekop2_libretro.so"@, accepted_extensions: seq!["d88"@, "hdm"@, "fdi"@, "fdd"@, "n88"@, "98d"@], extra_args: seq![] }),
        ("pce"@, SystemView { default_core: "beetle_pce_fast_libretro.so"@, accepted_extensions: seq!["pce"@, "cue"@, "ccd"@, "iso"@, "chd"@], extra_args: seq![] }),
        ("pcfx"@, SystemView { default_core: "beetle_pcfx_libretro.so"@, accepted_extensions: seq!["cue"@, "ccd"@, "toc"@, "chd"@, "iso"@], extra_args: seq![] }),
        ("pet"@, SystemView { default_core: "vice_xpet_libretro.so"@, accepted_extensions: seq!["prg"@, "tap"@, "d64"@, "t64"@], extra_args: seq![] }),
        ("pokemon_mini"@, SystemView { default_core: "pokemini_libretro.so"@, accepted_extensions: seq!["minc"@], extra_args: seq![] }),
        ("prboom"@, SystemView { default_core: "prboom_libretro.so"@, accepted_extensions: seq!["wad"@, "iwad"@, "pwad"@], extra_args: seq![] }),
        ("ps2"@, SystemView { default_core: "play_libretro.so"@, accepted_extensions: seq!["iso"@, "chd"@, "bin"@, "mdf"@], extra_args: seq![] }),
        ("psp"@, SystemView { default_core: "ppsspp_libretro.so"@, accepted_extensions: seq!["iso"@, "cso"@, "pbp"@, "elf"@], extra_args: seq![] }),
        ("psx"@, SystemView { default_core: "pcsx_rearmed_libretro.so"@, accepted_extensions: seq!["cue"@, "bin"@, "img"@, "mdf"@, "pbp"@, "chd"@, "ecm"@, "m3u"@], extra_args: seq![] }),
        ("quake"@, SystemView { default_core: "tyrquake_libretro.so"@, accepted_extensions: seq!["pak"@, "pk3"@], extra_args: seq![] }),
        ("saturn"@, SystemView { default_core: "beetle_saturn_libretro.so"@, accepted_extensions: seq!["cue"@, "chd"@, "iso"@, "mds"@, "ccd"@, "m3u"@], extra_args: seq![] }),
        ("scummvm"@, SystemView { default_core: "scummvm_libretro.so"@, accepted_extensions: seq!["svm"@, "scummvm"@], extra_args: seq![] }),
        ("sega32x"@, SystemView { default_core: "picodrive_libretro.so"@, accepted_extensions: seq!["32x"@, "smd"@, "md"@, "bin"@], extra_args: seq![] }),
        ("segacd"@, SystemView { default_core: "genesis_plus_gx_libretro.so"@, accepted_extensions: seq!["cue"@, "chd"@, "iso"@, "mds"@, "ccd"@], extra_args: seq![] }),
        ("sg1000"@, SystemView { default_core: "genesis_plus_gx_libretro.so"@, accepted_extensions: seq!["sg"@, "sc"@], extra_args: seq![] }),
        ("snes"@, SystemView { default_core: "snes9x_libretro.so"@, accepted_extensions: seq!["smc"@, "sfc"@, "swc"@, "fig"@, "bs"@], extra_args: seq![] }),
        ("supergrafx"@, SystemView { default_core: "beetle_sgx_libretro.so"@, accepted_extensions: seq!["sgx"@, "pce"@, "cue"@, "chd"@], extra_args: seq![] }),
        ("thomson"@, SystemView { default_core: "theodore_libretro.so"@, accepted_extensions: seq!["fd"@, "sap"@, "k7"@, "m7"@, "m5"@, "dsk"@], extra_args: seq![] }),
        ("vectrex"@, SystemView { default_core: "vecx_libretro.so"@, accepted_extensions: seq!["vec"@, "gam"@, "bin"@], extra_args: seq![] }),
        ("vic20"@, SystemView { default_core: "vice_xvic_libretro.so"@, accepted_extensions: seq!["prg"@, "tap"@, "crt"@, "d64"@, "t64"@], extra_args: seq![] }),
        ("virtualboy"@, SystemView { default_core: "beetle_vb_libretro.so"@, accepted_extensions: seq!["vb"@, "vboy"@], extra_args: seq![] }),
        ("vmu"@, SystemView { default_core: "vemulator_libretro.so"@, accepted_extensions: seq!["vms"@, "dcm"@], extra_args: seq![] }),
        ("wii"@, SystemView { default_core: "dolphin_libretro.so"@, accepted_extensions: seq!["iso"@, "wbfs"@, "ciso"@, "gcz"@, "wad"@, "dol"@], extra_args: seq![] }),
        ("wonderswan"@, SystemView { default_core: "mednafen_wswan_libretro.so"@, accepted_extensions: seq!["ws"@, "wsc"@], extra_args: seq![] }),
        ("x68000"@, SystemView { default_core: "px68k_libretro.so"@, accepted_extensions: seq!["dim"@, "zip"@, "xdf"@, "2hd"@, "d88"@], extra_args: seq![] }),
        ("zx81"@, SystemView { default_core: "81_libretro.so"@, accepted_extensions: seq!["p"@, "81"@, "o"@, "zip"@], extra_args: seq![] }),
        ("zxspectrum"@, SystemView { default_core: "fuse_libretro.so"@, accepted_extensions: seq!["tap"@, "tzx"@, "z80"@, "scl"@, "trd"@, "dsk"@], extra_args: seq![] }),
    ]
}

/// The systems offered for a first configuration or to fill in missing keys,
/// in table order (by key).
#[verifier::rlimit(60)]
pub fn all_default_systems() -> (r: Vec<(String, SystemConfig)>)
    ensures
        entry_views(r@) == default_system_table(),
        keys_distinct(system_keys(r@)),
{
    let mut out: Vec<(String, SystemConfig)> = Vec::new();
    let e0: [&str; 3] = ["iso", "bin", "chd"];
    assert(str_views(e0@) =~= seq!["iso"@, "bin"@, "chd"@]);
    out.push(("3do".to_owned(), s("4do_libretro.so", &e0)));
    let e1: [&str; 5] = ["3ds", "cci", "cxi", "app", "axf"];
    assert(str_views(e1@) =~= seq!["3ds"@, "cci"@, "cxi"@, "app"@, "axf"@]);
    out.push(("3ds".to_owned(), s("citra_libretro.so", &e1)));
    let e2: [&str; 4] = ["dsk", "sna", "cpr", "kcr"];
    assert(str_views(e2@) =~= seq!["dsk"@, "sna"@, "cpr"@, "kcr"@]);
    out.push(("amstrad".to_owned(), s("caprice32_libretro.so", &e2)));
    let e3: [&str; 5] = ["dsk", "do", "po", "nib", "hdv"];
    assert(str_views(e3@) =~= seq!["dsk"@, "do"@, "po"@, "nib"@, "hdv"@]);
    out.push(("apple2".to_owned(), s("linapple_libretro.so", &e3)));
    let e4: [&str; 1] = ["zip"];
    assert(str_views(e4@) =~= seq!["zip"@]);
    out.push(("arcade".to_owned(), s("mame2003_plus_libretro.so", &e4)));
    let e5: [&str; 2] = ["a26", "bin"];
    assert(str_views(e5@) =~= seq!["a26"@, "bin"@]);
    out.push(("atari2600".to_owned(), s("stella_libretro.so", &e5)));
    let e6: [&str; 5] = ["a52", "bin", "car", "rom", "xfd"];
    assert(str_views(e6@) =~= seq!["a52"@, "bin"@, "car"@, "rom"@, "xfd"@]);
    out.push(("atari5200".to_owned(), s("atari800_libretro.so", &e6)));
    let e7: [&str; 2] = ["a78", "bin"];
    assert(str_views(e7@) =~= seq!["a78"@, "bin"@]);
    out.push(("atari7800".to_owned(), s("prosystem_libretro.so", &e7)));
    let e8: [&str; 5] = ["atr", "xfd", "bin", "cas", "com"];
    assert(str_views(e8@) =~= seq!["atr"@, "xfd"@, "bin"@, "cas"@, "com"@]);
    out.push(("atari800".to_owned(), s("atari800_libretro.so", &e8)));
    let e9: [&str; 5] = ["st", "msa", "stx", "dim", "ipf"];
    assert(str_views(e9@) =~= seq!["st"@, "msa"@, "stx"@, "dim"@, "ipf"@]);
    out.push(("atari_st".to_owned(), s("hatari_libretro.so", &e9)));
    let e10: [&str; 5] = ["d64", "t64", "tap", "prg", "crt"];
    assert(str_views(e10@) =~= seq!["d64"@, "t64"@, "tap"@, "prg"@, "crt"@]);
    out.push(("c128".to_owned(), s("vice_x128_libretro.so", &e10)));
    let e11: [&str; 6] = ["d64", "t64", "tap", "prg", "p00", "crt"];
    assert(str_views(e11@) =~= seq!["d64"@, "t64"@, "tap"@, "prg"@, "p00"@, "crt"@]);
    out.push(("c64".to_owned(), s("vice_x64_libretro.so", &e11)));
    let e12: [&str; 3] = ["col", "cv", "rom"];
    assert(str_views(e12@) =~= seq!["col"@, "cv"@, "rom"@]);
    out.push(("coleco".to_owned(), s("bluemsx_libretro.so", &e12)));
    let e13: [&str; 4] = ["com", "exe", "bat", "conf"];
    assert(str_views(e13@) =~= seq!["com"@, "exe"@, "bat"@, "conf"@]);
    out.push(("dos".to_owned(), s("dosbox_pure_libretro.so", &e13)));
    let e14: [&str; 5] = ["gdi", "cdi", "chd", "cue", "bin"];
    assert(str_views(e14@) =~= seq!["gdi"@, "cdi"@, "chd"@, "cue"@, "bin"@]);
    out.push(("dreamcast".to_owned(), s("flycast_libretro.so", &e14)));
    let e15: [&str; 3] = ["ldb", "ini", "zip"];
    assert(str_views(e15@) =~= seq!["ldb"@, "ini"@, "zip"@]);
    out.push(("easyrpg".to_owned(), s("easyrpg_libretro.so", &e15)));
    let e16: [&str; 5] = ["iso", "gcm", "gcz", "dol", "tgc"];
    assert(str_views(e16@) =~= seq!["iso"@, "gcm"@, "gcz"@, "dol"@, "tgc"@]);
    out.push(("gamecube".to_owned(), s("dolphin_libretro.so", &e16)));
    let e17: [&str; 2] = ["gg", "bin"];
    assert(str_views(e17@) =~= seq!["gg"@, "bin"@]);
    out.push(("gamegear".to_owned(), s("genesis_plus_gx_libretro.so", &e17)));
    let e18: [&str; 2] = ["gb", "sgb"];
    assert(str_views(e18@) =~= seq!["gb"@, "sgb"@]);
    out.push(("gb".to_owned(), s("gambatte_libretro.so", &e18)));
    let e19: [&str; 2] = ["gba", "agb"];
    assert(str_views(e19@) =~= seq!["gba"@, "agb"@]);
    out.push(("gba".to_owned(), s("mgba_libretro.so", &e19)));
    let e20: [&str; 1] = ["gbc"];
    assert(str_views(e20@) =~= seq!["gbc"@]);
    out.push(("gbc".to_owned(), s("gambatte_libretro.so", &e20)));
    let e21: [&str; 5] = ["md", "smd", "gen", "cue", "iso"];
    assert(str_views(e21@) =~= seq!["md"@, "smd"@, "gen"@, "cue"@, "iso"@]);
    out.push(("genesis".to_owned(), s("genesis_plus_gx_libretro.so", &e21)));
    let e22: [&str; 1] = ["mgw"];
    assert(str_views(e22@) =~= seq!["mgw"@]);
    out.push(("gw".to_owned(), s("gw_libretro.so", &e22)));
    let e23: [&str; 3] = ["int", "rom", "bin"];
    assert(str_views(e23@) =~= seq!["int"@, "rom"@, "bin"@]);
    out.push(("intellivision".to_owned(), s("freeintv_libretro.so", &e23)));
    let e24: [&str; 5] = ["j64", "abs", "cof", "rom", "bin"];
    assert(str_views(e24@) =~= seq!["j64"@, "abs"@, "cof"@, "rom"@, "bin"@]);
    out.push(("jaguar".to_owned(), s("virtualjaguar_libretro.so", &e24)));
    let e25: [&str; 2] = ["lnx", "lyx"];
    assert(str_views(e25@) =~= seq!["lnx"@, "lyx"@]);
    out.push(("lynx".to_owned(), s("handy_libretro.so", &e25)));
    let e26: [&str; 2] = ["sms", "ms"];
    assert(str_views(e26@) =~= seq!["sms"@, "ms"@]);
    out.push(("mastersystem".to_owned(), s("genesis_plus_gx_libretro.so", &e26)));
    let e27: [&str; 6] = ["rom", "mx1", "mx2", "dsk", "cas", "sc"];
    assert(str_views(e27@) =~= seq!["rom"@, "mx1"@, "mx2"@, "dsk"@, "cas"@, "sc"@]);
    out.push(("msx".to_owned(), s("bluemsx_libretro.so", &e27)));
    let e28: [&str; 5] = ["n64", "z64", "v64", "ndd", "u64"];
    assert(str_views(e28@) =~= seq!["n64"@, "z64"@, "v64"@, "ndd"@, "u64"@]);
    out.push(("n64".to_owned(), s("mupen64plus_next_libretro.so", &e28)));
    let e29: [&str; 1] = ["nds"];
    assert(str_views(e29@) =~= seq!["nds"@]);
    out.push(("nds".to_owned(), s("melonds_libretro.so", &e29)));
    let e30: [&str; 3] = ["neo", "zip", "7z"];
    assert(str_views(e30@) =~= seq!["neo"@, "zip"@, "7z"@]);
    out.push(("neogeo".to_owned(), s("fbneo_libretro.so", &e30)));
    let e31: [&str; 4] = ["nes", "fds", "unf", "unif"];
    assert(str_views(e31@) =~= seq!["nes"@, "fds"@, "unf"@, "unif"@]);
    out.push(("nes".to_owned(), s("nestopia_libretro.so", &e31)));
    let e32: [&str; 2] = ["ngp", "ngc"];
    assert(str_views(e32@) =~= seq!["ngp"@, "ngc"@]);
    out.push(("ngp".to_owned(), s("mednafen_ngp_libretro.so", &e32)));
    let e33: [&str; 1] = ["o2"];
    assert(str_views(e33@) =~= seq!["o2"@]);
    out.push(("odyssey2".to_owned(), s("o2em_libretro.so", &e33)));
    let e34: [&str; 6] = ["d88", "hdm", "fdi", "fdd", "n88", "98d"];
    assert(str_views(e34@) =~= seq!["d88"@, "hdm"@, "fdi"@, "fdd"@, "n88"@, "98d"@]);
    out.push(("pc98".to_owned(), s("nekop2_libretro.so", &e34)));
    let e35: [&str; 5] = ["pce", "cue", "ccd", "iso", "chd"];
    assert(str_views(e35@) =~= seq!["pce"@, "cue"@, "ccd"@, "iso"@, "chd"@]);
    out.push(("pce".to_owned(), s("beetle_pce_fast_libretro.so", &e35)));
    let e36: [&str; 5] = ["cue", "ccd", "toc", "chd", "iso"];
    assert(str_views(e36@) =~= seq!["cue"@, "ccd"@, "toc"@, "chd"@, "iso"@]);
    out.push(("pcfx".to_owned(), s("beetle_pcfx_libretro.so", &e36)));
    let e37: [&str; 4] = ["prg", "tap", "d64", "t64"];
    assert(str_views(e37@) =~= seq!["prg"@, "tap"@, "d64"@, "t64"@]);
    out.push(("pet".to_owned(), s("vice_xpet_libretro.so", &e37)));
    let e38: [&str; 1] = ["minc"];
    assert(str_views(e38@) =~= seq!["minc"@]);
    out.push(("pokemon_mini".to_owned(), s("pokemini_libretro.so", &e38)));
    let e39: [&str; 3] = ["wad", "iwad", "pwad"];
    assert(str_views(e39@) =~= seq!["wad"@, "iwad"@, "pwad"@]);
    out.push(("prboom".to_owned(), s("prboom_libretro.so", &e39)));
    let e40: [&str; 4] = ["iso", "chd", "bin", "mdf"];
    assert(str_views(e40@) =~= seq!["iso"@, "chd"@, "bin"@, "mdf"@]);
    out.push(("ps2".to_owned(), s("play_libretro.so", &e40)));
    let e41: [&str; 4] = ["iso", "cso", "pbp", "elf"];
    assert(str_views(e41@) =~= seq!["iso"@, "cso"@, "pbp"@, "elf"@]);
    out.push(("psp".to_owned(), s("ppsspp_libretro.so", &e41)));
    let e42: [&str; 8] = ["cue", "bin", "img", "mdf", "pbp", "chd", "ecm", "m3u"];
    assert(str_views(e42@) =~= seq!["cue"@, "bin"@, "img"@, "mdf"@, "pbp"@, "chd"@, "ecm"@, "m3u"@]);
    out.push(("psx".to_owned(), s("pcsx_rearmed_libretro.so", &e42)));
    let e43: [&str; 2] = ["pak", "pk3"];
    assert(str_views(e43@) =~= seq!["pak"@, "pk3"@]);
    out.push(("quake".to_owned(), s("tyrquake_libretro.so", &e43)));
    let e44: [&str; 6] = ["cue", "chd", "iso", "mds", "ccd", "m3u"];
    assert(str_views(e44@) =~= seq!["cue"@, "chd"@, "iso"@, "mds"@, "ccd"@, "m3u"@]);
    out.push(("saturn".to_owned(), s("beetle_saturn_libretro.so", &e44)));
    let e45: [&str; 2] = ["svm", "scummvm"];
    assert(str_views(e45@) =~= seq!["svm"@, "scummvm"@]);
    out.push(("scummvm".to_owned(), s("scummvm_libretro.so", &e45)));
    let e46: [&str; 4] = ["32x", "smd", "md", "bin"];
    assert(str_views(e46@) =~= seq!["32x"@, "smd"@, "md"@, "bin"@]);
    out.push(("sega32x".to_owned(), s("picodrive_libretro.so", &e46)));
    let e47: [&str; 5] = ["cue", "chd", "iso", "mds", "ccd"];
    assert(str_views(e47@) =~= seq!["cue"@, "chd"@, "iso"@, "mds"@, "ccd"@]);
    out.push(("segacd".to_owned(), s("genesis_plus_gx_libretro.so", &e47)));
    let e48: [&str; 2] = ["sg", "sc"];
    assert(str_views(e48@) =~= seq!["sg"@, "sc"@]);
    out.push(("sg1000".to_owned(), s("genesis_plus_gx_libretro.so", &e48)));
    let e49: [&str; 5] = ["smc", "sfc", "swc", "fig", "bs"];
    assert(str_views(e49@) =~= seq!["smc"@, "sfc"@, "swc"@, "fig"@, "bs"@]);
    out.push(("snes".to_owned(), s("snes9x_libretro.so", &e49)));
    let e50: [&str; 4] = ["sgx", "pce", "cue", "chd"];
    assert(str_views(e50@) =~= seq!["sgx"@, "pce"@, "cue"@, "chd"@]);
    out.push(("supergrafx".to_owned(), s("beetle_sgx_libretro.so", &e50)));
    let e51: [&str; 6] = ["fd", "sap", "k7", "m7", "m5", "dsk"];
    assert(str_views(e51@) =~= seq!["fd"@, "sap"@, "k7"@, "m7"@, "m5"@, "dsk"@]);
    out.push(("thomson".to_owned(), s("theodore_libretro.so", &e51)));
    let e52: [&str; 3] = ["vec", "gam", "bin"];
    assert(str_views(e52@) =~= seq!["vec"@, "gam"@, "bin"@]);
    out.push(("vectrex".to_owned(), s("vecx_libretro.so", &e52)));
    let e53: [&str; 5] = ["prg", "tap", "crt", "d64", "t64"];
    assert(str_views(e53@) =~= seq!["prg"@, "tap"@, "crt"@, "d64"@, "t64"@]);
    out.push(("vic20".to_owned(), s("vice_xvic_libretro.so", &e53)));
    let e54: [&str; 2] = ["vb", "vboy"];
    assert(str_views(e54@) =~= seq!["vb"@, "vboy"@]);
    out.push(("virtualboy".to_owned(), s("beetle_vb_libretro.so", &e54)));
    let e55: [&str; 2] = ["vms", "dcm"];
    assert(str_views(e55@) =~= seq!["vms"@, "dcm"@]);
    out.push(("vmu".to_owned(), s("vemulator_libretro.so", &e55)));
    let e56: [&str; 6] = ["iso", "wbfs", "ciso", "gcz", "wad", "dol"];
    assert(str_views(e56@) =~= seq!["iso"@, "wbfs"@, "ciso"@, "gcz"@, "wad"@, "dol"@]);
    out.push(("wii".to_owned(), s("dolphin_libretro.so", &e56)));
    let e57: [&str; 2] = ["ws", "wsc"];
    assert(str_views(e57@) =~= seq!["ws"@, "wsc"@]);
    out.push(("wonderswan".to_owned(), s("mednafen_wswan_libretro.so", &e57)));
    let e58: [&str; 5] = ["dim", "zip", "xdf", "2hd", "d88"];
    assert(str_views(e58@) =~= seq!["dim"@, "zip"@, "xdf"@, "2hd"@, "d88"@]);
    out.push(("x68000".to_owned(), s("px68k_libretro.so", &e58)));
    let e59: [&str; 4] = ["p", "81", "o", "zip"];
    assert(str_views(e59@) =~= seq!["p"@, "81"@, "o"@, "zip"@]);
    out.push(("zx81".to_owned(), s("81_libretro.so", &e59)));
    let e60: [&str; 6] = ["tap", "tzx", "z80", "scl", "trd", "dsk"];
    assert(str_views(e60@) =~= seq!["tap"@, "tzx"@, "z80"@, "scl"@, "trd"@, "dsk"@]);
    out.push(("zxspectrum".to_owned(), s("fuse_libretro.so", &e60)));
    assert(entry_views(out@) =~= default_system_table());
    proof {
        lemma_default_keys_distinct();
        assert(system_keys(out@) =~= default_system_table().map_values(|e: (Seq<char>, SystemView)| e.0));
    }
    out
}

} // verus!


verus! {

/// The keys of the default table, in order.
pub open spec fn default_table_keys() -> Seq<Seq<char>> {
    seq![
        "3do"@,
        "3ds"@,
        "amstrad"@,
        "apple2"@,
        "arcade"@,
        "atari2600"@,
        "atari5200"@,
        "atari7800"@,
        "atari800"@,
        "atari_st"@,
        "c128"@,
        "c64"@,
        "coleco"@,
        "dos"@,
        "dreamcast"@,
        "easyrpg"@,
        "gamecube"@,
        "gamegear"@,
        "gb"@,
        "gba"@,
        "gbc"@,
        "genesis"@,
        "gw"@,
        "intellivision"@,
        "jaguar"@,
        "lynx"@,
        "mastersystem"@,
        "msx"@,
        "n64"@,
        "nds"@,
        "neogeo"@,
        "nes"@,
        "ngp"@,
        "odyssey2"@,
        "pc98"@,
        "pce"@,
        "pcfx"@,
        "pet"@,
        "pokemon_mini"@,
        "prboom"@,
        "ps2"@,
        "psp"@,
        "psx"@,
        "quake"@,
        "saturn"@,
        "scummvm"@,
        "sega32x"@,
        "segacd"@,
        "sg1000"@,
        "snes"@,
        "supergrafx"@,
        "thomson"@,
        "vectrex"@,
        "vic20"@,
        "virtualboy"@,
        "vmu"@,
        "wii"@,
        "wonderswan"@,
        "x68000"@,
        "zx81"@,
        "zxspectrum"@
    ]
}

/// The key at position `i` of the table comes strictly before the next one.
pub open spec fn key_step(i: int) -> bool {
    lex_le(default_table_keys()[i], default_table_keys()[i + 1]) && default_table_keys()[i] != default_table_keys()[
        i + 1
    ]
}

/// The keys of the table strictly increase.
proof fn lemma_table_keys_increase()
    ensures
        forall|i: int| 0 <= i < default_table_keys().len() - 1 ==> #[trigger] key_step(i),
{
    assert(default_table_keys().len() == 61);
    assert(key_step(0)) by {
        reveal_strlit("3do");
        reveal_strlit("3ds");
        reveal_with_fuel(lex_le, 7);
    }
    assert(key_step(1)) by {
        reveal_strlit("3ds");
        reveal_strlit("amstrad");
        reveal_with_fuel(lex_le, 7);
    }
    assert(key_step(2)) by {
        reveal_strlit("amstrad");
        reveal_strlit("apple2");
        reveal_with_fuel(lex_le, 7);
    }
    assert(key_step(3)) by {
        reveal_strlit("apple2");
        reveal_strlit("arcade");
        reveal_with_fuel(lex_le, 7);
    }
    assert(key_step(4)) by {
        reveal_strlit("arcade");
        reveal_strlit("atari2600");
        reveal_with_fuel(lex_le, 7);
    }
    assert(key_step(5)) by {
        reveal_strlit("atari2600");
        reveal_strlit("atari5200");
        reveal_with_fuel(lex_le, 7);
    }
    assert(key_step(6)) by {
        reveal_strlit("atari5200");
        reveal_strlit("atari7800");
        reveal_with_fuel(lex_le, 7);
    }
    assert(key_step(7)) by {
        reveal_strlit("atari7800");
        reveal_strlit("atari800");
        reveal_with_fuel(lex_le, 7);
    }
    assert(key_step(8)) by {
        reveal_strlit("atari800");
        reveal_strlit("atari_st");
        reveal_with_fuel(lex_le, 7);
    }
    assert(key_step(9)) by {
        reveal_strlit("atari_st");
        reveal_strlit("c128");
        reveal_with_fuel(lex_le, 7);
    }
    assert(key_step(10)) by {
        reveal_strlit("c128");
        reveal_strlit("c64");
        reveal_with_fuel(lex_le, 7);
    }
    assert(key_step(11)) by {
        reveal_strlit("c64");
        reveal_strlit("coleco");
        reveal_with_fuel(lex_le, 7);
    }
    assert(key_step(12)) by {
        reveal_strlit("coleco");
        reveal_strlit("dos");
        reveal_with_fuel(lex_le, 7);
    }
    assert(key_step(13)) by {
        reveal_strlit("dos");
        reveal_strlit("dreamcast");
        reveal_with_fuel(lex_le, 7);
    }
    assert(key_step(14)) by {
        reveal_strlit("dreamcast");
        reveal_strlit("easyrpg");
        reveal_with_fuel(lex_le, 7);
    }
    assert(key_step(15)) by {
        reveal_strlit("easyrpg");
        reveal_strlit("gamecube");
        reveal_with_fuel(lex_le, 7);
    }
    assert(key_step(16)) by {
        reveal_strlit("gamecube");
        reveal_strlit("gamegear");
        reveal_with_fuel(lex_le, 7);
    }
    assert(key_step(17)) by {
        reveal_strlit("gamegear");
        reveal_strlit("gb");
        reveal_with_fuel(lex_le, 7);
    }
    assert(key_step(18)) by {
        reveal_strlit("gb");
        reveal_strlit("gba");
        reveal_with_fuel(lex_le, 7);
    }
    assert(key_step(19)) by {
        reveal_strlit("gba");
        reveal_strlit("gbc");
        reveal_with_fuel(lex_le, 7);
    }
    assert(key_step(20)) by {
        reveal_strlit("gbc");
        reveal_strlit("genesis");
        reveal_with_fuel(lex_le, 7);
    }
    assert(key_step(21)) by {
        reveal_strlit("genesis");
        reveal_strlit("gw");
        reveal_with_fuel(lex_le, 7);
    }
    assert(key_step(22)) by {
        reveal_strlit("gw");
        reveal_strlit("intellivision");
        reveal_with_fuel(lex_le, 7);
    }
    assert(key_step(23)) by {
        reveal_strlit("intellivision");
        reveal_strlit("jaguar");
        reveal_with_fuel(lex_le, 7);
    }
    assert(key_step(24)) by {
        reveal_strlit("jaguar");
        reveal_strlit("lynx");
        reveal_with_fuel(lex_le, 7);
    }
    assert(key_step(25)) by {
        reveal_strlit("lynx");
        reveal_strlit("mastersystem");
        reveal_with_fuel(lex_le, 7);
    }
    assert(key_step(26)) by {
        reveal_strlit("mastersystem");
        reveal_strlit("msx");
        reveal_with_fuel(lex_le, 7);
    }
    assert(key_step(27)) by {
        reveal_strlit("msx");
        reveal_strlit("n64");
        reveal_with_fuel(lex_le, 7);
    }
    assert(key_step(28)) by {
        reveal_strlit("n64");
        reveal_strlit("nds");
        reveal_with_fuel(lex_le, 7);
    }
    assert(key_step(29)) by {
        reveal_strlit("nds");
        reveal_strlit("neogeo");
        reveal_with_fuel(lex_le, 7);
    }
    assert(key_step(30)) by {
        reveal_strlit("neogeo");
        reveal_strlit("nes");
        reveal_with_fuel(lex_le, 7);
    }
    assert(key_step(31)) by {
        reveal_strlit("nes");
        reveal_strlit("ngp");
        reveal_with_fuel(lex_le, 7);
    }
    assert(key_step(32)) by {
        reveal_strlit("ngp");
        reveal_strlit("odyssey2");
        reveal_with_fuel(lex_le, 7);
    }
    assert(key_step(33)) by {
        reveal_strlit("odyssey2");
        reveal_strlit("pc98");
        reveal_with_fuel(lex_le, 7);
    }
    assert(key_step(34)) by {
        reveal_strlit("pc98");
        reveal_strlit("pce");
        reveal_with_fuel(lex_le, 7);
    }
    assert(key_step(35)) by {
        reveal_strlit("pce");
        reveal_strlit("pcfx");
        reveal_with_fuel(lex_le, 7);
    }
    assert(key_step(36)) by {
        reveal_strlit("pcfx");
        reveal_strlit("pet");
        reveal_with_fuel(lex_le, 7);
    }
    assert(key_step(37)) by {
        reveal_strlit("pet");
        reveal_strlit("pokemon_mini");
        reveal_with_fuel(lex_le, 7);
    }
    assert(key_step(38)) by {
        reveal_strlit("pokemon_mini");
        reveal_strlit("prboom");
        reveal_with_fuel(lex_le, 7);
    }
    assert(key_step(39)) by {
        reveal_strlit("prboom");
        reveal_strlit("ps2");
        reveal_with_fuel(lex_le, 7);
    }
    assert(key_step(40)) by {
        reveal_strlit("ps2");
        reveal_strlit("psp");
        reveal_with_fuel(lex_le, 7);
    }
    assert(key_step(41)) by {
        reveal_strlit("psp");
        reveal_strlit("psx");
        reveal_with_fuel(lex_le, 7);
    }
    assert(key_step(42)) by {
        reveal_strlit("psx");
        reveal_strlit("quake");
        reveal_with_fuel(lex_le, 7);
    }
    assert(key_step(43)) by {
        reveal_strlit("quake");
        reveal_strlit("saturn");
        reveal_with_fuel(lex_le, 7);
    }
    assert(key_step(44)) by {
        reveal_strlit("saturn");
        reveal_strlit("scummvm");
        reveal_with_fuel(lex_le, 7);
    }
    assert(key_step(45)) by {
        reveal_strlit("scummvm");
        reveal_strlit("sega32x");
        reveal_with_fuel(lex_le, 7);
    }
    assert(key_step(46)) by {
        reveal_strlit("sega32x");
        reveal_strlit("segacd");
        reveal_with_fuel(lex_le, 7);
    }
    assert(key_step(47)) by {
        reveal_strlit("segacd");
        reveal_strlit("sg1000");
        reveal_with_fuel(lex_le, 7);
    }
    assert(key_step(48)) by {
        reveal_strlit("sg1000");
        reveal_strlit("snes");
        reveal_with_fuel(lex_le, 7);
    }
    assert(key_step(49)) by {
        reveal_strlit("snes");
        reveal_strlit("supergrafx");
        reveal_with_fuel(lex_le, 7);
    }
    assert(key_step(50)) by {
        reveal_strlit("supergrafx");
        reveal_strlit("thomson");
        reveal_with_fuel(lex_le, 7);
    }
    assert(key_step(51)) by {
        reveal_strlit("thomson");
        reveal_strlit("vectrex");
        reveal_with_fuel(lex_le, 7);
    }
    assert(key_step(52)) by {
        reveal_strlit("vectrex");
        reveal_strlit("vic20");
        reveal_with_fuel(lex_le, 7);
    }
    assert(key_step(53)) by {
        reveal_strlit("vic20");
        reveal_strlit("virtualboy");
        reveal_with_fuel(lex_le, 7);
    }
    assert(key_step(54)) by {
        reveal_strlit("virtualboy");
        reveal_strlit("vmu");
        reveal_with_fuel(lex_le, 7);
    }
    assert(key_step(55)) by {
        reveal_strlit("vmu");
        reveal_strlit("wii");
        reveal_with_fuel(lex_le, 7);
    }
    assert(key_step(56)) by {
        reveal_strlit("wii");
        reveal_strlit("wonderswan");
        reveal_with_fuel(lex_le, 7);
    }
    assert(key_step(57)) by {
        reveal_strlit("wonderswan");
        reveal_strlit("x68000");
        reveal_with_fuel(lex_le, 7);
    }
    assert(key_step(58)) by {
        reveal_strlit("x68000");
        reveal_strlit("zx81");
        reveal_with_fuel(lex_le, 7);
    }
    assert(key_step(59)) by {
        reveal_strlit("zx81");
        reveal_strlit("zxspectrum");
        reveal_with_fuel(lex_le, 7);
    }
    assert forall|i: int| 0 <= i < default_table_keys().len() - 1 implies #[trigger] key_step(i) by {
        if i == 0 {
        } else if i == 1 {
        } else if i == 2 {
        } else if i == 3 {
        } else if i == 4 {
        } else if i == 5 {
        } else if i == 6 {
        } else if i == 7 {
        } else if i == 8 {
        } else if i == 9 {
        } else if i == 10 {
        } else if i == 11 {
        } else if i == 12 {
        } else if i == 13 {
        } else if i == 14 {
        } else if i == 15 {
        } else if i == 16 {
        } else if i == 17 {
        } else if i == 18 {
        } else if i == 19 {
        } else if i == 20 {
        } else if i == 21 {
        } else if i == 22 {
        } else if i == 23 {
        } else if i == 24 {
        } else if i == 25 {
        } else if i == 26 {
        } else if i == 27 {
        } else if i == 28 {
        } else if i == 29 {
        } else if i == 30 {
        } else if i == 31 {
        } else if i == 32 {
        } else if i == 33 {
        } else if i == 34 {
        } else if i == 35 {
        } else if i == 36 {
        } else if i == 37 {
        } else if i == 38 {
        } else if i == 39 {
        } else if i == 40 {
        } else if i == 41 {
        } else if i == 42 {
        } else if i == 43 {
        } else if i == 44 {
        } else if i == 45 {
        } else if i == 46 {
        } else if i == 47 {
        } else if i == 48 {
        } else if i == 49 {
        } else if i == 50 {
        } else if i == 51 {
        } else if i == 52 {
        } else if i == 53 {
        } else if i == 54 {
        } else if i == 55 {
        } else if i == 56 {
        } else if i == 57 {
        } else if i == 58 {
        } else if i == 59 {
        }
    }
}

/// Keys that strictly increase from each one to the next are all distinct.
proof fn lemma_increasing_keys_distinct(keys: Seq<Seq<char>>)
    requires
        forall|i: int| 0 <= i < keys.len() - 1 ==> lex_le(#[trigger] keys[i], keys[i + 1]) && keys[i] != keys[i + 1],
    ensures
        keys_distinct(keys),
{
    assert forall|a: int, b: int| 0 <= a < b < keys.len() implies keys[a] != keys[b] by {
        lemma_increasing_chain(keys, a + 1, b);
        if keys[a] == keys[b] {
            lemma_lex_antisym(keys[a], keys[a + 1]);
        }
    }
}

/// Along increasing keys, each key comes before every later one.
proof fn lemma_increasing_chain(keys: Seq<Seq<char>>, a: int, b: int)
    requires
        forall|i: int| 0 <= i < keys.len() - 1 ==> lex_le(#[trigger] keys[i], keys[i + 1]) && keys[i] != keys[i + 1],
        0 <= a <= b < keys.len(),
    ensures
        lex_le(keys[a], keys[b]),
    decreases b - a,
{
    if a == b {
        lemma_lex_refl(keys[a]);
    } else {
        lemma_increasing_chain(keys, a + 1, b);
        lemma_lex_trans(keys[a], keys[a + 1], keys[b]);
    }
}

/// The table's keys are distinct.
pub proof fn lemma_default_keys_distinct()
    ensures
        keys_distinct(default_system_table().map_values(|e: (Seq<char>, SystemView)| e.0)),
{
    assert(default_system_table().map_values(|e: (Seq<char>, SystemView)| e.0) =~= default_table_keys());
    lemma_table_keys_increase();
    let keys = default_table_keys();
    assert forall|i: int| 0 <= i < keys.len() - 1 implies lex_le(#[trigger] keys[i], keys[i + 1]) && keys[i] != keys[i + 1] by {
        assert(key_step(i));
    }
    lemma_increasing_keys_distinct(keys);
}

} // verus!
