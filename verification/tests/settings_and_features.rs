use rpi_open_emulator::config::{HistoryConfig, LauncherConfig, LibraryConfig, RetroArchConfig};
use rpi_open_emulator::cover::{decode_png_rgba, is_png_path};
use rpi_open_emulator::default_systems::s;
use rpi_open_emulator::library::{rom_entry_for, scan_roms};
use rpi_open_emulator::licensing::{FeatureFlags, LicenseTier};
use rpi_open_emulator::plugins::PluginHost;
use rpi_open_emulator::scraper::{ScraperPipeline, SourceInfo};
use rpi_open_emulator::settings::{save_settings_from_draft, AddSystemError, DraftError, SettingsDraft, SystemDraft};
use rpi_open_emulator::themes::{accent_rgb_for_system, user_theme_dir_hint, ThemeId};

fn strings(xs: &[&str]) -> Vec<String> {
    xs.iter().map(|x| x.to_string()).collect()
}

fn config() -> LauncherConfig {
    LauncherConfig {
        retroarch: RetroArchConfig {
            binary_path: "retroarch".to_string(),
            cores_dir: "/usr/lib/libretro".to_string(),
            extra_args: strings(&["--verbose"]),
        },
        library: LibraryConfig { roms_dir: "/r".to_string(), bios_dir: "/b".to_string() },
        systems: vec![
            ("snes".to_string(), s("snes9x_libretro.so", &["sfc", "smc"])),
            ("gba".to_string(), s("mgba_libretro.so", &["gba"])),
        ],
        history: HistoryConfig { last_game_path: Some("/r/gba/x.gba".to_string()) },
    }
}

fn draft_system(key: &str, core: &str, exts: &str) -> SystemDraft {
    SystemDraft {
        key: key.to_string(),
        default_core: core.to_string(),
        accepted_extensions_csv: exts.to_string(),
        extra_args_csv: String::new(),
    }
}

#[test]
fn draft_shows_config_in_key_order() {
    let d = SettingsDraft::from_config(&config());
    assert_eq!(d.retroarch_binary, "retroarch");
    assert_eq!(d.roms_dir, "/r");
    let keys: Vec<&str> = d.systems.iter().map(|x| x.key.as_str()).collect();
    assert_eq!(keys, vec!["gba", "snes"]);
    assert_eq!(d.systems[1].accepted_extensions_csv, "sfc, smc");
    assert!(d.new_system_key.is_empty());
}

#[test]
fn draft_round_trip_keeps_config() {
    let mut c = config();
    let d = SettingsDraft::from_config(&c);
    assert_eq!(save_settings_from_draft(&mut c, &d), Ok(()));
    assert_eq!(c.retroarch.binary_path, "retroarch");
    assert_eq!(c.library.bios_dir, "/b");
    let keys: Vec<&str> = c.systems.iter().map(|(k, _)| k.as_str()).collect();
    assert_eq!(keys, vec!["gba", "snes"]);
    assert_eq!(c.systems[1].1.accepted_extensions, strings(&["sfc", "smc"]));
    assert_eq!(c.history.last_game_path, Some("/r/gba/x.gba".to_string()));
}

#[test]
fn save_normalises_fields() {
    let mut c = config();
    let mut d = SettingsDraft::from_config(&c);
    d.roms_dir = "  /new/roms ".to_string();
    d.systems = vec![draft_system(" NES ", " nestopia_libretro.so ", " nes, ,NES ")];
    assert_eq!(save_settings_from_draft(&mut c, &d), Ok(()));
    assert_eq!(c.library.roms_dir, "/new/roms");
    assert_eq!(c.systems.len(), 1);
    assert_eq!(c.systems[0].0, "nes");
    assert_eq!(c.systems[0].1.default_core, "nestopia_libretro.so");
    assert_eq!(c.systems[0].1.accepted_extensions, strings(&["nes", "NES"]));
}

#[test]
fn save_rejects_empty_key() {
    let mut c = config();
    let mut d = SettingsDraft::from_config(&c);
    d.systems.push(draft_system("  ", "core.so", ""));
    assert_eq!(save_settings_from_draft(&mut c, &d), Err(DraftError::EmptyKey));
    assert_eq!(c.systems.len(), 2);
}

#[test]
fn save_rejects_duplicate_key() {
    let mut c = config();
    let mut d = SettingsDraft::from_config(&c);
    d.systems.push(draft_system("GBA", "core.so", ""));
    assert_eq!(save_settings_from_draft(&mut c, &d), Err(DraftError::DuplicateKey("gba".to_string())));
}

#[test]
fn save_rejects_empty_core() {
    let mut c = config();
    let mut d = SettingsDraft::from_config(&c);
    d.systems.push(draft_system("psx", "   ", ""));
    assert_eq!(save_settings_from_draft(&mut c, &d), Err(DraftError::EmptyCore("psx".to_string())));
}

#[test]
fn add_system_sorts_and_clears() {
    let mut d = SettingsDraft::from_config(&config());
    d.new_system_key = " PSX ".to_string();
    d.new_system_core = " pcsx_rearmed_libretro.so ".to_string();
    d.new_system_extensions_csv = " cue, chd ".to_string();
    assert_eq!(d.add_system_to_draft(), Ok("psx".to_string()));
    let keys: Vec<&str> = d.systems.iter().map(|x| x.key.as_str()).collect();
    assert_eq!(keys, vec!["gba", "psx", "snes"]);
    assert_eq!(d.systems[1].default_core, "pcsx_rearmed_libretro.so");
    assert_eq!(d.systems[1].accepted_extensions_csv, "cue, chd");
    assert!(d.new_system_key.is_empty());
    assert!(d.new_system_core.is_empty());
}

#[test]
fn add_system_errors() {
    let mut d = SettingsDraft::from_config(&config());
    d.new_system_key = "  ".to_string();
    assert_eq!(d.add_system_to_draft(), Err(AddSystemError::MissingKey));
    d.new_system_key = "SNES".to_string();
    d.new_system_core = "x.so".to_string();
    assert_eq!(d.add_system_to_draft(), Err(AddSystemError::AlreadyExists("snes".to_string())));
    d.new_system_key = "n64".to_string();
    d.new_system_core = " ".to_string();
    assert_eq!(d.add_system_to_draft(), Err(AddSystemError::MissingCore));
    assert_eq!(d.systems.len(), 2);
    assert_eq!(d.new_system_key, "n64");
}

#[test]
fn licensing_flags() {
    let free = FeatureFlags::default();
    assert_eq!(free.tier, LicenseTier::Free);
    assert!(!free.premium_themes_unlocked());
    assert!(!free.advanced_auto_scraper());
    assert!(!free.cloud_sync());
    assert!(free.theme_allowed(ThemeId::Neon));
    let premium = FeatureFlags { tier: LicenseTier::Premium };
    assert!(premium.premium_themes_unlocked());
    assert!(premium.advanced_auto_scraper());
    assert!(premium.cloud_sync());
    assert!(premium.theme_allowed(ThemeId::Minimal));
}

#[test]
fn theme_labels_and_list() {
    assert_eq!(ThemeId::all(), [ThemeId::DefaultDark, ThemeId::Neon, ThemeId::Minimal]);
    assert_eq!(ThemeId::default(), ThemeId::DefaultDark);
    assert_eq!(ThemeId::DefaultDark.label(), "Escuro (Steam-like)");
    assert_eq!(ThemeId::Neon.label(), "Neon");
    assert_eq!(ThemeId::Minimal.label(), "Minimal");
    assert!(user_theme_dir_hint().starts_with("Coloque temas custom"));
}

#[test]
fn accent_colours() {
    assert_eq!(accent_rgb_for_system("NES"), (220, 58, 58));
    assert_eq!(accent_rgb_for_system("gbc"), (90, 160, 90));
    assert_eq!(accent_rgb_for_system("abc"), (194, 142, 135));
}

#[test]
fn plugin_registry_keeps_order() {
    let mut host = PluginHost::default();
    assert!(host.list_scraper_ids().is_empty());
    host.register_scraper_id("igdb".to_string());
    host.register_scraper_id("screenscraper".to_string());
    assert_eq!(host.list_scraper_ids(), &strings(&["igdb", "screenscraper"])[..]);
}

#[test]
fn pipeline_description() {
    let mut p = ScraperPipeline::default();
    assert_eq!(p.describe(), "Metadados locais (cache offline) (offline-library)");
    p.sources.push(SourceInfo {
        id: "offline-library".to_string(),
        label: "Metadados locais (cache offline)".to_string(),
    });
    assert_eq!(
        p.describe(),
        "Metadados locais (cache offline) (offline-library) · Metadados locais (cache offline) (offline-library)"
    );
    p.sources = vec![SourceInfo { id: "a".to_string(), label: "A".to_string() }];
    assert_eq!(p.describe(), "A (a)");
    assert_eq!(p.refresh_all(&[], &config()), Ok(0));
}

#[test]
fn rom_entries_need_known_extension() {
    let c = config();
    let e = rom_entry_for(&c, "/r/snes/Mario (USA).SFC").unwrap();
    assert_eq!(e.file_name, "Mario (USA).SFC");
    assert_eq!(e.extension, "sfc");
    assert_eq!(e.system_key, Some("snes".to_string()));
    assert!(rom_entry_for(&c, "/r/readme.txt").is_none());
    assert!(rom_entry_for(&c, "/r/noext").is_none());
}

#[test]
fn scan_sorts_by_file_name() {
    let c = config();
    let files = strings(&["/r/snes/zelda.smc", "/r/notes.txt", "/r/gba/advance.gba", "/r/snes/mario.sfc"]);
    let names: Vec<String> = scan_roms(&c, &files).into_iter().map(|e| e.file_name).collect();
    assert_eq!(names, strings(&["advance.gba", "mario.sfc", "zelda.smc"]));
}

fn encode_png(width: u32, height: u32, color: png::ColorType, data: &[u8]) -> Vec<u8> {
    let mut out = Vec::new();
    {
        let mut enc = png::Encoder::new(&mut out, width, height);
        enc.set_color(color);
        enc.set_depth(png::BitDepth::Eight);
        let mut w = enc.write_header().unwrap();
        w.write_image_data(data).unwrap();
    }
    out
}

#[test]
fn decode_rgba_png() {
    let pixels = [1u8, 2, 3, 4, 5, 6, 7, 8];
    let bytes = encode_png(2, 1, png::ColorType::Rgba, &pixels);
    let (buf, w, h) = decode_png_rgba(&bytes).unwrap();
    assert_eq!((w, h), (2, 1));
    assert_eq!(buf, pixels.to_vec());
}

#[test]
fn decode_rgb_png_adds_alpha() {
    let pixels = [10u8, 20, 30, 40, 50, 60];
    let bytes = encode_png(1, 2, png::ColorType::Rgb, &pixels);
    let (buf, w, h) = decode_png_rgba(&bytes).unwrap();
    assert_eq!((w, h), (1, 2));
    assert_eq!(buf, vec![10, 20, 30, 255, 40, 50, 60, 255]);
}

#[test]
fn decode_rejects_garbage_and_grey() {
    assert!(decode_png_rgba(b"not a png").is_none());
    let grey = encode_png(1, 1, png::ColorType::Grayscale, &[7]);
    assert!(decode_png_rgba(&grey).is_none());
}

#[test]
fn png_names() {
    assert!(is_png_path("/covers/a.PNG"));
    assert!(!is_png_path("/covers/a.jpg"));
}

#[test]
fn add_system_keeps_equal_keys_in_order() {
    let mut d = SettingsDraft::from_config(&config());
    d.systems = vec![draft_system("x", "first.so", ""), draft_system("b", "b.so", ""), draft_system("x", "second.so", "")];
    d.new_system_key = "a".to_string();
    d.new_system_core = "a.so".to_string();
    assert_eq!(d.add_system_to_draft(), Ok("a".to_string()));
    let cores: Vec<&str> = d.systems.iter().map(|x| x.default_core.as_str()).collect();
    assert_eq!(cores, vec!["a.so", "b.so", "first.so", "second.so"]);
}

#[test]
fn saving_twice_changes_nothing() {
    let mut c = config();
    let mut d = SettingsDraft::from_config(&c);
    d.cores_dir = " /cores ".to_string();
    d.systems = vec![
        draft_system(" SNES ", " snes9x_libretro.so ", "sfc, ,SMC,"),
        draft_system("gba", "mgba_libretro.so", " gba "),
    ];
    assert_eq!(save_settings_from_draft(&mut c, &d), Ok(()));
    let first = format!("{:?}", c);
    let again = SettingsDraft::from_config(&c);
    assert_eq!(save_settings_from_draft(&mut c, &again), Ok(()));
    let keys: Vec<&str> = c.systems.iter().map(|(k, _)| k.as_str()).collect();
    assert_eq!(keys, vec!["gba", "snes"]);
    assert_eq!(c.systems[1].1.accepted_extensions, strings(&["sfc", "SMC"]));
    assert_eq!(c.retroarch.cores_dir, "/cores");
    let mut c2 = c.clone();
    let third = SettingsDraft::from_config(&c2);
    assert_eq!(save_settings_from_draft(&mut c2, &third), Ok(()));
    assert_eq!(format!("{:?}", c2), format!("{:?}", c));
    assert!(first.contains("snes9x_libretro.so"));
}
