use rpi_open_emulator::config::{
    default_template, legacy_roms_candidates, ConfigProbe, HistoryConfig, LauncherConfig, LibraryConfig,
    RetroArchConfig, SystemConfig,
};
use rpi_open_emulator::default_systems::{all_default_systems, s};
use rpi_open_emulator::emulator::{
    build_appendconfig_snippet, build_core_search_dirs, configured_core_stem, core_file_is_match,
    core_search_candidates, executable_candidates, joypad_autoconfig_candidate_dirs, launch_args,
    package_hint_for_system, path_for_retroarch_system_cfg, push_if_exists_unique, resolve_core_path,
    resolve_retroarch_binary, retroarch_command_args, retroarch_main_cfg_candidates, retroarch_program_name,
    select_launch_system, select_system_by_extension, user_home_dir, CoreProbe, LaunchError,
};

fn strings(xs: &[&str]) -> Vec<String> {
    xs.iter().map(|x| x.to_string()).collect()
}

fn sample_config() -> LauncherConfig {
    LauncherConfig {
        retroarch: RetroArchConfig {
            binary_path: "retroarch".to_string(),
            cores_dir: "/usr/lib/libretro".to_string(),
            extra_args: strings(&["--verbose"]),
        },
        library: LibraryConfig { roms_dir: "/games".to_string(), bios_dir: "/bios".to_string() },
        systems: vec![
            ("nes".to_string(), s("nestopia_libretro.so", &["nes"])),
            ("snes".to_string(), s("snes9x_libretro.so", &["sfc", "smc"])),
            (
                "gba".to_string(),
                SystemConfig {
                    default_core: "mgba_libretro.so".to_string(),
                    accepted_extensions: strings(&["gba"]),
                    extra_args: strings(&["--fast"]),
                },
            ),
        ],
        history: HistoryConfig::default(),
    }
}

fn no_probe() -> ConfigProbe {
    ConfigProbe {
        legacy_candidate_exists: vec![false, false],
        binary_exists: true,
        retroarch_on_path: None,
        cores_dir_exists: true,
        libretro_dir_found: None,
    }
}

#[test]
fn resolve_extension_ignores_case() {
    let c = sample_config();
    assert_eq!(c.resolve_system_key_for_extension("SFC"), Some("snes".to_string()));
    assert_eq!(c.resolve_system_key_for_extension("smc"), Some("snes".to_string()));
    assert_eq!(c.resolve_system_key_for_extension("zip"), None);
}

#[test]
fn system_index_is_exact() {
    let c = sample_config();
    assert_eq!(c.system_index("gba"), Some(2));
    assert_eq!(c.system_index("GBA"), None);
}

#[test]
fn rom_and_bios_dirs_per_system() {
    let c = sample_config();
    assert_eq!(c.rom_dir_for_system("snes"), "/games/snes");
    assert_eq!(c.bios_dir_for_system("snes"), "/bios/snes");
}

#[test]
fn rom_scan_pairs_are_sorted_by_key() {
    let c = sample_config();
    let pairs = c.rom_scan_pairs_sorted();
    assert_eq!(
        pairs,
        vec![
            ("gba".to_string(), "/games/gba".to_string()),
            ("nes".to_string(), "/games/nes".to_string()),
            ("snes".to_string(), "/games/snes".to_string()),
        ]
    );
}

#[test]
fn default_template_uses_home() {
    let d = default_template(Some("/home/ana".to_string()));
    assert_eq!(d.retroarch.binary_path, "retroarch");
    assert_eq!(d.retroarch.cores_dir, "/usr/lib/libretro");
    assert_eq!(d.retroarch.extra_args, strings(&["--verbose"]));
    assert_eq!(d.library.roms_dir, "/home/ana/pi/ROMs");
    assert_eq!(d.library.bios_dir, "/home/ana/pi/BIOS");
    let keys: Vec<&str> = d.systems.iter().map(|(k, _)| k.as_str()).collect();
    assert_eq!(keys, vec!["gba", "nes", "snes"]);
    assert_eq!(d.systems[2].1.accepted_extensions, strings(&["sfc", "smc"]));
    assert_eq!(d.history.last_game_path, None);
}

#[test]
fn default_template_without_home_uses_pi() {
    let d = default_template(None);
    assert_eq!(d.library.roms_dir, "/home/pi/pi/ROMs");
}

#[test]
fn legacy_candidates_for_home() {
    assert_eq!(legacy_roms_candidates("/home/ana"), strings(&["/home/ana/pi/ROMs", "/home/ana/ROMs"]));
}

#[test]
fn legacy_migration_takes_first_existing() {
    let mut c = sample_config();
    c.library.roms_dir = "/home/pi/ROMs".to_string();
    let changed = c.migrate_legacy_paths_if_needed(Some("/home/ana".to_string()), &[false, true]);
    assert!(changed);
    assert_eq!(c.library.roms_dir, "/home/ana/ROMs");
}

#[test]
fn legacy_migration_leaves_other_roots() {
    let mut c = sample_config();
    let changed = c.migrate_legacy_paths_if_needed(Some("/home/ana".to_string()), &[true, true]);
    assert!(!changed);
    assert_eq!(c.library.roms_dir, "/games");
}

#[test]
fn legacy_migration_needs_an_existing_candidate() {
    let mut c = sample_config();
    c.library.roms_dir = "/home/pi/ROMs".to_string();
    assert!(!c.migrate_legacy_paths_if_needed(Some("/home/ana".to_string()), &[false, false]));
    assert!(!c.migrate_legacy_paths_if_needed(None, &[]));
    assert_eq!(c.library.roms_dir, "/home/pi/ROMs");
}

#[test]
fn retroarch_migration_repairs_missing_binary_and_cores() {
    let mut c = sample_config();
    c.retroarch.binary_path = "/opt/retroarch".to_string();
    c.retroarch.cores_dir = "/nowhere".to_string();
    let changed = c.migrate_retroarch_defaults_if_needed(
        false,
        Some("/usr/bin/retroarch".to_string()),
        false,
        Some("/usr/local/lib/libretro".to_string()),
    );
    assert!(changed);
    assert_eq!(c.retroarch.binary_path, "/usr/bin/retroarch");
    assert_eq!(c.retroarch.cores_dir, "/usr/local/lib/libretro");
}

#[test]
fn retroarch_migration_falls_back_to_plain_name() {
    let mut c = sample_config();
    c.retroarch.binary_path = "/opt/retroarch".to_string();
    assert!(c.migrate_retroarch_defaults_if_needed(false, None, true, None));
    assert_eq!(c.retroarch.binary_path, "retroarch");
}

#[test]
fn retroarch_migration_keeps_relative_binary() {
    let mut c = sample_config();
    assert!(!c.migrate_retroarch_defaults_if_needed(false, None, false, None));
    assert_eq!(c.retroarch.binary_path, "retroarch");
    assert_eq!(c.retroarch.cores_dir, "/usr/lib/libretro");
}

#[test]
fn load_or_create_without_file_writes_template() {
    let (c, save) = LauncherConfig::load_or_create(None, Some("/home/ana".to_string()), no_probe());
    assert!(save);
    assert_eq!(c.library.roms_dir, "/home/ana/pi/ROMs");
}

#[test]
fn load_or_create_keeps_healthy_config() {
    let (c, save) = LauncherConfig::load_or_create(Some(sample_config()), Some("/home/ana".to_string()), no_probe());
    assert!(!save);
    assert_eq!(c.library.roms_dir, "/games");
    assert_eq!(c.systems.len(), 3);
}

#[test]
fn load_or_create_migrates_legacy_root() {
    let mut loaded = sample_config();
    loaded.library.roms_dir = "/home/pi/ROMs".to_string();
    let mut probe = no_probe();
    probe.legacy_candidate_exists = vec![true, true];
    let (c, save) = LauncherConfig::load_or_create(Some(loaded), Some("/home/ana".to_string()), probe);
    assert!(save);
    assert_eq!(c.library.roms_dir, "/home/ana/pi/ROMs");
}

#[test]
fn default_system_table_has_every_row() {
    let all = all_default_systems();
    assert_eq!(all.len(), 61);
    let nes = all.iter().find(|(k, _)| k == "nes").unwrap();
    assert_eq!(nes.1.default_core, "nestopia_libretro.so");
    let mut keys: Vec<&str> = all.iter().map(|(k, _)| k.as_str()).collect();
    keys.sort();
    keys.dedup();
    assert_eq!(keys.len(), 61);
}

#[test]
fn package_hints() {
    assert!(package_hint_for_system("snes").contains("libretro-snes9x"));
    assert!(package_hint_for_system("gba").contains("libretro-mgba"));
    assert_eq!(
        package_hint_for_system("psx"),
        "Instale o core correspondente ou ajuste default_core para um arquivo existente."
    );
}

#[test]
fn cfg_paths_are_escaped() {
    assert_eq!(path_for_retroarch_system_cfg("C:\\a\"b"), "C:/a\\\"b");
    assert_eq!(path_for_retroarch_system_cfg("/plain/path"), "/plain/path");
}

#[test]
fn home_dir_prefers_non_empty_home() {
    assert_eq!(user_home_dir(Some("/h".to_string()), Some("/u".to_string())), Some("/h".to_string()));
    assert_eq!(user_home_dir(Some(String::new()), Some("/u".to_string())), Some("/u".to_string()));
    assert_eq!(user_home_dir(None, None), None);
}

#[test]
fn main_cfg_candidates_follow_home() {
    let home = Some("/h".to_string());
    assert_eq!(
        retroarch_main_cfg_candidates(&home),
        strings(&[
            "/h/.config/retroarch/retroarch.cfg",
            "/h/.var/app/org.libretro.RetroArch/config/retroarch/retroarch.cfg"
        ])
    );
    assert!(retroarch_main_cfg_candidates(&None).is_empty());
}

#[test]
fn autoconfig_dirs_user_first() {
    let dirs = joypad_autoconfig_candidate_dirs(&Some("/h".to_string()));
    assert_eq!(dirs.len(), 6);
    assert_eq!(dirs[0], "/h/.config/retroarch/autoconfig");
    assert_eq!(dirs[5], "/usr/local/share/libretro/autoconfig");
    assert_eq!(joypad_autoconfig_candidate_dirs(&None).len(), 4);
}

#[test]
fn appendconfig_snippet_text() {
    assert_eq!(
        build_appendconfig_snippet("/bios/snes", &None),
        "system_directory = \"/bios/snes\"\ninput_autodetect_enable = \"true\"\n"
    );
    assert_eq!(
        build_appendconfig_snippet("/b", &Some("C:\\pads".to_string())),
        "system_directory = \"/b\"\ninput_autodetect_enable = \"true\"\njoypad_autoconfig_dir = \"C:/pads\"\n"
    );
}

#[test]
fn core_search_candidate_order() {
    let v = core_search_candidates("/cores", &Some("/h".to_string()));
    assert_eq!(v.len(), 10);
    assert_eq!(v[0], "/cores");
    assert_eq!(v[1], "/h/.config/retroarch/cores");
    assert_eq!(v[9], "/var/lib/snapd/hostfs/usr/lib/libretro");
    assert_eq!(core_search_candidates("/cores", &None).len(), 7);
}

#[test]
fn search_dirs_keep_existing_once() {
    let cands = strings(&["/a", "/b", "/a/", "/c"]);
    let dirs = build_core_search_dirs(&cands, &[true, false, true, true]);
    assert_eq!(dirs, strings(&["/a", "/c"]));
}

#[test]
fn push_unique_skips_missing_and_duplicates() {
    let mut dirs = strings(&["/a"]);
    push_if_exists_unique(&mut dirs, "/b".to_string(), false);
    push_if_exists_unique(&mut dirs, "/a".to_string(), true);
    push_if_exists_unique(&mut dirs, "/c".to_string(), true);
    assert_eq!(dirs, strings(&["/a", "/c"]));
}

#[test]
fn core_stem_and_match() {
    let stem = configured_core_stem("Snes9x_libretro.so");
    assert_eq!(stem.iter().collect::<String>(), "snes9x");
    assert_eq!(configured_core_stem("Custom").iter().collect::<String>(), "custom");
    assert!(core_file_is_match("/c/SNES9X_2010_libretro.so", &stem));
    assert!(!core_file_is_match("/c/snes9x.so", &stem));
    assert!(!core_file_is_match("/c/mgba_libretro.so", &stem));
}

fn probe(configured: bool, default: bool, dirs: &[&str], exists: &[bool], listings: Vec<Vec<String>>) -> CoreProbe {
    CoreProbe {
        configured_exists: configured,
        default_candidate_exists: default,
        search_dirs: strings(dirs),
        candidate_exists: exists.to_vec(),
        listings,
    }
}

#[test]
fn core_path_default_folder() {
    let c = sample_config();
    let sys = c.systems[1].1.clone();
    let r = resolve_core_path(&c, "snes", &sys, &probe(false, true, &[], &[], vec![]));
    assert_eq!(r, Ok("/usr/lib/libretro/snes9x_libretro.so".to_string()));
}

#[test]
fn core_path_search_folder() {
    let c = sample_config();
    let sys = c.systems[1].1.clone();
    let r = resolve_core_path(&c, "snes", &sys, &probe(false, false, &["/x", "/y"], &[false, true], vec![]));
    assert_eq!(r, Ok("/y/snes9x_libretro.so".to_string()));
}

#[test]
fn core_path_fuzzy_listing() {
    let c = sample_config();
    let sys = c.systems[1].1.clone();
    let listings = vec![strings(&["/x/readme.txt"]), strings(&["/y/snes9x2010_libretro.so"])];
    let r = resolve_core_path(&c, "snes", &sys, &probe(false, false, &["/x", "/y"], &[false, false], listings));
    assert_eq!(r, Ok("/y/snes9x2010_libretro.so".to_string()));
}

#[test]
fn core_path_not_found_reports_folders() {
    let c = sample_config();
    let sys = c.systems[1].1.clone();
    let r = resolve_core_path(&c, "snes", &sys, &probe(false, false, &["/x"], &[false], vec![vec![]]));
    match r {
        Err(LaunchError::CoreNotFound { core, inspected, hint }) => {
            assert_eq!(core, "snes9x_libretro.so");
            assert_eq!(inspected, strings(&["/x"]));
            assert!(hint.contains("SNES"));
        }
        other => panic!("unexpected {:?}", other),
    }
}

#[test]
fn core_path_absolute() {
    let c = sample_config();
    let sys = SystemConfig { default_core: "/opt/core_libretro.so".to_string(), accepted_extensions: vec![], extra_args: vec![] };
    assert_eq!(
        resolve_core_path(&c, "x", &sys, &probe(true, false, &[], &[], vec![])),
        Ok("/opt/core_libretro.so".to_string())
    );
    assert_eq!(
        resolve_core_path(&c, "x", &sys, &probe(false, true, &[], &[], vec![])),
        Err(LaunchError::CoreMissing("/opt/core_libretro.so".to_string()))
    );
}

#[test]
fn program_name_defaults() {
    let mut c = sample_config();
    assert_eq!(retroarch_program_name(&c), "retroarch");
    c.retroarch.binary_path = String::new();
    assert_eq!(retroarch_program_name(&c), "retroarch");
    c.retroarch.binary_path = "ra".to_string();
    assert_eq!(retroarch_program_name(&c), "ra");
}

#[test]
fn executable_candidates_split_path() {
    assert_eq!(
        executable_candidates("/usr/bin:/bin", "retroarch"),
        strings(&["/usr/bin/retroarch", "/bin/retroarch"])
    );
}

#[test]
fn binary_resolution() {
    let mut c = sample_config();
    assert_eq!(
        resolve_retroarch_binary(&c, false, Some("/usr/bin/retroarch".to_string())),
        Ok("/usr/bin/retroarch".to_string())
    );
    assert_eq!(resolve_retroarch_binary(&c, false, None), Err(LaunchError::NotOnPath("retroarch".to_string())));
    c.retroarch.binary_path = "/opt/ra".to_string();
    assert_eq!(resolve_retroarch_binary(&c, true, None), Ok("/opt/ra".to_string()));
    assert_eq!(resolve_retroarch_binary(&c, false, None), Err(LaunchError::BinaryMissing("/opt/ra".to_string())));
}

#[test]
fn launch_system_by_extension_and_folder() {
    let c = sample_config();
    assert_eq!(select_launch_system(&c, "/games/snes/Mario.SFC", None), Ok(("snes".to_string(), 1)));
    assert_eq!(select_launch_system(&c, "/games/snes/Mario", None), Err(LaunchError::NoExtension));
    assert_eq!(
        select_launch_system(&c, "/games/snes/Mario.zip", None),
        Err(LaunchError::NoSystemForExtension("zip".to_string()))
    );
    assert_eq!(
        select_launch_system(&c, "/elsewhere/Mario.sfc", None),
        Err(LaunchError::RomOutsideSystemDir { expected_root: "/games/snes".to_string(), system_key: "snes".to_string() })
    );
}

#[test]
fn launch_system_override() {
    let c = sample_config();
    assert_eq!(select_launch_system(&c, "/games/gba/x.sfc", Some(" GBA ")), Ok(("gba".to_string(), 2)));
    assert_eq!(
        select_launch_system(&c, "/games/gba/x.sfc", Some("psx")),
        Err(LaunchError::UnknownSystem("psx".to_string()))
    );
}

#[test]
fn system_by_extension_only() {
    let c = sample_config();
    assert_eq!(select_system_by_extension(&c, "/anywhere/x.GBA"), Ok(("gba".to_string(), 2)));
    assert_eq!(select_system_by_extension(&c, "/anywhere/x"), Err(LaunchError::NoExtension));
}

#[test]
fn command_line_order() {
    let c = sample_config();
    let sys = c.systems[2].1.clone();
    assert_eq!(
        retroarch_command_args(&c, &sys, &Some("/h/ra.cfg".to_string()), "/tmp/a.cfg", "/c/mgba_libretro.so", "/g/x.gba"),
        strings(&[
            "--config",
            "/h/ra.cfg",
            "--appendconfig",
            "/tmp/a.cfg",
            "-L",
            "/c/mgba_libretro.so",
            "--fullscreen",
            "--verbose",
            "--fast",
            "/g/x.gba"
        ])
    );
    assert_eq!(
        launch_args(&c, &sys, "/c/core.so", "/g/x.gba"),
        strings(&["-L", "/c/core.so", "--verbose", "--fast", "/g/x.gba"])
    );
}
