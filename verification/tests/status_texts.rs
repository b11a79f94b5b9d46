use rpi_open_emulator::catalog::{now_secs_from, scanned_rom, unix_secs_from, DirWalk, EntryKind, GameEntry};
use std::hash::{Hash, Hasher};
use rpi_open_emulator::config::{
    default_template, discover_libretro_dir, legacy_data_paths, libretro_dir_candidates, nested_libretro_candidates,
};
use rpi_open_emulator::default_systems::s;
use rpi_open_emulator::emulator::LaunchError;
use rpi_open_emulator::screens::{
    card_favorite_label, detail_favorite_label, detail_lines, grid_row_ranges, home_commands_for_card,
    library_commands_for_card, nav_line, placeholder_key, placeholder_palette, system_badge, GameCardOutput, HomeCommand, LibraryCommand,
};
use rpi_open_emulator::settings::{AddSystemError, DraftError, SettingsDraft};
use rpi_open_emulator::status::{
    begin_session, finish_session, session_label_for, startup_notice, status_is_error, AfterSession, Notice,
    SessionEnd,
};
use rpi_open_emulator::text::{decimal_string, pad_right_string, signed_decimal_string, upper_string};

fn strings(xs: &[&str]) -> Vec<String> {
    xs.iter().map(|x| x.to_string()).collect()
}

fn game() -> GameEntry {
    GameEntry {
        path: "/r/snes/mario.sfc".to_string(),
        file_name: "mario.sfc".to_string(),
        extension: "sfc".to_string(),
        system_key: "snes".to_string(),
        title: "Mario".to_string(),
        description: None,
        cover_path: None,
        metadata_source: "offline-cache".to_string(),
        is_favorite: false,
        play_count: 0,
        last_played_at: None,
        genre: Some("Plataforma".to_string()),
        release_year: Some(1990),
        developer: None,
    }
}

#[test]
fn decimal_notation() {
    assert_eq!(decimal_string(0), "0");
    assert_eq!(decimal_string(1234567890), "1234567890");
    assert_eq!(signed_decimal_string(-42), "-42");
    assert_eq!(signed_decimal_string(i64::MIN), i64::MIN.to_string());
    assert_eq!(pad_right_string("Todos", 8), "Todos   ");
    assert_eq!(pad_right_string("Sincronizar", 4), "Sincronizar");
    assert_eq!(upper_string("snes-x"), "SNES-X");
}

#[test]
fn launch_error_messages() {
    assert_eq!(LaunchError::NoExtension.message(), "arquivo ROM sem extensao reconhecivel");
    assert_eq!(
        LaunchError::UnknownSystem("psx".to_string()).message(),
        "sistema 'psx' nao existe na configuracao"
    );
    assert_eq!(
        LaunchError::NoSystemForExtension("zip".to_string()).message(),
        "nenhum sistema configurado para extensao .zip"
    );
    assert_eq!(
        LaunchError::RomOutsideSystemDir { expected_root: "/r/snes".to_string(), system_key: "snes".to_string() }
            .message(),
        "ROM deve estar em /r/snes (subpasta do sistema 'snes')"
    );
    assert_eq!(
        LaunchError::CoreNotFound {
            core: "x_libretro.so".to_string(),
            inspected: strings(&["/a", "/b"]),
            hint: "Dica.".to_string()
        }
        .message(),
        "nao foi possivel localizar o core x_libretro.so (buscado em: /a, /b). Dica."
    );
    assert_eq!(LaunchError::NotOnPath("ra".to_string()).message(), "comando 'ra' nao encontrado no PATH");
    assert_eq!(
        LaunchError::BinaryMissing("/opt/ra".to_string()).message(),
        "binario RetroArch nao encontrado em /opt/ra"
    );
    assert_eq!(LaunchError::CoreMissing("/c.so".to_string()).message(), "core configurado nao existe: /c.so");
    assert_eq!(
        LaunchError::SystemMissing("nes".to_string()).message(),
        "sistema nes nao encontrado na configuracao"
    );
}

#[test]
fn notice_texts() {
    assert_eq!(
        Notice::CatalogSummary { games: 12, scanned: 3, metadata: 12 }.text(),
        "12 ROM(s) no catálogo (3 atualizada(s) no scan, 12 com metadata)"
    );
    assert_eq!(Notice::RomsDirMissing("/x".to_string()).text(), "Pasta de ROMs nao encontrada: /x");
    assert_eq!(Notice::DraftRejected(DraftError::EmptyKey).text(), "Falha ao salvar: existe sistema com chave vazia");
    assert_eq!(
        Notice::DraftRejected(DraftError::DuplicateKey("nes".to_string())).text(),
        "Falha ao salvar: chave duplicada 'nes'"
    );
    assert_eq!(
        Notice::DraftRejected(DraftError::EmptyCore("nes".to_string())).text(),
        "Falha ao salvar: sistema 'nes' com core padrao vazio"
    );
    assert_eq!(
        Notice::AddSystemRejected(AddSystemError::AlreadyExists("gba".to_string())).text(),
        "Sistema 'gba' ja existe no rascunho"
    );
    assert_eq!(
        Notice::RetroArchExit { code: Some(-1), label: "x.sfc".to_string() }.text(),
        "RetroArch saiu com codigo Some(-1) (x.sfc)"
    );
    assert_eq!(
        Notice::RetroArchExit { code: None, label: "ROM".to_string() }.text(),
        "RetroArch saiu com codigo None (ROM)"
    );
    assert_eq!(
        Notice::SessionFailed { label: "x.sfc".to_string(), error: "boom".to_string() }.text(),
        "Falha ao executar jogo (x.sfc): boom"
    );
    assert_eq!(Notice::Starting("x.sfc".to_string()).text(), "Iniciando x.sfc…");
    assert_eq!(
        Notice::FavoriteSet { file_name: "x.sfc".to_string(), value: false }.text(),
        "Removido dos favoritos: x.sfc"
    );
    assert_eq!(Notice::MetadataUpdated(7).text(), "Metadata offline atualizada para 7 jogo(s)");
}

#[test]
fn error_colour_detection() {
    assert!(status_is_error("Falha ao salvar configuracoes: x"));
    assert!(status_is_error("Erro ao sincronizar biblioteca: x"));
    assert!(!status_is_error("Configuracoes salvas com sucesso"));
}

#[test]
fn startup_status() {
    assert_eq!(startup_notice(true, "/r", 1, 2, 3), Notice::CatalogSummary { games: 1, scanned: 2, metadata: 3 });
    assert_eq!(
        startup_notice(false, "/r", 1, 2, 3).text(),
        "Pasta de ROMs não encontrada: /r"
    );
}

#[test]
fn one_session_at_a_time() {
    let mut busy = false;
    let (start, n) = begin_session(&mut busy, "x.sfc");
    assert!(start);
    assert!(busy);
    assert_eq!(n, Notice::Starting("x.sfc".to_string()));
    let (again, n2) = begin_session(&mut busy, "y.sfc");
    assert!(!again);
    assert_eq!(n2, Notice::SessionBusy);
}

#[test]
fn session_end_records_history() {
    let mut busy = true;
    let mut config = default_template(Some("/h".to_string()));
    let after = finish_session(&mut busy, &mut config, "/r/snes/x.sfc", SessionEnd::Exited { success: true, code: Some(0) });
    assert!(!busy);
    assert_eq!(after, AfterSession::Record { label: "x.sfc".to_string() });
    assert_eq!(config.history.last_game_path, Some("/r/snes/x.sfc".to_string()));
}

#[test]
fn session_failures_are_reported() {
    let mut busy = true;
    let mut config = default_template(None);
    let after = finish_session(&mut busy, &mut config, "/r/snes/x.sfc", SessionEnd::Exited { success: false, code: Some(2) });
    assert_eq!(
        after,
        AfterSession::Report(Notice::RetroArchExit { code: Some(2), label: "x.sfc".to_string() })
    );
    assert_eq!(config.history.last_game_path, None);
    let failed = finish_session(&mut busy, &mut config, "/", SessionEnd::Failed("no spawn".to_string()));
    assert_eq!(
        failed,
        AfterSession::Report(Notice::SessionFailed { label: "ROM".to_string(), error: "no spawn".to_string() })
    );
    assert_eq!(session_label_for("/r/a.gba"), "a.gba");
}

#[test]
fn sidebar_lines() {
    assert_eq!(nav_line("⊞", "Todos", Some(3)), "⊞  Todos        3");
    assert_eq!(nav_line("⌂", "Home", None), "⌂  Home");
}

#[test]
fn card_labels_and_badge() {
    assert_eq!(card_favorite_label(true), "★ Favorito");
    assert_eq!(card_favorite_label(false), "☆ Favoritar");
    assert_eq!(detail_favorite_label(true), "★ Remover favorito");
    assert_eq!(detail_favorite_label(false), "☆ Marcar favorito");
    assert_eq!(system_badge("snes"), "SNES");
}

#[test]
fn card_commands_in_order() {
    let g = game();
    let out = GameCardOutput { play: true, favorite_toggle: Some(true), open_details: true };
    let cmds = home_commands_for_card(&out, &g);
    assert_eq!(cmds.len(), 3);
    assert!(matches!(&cmds[0], HomeCommand::Launch(x) if x.path == g.path));
    assert!(matches!(&cmds[1], HomeCommand::Favorite(p, true) if *p == g.path));
    assert!(matches!(&cmds[2], HomeCommand::OpenDetail(p) if *p == g.path));
    let only_details = GameCardOutput { play: false, favorite_toggle: None, open_details: true };
    let lcmds = library_commands_for_card(&only_details, &g);
    assert_eq!(lcmds.len(), 1);
    assert!(matches!(&lcmds[0], LibraryCommand::OpenDetail(p) if *p == g.path));
}

#[test]
fn detail_information_lines() {
    let (a, b, c) = detail_lines(&game());
    assert_eq!(a, "Ano: 1990   Género: Plataforma");
    assert_eq!(b, "Desenvolvedor: —");
    assert_eq!(c, "Fonte metadados: offline-cache");
}

#[test]
fn grid_rows_split_cards() {
    assert_eq!(grid_row_ranges(7, 3), vec![(0, 3), (3, 6), (6, 7)]);
    assert_eq!(grid_row_ranges(6, 3), vec![(0, 3), (3, 6)]);
    assert!(grid_row_ranges(0, 4).is_empty());
}

#[test]
fn placeholder_uses_existing_cover() {
    assert_eq!(placeholder_key(&Some("/c.png".to_string()), true, "/g.sfc"), "/c.png");
    assert_eq!(placeholder_key(&Some("/c.png".to_string()), false, "/g.sfc"), "/g.sfc");
    assert_eq!(placeholder_key(&None, true, "/g.sfc"), "/g.sfc");
}

#[test]
fn remove_system_from_draft() {
    let c = default_template(None);
    let mut d = SettingsDraft::from_config(&c);
    assert_eq!(d.remove_system(1), Some("nes".to_string()));
    let keys: Vec<&str> = d.systems.iter().map(|x| x.key.as_str()).collect();
    assert_eq!(keys, vec!["gba", "snes"]);
    assert_eq!(d.remove_system(5), None);
    assert_eq!(d.systems.len(), 2);
}

#[test]
fn scanned_rows() {
    let sys = s("snes9x_libretro.so", &["sfc", "smc"]);
    let row = scanned_rom("snes", &sys, "/r/snes/Mario.SFC", None, u64::MAX, 77).unwrap();
    assert_eq!(row.file_name, "Mario.SFC");
    assert_eq!(row.extension, "sfc");
    assert_eq!(row.modified_unix, 77);
    assert_eq!(row.size_bytes, i64::MAX);
    let row2 = scanned_rom("snes", &sys, "/r/snes/a.smc", Some(5), 1024, 77).unwrap();
    assert_eq!((row2.modified_unix, row2.size_bytes, row2.scan_id), (5, 1024, 77));
    assert!(scanned_rom("snes", &sys, "/r/snes/a.zip", None, 1, 1).is_none());
    assert!(scanned_rom("snes", &sys, "/r/snes/README", None, 1, 1).is_none());
}

#[test]
fn libretro_discovery() {
    assert_eq!(libretro_dir_candidates().len(), 3);
    let entries = strings(&["/usr/lib/x86_64-linux-gnu", "/usr/lib/python3"]);
    assert_eq!(
        nested_libretro_candidates(&entries),
        strings(&["/usr/lib/x86_64-linux-gnu/libretro", "/usr/lib/python3/libretro"])
    );
    assert_eq!(
        discover_libretro_dir(&[false, true, true], &entries, &[true, false]),
        Some("/usr/local/lib/libretro".to_string())
    );
    assert_eq!(
        discover_libretro_dir(&[false, false, false], &entries, &[false, true]),
        Some("/usr/lib/python3/libretro".to_string())
    );
    assert_eq!(discover_libretro_dir(&[false, false, false], &[], &[]), None);
}

#[test]
fn legacy_data_locations() {
    let (cfg, cat) = legacy_data_paths("/home/ana");
    assert_eq!(cfg, "/home/ana/.config/rpi5-launcher/config.toml");
    assert_eq!(cat, "/home/ana/.local/share/rpi5-launcher/catalog.sqlite3");
}

#[test]
fn folder_walk_reads_last_pushed_first() {
    let mut walk = DirWalk::new("/r/snes".to_string());
    assert_eq!(walk.next_dir(), Some("/r/snes".to_string()));
    let files = walk.visit(&[
        ("/r/snes/a".to_string(), EntryKind::Dir),
        ("/r/snes/x.sfc".to_string(), EntryKind::File),
        ("/r/snes/b".to_string(), EntryKind::Dir),
        ("/r/snes/link".to_string(), EntryKind::Other),
        ("/r/snes/y.smc".to_string(), EntryKind::File),
    ]);
    assert_eq!(files, strings(&["/r/snes/x.sfc", "/r/snes/y.smc"]));
    assert_eq!(walk.next_dir(), Some("/r/snes/b".to_string()));
    assert!(walk.visit(&[]).is_empty());
    assert_eq!(walk.next_dir(), Some("/r/snes/a".to_string()));
    assert_eq!(walk.next_dir(), None);
}

#[test]
fn placeholder_colours() {
    assert_eq!(placeholder_palette(0, 0), ((40, 50, 90), (20, 80, 120)));
    assert_eq!(placeholder_palette(u64::MAX, 0), ((103, 129, 137), (67, 143, 167)));
    assert_eq!(placeholder_palette(0x3f, 0x3f), ((40, 50, 90), (20, 80, 120)));
}

#[test]
fn scanned_rom_launches_with_its_system() {
    let config = default_template(Some("/h".to_string()));
    let (key, sys) = &config.systems[2];
    let path = format!("{}/sub/Game.SMC", config.rom_dir_for_system(key));
    assert!(scanned_rom(key, sys, &path, None, 10, 1).is_some());
    let chosen = rpi_open_emulator::emulator::select_launch_system(&config, &path, Some(key.as_str()));
    assert_eq!(chosen, Ok((key.clone(), 2)));
}

#[test]
fn first_existing_retroarch_files() {
    let home = Some("/h".to_string());
    assert_eq!(
        rpi_open_emulator::emulator::first_existing_retroarch_main_cfg(&home, &[false, true]),
        Some("/h/.var/app/org.libretro.RetroArch/config/retroarch/retroarch.cfg".to_string())
    );
    assert_eq!(rpi_open_emulator::emulator::first_existing_retroarch_main_cfg(&None, &[]), None);
    assert_eq!(
        rpi_open_emulator::emulator::first_existing_autoconfig_dir(&None, &[false, false, true, true]),
        Some("/usr/lib/libretro/autoconfig".to_string())
    );
    assert_eq!(rpi_open_emulator::emulator::first_existing_autoconfig_dir(&home, &[false]), None);
}

#[test]
fn clock_readings_for_the_catalogue() {
    assert_eq!(unix_secs_from(1_700_000_000), Some(1_700_000_000));
    assert_eq!(unix_secs_from(u64::MAX), None);
    assert_eq!(now_secs_from(Some(42)), 42);
    assert_eq!(now_secs_from(Some(u64::MAX)), i64::MAX);
    assert_eq!(now_secs_from(None), 0);
}

#[test]
fn placeholder_colours_from_path_hash() {
    let mut h = std::collections::hash_map::DefaultHasher::new();
    std::path::Path::new("/r/snes/x.sfc").hash(&mut h);
    let expected = placeholder_palette(h.finish(), "Título".len() as u64);
    assert_eq!(rpi_open_emulator::screens::placeholder_colors("/r/snes/x.sfc", "Título"), expected);
}
