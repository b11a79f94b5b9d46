use rpi_open_emulator::catalog::{
    cover_candidates, discover_cover_for_rom, file_name_for_path, sync_root_prefix, title_from_file_name,
    title_from_stem, GameEntry,
};
use rpi_open_emulator::order::sort_indices_by_keys;
use rpi_open_emulator::settings::parse_csv_values;
use rpi_open_emulator::text::{contains_chars, lower_string, str_eq_ignore_case, to_chars, trim_chars};

fn game(path: &str, title: &str, system: &str) -> GameEntry {
    GameEntry {
        path: path.to_string(),
        file_name: path.rsplit('/').next().unwrap().to_string(),
        extension: "sfc".to_string(),
        system_key: system.to_string(),
        title: title.to_string(),
        description: None,
        cover_path: None,
        metadata_source: "scanner".to_string(),
        is_favorite: false,
        play_count: 0,
        last_played_at: None,
        genre: None,
        release_year: None,
        developer: None,
    }
}

#[test]
fn title_drops_tags_and_underscores() {
    assert_eq!(title_from_file_name("Super_Mario_World (USA) [!].sfc"), "Super Mario World");
}

#[test]
fn title_keeps_plain_names() {
    assert_eq!(title_from_file_name("Tetris.gb"), "Tetris");
}

#[test]
fn title_handles_nested_and_unbalanced_brackets() {
    assert_eq!(title_from_stem("A (b [c] d) E ] F"), "A E F");
    assert_eq!(title_from_stem("  __x__  "), "x");
    assert_eq!(title_from_stem("(only tags)"), "");
}

#[test]
fn title_uses_the_stem_of_dotted_names() {
    assert_eq!(title_from_file_name("Game.v1.2.zip"), "Game.v1.2");
    assert_eq!(title_from_file_name(".hidden"), ".hidden");
}

#[test]
fn file_name_of_paths() {
    assert_eq!(file_name_for_path("/roms/snes/Zelda.sfc"), "Zelda.sfc");
    assert_eq!(file_name_for_path("/"), "/");
}

#[test]
fn csv_values_are_trimmed_and_non_empty() {
    assert_eq!(parse_csv_values(" sfc, ,smc ,"), vec!["sfc".to_string(), "smc".to_string()]);
    assert_eq!(parse_csv_values(""), Vec::<String>::new());
    assert_eq!(parse_csv_values("--verbose"), vec!["--verbose".to_string()]);
}

#[test]
fn csv_roundtrip_on_concrete_list() {
    let items = vec!["nes".to_string(), "fds".to_string(), "unf".to_string()];
    let text = items.join(", ");
    assert_eq!(parse_csv_values(&text), items);
    let again = parse_csv_values(&parse_csv_values(" a ,b,, c").join(", "));
    assert_eq!(again, vec!["a".to_string(), "b".to_string(), "c".to_string()]);
}

#[test]
fn text_helpers() {
    assert_eq!(lower_string("SNES-Ünï"), "snes-Ünï");
    assert!(str_eq_ignore_case("GBA", "gba"));
    assert!(!str_eq_ignore_case("GBA", "gbc"));
    assert_eq!(trim_chars(&to_chars("\t a b \u{3000}")), to_chars("a b"));
    assert!(contains_chars(&to_chars("super mario"), &to_chars("r ma")));
    assert!(!contains_chars(&to_chars("mario"), &to_chars("mrio")));
    assert!(contains_chars(&to_chars("mario"), &to_chars("")));
}

#[test]
fn sort_indices_orders_keys() {
    let keys: Vec<Vec<char>> = ["snes", "gba", "nes", "Zelda", "gb"].iter().map(|s| s.chars().collect()).collect();
    assert_eq!(sort_indices_by_keys(&keys), vec![3, 4, 1, 2, 0]);
    let dup: Vec<Vec<char>> = ["b", "a", "b", "a"].iter().map(|s| s.chars().collect()).collect();
    assert_eq!(sort_indices_by_keys(&dup), vec![1, 3, 0, 2]);
}

#[test]
fn cover_candidates_in_order() {
    let c = cover_candidates("/roms/snes/Zelda.sfc", "snes", "/roms").unwrap();
    assert_eq!(c.len(), 12);
    assert_eq!(c[0], "/roms/snes/Zelda.png");
    assert_eq!(c[3], "/roms/snes/Zelda.webp");
    assert_eq!(c[4], "/roms/covers/snes/Zelda.png");
    assert_eq!(c[8], "/roms/covers/Zelda.png");
    assert_eq!(c[11], "/roms/covers/Zelda.webp");
    assert!(cover_candidates("", "snes", "/roms").is_none());
}

#[test]
fn discover_cover_picks_first_existing() {
    let mut flags = vec![false; 12];
    flags[5] = true;
    flags[9] = true;
    assert_eq!(
        discover_cover_for_rom("/roms/snes/Zelda.sfc", "snes", "/roms", &flags),
        Some("/roms/covers/snes/Zelda.jpg".to_string())
    );
    assert_eq!(discover_cover_for_rom("/roms/snes/Zelda.sfc", "snes", "/roms", &vec![false; 12]), None);
}

#[test]
fn sync_prefix_strips_trailing_slashes() {
    assert_eq!(sync_root_prefix("/home/pi/ROMs//"), "/home/pi/ROMs/%");
    assert_eq!(sync_root_prefix("/home/pi/ROMs"), "/home/pi/ROMs/%");
    assert_eq!(sync_root_prefix("/"), "/%");
}

#[test]
fn duplicate_copies_every_field() {
    let mut g = game("/roms/snes/a.sfc", "A", "snes");
    g.description = Some("d".to_string());
    g.release_year = Some(1991);
    let d = g.duplicate();
    assert_eq!(d.path, g.path);
    assert_eq!(d.description, g.description);
    assert_eq!(d.release_year, Some(1991));
}
