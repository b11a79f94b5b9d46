use rpi_open_emulator::catalog::GameEntry;
use rpi_open_emulator::config::{HistoryConfig, LauncherConfig, LibraryConfig, RetroArchConfig};
use rpi_open_emulator::default_systems::s;
use rpi_open_emulator::screens::{
    build_sidebar_counts, card_initial, card_title, continue_game, filter_by_search, find_game_by_path,
    section_active, NavFollowUp, SidebarNavAction,
};
use rpi_open_emulator::state::{filter_games, subsequence_fuzzy_match, AppState, AppView, FilterState, SidebarSection};

fn game(path: &str, title: &str, system: &str, favorite: bool, played: Option<i64>) -> GameEntry {
    GameEntry {
        path: path.to_string(),
        file_name: path.rsplit('/').next().unwrap().to_string(),
        extension: path.rsplit('.').next().unwrap().to_string(),
        system_key: system.to_string(),
        title: title.to_string(),
        description: None,
        cover_path: None,
        metadata_source: "scanner".to_string(),
        is_favorite: favorite,
        play_count: if played.is_some() { 1 } else { 0 },
        last_played_at: played,
        genre: None,
        release_year: None,
        developer: None,
    }
}

fn library() -> Vec<GameEntry> {
    vec![
        game("/r/snes/mario.sfc", "Super Mario World", "snes", true, Some(10)),
        game("/r/nes/zelda.nes", "The Legend of Zelda", "nes", false, None),
        game("/r/snes/kart.sfc", "Mario Kart", "SNES", false, Some(5)),
        game("/r/gba/metroid.gba", "Metroid Fusion", "gba", true, None),
    ]
}

fn config() -> LauncherConfig {
    LauncherConfig {
        retroarch: RetroArchConfig {
            binary_path: "retroarch".to_string(),
            cores_dir: "/usr/lib/libretro".to_string(),
            extra_args: vec![],
        },
        library: LibraryConfig { roms_dir: "/r".to_string(), bios_dir: "/b".to_string() },
        systems: vec![
            ("snes".to_string(), s("snes9x_libretro.so", &["sfc"])),
            ("gba".to_string(), s("mgba_libretro.so", &["gba"])),
            ("nes".to_string(), s("nestopia_libretro.so", &["nes"])),
        ],
        history: HistoryConfig::default(),
    }
}

fn titles(games: &[GameEntry]) -> Vec<String> {
    games.iter().map(|g| g.title.clone()).collect()
}

#[test]
fn fuzzy_subsequence() {
    assert!(subsequence_fuzzy_match("Mario", "mrio"));
    assert!(subsequence_fuzzy_match("Super Mario World", "SMW"));
    assert!(!subsequence_fuzzy_match("Mario", "oiram"));
    assert!(subsequence_fuzzy_match("anything", ""));
}

#[test]
fn search_matches_blob_and_fuzzy() {
    let g = game("/r/snes/mario.sfc", "Super Mario World", "snes", false, None);
    let mut f = FilterState::default();
    f.search_query = "  ".to_string();
    assert!(f.matches_search(&g));
    f.search_query = "WORLD".to_string();
    assert!(f.matches_search(&g));
    f.search_query = "mario.sfc".to_string();
    assert!(f.matches_search(&g));
    f.search_query = "smw".to_string();
    assert!(f.matches_search(&g));
    f.search_query = "zelda".to_string();
    assert!(!f.matches_search(&g));
}

#[test]
fn blank_filter_keeps_everything() {
    let games = library();
    let kept = filter_games(&games, &FilterState::default(), &[]);
    assert_eq!(titles(&kept), titles(&games));
}

#[test]
fn filter_sections() {
    let games = library();
    let fav = FilterState { section: SidebarSection::Favorites, search_query: String::new() };
    assert_eq!(titles(&filter_games(&games, &fav, &[])), vec!["Super Mario World", "Metroid Fusion"]);
    let recent = FilterState { section: SidebarSection::Recent, search_query: String::new() };
    assert_eq!(
        titles(&filter_games(&games, &recent, &["/r/nes/zelda.nes".to_string()])),
        vec!["The Legend of Zelda"]
    );
    let console = FilterState { section: SidebarSection::Console("snes".to_string()), search_query: "kart".to_string() };
    assert_eq!(titles(&filter_games(&games, &console, &[])), vec!["Mario Kart"]);
}

#[test]
fn search_only_filter() {
    let games = library();
    let f = FilterState { section: SidebarSection::Favorites, search_query: "mario".to_string() };
    assert_eq!(titles(&filter_by_search(&games, &f)), vec!["Super Mario World", "Mario Kart"]);
}

#[test]
fn sidebar_counts() {
    let counts = build_sidebar_counts(&library(), &config());
    assert_eq!(counts.total, 4);
    assert_eq!(counts.favorites, 2);
    assert_eq!(counts.recent, 2);
    assert_eq!(
        counts.systems,
        vec![("gba".to_string(), 1), ("nes".to_string(), 1), ("snes".to_string(), 2)]
    );
}

#[test]
fn find_and_continue() {
    let games = library();
    assert_eq!(find_game_by_path(&games, "/r/gba/metroid.gba").map(|g| g.title), Some("Metroid Fusion".to_string()));
    assert!(find_game_by_path(&games, "/missing").is_none());
    let recent = vec![games[2].clone()];
    let from_history = continue_game(&Some("/r/nes/zelda.nes".to_string()), &games, &recent);
    assert_eq!(from_history.map(|g| g.title), Some("The Legend of Zelda".to_string()));
    let fallback = continue_game(&Some("/gone.sfc".to_string()), &games, &recent);
    assert_eq!(fallback.map(|g| g.title), Some("Mario Kart".to_string()));
    assert!(continue_game(&None, &games, &[]).is_none());
}

#[test]
fn sidebar_highlight() {
    assert!(section_active(&AppView::Library, &SidebarSection::Console("SNES".to_string()), &SidebarSection::Console("snes".to_string())));
    assert!(!section_active(&AppView::Dashboard, &SidebarSection::All, &SidebarSection::All));
    assert!(!section_active(&AppView::Library, &SidebarSection::All, &SidebarSection::Recent));
}

#[test]
fn sidebar_navigation() {
    let mut st = AppState::new(library(), vec![], vec![], vec![]);
    assert_eq!(st.selected_view, AppView::Dashboard);
    assert_eq!(st.apply_sidebar_nav(SidebarNavAction::GoFavorites), NavFollowUp::Nothing);
    assert_eq!(st.selected_view, AppView::Library);
    assert_eq!(st.filter.section, SidebarSection::Favorites);
    assert_eq!(st.apply_sidebar_nav(SidebarNavAction::GoConsole("gba".to_string())), NavFollowUp::Nothing);
    assert_eq!(st.filter.section, SidebarSection::Console("gba".to_string()));
    assert_eq!(st.apply_sidebar_nav(SidebarNavAction::GoSettings), NavFollowUp::ReloadSettingsDraft);
    assert_eq!(st.selected_view, AppView::Settings);
    assert_eq!(st.filter.section, SidebarSection::Console("gba".to_string()));
    assert_eq!(st.apply_sidebar_nav(SidebarNavAction::SyncLibrary), NavFollowUp::SyncLibrary);
    assert_eq!(st.apply_sidebar_nav(SidebarNavAction::RefreshMetadata), NavFollowUp::RefreshMetadata);
    assert_eq!(st.apply_sidebar_nav(SidebarNavAction::GoHome), NavFollowUp::Nothing);
    assert_eq!(st.selected_view, AppView::Dashboard);
    assert_eq!(st.apply_sidebar_nav(SidebarNavAction::NoAction), NavFollowUp::Nothing);
    assert_eq!(st.games.len(), 4);
}

#[test]
fn card_titles_are_shortened() {
    assert_eq!(card_title("Tetris"), "Tetris");
    let long = "A".repeat(41);
    assert_eq!(card_title(&long), format!("{}…", "A".repeat(38)));
    assert_eq!(card_title(&"B".repeat(40)), "B".repeat(40));
}

#[test]
fn card_initials() {
    assert_eq!(card_initial("  zelda"), "Z");
    assert_eq!(card_initial("007 Racing"), "0");
    assert_eq!(card_initial("!!!"), "?");
    assert_eq!(card_initial(""), "?");
}

#[test]
fn longer_query_narrows_matches() {
    let games = library();
    let mut previous = games.len() + 1;
    for q in ["", "m", "ma", "mar", "mario", "mario k", "mario kart"] {
        let f = FilterState { section: SidebarSection::All, search_query: q.to_string() };
        let n = filter_by_search(&games, &f).len();
        assert!(n <= previous);
        previous = n;
    }
    assert_eq!(previous, 1);
}

#[test]
fn system_index_takes_first_of_repeated_keys() {
    let mut c = config();
    c.systems.push(("gba".to_string(), s("other_libretro.so", &["agb"])));
    assert_eq!(c.system_index("gba"), Some(1));
}
