//! The decisions behind the screens: sidebar counts, navigation, the game a
//! home screen offers to resume, the searches of the home carousels and the
//! texts shown on a game card.
use vstd::prelude::*;

use crate::catalog::GameEntry;
use crate::config::{system_keys, LauncherConfig};
use crate::order::{char_vec_views, is_index_permutation, lex_le, sort_indices_by_keys, stable_by_keys};
use crate::paths::{opt_view, path_eq, same_path};
use crate::state::{search_matches, AppState, AppView, FilterState, SidebarSection};
use crate::text::{
    cat2, cat3, chars_eq, decimal, decimal_string, eq_ignore_case, lower, lower_chars, pad_right,
    pad_right_string, signed_decimal, signed_decimal_string, to_chars, upper, upper_string,
};

verus! {

/// The numbers shown in the sidebar.
pub struct SidebarCounts {
    pub total: usize,
    pub favorites: usize,
    pub recent: usize,
    /// Each configured system key, in lexicographic order, with its number of
    /// games.
    pub systems: Vec<(String, usize)>,
}

/// What a click in the sidebar asks for.
#[derive(Debug, Clone, PartialEq, Eq)]
pub enum SidebarNavAction {
    NoAction,
    GoHome,
    GoLibraryAll,
    GoFavorites,
    GoRecent,
    GoConsole(String),
    SyncLibrary,
    RefreshMetadata,
    GoSettings,
}

/// Commands raised by the home screen.
pub enum HomeCommand {
    Launch(GameEntry),
    Favorite(String, bool),
    OpenDetail(String),
}

/// Commands raised by the library grid.
pub enum LibraryCommand {
    Launch(GameEntry),
    Favorite(String, bool),
    OpenDetail(String),
}

/// Commands raised by the game detail screen.
pub enum DetailCommand {
    Launch(GameEntry),
    Favorite(String, bool),
    Back,
}

/// What the user did on one game card.
pub struct GameCardOutput {
    pub play: bool,
    pub favorite_toggle: Option<bool>,
    pub open_details: bool,
}

/// Number of favourites.
pub open spec fn favorite_count(games: Seq<GameEntry>) -> nat {
    games.filter(|g: GameEntry| g.is_favorite).len()
}

/// Number of games that were ever played.
pub open spec fn played_count(games: Seq<GameEntry>) -> nat {
    games.filter(|g: GameEntry| g.last_played_at is Some).len()
}

/// Number of games of a system (keys compared up to ASCII case).
pub open spec fn system_count(games: Seq<GameEntry>, key: Seq<char>) -> nat {
    games.filter(|g: GameEntry| eq_ignore_case(g.system_key@, key)).len()
}

/// `r` is the sidebar summary of `games` for the system keys `keys`.
pub open spec fn counts_of(r: SidebarCounts, games: Seq<GameEntry>, keys: Seq<Seq<char>>) -> bool {
    &&& r.total == games.len()
    &&& r.favorites == favorite_count(games)
    &&& r.recent == played_count(games)
    &&& r.systems@.len() == keys.len()
    &&& exists|order: Seq<usize>|
        #![trigger is_index_permutation(order, keys.len())]
        is_index_permutation(order, keys.len()) && stable_by_keys(order, keys) && forall|i: int|
            0 <= i < r.systems@.len() ==> #[trigger] r.systems@[i].0@ == keys[order[i] as int]
    &&& forall|a: int, b: int|
        0 <= a < b < r.systems@.len() ==> lex_le(r.systems@[a].0@, r.systems@[b].0@)
    &&& forall|i: int|
        0 <= i < r.systems@.len() ==> #[trigger] r.systems@[i].1 == system_count(games, r.systems@[i].0@)
}

fn count_favorites(games: &[GameEntry]) -> (n: usize)
    ensures
        n == favorite_count(games@),
{
    let ghost p = |g: GameEntry| g.is_favorite;
    let mut n: usize = 0;
    for i in 0..games.len()
        invariant
            p == (|g: GameEntry| g.is_favorite),
            n == games@.take(i as int).filter(p).len(),
            n <= i,
    {
        proof {
            reveal_with_fuel(Seq::<_>::filter, 1);
            assert(games@.take(i + 1).drop_last() == games@.take(i as int));
        }
        if games[i].is_favorite {
            n = n + 1;
        }
    }
    assert(games@.take(games@.len() as int) == games@);
    n
}

fn count_played(games: &[GameEntry]) -> (n: usize)
    ensures
        n == played_count(games@),
{
    let ghost p = |g: GameEntry| g.last_played_at is Some;
    let mut n: usize = 0;
    for i in 0..games.len()
        invariant
            p == (|g: GameEntry| g.last_played_at is Some),
            n == games@.take(i as int).filter(p).len(),
            n <= i,
    {
        proof {
            reveal_with_fuel(Seq::<_>::filter, 1);
            assert(games@.take(i + 1).drop_last() == games@.take(i as int));
        }
        if games[i].last_played_at.is_some() {
            n = n + 1;
        }
    }
    assert(games@.take(games@.len() as int) == games@);
    n
}

fn count_system(games: &[GameEntry], key: &[char]) -> (n: usize)
    ensures
        n == system_count(games@, key@),
{
    let ghost p = |g: GameEntry| eq_ignore_case(g.system_key@, key@);
    let lk = lower_chars(key);
    let mut n: usize = 0;
    for i in 0..games.len()
        invariant
            p == (|g: GameEntry| eq_ignore_case(g.system_key@, key@)),
            lk@ == lower(key@),
            n == games@.take(i as int).filter(p).len(),
            n <= i,
    {
        proof {
            reveal_with_fuel(Seq::<_>::filter, 1);
            assert(games@.take(i + 1).drop_last() == games@.take(i as int));
        }
        let gk = to_chars(games[i].system_key.as_str());
        let lg = lower_chars(gk.as_slice());
        if chars_eq(lg.as_slice(), lk.as_slice()) {
            n = n + 1;
        }
    }
    assert(games@.take(games@.len() as int) == games@);
    n
}

/// The sidebar summary: the number of games, of favourites, of games ever
/// played, and for each configured system key (in lexicographic order) the
/// number of games whose system key equals it up to ASCII case.
pub fn build_sidebar_counts(games: &[GameEntry], config: &LauncherConfig) -> (r: SidebarCounts)
    ensures
        counts_of(r, games@, system_keys(config.systems@)),
{
    let ghost keys = system_keys(config.systems@);
    let total = games.len();
    let favorites = count_favorites(games);
    let recent = count_played(games);
    let mut key_chars: Vec<Vec<char>> = Vec::new();
    for i in 0..config.systems.len()
        invariant
            keys == system_keys(config.systems@),
            key_chars@.len() == i,
            forall|k: int| 0 <= k < i ==> #[trigger] key_chars@[k]@ == keys[k],
    {
        key_chars.push(to_chars(config.systems[i].0.as_str()));
    }
    assert(char_vec_views(key_chars@) =~= keys);
    let order = sort_indices_by_keys(key_chars.as_slice());
    let mut systems: Vec<(String, usize)> = Vec::new();
    for i in 0..order.len()
        invariant
            keys == system_keys(config.systems@),
            char_vec_views(key_chars@) == keys,
            key_chars@.len() == keys.len(),
            is_index_permutation(order@, keys.len()),
            crate::order::sorted_by_keys(order@, keys),
            systems@.len() == i,
            forall|k: int| 0 <= k < i ==> #[trigger] systems@[k].0@ == keys[order@[k] as int],
            forall|k: int| 0 <= k < i ==> #[trigger] systems@[k].1 == system_count(games@, systems@[k].0@),
    {
        let idx = order[i];
        assert(order@[i as int] < keys.len());
        let name = config.systems[idx].0.clone();
        let n = count_system(games, key_chars[idx].as_slice());
        assert(keys[idx as int] == config.systems@[idx as int].0@);
        assert(key_chars@[idx as int]@ == char_vec_views(key_chars@)[idx as int]);
        let ghost before = systems@;
        systems.push((name, n));
        assert forall|k: int| 0 <= k < i + 1 implies #[trigger] systems@[k].0@ == keys[order@[k] as int] by {
            if k < i {
                assert(systems@[k] == before[k]);
            }
        }
    }
    let r = SidebarCounts { total, favorites, recent, systems };
    assert(is_index_permutation(order@, keys.len()));
    r
}

/// Keeps the games that match the search text, in order.
pub fn filter_by_search(games: &[GameEntry], filter: &FilterState) -> (r: Vec<GameEntry>)
    ensures
        r@ == games@.filter(|g: GameEntry| search_matches(filter.search_query@, g)),
{
    let ghost pred = |g: GameEntry| search_matches(filter.search_query@, g);
    let mut out: Vec<GameEntry> = Vec::new();
    for i in 0..games.len()
        invariant
            pred == (|g: GameEntry| search_matches(filter.search_query@, g)),
            out@ == games@.take(i as int).filter(pred),
    {
        if filter.matches_search(&games[i]) {
            out.push(games[i].duplicate());
        }
        proof {
            reveal_with_fuel(Seq::<_>::filter, 1);
            assert(games@.take(i + 1).drop_last() == games@.take(i as int));
        }
    }
    assert(games@.take(games@.len() as int) == games@);
    out
}

/// Index of the first game whose path is `path` (paths compared component
/// by component).
pub open spec fn first_with_path(games: Seq<GameEntry>, path: Seq<char>) -> Option<int>
    decreases games.len(),
{
    if games.len() == 0 {
        None
    } else if same_path(games[0].path@, path) {
        Some(0)
    } else {
        match first_with_path(games.drop_first(), path) {
            Some(i) => Some(i + 1),
            None => None,
        }
    }
}

/// The first game of `games` whose path is `path` (as paths).
pub fn find_game_by_path(games: &[GameEntry], path: &str) -> (r: Option<GameEntry>)
    ensures
        match first_with_path(games@, path@) {
            Some(i) => r == Some(games@[i]),
            None => r is None,
        },
{
    let n = games.len();
    let mut i: usize = 0;
    assert(games@.skip(0) == games@);
    while i < n
        invariant
            n == games@.len(),
            i <= n,
            first_with_path(games@, path@) == (match first_with_path(games@.skip(i as int), path@) {
                Some(k) => Some(k + i),
                None => None,
            }),
        decreases n - i,
    {
        assert(games@.skip(i as int)[0] == games@[i as int]);
        if path_eq(games[i].path.as_str(), path) {
            return Some(games[i].duplicate());
        }
        assert(games@.skip(i as int).drop_first() == games@.skip(i + 1));
        i = i + 1;
    }
    None
}

/// The game the home screen offers to resume: the last played one when it is
/// still in the catalogue, otherwise the most recent one.
pub fn continue_game(last_game_path: &Option<String>, games: &[GameEntry], recent: &[GameEntry]) -> (r: Option<GameEntry>)
    ensures
        ({
            let from_history = match opt_view(*last_game_path) {
                Some(p) => match first_with_path(games@, p) {
                    Some(i) => Some(games@[i]),
                    None => None,
                },
                None => None,
            };
            match from_history {
                Some(g) => r == Some(g),
                None => r == (if recent@.len() > 0 { Some(recent@[0]) } else { None::<GameEntry> }),
            }
        }),
{
    if let Some(p) = last_game_path {
        if let Some(g) = find_game_by_path(games, p.as_str()) {
            return Some(g);
        }
    }
    if recent.len() > 0 {
        Some(recent[0].duplicate())
    } else {
        None
    }
}

/// A sidebar entry is highlighted when the library is shown in its section
/// (console keys compared up to ASCII case).
pub open spec fn section_is_active(view: AppView, current: SidebarSection, entry: SidebarSection) -> bool {
    &&& view == AppView::Library
    &&& match (current, entry) {
        (SidebarSection::All, SidebarSection::All) => true,
        (SidebarSection::Favorites, SidebarSection::Favorites) => true,
        (SidebarSection::Recent, SidebarSection::Recent) => true,
        (SidebarSection::Console(a), SidebarSection::Console(b)) => eq_ignore_case(a@, b@),
        _ => false,
    }
}

/// Whether a sidebar entry is highlighted.
pub fn section_active(view: &AppView, current: &SidebarSection, entry: &SidebarSection) -> (r: bool)
    ensures
        r == section_is_active(*view, *current, *entry),
{
    match view {
        AppView::Library => {},
        _ => {
            return false;
        },
    }
    match (current, entry) {
        (SidebarSection::All, SidebarSection::All) => true,
        (SidebarSection::Favorites, SidebarSection::Favorites) => true,
        (SidebarSection::Recent, SidebarSection::Recent) => true,
        (SidebarSection::Console(a), SidebarSection::Console(b)) => crate::text::str_eq_ignore_case(a.as_str(), b.as_str()),
        _ => false,
    }
}

/// Further work a sidebar click asks of the application.
#[derive(Debug, Clone, Copy, PartialEq, Eq)]
pub enum NavFollowUp {
    Nothing,
    ReloadSettingsDraft,
    SyncLibrary,
    RefreshMetadata,
}

impl AppState {
    /// Applies a sidebar click: the navigation actions change the view and
    /// the section; the others leave the state alone and name the work to
    /// do.
    pub fn apply_sidebar_nav(&mut self, nav: SidebarNavAction) -> (r: NavFollowUp)
        ensures
            final(self).games == old(self).games,
            final(self).recent == old(self).recent,
            final(self).recently_added == old(self).recently_added,
            final(self).most_played == old(self).most_played,
            final(self).filter.search_query == old(self).filter.search_query,
            match nav {
                SidebarNavAction::NoAction => *final(self) == *old(self) && r == NavFollowUp::Nothing,
                SidebarNavAction::GoHome => final(self).selected_view == AppView::Dashboard
                    && final(self).filter.section == old(self).filter.section && r == NavFollowUp::Nothing,
                SidebarNavAction::GoLibraryAll => final(self).selected_view == AppView::Library
                    && final(self).filter.section == SidebarSection::All && r == NavFollowUp::Nothing,
                SidebarNavAction::GoFavorites => final(self).selected_view == AppView::Library
                    && final(self).filter.section == SidebarSection::Favorites && r == NavFollowUp::Nothing,
                SidebarNavAction::GoRecent => final(self).selected_view == AppView::Library
                    && final(self).filter.section == SidebarSection::Recent && r == NavFollowUp::Nothing,
                SidebarNavAction::GoConsole(key) => final(self).selected_view == AppView::Library
                    && final(self).filter.section == SidebarSection::Console(key) && r == NavFollowUp::Nothing,
                SidebarNavAction::GoSettings => final(self).selected_view == AppView::Settings
                    && final(self).filter.section == old(self).filter.section && r == NavFollowUp::ReloadSettingsDraft,
                SidebarNavAction::SyncLibrary => *final(self) == *old(self) && r == NavFollowUp::SyncLibrary,
                SidebarNavAction::RefreshMetadata => *final(self) == *old(self) && r == NavFollowUp::RefreshMetadata,
            },
    {
        match nav {
            SidebarNavAction::NoAction => NavFollowUp::Nothing,
            SidebarNavAction::GoHome => {
                self.selected_view = AppView::Dashboard;
                NavFollowUp::Nothing
            },
            SidebarNavAction::GoLibraryAll => {
                self.selected_view = AppView::Library;
                self.filter.section = SidebarSection::All;
                NavFollowUp::Nothing
            },
            SidebarNavAction::GoFavorites => {
                self.selected_view = AppView::Library;
                self.filter.section = SidebarSection::Favorites;
                NavFollowUp::Nothing
            },
            SidebarNavAction::GoRecent => {
                self.selected_view = AppView::Library;
                self.filter.section = SidebarSection::Recent;
                NavFollowUp::Nothing
            },
            SidebarNavAction::GoConsole(key) => {
                self.selected_view = AppView::Library;
                self.filter.section = SidebarSection::Console(key);
                NavFollowUp::Nothing
            },
            SidebarNavAction::GoSettings => {
                self.selected_view = AppView::Settings;
                NavFollowUp::ReloadSettingsDraft
            },
            SidebarNavAction::SyncLibrary => NavFollowUp::SyncLibrary,
            SidebarNavAction::RefreshMetadata => NavFollowUp::RefreshMetadata,
        }
    }
}

} // verus!

verus! {

/// The title shown on a card: titles longer than 40 characters are cut to
/// 38 characters followed by `…`.
pub open spec fn card_title_of(title: Seq<char>) -> Seq<char> {
    if title.len() > 40 {
        title.take(38).push('…')
    } else {
        title
    }
}

/// The title shown on a card.
pub fn card_title(title: &str) -> (r: String)
    ensures
        r@ == card_title_of(title@),
{
    let cs = to_chars(title);
    if cs.len() > 40 {
        let mut t = crate::text::slice_chars(cs.as_slice(), 0, 38);
        t.push('…');
        crate::text::from_chars(t.as_slice())
    } else {
        title.to_owned()
    }
}

/// Index of the first alphanumeric character.
pub open spec fn first_alnum(s: Seq<char>) -> Option<int>
    decreases s.len(),
{
    if s.len() == 0 {
        None
    } else if crate::text::is_alnum(s[0]) {
        Some(0)
    } else {
        match first_alnum(s.drop_first()) {
            Some(i) => Some(i + 1),
            None => None,
        }
    }
}

/// The letter drawn on a card without cover: the first alphanumeric
/// character of the title, ASCII upper-cased, or `?`.
pub open spec fn card_initial_of(title: Seq<char>) -> Seq<char> {
    match first_alnum(title) {
        Some(i) => seq![crate::text::ascii_upper(title[i])],
        None => "?"@,
    }
}

/// The letter drawn on a card without cover.
pub fn card_initial(title: &str) -> (r: String)
    ensures
        r@ == card_initial_of(title@),
{
    let cs = to_chars(title);
    let n = cs.len();
    let mut i: usize = 0;
    assert(cs@.skip(0) == cs@);
    while i < n
        invariant
            n == cs@.len(),
            cs@ == title@,
            i <= n,
            first_alnum(cs@) == (match first_alnum(cs@.skip(i as int)) {
                Some(k) => Some(k + i),
                None => None,
            }),
        decreases n - i,
    {
        assert(cs@.skip(i as int)[0] == cs@[i as int]);
        if crate::text::is_alphanumeric(cs[i]) {
            let mut out: Vec<char> = Vec::new();
            out.push(crate::text::upper_char(cs[i]));
            assert(out@ == seq![crate::text::ascii_upper(cs@[i as int])]);
            return crate::text::from_chars(out.as_slice());
        }
        assert(cs@.skip(i as int).drop_first() == cs@.skip(i + 1));
        i = i + 1;
    }
    "?".to_owned()
}

} // verus!

verus! {

/// The sidebar numbers never exceed the number of games.
pub proof fn lemma_sidebar_counts_bounded(r: SidebarCounts, games: Seq<GameEntry>, keys: Seq<Seq<char>>)
    requires
        counts_of(r, games, keys),
    ensures
        r.favorites <= r.total,
        r.recent <= r.total,
        forall|i: int| 0 <= i < r.systems@.len() ==> #[trigger] r.systems@[i].1 <= r.total,
{
    games.lemma_filter_len(|g: GameEntry| g.is_favorite);
    games.lemma_filter_len(|g: GameEntry| g.last_played_at is Some);
    assert forall|i: int| 0 <= i < r.systems@.len() implies #[trigger] r.systems@[i].1 <= r.total by {
        let k = r.systems@[i].0@;
        games.lemma_filter_len(|g: GameEntry| eq_ignore_case(g.system_key@, k));
    }
}

} // verus!

verus! {

/// One sidebar entry: the icon, two spaces and the label; with a count, the
/// label left-aligned in twelve columns, a space and the count.
pub open spec fn nav_line_text(icon: Seq<char>, label: Seq<char>, count: Option<usize>) -> Seq<char> {
    match count {
        Some(c) => icon + "  "@ + pad_right(label, 12) + " "@ + decimal(c as nat),
        None => icon + "  "@ + label,
    }
}

/// The text of a sidebar entry.
pub fn nav_line(icon: &str, label: &str, count: Option<usize>) -> (r: String)
    ensures
        r@ == nav_line_text(icon@, label@, count),
{
    match count {
        Some(c) => {
            let padded = pad_right_string(label, 12);
            let digits = decimal_string(c as u64);
            let head = cat3(icon, "  ", padded.as_str());
            cat3(head.as_str(), " ", digits.as_str())
        },
        None => cat3(icon, "  ", label),
    }
}

/// The favourite button of a card.
pub open spec fn card_favorite_text(is_favorite: bool) -> Seq<char> {
    if is_favorite {
        "★ Favorito"@
    } else {
        "☆ Favoritar"@
    }
}

/// The favourite button of a card.
pub fn card_favorite_label(is_favorite: bool) -> (r: &'static str)
    ensures
        r@ == card_favorite_text(is_favorite),
{
    if is_favorite {
        "★ Favorito"
    } else {
        "☆ Favoritar"
    }
}

/// The favourite button of the detail screen.
pub open spec fn detail_favorite_text(is_favorite: bool) -> Seq<char> {
    if is_favorite {
        "★ Remover favorito"@
    } else {
        "☆ Marcar favorito"@
    }
}

/// The favourite button of the detail screen.
pub fn detail_favorite_label(is_favorite: bool) -> (r: &'static str)
    ensures
        r@ == detail_favorite_text(is_favorite),
{
    if is_favorite {
        "★ Remover favorito"
    } else {
        "☆ Marcar favorito"
    }
}

/// The system badge of a game: its key in ASCII capitals.
pub fn system_badge(system_key: &str) -> (r: String)
    ensures
        r@ == upper(system_key@),
{
    upper_string(system_key)
}

/// The commands a card raises, in order: play, favourite toggle, details.
pub open spec fn card_command_kinds(out: GameCardOutput) -> Seq<int> {
    (if out.play { seq![0int] } else { seq![] }) + (if out.favorite_toggle is Some { seq![1int] } else { seq![] })
        + (if out.open_details { seq![2int] } else { seq![] })
}

/// `c` is the home command of kind `k` (see `card_command_kinds`) for `g`.
pub open spec fn home_command_is(c: HomeCommand, k: int, out: GameCardOutput, g: GameEntry) -> bool {
    match c {
        HomeCommand::Launch(x) => k == 0 && x == g,
        HomeCommand::Favorite(p, v) => k == 1 && p@ == g.path@ && out.favorite_toggle == Some(v),
        HomeCommand::OpenDetail(p) => k == 2 && p@ == g.path@,
    }
}

/// `c` is the library command of kind `k` for `g`.
pub open spec fn library_command_is(c: LibraryCommand, k: int, out: GameCardOutput, g: GameEntry) -> bool {
    match c {
        LibraryCommand::Launch(x) => k == 0 && x == g,
        LibraryCommand::Favorite(p, v) => k == 1 && p@ == g.path@ && out.favorite_toggle == Some(v),
        LibraryCommand::OpenDetail(p) => k == 2 && p@ == g.path@,
    }
}

/// The commands a home-screen card raises for its game.
pub fn home_commands_for_card(out: &GameCardOutput, g: &GameEntry) -> (r: Vec<HomeCommand>)
    ensures
        r@.len() == card_command_kinds(*out).len(),
        forall|i: int| 0 <= i < r@.len() ==> home_command_is(#[trigger] r@[i], card_command_kinds(*out)[i], *out, *g),
{
    let mut cmds: Vec<HomeCommand> = Vec::new();
    if out.play {
        cmds.push(HomeCommand::Launch(g.duplicate()));
    }
    if let Some(v) = out.favorite_toggle {
        cmds.push(HomeCommand::Favorite(g.path.clone(), v));
    }
    if out.open_details {
        cmds.push(HomeCommand::OpenDetail(g.path.clone()));
    }
    cmds
}

/// The commands a library-grid card raises for its game.
pub fn library_commands_for_card(out: &GameCardOutput, g: &GameEntry) -> (r: Vec<LibraryCommand>)
    ensures
        r@.len() == card_command_kinds(*out).len(),
        forall|i: int| 0 <= i < r@.len() ==> library_command_is(#[trigger] r@[i], card_command_kinds(*out)[i], *out, *g),
{
    let mut cmds: Vec<LibraryCommand> = Vec::new();
    if out.play {
        cmds.push(LibraryCommand::Launch(g.duplicate()));
    }
    if let Some(v) = out.favorite_toggle {
        cmds.push(LibraryCommand::Favorite(g.path.clone(), v));
    }
    if out.open_details {
        cmds.push(LibraryCommand::OpenDetail(g.path.clone()));
    }
    cmds
}

/// A missing detail field is shown as a dash.
pub open spec fn or_dash(v: Option<Seq<char>>) -> Seq<char> {
    match v {
        Some(s) => s,
        None => "—"@,
    }
}

/// The year of a game as shown, or a dash.
pub open spec fn year_text(year: Option<i32>) -> Seq<char> {
    match year {
        Some(y) => signed_decimal(y as int),
        None => "—"@,
    }
}

/// The three information lines of the detail screen.
pub open spec fn detail_lines_text(g: GameEntry) -> (Seq<char>, Seq<char>, Seq<char>) {
    (
        "Ano: "@ + year_text(g.release_year) + "   Género: "@ + or_dash(opt_view(g.genre)),
        "Desenvolvedor: "@ + or_dash(opt_view(g.developer)),
        "Fonte metadados: "@ + g.metadata_source@,
    )
}

fn dash_or(v: &Option<String>) -> (r: String)
    ensures
        r@ == or_dash(opt_view(*v)),
{
    match v {
        Some(s) => s.clone(),
        None => "—".to_owned(),
    }
}

/// The year, genre and developer line, the developer line and the metadata
/// source line of the detail screen.
pub fn detail_lines(g: &GameEntry) -> (r: (String, String, String))
    ensures
        (r.0@, r.1@, r.2@) == detail_lines_text(*g),
{
    let year = match g.release_year {
        Some(y) => signed_decimal_string(y as i64),
        None => "—".to_owned(),
    };
    let genre = dash_or(&g.genre);
    let dev = dash_or(&g.developer);
    let head = cat3("Ano: ", year.as_str(), "   Género: ");
    let first = cat2(head.as_str(), genre.as_str());
    let second = cat2("Desenvolvedor: ", dev.as_str());
    let third = cat2("Fonte metadados: ", g.metadata_source.as_str());
    (first, second, third)
}

/// The rows of a grid of `n` cards with `cols` cards per row: each row as
/// the range `[start, end)` of card positions, all rows full but the last.
pub fn grid_row_ranges(n: usize, cols: usize) -> (r: Vec<(usize, usize)>)
    requires
        cols > 0,
    ensures
        r@.len() == (if n == 0 { 0 } else { (n - 1) / (cols as int) + 1 }),
        forall|i: int| 0 <= i < r@.len() ==> {
            &&& #[trigger] r@[i].0 == i * cols
            &&& r@[i].1 == (if (i + 1) * cols <= n { (i + 1) * cols } else { n as int })
        },
{
    let mut rows: Vec<(usize, usize)> = Vec::new();
    if n == 0 {
        return rows;
    }
    let mut pos: usize = 0;
    assert(rows@.len() * cols == 0) by (nonlinear_arith)
        requires
            rows@.len() == 0,
    ;
    loop
        invariant_except_break
            cols > 0,
            n > 0,
            pos < n,
            pos == rows@.len() * cols,
            forall|i: int| 0 <= i < rows@.len() ==> {
                &&& #[trigger] rows@[i].0 == i * cols
                &&& rows@[i].1 == (if (i + 1) * cols <= n { (i + 1) * cols } else { n as int })
            },
        ensures
            rows@.len() == (n - 1) / (cols as int) + 1,
            forall|i: int| 0 <= i < rows@.len() ==> {
                &&& #[trigger] rows@[i].0 == i * cols
                &&& rows@[i].1 == (if (i + 1) * cols <= n { (i + 1) * cols } else { n as int })
            },
        decreases n - pos,
    {
        let ghost k = rows@.len() as int;
        let ghost before = rows@;
        assert((k + 1) * cols == k * cols + cols) by (nonlinear_arith);
        if n - pos > cols {
            rows.push((pos, pos + cols));
            pos = pos + cols;
            assert forall|i: int| 0 <= i < rows@.len() implies {
                &&& #[trigger] rows@[i].0 == i * cols
                &&& rows@[i].1 == (if (i + 1) * cols <= n { (i + 1) * cols } else { n as int })
            } by {
                if i < k {
                    assert(rows@[i] == before[i]);
                }
            }
        } else {
            rows.push((pos, n));
            assert forall|i: int| 0 <= i < rows@.len() implies {
                &&& #[trigger] rows@[i].0 == i * cols
                &&& rows@[i].1 == (if (i + 1) * cols <= n { (i + 1) * cols } else { n as int })
            } by {
                if i < k {
                    assert(rows@[i] == before[i]);
                }
            }
            assert((n - 1) / (cols as int) == k) by (nonlinear_arith)
                requires
                    k * cols < n,
                    n <= k * cols + cols,
                    cols > 0,
                    k >= 0,
            ;
            break;
        }
    }
    rows
}

/// The path whose placeholder picture a card shows: its cover when that file
/// exists, otherwise the game itself.
pub open spec fn placeholder_key_of(cover: Option<Seq<char>>, cover_exists: bool, game_path: Seq<char>) -> Seq<char> {
    match cover {
        Some(c) if cover_exists => c,
        _ => game_path,
    }
}

/// The key of a card's placeholder picture.
pub fn placeholder_key(cover_path: &Option<String>, cover_exists: bool, game_path: &str) -> (r: String)
    ensures
        r@ == placeholder_key_of(opt_view(*cover_path), cover_exists, game_path@),
{
    match cover_path {
        Some(c) => if cover_exists {
            c.clone()
        } else {
            game_path.to_owned()
        },
        None => game_path.to_owned(),
    }
}

} // verus!

verus! {

/// The two corner colours of a card's placeholder picture, from the hash of
/// its key path and the byte length of the game's title.
pub open spec fn placeholder_palette_of(path_hash: u64, title_bytes: u64) -> ((u8, u8, u8), (u8, u8, u8)) {
    let seed = path_hash ^ title_bytes;
    (
        (
            (40 + (seed & 0x3f)) as u8,
            (50 + ((seed >> 8u64) & 0x4f)) as u8,
            (90 + ((seed >> 16u64) & 0x2f)) as u8,
        ),
        (
            (20 + ((seed >> 24u64) & 0x2f)) as u8,
            (80 + ((seed >> 32u64) & 0x3f)) as u8,
            (120 + ((seed >> 40u64) & 0x2f)) as u8,
        ),
    )
}

/// The placeholder colours of a card.
pub fn placeholder_palette(path_hash: u64, title_bytes: u64) -> (r: ((u8, u8, u8), (u8, u8, u8)))
    ensures
        r == placeholder_palette_of(path_hash, title_bytes),
{
    let seed = path_hash ^ title_bytes;
    let a = seed & 0x3f;
    let b = (seed >> 8u64) & 0x4f;
    let c = (seed >> 16u64) & 0x2f;
    let d = (seed >> 24u64) & 0x2f;
    let e = (seed >> 32u64) & 0x3f;
    let f = (seed >> 40u64) & 0x2f;
    assert(a <= 0x3f && b <= 0x4f && c <= 0x2f && d <= 0x2f && e <= 0x3f && f <= 0x2f) by (bit_vector)
        requires
            a == seed & 0x3f,
            b == (seed >> 8u64) & 0x4f,
            c == (seed >> 16u64) & 0x2f,
            d == (seed >> 24u64) & 0x2f,
            e == (seed >> 32u64) & 0x3f,
            f == (seed >> 40u64) & 0x2f,
    ;
    (
        ((40 + a) as u8, (50 + b) as u8, (90 + c) as u8),
        ((20 + d) as u8, (80 + e) as u8, (120 + f) as u8),
    )
}

/// The placeholder colours of a card whose picture is keyed by `key_path`,
/// for a game titled `title` (its length counted in UTF-8 bytes).
pub fn placeholder_colors(key_path: &str, title: &str) -> (r: ((u8, u8, u8), (u8, u8, u8)))
    ensures
        r == placeholder_palette_of(crate::paths::default_path_hash(key_path@), title.len() as u64),
{
    let h = crate::paths::path_hash(key_path);
    let n = title.len();
    placeholder_palette(h, n as u64)
}

} // verus!
