//! Application state: the selected view, the sidebar section and the search
//! text, and the filtering of the game list that they drive.
use vstd::prelude::*;

use crate::catalog::GameEntry;
use crate::paths::{path_eq, same_path};
use crate::text::{
    append_chars, contains_chars, contains_sub, eq_ignore_case, from_chars, is_ws, lower, lower_chars,
    str_eq_ignore_case, to_chars, trim, trim_chars, trim_end, trim_start,
};

verus! {

/// The active sidebar section (which part of the library is shown).
#[derive(Debug, Clone, PartialEq, Eq)]
pub enum SidebarSection {
    /// The whole library.
    All,
    /// Favourites only.
    Favorites,
    /// Recently played games.
    Recent,
    /// One console, by its system key (e.g. `snes`).
    Console(String),
}

/// Sidebar section plus search text.
#[derive(Debug, Clone)]
pub struct FilterState {
    pub section: SidebarSection,
    pub search_query: String,
}

impl Default for FilterState {
    fn default() -> (r: Self)
        ensures
            r.section == SidebarSection::All,
            r.search_query@ == Seq::<char>::empty(),
    {
        FilterState { section: SidebarSection::All, search_query: String::new() }
    }
}

/// `p` can be obtained from `c` by deleting characters.
pub open spec fn is_subseq(p: Seq<char>, c: Seq<char>) -> bool
    decreases c.len(),
{
    if p.len() == 0 {
        true
    } else if c.len() == 0 {
        false
    } else {
        (c[0] == p[0] && is_subseq(p.drop_first(), c.drop_first())) || is_subseq(
            p,
            c.drop_first(),
        )
    }
}

/// Case-insensitive subsequence match of `pattern` in `choice`.
pub open spec fn fuzzy_match(choice: Seq<char>, pattern: Seq<char>) -> bool {
    is_subseq(lower(pattern), lower(choice))
}

/// The text searched by substring: title, file name and system key,
/// separated by single spaces.
pub open spec fn search_blob(g: GameEntry) -> Seq<char> {
    g.title@ + seq![' '] + g.file_name@ + seq![' '] + g.system_key@
}

/// Whether a game matches a search query: an empty (after trimming) query
/// matches everything; otherwise the lower-cased trimmed query must occur in
/// the lower-cased blob, or be a fuzzy subsequence of the title, the file
/// name or the system key.
pub open spec fn search_matches(query: Seq<char>, g: GameEntry) -> bool {
    let q = trim(query);
    ||| q.len() == 0
    ||| contains_sub(lower(search_blob(g)), lower(q))
    ||| fuzzy_match(g.title@, q)
    ||| fuzzy_match(g.file_name@, q)
    ||| fuzzy_match(g.system_key@, q)
}

/// Whether a game belongs to a sidebar section (a recent game is one whose
/// path equals, as a path, one of the recent paths).
pub open spec fn in_section(section: SidebarSection, recent: Seq<Seq<char>>, g: GameEntry) -> bool {
    match section {
        SidebarSection::All => true,
        SidebarSection::Favorites => g.is_favorite,
        SidebarSection::Recent => exists|i: int| 0 <= i < recent.len() && same_path(#[trigger] recent[i], g.path@),
        SidebarSection::Console(key) => eq_ignore_case(g.system_key@, key@),
    }
}

/// The views of a list of strings.
pub open spec fn string_views(v: Seq<String>) -> Seq<Seq<char>> {
    v.map_values(|s: String| s@)
}

/// The games kept by a filter, in their original order.
pub open spec fn filtered(games: Seq<GameEntry>, f: FilterState, recent: Seq<Seq<char>>) -> Seq<
    GameEntry,
> {
    games.filter(|g: GameEntry| in_section(f.section, recent, g) && search_matches(f.search_query@, g))
}

proof fn lemma_subseq_drop_pattern_head(p: Seq<char>, c: Seq<char>)
    requires
        p.len() > 0,
        is_subseq(p, c),
    ensures
        is_subseq(p.drop_first(), c),
    decreases c.len(),
{
    if c.len() > 0 {
        if c[0] == p[0] && is_subseq(p.drop_first(), c.drop_first()) {
            lemma_subseq_tail(p.drop_first(), c);
        } else {
            lemma_subseq_drop_pattern_head(p, c.drop_first());
            lemma_subseq_tail(p.drop_first(), c);
        }
    }
}

/// A subsequence of the tail of `c` is a subsequence of `c`.
proof fn lemma_subseq_tail(p: Seq<char>, c: Seq<char>)
    requires
        c.len() > 0,
        is_subseq(p, c.drop_first()),
    ensures
        is_subseq(p, c),
{
}

/// When the heads agree, matching the head is never worse than skipping it.
proof fn lemma_subseq_greedy(p: Seq<char>, c: Seq<char>)
    requires
        p.len() > 0,
        c.len() > 0,
        c[0] == p[0],
    ensures
        is_subseq(p, c) == is_subseq(p.drop_first(), c.drop_first()),
{
    if is_subseq(p, c.drop_first()) {
        lemma_subseq_drop_pattern_head(p, c.drop_first());
    }
}

/// Case-insensitive ordered-subsequence test: every character of `pattern`
/// occurs in `choice`, in order (e.g. "mrio" in "Mario").
pub fn subsequence_fuzzy_match(choice: &str, pattern: &str) -> (r: bool)
    ensures
        r == fuzzy_match(choice@, pattern@),
{
    let c0 = to_chars(choice);
    let c = lower_chars(c0.as_slice());
    let p0 = to_chars(pattern);
    let p = lower_chars(p0.as_slice());
    if p.len() == 0 {
        return true;
    }
    let n = c.len();
    let mut ci: usize = 0;
    assert(p@.skip(0) == p@);
    assert(c@.skip(0) == c@);
    for j in 0..p.len()
        invariant
            n == c@.len(),
            ci <= n,
            is_subseq(p@, c@) == fuzzy_match(choice@, pattern@),
            is_subseq(p@, c@) == is_subseq(p@.skip(j as int), c@.skip(ci as int)),
    {
        let ch = p[j];
        while ci < n && c[ci] != ch
            invariant
                n == c@.len(),
                ci <= n,
                is_subseq(p@, c@) == fuzzy_match(choice@, pattern@),
                j < p@.len(),
                ch == p@[j as int],
                is_subseq(p@, c@) == is_subseq(p@.skip(j as int), c@.skip(ci as int)),
            decreases n - ci,
        {
            assert(c@.skip(ci as int).drop_first() == c@.skip(ci + 1));
            ci = ci + 1;
        }
        if ci >= n {
            assert(c@.skip(ci as int).len() == 0);
            assert(p@.skip(j as int).len() > 0);
            assert(!is_subseq(p@.skip(j as int), c@.skip(ci as int)));
            return false;
        }
        proof {
            lemma_subseq_greedy(p@.skip(j as int), c@.skip(ci as int));
            assert(p@.skip(j as int).drop_first() == p@.skip(j + 1));
            assert(c@.skip(ci as int).drop_first() == c@.skip(ci + 1));
        }
        ci = ci + 1;
    }
    assert(p@.skip(p@.len() as int).len() == 0);
    true
}

impl FilterState {
    /// Substring search plus a light fuzzy match (ordered subsequence).
    pub fn matches_search(&self, game: &GameEntry) -> (r: bool)
        ensures
            r == search_matches(self.search_query@, *game),
            contains_sub(lower(game.title@), lower(trim(self.search_query@))) ==> r,
            contains_sub(lower(game.file_name@), lower(trim(self.search_query@))) ==> r,
            contains_sub(lower(game.system_key@), lower(trim(self.search_query@))) ==> r,
    {
        proof {
            lemma_search_covers_fields(self.search_query@, *game);
        }
        let raw = to_chars(self.search_query.as_str());
        let q = trim_chars(raw.as_slice());
        if q.len() == 0 {
            return true;
        }
        let ql = lower_chars(q.as_slice());
        let mut blob = to_chars(game.title.as_str());
        blob.push(' ');
        let fname = to_chars(game.file_name.as_str());
        append_chars(&mut blob, fname.as_slice());
        blob.push(' ');
        let key = to_chars(game.system_key.as_str());
        append_chars(&mut blob, key.as_slice());
        assert(blob@ == search_blob(*game));
        let blob_lower = lower_chars(blob.as_slice());
        if contains_chars(blob_lower.as_slice(), ql.as_slice()) {
            return true;
        }
        let qs = from_chars(q.as_slice());
        subsequence_fuzzy_match(game.title.as_str(), qs.as_str()) || subsequence_fuzzy_match(
            game.file_name.as_str(),
            qs.as_str(),
        ) || subsequence_fuzzy_match(game.system_key.as_str(), qs.as_str())
    }
}

fn path_in(paths: &[String], p: &String) -> (r: bool)
    ensures
        r == exists|i: int| 0 <= i < paths@.len() && same_path(#[trigger] string_views(paths@)[i], p@),
{
    for i in 0..paths.len()
        invariant
            forall|k: int| 0 <= k < i ==> !same_path(#[trigger] string_views(paths@)[k], p@),
    {
        if path_eq(paths[i].as_str(), p.as_str()) {
            assert(same_path(string_views(paths@)[i as int], p@));
            return true;
        }
    }
    false
}

fn game_in_section(section: &SidebarSection, recent_paths: &[String], g: &GameEntry) -> (r: bool)
    ensures
        r == in_section(*section, string_views(recent_paths@), *g),
{
    match section {
        SidebarSection::All => true,
        SidebarSection::Favorites => g.is_favorite,
        SidebarSection::Recent => path_in(recent_paths, &g.path),
        SidebarSection::Console(key) => str_eq_ignore_case(g.system_key.as_str(), key.as_str()),
    }
}

/// The games of `games` in the filter's sidebar section that match its search
/// text, in their original order (`recent_paths` lists the paths of the
/// recently played games).
pub fn filter_games(games: &[GameEntry], filter: &FilterState, recent_paths: &[String]) -> (r: Vec<
    GameEntry,
>)
    ensures
        r@ == filtered(games@, *filter, string_views(recent_paths@)),
{
    let ghost recent = string_views(recent_paths@);
    let ghost pred = |g: GameEntry|
        in_section(filter.section, recent, g) && search_matches(filter.search_query@, g);
    let mut out: Vec<GameEntry> = Vec::new();
    for i in 0..games.len()
        invariant
            recent == string_views(recent_paths@),
            pred == (|g: GameEntry|
                in_section(filter.section, recent, g) && search_matches(filter.search_query@, g)),
            out@ == games@.take(i as int).filter(pred),
    {
        let g = &games[i];
        let keep = game_in_section(&filter.section, recent_paths, g) && filter.matches_search(g);
        if keep {
            out.push(g.duplicate());
        }
        proof {
            reveal_with_fuel(Seq::<_>::filter, 1);
            assert(games@.take(i + 1).drop_last() == games@.take(i as int));
        }
    }
    assert(games@.take(games@.len() as int) == games@);
    out
}

/// Top-level navigation of the application.
#[derive(Debug, Clone, PartialEq, Eq)]
pub enum AppView {
    Dashboard,
    Library,
    GameDetail(String),
    Settings,
}

/// Central state exposed to the interface.
#[derive(Debug, Clone)]
pub struct AppState {
    pub games: Vec<GameEntry>,
    pub recent: Vec<GameEntry>,
    pub recently_added: Vec<GameEntry>,
    pub most_played: Vec<GameEntry>,
    pub filter: FilterState,
    pub selected_view: AppView,
}

impl AppState {
    /// A state holding the four lists, with the default filter, on the
    /// dashboard.
    pub fn new(
        games: Vec<GameEntry>,
        recent: Vec<GameEntry>,
        recently_added: Vec<GameEntry>,
        most_played: Vec<GameEntry>,
    ) -> (r: Self)
        ensures
            r.games == games,
            r.recent == recent,
            r.recently_added == recently_added,
            r.most_played == most_played,
            r.filter.section == SidebarSection::All,
            r.filter.search_query@ == Seq::<char>::empty(),
            r.selected_view == AppView::Dashboard,
    {
        AppState {
            games,
            recent,
            recently_added,
            most_played,
            filter: FilterState::default(),
            selected_view: AppView::Dashboard,
        }
    }
}

} // verus!

verus! {

/// With the whole library selected and an empty (or blank) search, the
/// filter keeps every game, in order.
pub proof fn lemma_blank_filter_keeps_all(games: Seq<GameEntry>, f: FilterState, recent: Seq<Seq<char>>)
    requires
        f.section == SidebarSection::All,
        trim(f.search_query@).len() == 0,
    ensures
        filtered(games, f, recent) == games,
    decreases games.len(),
{
    reveal_with_fuel(Seq::<_>::filter, 1);
    let pred = |g: GameEntry| in_section(f.section, recent, g) && search_matches(f.search_query@, g);
    if games.len() > 0 {
        lemma_blank_filter_keeps_all(games.drop_last(), f, recent);
        assert(pred(games.last()));
        assert(games.drop_last().push(games.last()) == games);
    }
}

/// Narrowing the section never adds games: every game that a section and
/// search keep, the whole library with the same search keeps too, and the
/// filter result is never longer than the list.
pub proof fn lemma_filter_within_all(games: Seq<GameEntry>, f: FilterState, recent: Seq<Seq<char>>)
    ensures
        forall|g: GameEntry|
            #[trigger] filtered(games, f, recent).contains(g) ==> filtered(
                games,
                FilterState { section: SidebarSection::All, search_query: f.search_query },
                recent,
            ).contains(g),
        filtered(games, f, recent).len() <= filtered(
            games,
            FilterState { section: SidebarSection::All, search_query: f.search_query },
            recent,
        ).len(),
        filtered(games, f, recent).len() <= games.len(),
    decreases games.len(),
{
    reveal_with_fuel(Seq::<_>::filter, 1);
    let all = FilterState { section: SidebarSection::All, search_query: f.search_query };
    if games.len() > 0 {
        lemma_filter_within_all(games.drop_last(), f, recent);
        let x = games.last();
        let fa = filtered(games.drop_last(), all, recent);
        let ff = filtered(games.drop_last(), f, recent);
        assert forall|g: GameEntry| #[trigger] filtered(games, f, recent).contains(g) implies filtered(
            games,
            all,
            recent,
        ).contains(g) by {
            if ff.contains(g) {
                assert(fa.contains(g));
                let j = choose|j: int| 0 <= j < fa.len() && fa[j] == g;
                if search_matches(f.search_query@, x) {
                    assert(fa.push(x)[j] == g);
                }
            } else {
                assert(g == x);
                assert(filtered(games, all, recent) == fa.push(x));
                assert(fa.push(x)[fa.len() as int] == x);
            }
        }
    }
}

} // verus!

verus! {

/// `a` is a prefix of `b`.
pub open spec fn is_prefix(a: Seq<char>, b: Seq<char>) -> bool {
    a.len() <= b.len() && b.subrange(0, a.len() as int) == a
}

proof fn lemma_prefix_drop_first(a: Seq<char>, b: Seq<char>)
    requires
        is_prefix(a, b),
        a.len() > 0,
    ensures
        is_prefix(a.drop_first(), b.drop_first()),
        a[0] == b[0],
{
    assert(b[0] == b.subrange(0, a.len() as int)[0]);
    assert(b.drop_first().subrange(0, a.drop_first().len() as int) =~= a.drop_first()) by {
        assert forall|k: int| 0 <= k < a.len() - 1 implies b.drop_first()[k] == a.drop_first()[k] by {
            assert(b.subrange(0, a.len() as int)[k + 1] == b[k + 1]);
        }
    }
}

/// Trimming the start of a prefix gives nothing or a prefix of the trimmed
/// whole.
proof fn lemma_trim_start_prefix(a: Seq<char>, b: Seq<char>)
    requires
        is_prefix(a, b),
    ensures
        trim_start(a).len() == 0 || is_prefix(trim_start(a), trim_start(b)),
    decreases a.len(),
{
    if a.len() > 0 {
        lemma_prefix_drop_first(a, b);
        if is_ws(a[0]) {
            lemma_trim_start_prefix(a.drop_first(), b.drop_first());
        }
    }
}

/// Trimming the end keeps a prefix of `s`.
proof fn lemma_trim_end_is_prefix(s: Seq<char>)
    ensures
        is_prefix(trim_end(s), s),
    decreases s.len(),
{
    if s.len() > 0 && is_ws(s.last()) {
        lemma_trim_end_is_prefix(s.drop_last());
        assert(s.subrange(0, trim_end(s).len() as int) =~= s.drop_last().subrange(0, trim_end(s).len() as int));
    } else {
        assert(s.subrange(0, s.len() as int) =~= s);
    }
}

/// Trimming the end keeps every character up to the last non-space.
proof fn lemma_trim_end_keeps(s: Seq<char>, j: int)
    requires
        0 <= j < s.len(),
        !is_ws(s[j]),
    ensures
        trim_end(s).len() > j,
    decreases s.len(),
{
    if is_ws(s.last()) {
        lemma_trim_end_keeps(s.drop_last(), j);
    }
}

/// A non-empty trimmed end of a sequence ends with a non-space.
proof fn lemma_trim_end_last(s: Seq<char>)
    ensures
        trim_end(s).len() > 0 ==> !is_ws(trim_end(s).last()),
    decreases s.len(),
{
    if s.len() > 0 && is_ws(s.last()) {
        lemma_trim_end_last(s.drop_last());
    }
}

/// Trimming the end of a prefix gives a prefix of the trimmed whole.
proof fn lemma_trim_end_prefix(a: Seq<char>, b: Seq<char>)
    requires
        is_prefix(a, b),
    ensures
        is_prefix(trim_end(a), trim_end(b)),
{
    let ta = trim_end(a);
    lemma_trim_end_is_prefix(a);
    lemma_trim_end_is_prefix(b);
    if ta.len() > 0 {
        lemma_trim_end_last(a);
        let j = ta.len() - 1;
        assert(ta[j] == a[j]) by {
            assert(a.subrange(0, ta.len() as int)[j] == a[j]);
        }
        assert(b[j] == a[j]) by {
            assert(b.subrange(0, a.len() as int)[j] == b[j]);
        }
        lemma_trim_end_keeps(b, j);
        let tb = trim_end(b);
        assert(tb.subrange(0, ta.len() as int) =~= ta) by {
            assert forall|k: int| 0 <= k < ta.len() implies tb.subrange(0, ta.len() as int)[k] == ta[k] by {
                assert(tb[k] == b.subrange(0, tb.len() as int)[k]);
                assert(ta[k] == a.subrange(0, ta.len() as int)[k]);
                assert(b.subrange(0, a.len() as int)[k] == b[k]);
            }
        }
    } else {
        assert(trim_end(b).subrange(0, 0) =~= ta);
    }
}

/// The trimmed prefix of a query is empty or a prefix of the trimmed query.
proof fn lemma_trim_prefix(a: Seq<char>, b: Seq<char>)
    requires
        is_prefix(a, b),
    ensures
        trim(a).len() == 0 || is_prefix(trim(a), trim(b)),
{
    lemma_trim_start_prefix(a, b);
    if trim_start(a).len() > 0 {
        lemma_trim_end_prefix(trim_start(a), trim_start(b));
    } else {
        assert(trim_start(a) =~= Seq::<char>::empty());
    }
}

/// Lower-casing keeps prefixes.
proof fn lemma_lower_prefix(a: Seq<char>, b: Seq<char>)
    requires
        is_prefix(a, b),
    ensures
        is_prefix(lower(a), lower(b)),
{
    assert(lower(b).subrange(0, a.len() as int) =~= lower(a)) by {
        assert forall|k: int| 0 <= k < a.len() implies lower(b).subrange(0, a.len() as int)[k] == lower(a)[k] by {
            assert(b.subrange(0, a.len() as int)[k] == b[k]);
        }
    }
}

/// A prefix of a block found in `hay` is found in `hay` too.
proof fn lemma_contains_prefix(hay: Seq<char>, a: Seq<char>, b: Seq<char>)
    requires
        is_prefix(a, b),
        contains_sub(hay, b),
    ensures
        contains_sub(hay, a),
{
    let i = choose|i: int| 0 <= i && i + b.len() <= hay.len() && #[trigger] hay.subrange(i, i + b.len()) == b;
    assert(hay.subrange(i, i + a.len()) =~= a) by {
        assert forall|k: int| 0 <= k < a.len() implies hay.subrange(i, i + a.len())[k] == a[k] by {
            assert(hay.subrange(i, i + b.len())[k] == hay[i + k]);
            assert(b.subrange(0, a.len() as int)[k] == b[k]);
        }
    }
}

/// A prefix of a subsequence of `c` is a subsequence of `c`.
proof fn lemma_subseq_prefix(a: Seq<char>, b: Seq<char>, c: Seq<char>)
    requires
        is_prefix(a, b),
        is_subseq(b, c),
    ensures
        is_subseq(a, c),
    decreases c.len(),
{
    if a.len() > 0 && c.len() > 0 {
        lemma_prefix_drop_first(a, b);
        if c[0] == b[0] && is_subseq(b.drop_first(), c.drop_first()) {
            lemma_subseq_prefix(a.drop_first(), b.drop_first(), c.drop_first());
        } else {
            lemma_subseq_prefix(a, b, c.drop_first());
        }
    }
}

/// Typing more characters into the search can only narrow the matches: a
/// game that a query matches is matched by every prefix of that query.
pub proof fn lemma_longer_query_narrows(short: Seq<char>, long: Seq<char>, g: GameEntry)
    requires
        is_prefix(short, long),
    ensures
        search_matches(long, g) ==> search_matches(short, g),
{
    lemma_trim_prefix(short, long);
    let qs = trim(short);
    let ql = trim(long);
    if qs.len() > 0 && search_matches(long, g) {
        lemma_lower_prefix(qs, ql);
        if contains_sub(lower(search_blob(g)), lower(ql)) {
            lemma_contains_prefix(lower(search_blob(g)), lower(qs), lower(ql));
        } else if fuzzy_match(g.title@, ql) {
            lemma_subseq_prefix(lower(qs), lower(ql), lower(g.title@));
        } else if fuzzy_match(g.file_name@, ql) {
            lemma_subseq_prefix(lower(qs), lower(ql), lower(g.file_name@));
        } else {
            lemma_subseq_prefix(lower(qs), lower(ql), lower(g.system_key@));
        }
    }
}

} // verus!

verus! {

/// A block found in one part of a text is found in the text.
proof fn lemma_contains_in_concat(a: Seq<char>, b: Seq<char>, n: Seq<char>)
    ensures
        contains_sub(a, n) ==> contains_sub(a + b, n),
        contains_sub(b, n) ==> contains_sub(a + b, n),
{
    if contains_sub(a, n) {
        let i = choose|i: int| 0 <= i && i + n.len() <= a.len() && #[trigger] a.subrange(i, i + n.len()) == n;
        assert((a + b).subrange(i, i + n.len()) =~= a.subrange(i, i + n.len()));
    }
    if contains_sub(b, n) {
        let i = choose|i: int| 0 <= i && i + n.len() <= b.len() && #[trigger] b.subrange(i, i + n.len()) == n;
        assert((a + b).subrange(a.len() + i, a.len() + i + n.len()) =~= b.subrange(i, i + n.len()));
    }
}

/// The search looks in the title, the file name and the system key: a query
/// whose trimmed, lower-cased text occurs in the lower-cased title, file name
/// or system key, or that is an ordered subsequence of one of them (ignoring
/// ASCII case), matches the game; a blank query matches every game.
pub proof fn lemma_search_covers_fields(q: Seq<char>, g: GameEntry)
    ensures
        trim(q).len() == 0 ==> search_matches(q, g),
        contains_sub(lower(g.title@), lower(trim(q))) ==> search_matches(q, g),
        contains_sub(lower(g.file_name@), lower(trim(q))) ==> search_matches(q, g),
        contains_sub(lower(g.system_key@), lower(trim(q))) ==> search_matches(q, g),
        is_subseq(lower(trim(q)), lower(g.title@)) ==> search_matches(q, g),
        is_subseq(lower(trim(q)), lower(g.file_name@)) ==> search_matches(q, g),
        is_subseq(lower(trim(q)), lower(g.system_key@)) ==> search_matches(q, g),
{
    let n = lower(trim(q));
    let t = lower(g.title@);
    let f = lower(g.file_name@);
    let k = lower(g.system_key@);
    let sp = seq![' '];
    assert(lower(sp) =~= sp);
    assert(lower(search_blob(g)) =~= t + sp + f + sp + k);
    lemma_contains_in_concat(t, sp, n);
    lemma_contains_in_concat(t + sp, f, n);
    lemma_contains_in_concat(t + sp + f, sp, n);
    lemma_contains_in_concat(t + sp + f + sp, k, n);
}

} // verus!
