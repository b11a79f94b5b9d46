//! Catalogue entries and the decisions of catalogue maintenance: the title
//! derived from a ROM file name, the cover-image candidates of a ROM, the
//! walk of a system's ROM folder, the row recorded for each ROM found and
//! the clock readings stored with it.
use vstd::prelude::*;

use crate::config::{accepts_extension, SystemConfig};
use crate::paths::{
    extension_of, path_extension, file_name_of, file_stem_of, first_existing, first_flagged, joined_path, opt_view, parent_of,
    path_file_name, path_file_stem, path_join, path_parent, views,
};
use crate::text::{
    append_chars, eq_ignore_case, from_chars, is_whitespace, is_ws, lower, lower_string, slice_chars, to_chars,
};

verus! {

/// One game of the catalogue, as read back from the catalogue store.
#[derive(Debug, Clone)]
pub struct GameEntry {
    pub path: String,
    pub file_name: String,
    pub extension: String,
    pub system_key: String,
    pub title: String,
    pub description: Option<String>,
    pub cover_path: Option<String>,
    pub metadata_source: String,
    pub is_favorite: bool,
    pub play_count: i64,
    pub last_played_at: Option<i64>,
    pub genre: Option<String>,
    pub release_year: Option<i32>,
    pub developer: Option<String>,
}

fn copy_opt_string(o: &Option<String>) -> (r: Option<String>)
    ensures
        r == *o,
{
    match o {
        Some(s) => Some(s.clone()),
        None => None,
    }
}

impl GameEntry {
    /// A field-for-field copy of this entry.
    pub fn duplicate(&self) -> (r: GameEntry)
        ensures
            r == *self,
    {
        GameEntry {
            path: self.path.clone(),
            file_name: self.file_name.clone(),
            extension: self.extension.clone(),
            system_key: self.system_key.clone(),
            title: self.title.clone(),
            description: copy_opt_string(&self.description),
            cover_path: copy_opt_string(&self.cover_path),
            metadata_source: self.metadata_source.clone(),
            is_favorite: self.is_favorite,
            play_count: self.play_count,
            last_played_at: self.last_played_at,
            genre: copy_opt_string(&self.genre),
            release_year: self.release_year,
            developer: copy_opt_string(&self.developer),
        }
    }
}

} // verus!

verus! {

/// `s` with bracketed parts removed: characters inside `(..)` or `[..]`
/// (nesting counted, the two kinds of bracket alike, a closing bracket at
/// depth zero ignored) are dropped, and so are the brackets themselves.
pub open spec fn strip_brackets(s: Seq<char>, depth: nat) -> Seq<char>
    decreases s.len(),
{
    if s.len() == 0 {
        seq![]
    } else {
        let c = s[0];
        let rest = s.drop_first();
        if c == '(' || c == '[' {
            strip_brackets(rest, depth + 1)
        } else if c == ')' || c == ']' {
            strip_brackets(rest, if depth > 0 { (depth - 1) as nat } else { 0 })
        } else if depth == 0 {
            seq![c] + strip_brackets(rest, 0)
        } else {
            strip_brackets(rest, depth)
        }
    }
}

/// `s` with every `_` turned into a space.
pub open spec fn underscores_to_spaces(s: Seq<char>) -> Seq<char> {
    s.map_values(|c: char| if c == '_' { ' ' } else { c })
}

/// The maximal runs of non-whitespace characters of `s`, in order.
pub open spec fn words(s: Seq<char>) -> Seq<Seq<char>>
    decreases s.len(),
{
    if s.len() == 0 {
        seq![]
    } else {
        let w = words(s.drop_last());
        let c = s.last();
        if is_ws(c) {
            w
        } else if s.len() >= 2 && !is_ws(s[s.len() - 2]) {
            w.update(w.len() - 1, w.last().push(c))
        } else {
            w.push(seq![c])
        }
    }
}

/// The words joined by single spaces.
pub open spec fn join_words(ws: Seq<Seq<char>>) -> Seq<char>
    decreases ws.len(),
{
    if ws.len() == 0 {
        seq![]
    } else if ws.len() == 1 {
        ws[0]
    } else {
        join_words(ws.drop_last()) + seq![' '] + ws.last()
    }
}

/// The display title made from a file stem: bracketed tags removed,
/// underscores read as spaces, whitespace runs collapsed to one space and
/// trimmed at both ends.
pub open spec fn clean_title(stem: Seq<char>) -> Seq<char> {
    join_words(words(underscores_to_spaces(strip_brackets(stem, 0))))
}

/// The stem used for a file name: its `Path::file_stem`, or the whole name
/// when it has none.
pub open spec fn stem_or_name(file_name: Seq<char>) -> Seq<char> {
    match file_stem_of(file_name) {
        Some(s) => s,
        None => file_name,
    }
}

proof fn lemma_words_nonempty(s: Seq<char>)
    ensures
        forall|k: int| 0 <= k < words(s).len() ==> #[trigger] words(s)[k].len() > 0,
        s.len() > 0 && !is_ws(s.last()) ==> words(s).len() > 0,
    decreases s.len(),
{
    if s.len() > 0 {
        lemma_words_nonempty(s.drop_last());
        let w = words(s.drop_last());
        let c = s.last();
        if !is_ws(c) && s.len() >= 2 && !is_ws(s[s.len() - 2]) {
            assert(s.drop_last().last() == s[s.len() - 2]);
            assert(w.len() > 0);
        }
    }
}

proof fn lemma_join_empty(ws: Seq<Seq<char>>)
    requires
        forall|k: int| 0 <= k < ws.len() ==> #[trigger] ws[k].len() > 0,
    ensures
        (join_words(ws).len() == 0) == (ws.len() == 0),
    decreases ws.len(),
{
    if ws.len() > 1 {
        lemma_join_empty(ws.drop_last());
    }
}

proof fn lemma_join_push(ws: Seq<Seq<char>>, w: Seq<char>)
    ensures
        join_words(ws.push(w)) == (if ws.len() == 0 { w } else { join_words(ws) + seq![' '] + w }),
{
    assert(ws.push(w).drop_last() == ws);
}

proof fn lemma_join_extend_last(ws: Seq<Seq<char>>, c: char)
    requires
        ws.len() > 0,
    ensures
        join_words(ws.update(ws.len() - 1, ws.last().push(c))) == join_words(ws).push(c),
{
    let ws2 = ws.update(ws.len() - 1, ws.last().push(c));
    if ws.len() > 1 {
        assert(ws2.drop_last() == ws.drop_last());
    }
}

/// Removes bracketed tags from a stem.
fn strip_bracketed(stem: &[char]) -> (r: Vec<char>)
    ensures
        r@ == strip_brackets(stem@, 0),
{
    let mut clean: Vec<char> = Vec::new();
    let mut depth: usize = 0;
    assert(stem@.skip(0) == stem@);
    for i in 0..stem.len()
        invariant
            depth <= i,
            clean@ + strip_brackets(stem@.skip(i as int), depth as nat) == strip_brackets(stem@, 0),
    {
        let ch = stem[i];
        assert(stem@.skip(i as int)[0] == ch);
        assert(stem@.skip(i as int).drop_first() == stem@.skip(i + 1));
        if ch == '(' || ch == '[' {
            depth = depth + 1;
        } else if ch == ')' || ch == ']' {
            depth = if depth > 0 { depth - 1 } else { 0 };
        } else if depth == 0 {
            clean.push(ch);
            assert(clean@ + strip_brackets(stem@.skip(i + 1), 0) == clean@.drop_last() + (seq![ch]
                + strip_brackets(stem@.skip(i + 1), 0)));
        }
    }
    assert(stem@.skip(stem@.len() as int).len() == 0);
    assert(clean@ + seq![] == clean@);
    clean
}

/// Collapses whitespace runs of `u` to single spaces, dropping leading and
/// trailing whitespace.
fn collapse_whitespace(u: &[char]) -> (r: Vec<char>)
    ensures
        r@ == join_words(words(u@)),
{
    let mut out: Vec<char> = Vec::new();
    let mut prev_ws = true;
    assert(u@.take(0) == Seq::<char>::empty());
    for i in 0..u.len()
        invariant
            out@ == join_words(words(u@.take(i as int))),
            prev_ws == (i == 0 || is_ws(u@[i - 1])),
    {
        let c = u[i];
        let ghost s = u@.take(i + 1);
        assert(s.drop_last() == u@.take(i as int));
        assert(s.last() == c);
        proof {
            lemma_words_nonempty(u@.take(i as int));
            lemma_join_empty(words(u@.take(i as int)));
            if i > 0 {
                assert(s[s.len() - 2] == u@[i - 1]);
                assert(u@.take(i as int).last() == u@[i - 1]);
            }
        }
        if is_whitespace(c) {
            prev_ws = true;
        } else {
            if prev_ws {
                proof {
                    lemma_join_push(words(u@.take(i as int)), seq![c]);
                }
                if out.len() > 0 {
                    out.push(' ');
                }
                out.push(c);
                assert(out@ == join_words(words(s)));
            } else {
                proof {
                    lemma_join_extend_last(words(u@.take(i as int)), c);
                }
                out.push(c);
            }
            prev_ws = false;
        }
    }
    assert(u@.take(u@.len() as int) == u@);
    out
}

/// The display title made from a file stem (see `clean_title`).
pub fn title_from_stem(stem: &str) -> (r: String)
    ensures
        r@ == clean_title(stem@),
{
    let cs = to_chars(stem);
    let clean = strip_bracketed(cs.as_slice());
    let mut spaced: Vec<char> = Vec::new();
    for i in 0..clean.len()
        invariant
            spaced@ == underscores_to_spaces(clean@.take(i as int)),
    {
        let c = clean[i];
        spaced.push(if c == '_' { ' ' } else { c });
        assert(underscores_to_spaces(clean@.take(i + 1)) == underscores_to_spaces(clean@.take(i as int)).push(if c == '_' { ' ' } else { c }));
    }
    assert(clean@.take(clean@.len() as int) == clean@);
    let collapsed = collapse_whitespace(spaced.as_slice());
    from_chars(collapsed.as_slice())
}

/// A readable title from a ROM file name: the file stem with bracketed tags
/// (region, revision, dump flags) removed, underscores read as spaces and
/// whitespace normalised, e.g. `Super_Game (USA) [!].sfc` gives
/// `Super Game`.
pub fn title_from_file_name(file_name: &str) -> (r: String)
    ensures
        r@ == clean_title(stem_or_name(file_name@)),
{
    match path_file_stem(file_name) {
        Some(stem) => title_from_stem(stem.as_str()),
        None => title_from_stem(file_name),
    }
}

/// The file name shown for a path: its final component, or the whole path
/// when it has none.
pub open spec fn display_file_name(path: Seq<char>) -> Seq<char> {
    match file_name_of(path) {
        Some(n) => n,
        None => path,
    }
}

/// The file name of a path, or the path itself when it has none.
pub fn file_name_for_path(path: &str) -> (r: String)
    ensures
        r@ == display_file_name(path@),
{
    match path_file_name(path) {
        Some(n) => n,
        None => path.to_owned(),
    }
}

} // verus!

verus! {

/// The image extensions tried for covers, in order.
pub open spec fn image_extensions() -> Seq<Seq<char>> {
    seq!["png"@, "jpg"@, "jpeg"@, "webp"@]
}

/// `<stem>.<ext>`.
pub open spec fn with_extension(stem: Seq<char>, ext: Seq<char>) -> Seq<char> {
    stem + seq!['.'] + ext
}

/// The files tried as the cover of a ROM with stem `stem` in folder `dir`:
/// an image beside the ROM, then under `<root>/covers/<system>/`, then under
/// `<root>/covers/`, each with the image extensions in order.
pub open spec fn cover_candidate_paths(stem: Seq<char>, dir: Seq<char>, system_key: Seq<char>, root: Seq<char>) -> Seq<Seq<char>> {
    let covers = joined_path(root, "covers"@);
    image_extensions().map_values(|e: Seq<char>| joined_path(dir, with_extension(stem, e)))
        + image_extensions().map_values(|e: Seq<char>| joined_path(joined_path(covers, system_key), with_extension(stem, e)))
        + image_extensions().map_values(|e: Seq<char>| joined_path(covers, with_extension(stem, e)))
}

/// The cover files tried for a ROM, or `None` when its path has no stem or
/// no parent folder.
pub open spec fn cover_candidates_for(rom_path: Seq<char>, system_key: Seq<char>, root: Seq<char>) -> Option<Seq<Seq<char>>> {
    match (file_stem_of(rom_path), parent_of(rom_path)) {
        (Some(stem), Some(dir)) => Some(cover_candidate_paths(stem, dir, system_key, root)),
        _ => None,
    }
}

fn named_with_ext(stem: &str, ext: &str) -> (r: String)
    ensures
        r@ == with_extension(stem@, ext@),
{
    let mut cs = to_chars(stem);
    cs.push('.');
    append_chars(&mut cs, to_chars(ext).as_slice());
    from_chars(cs.as_slice())
}

/// The cover files tried for a ROM (see `cover_candidate_paths`).
pub fn cover_candidates(rom_path: &str, system_key: &str, rom_root: &str) -> (r: Option<Vec<String>>)
    ensures
        match r {
            Some(v) => cover_candidates_for(rom_path@, system_key@, rom_root@) == Some(views(v@)),
            None => cover_candidates_for(rom_path@, system_key@, rom_root@) is None,
        },
{
    let stem = match path_file_stem(rom_path) {
        Some(s) => s,
        None => {
            return None;
        },
    };
    let same_dir = match path_parent(rom_path) {
        Some(d) => d,
        None => {
            return None;
        },
    };
    let exts: [&str; 4] = ["png", "jpg", "jpeg", "webp"];
    assert(crate::default_systems::str_views(exts@) =~= image_extensions());
    let covers_root = path_join(rom_root, "covers");
    let by_system_dir = path_join(covers_root.as_str(), system_key);
    let ghost cands = cover_candidate_paths(stem@, same_dir@, system_key@, rom_root@);
    let mut v: Vec<String> = Vec::new();
    for i in 0..4usize
        invariant
            crate::default_systems::str_views(exts@) == image_extensions(),
            views(v@) == cands.take(i as int),
            cands == cover_candidate_paths(stem@, same_dir@, system_key@, rom_root@),
    {
        assert(exts@[i as int]@ == image_extensions()[i as int]);
        let ghost before = v@;
        let x = path_join(same_dir.as_str(), named_with_ext(stem.as_str(), exts[i]).as_str());
        assert(cands[i as int] == x@);
        v.push(x);
        assert(views(v@) =~= views(before).push(x@));
        assert(cands.take(i + 1) =~= cands.take(i as int).push(cands[i as int]));
        assert(views(v@) =~= cands.take(i + 1));
    }
    for i in 0..4usize
        invariant
            crate::default_systems::str_views(exts@) == image_extensions(),
            views(v@) == cands.take(4 + i),
            cands == cover_candidate_paths(stem@, same_dir@, system_key@, rom_root@),
            by_system_dir@ == joined_path(joined_path(rom_root@, "covers"@), system_key@),
    {
        assert(exts@[i as int]@ == image_extensions()[i as int]);
        let ghost before = v@;
        let x = path_join(by_system_dir.as_str(), named_with_ext(stem.as_str(), exts[i]).as_str());
        assert(cands[4 + i] == x@);
        v.push(x);
        assert(views(v@) =~= views(before).push(x@));
        assert(cands.take(4 + i + 1) =~= cands.take(4 + i).push(cands[4 + i]));
        assert(views(v@) =~= cands.take(4 + i + 1));
    }
    for i in 0..4usize
        invariant
            crate::default_systems::str_views(exts@) == image_extensions(),
            views(v@) == cands.take(8 + i),
            cands == cover_candidate_paths(stem@, same_dir@, system_key@, rom_root@),
            covers_root@ == joined_path(rom_root@, "covers"@),
    {
        assert(exts@[i as int]@ == image_extensions()[i as int]);
        let ghost before = v@;
        let x = path_join(covers_root.as_str(), named_with_ext(stem.as_str(), exts[i]).as_str());
        assert(cands[8 + i] == x@);
        v.push(x);
        assert(views(v@) =~= views(before).push(x@));
        assert(cands.take(8 + i + 1) =~= cands.take(8 + i).push(cands[8 + i]));
        assert(views(v@) =~= cands.take(8 + i + 1));
    }
    assert(cands.take(12) == cands);
    Some(v)
}

/// The cover of a ROM: the first of its candidate files that exists
/// (`exists` holds the caller's probes of `cover_candidates`, in order).
pub fn discover_cover_for_rom(rom_path: &str, system_key: &str, rom_root: &str, exists: &[bool]) -> (r: Option<String>)
    ensures
        opt_view(r) == match cover_candidates_for(rom_path@, system_key@, rom_root@) {
            Some(c) => first_flagged(c, exists@),
            None => None,
        },
{
    match cover_candidates(rom_path, system_key, rom_root) {
        Some(c) => {
            assert(views(c@).len() == 12);
            first_existing(c.as_slice(), exists)
        },
        None => None,
    }
}

/// `s` without its trailing slashes.
pub open spec fn without_trailing_slashes(s: Seq<char>) -> Seq<char>
    decreases s.len(),
{
    if s.len() > 0 && s.last() == '/' {
        without_trailing_slashes(s.drop_last())
    } else {
        s
    }
}

/// The SQL `LIKE` pattern matching every path under the ROM root:
/// `<root without trailing slashes>/%`.
pub fn sync_root_prefix(root: &str) -> (r: String)
    ensures
        r@ == without_trailing_slashes(root@) + "/%"@,
{
    let cs = to_chars(root);
    let mut n = cs.len();
    assert(cs@.take(cs@.len() as int) == cs@);
    while n > 0 && cs[n - 1] == '/'
        invariant
            n <= cs@.len(),
            without_trailing_slashes(cs@) == without_trailing_slashes(cs@.take(n as int)),
        decreases n,
    {
        assert(cs@.take(n as int).drop_last() == cs@.take(n - 1));
        n = n - 1;
    }
    assert(cs@.take(cs@.len() as int) == cs@);
    let mut out = slice_chars(cs.as_slice(), 0, n);
    assert(out@ == cs@.take(n as int));
    append_chars(&mut out, to_chars("/%").as_slice());
    from_chars(out.as_slice())
}

} // verus!

verus! {

/// The row the scan writes for one ROM file.
#[derive(Debug, Clone)]
pub struct ScannedRom {
    pub path: String,
    pub file_name: String,
    /// Lower-cased extension.
    pub extension: String,
    pub system_key: String,
    /// Modification time (Unix seconds), or the scan's id when unknown.
    pub modified_unix: i64,
    /// File size, capped at `i64::MAX`.
    pub size_bytes: i64,
    pub scan_id: i64,
}

/// The row for a file found under a system's ROM folder: only files whose
/// extension the system accepts (up to ASCII case) are ROMs.
pub open spec fn scanned_row(
    system_key: Seq<char>,
    system: SystemConfig,
    path: Seq<char>,
    modified: Option<i64>,
    len: u64,
    scan_id: i64,
) -> Option<(Seq<char>, Seq<char>, Seq<char>, Seq<char>, i64, i64, i64)> {
    match extension_of(path) {
        None => None,
        Some(e) => if accepts_extension(system, lower(e)) {
            Some((
                path,
                display_file_name(path),
                lower(e),
                system_key,
                match modified {
                    Some(m) => m,
                    None => scan_id,
                },
                if len <= i64::MAX { len as i64 } else { i64::MAX },
                scan_id,
            ))
        } else {
            None
        },
    }
}

/// The view of a scanned row.
pub open spec fn scanned_view(r: ScannedRom) -> (Seq<char>, Seq<char>, Seq<char>, Seq<char>, i64, i64, i64) {
    (r.path@, r.file_name@, r.extension@, r.system_key@, r.modified_unix, r.size_bytes, r.scan_id)
}

/// The row the scan records for the file at `path` (modification time and
/// size as read from the disk), if it is a ROM of this system.
pub fn scanned_rom(
    system_key: &str,
    system: &SystemConfig,
    path: &str,
    modified_unix: Option<i64>,
    len: u64,
    scan_id: i64,
) -> (r: Option<ScannedRom>)
    ensures
        match scanned_row(system_key@, *system, path@, modified_unix, len, scan_id) {
            Some(v) => r matches Some(row) && scanned_view(row) == v,
            None => r is None,
        },
        r matches Some(row) ==> (row.path@ == path@ && row.system_key@ == system_key@ && row.scan_id == scan_id),
{
    let extension = match path_extension(path) {
        Some(e) => lower_string(e.as_str()),
        None => {
            return None;
        },
    };
    if !system.accepts(extension.as_str()) {
        return None;
    }
    let modified = match modified_unix {
        Some(m) => m,
        None => scan_id,
    };
    let size_bytes: i64 = if len <= 9223372036854775807u64 {
        len as i64
    } else {
        9223372036854775807i64
    };
    Some(ScannedRom {
        path: path.to_owned(),
        file_name: file_name_for_path(path),
        extension,
        system_key: system_key.to_owned(),
        modified_unix: modified,
        size_bytes,
        scan_id,
    })
}

} // verus!

verus! {

/// What a folder entry is.
#[derive(Debug, Clone, Copy, PartialEq, Eq)]
pub enum EntryKind {
    Dir,
    File,
    Other,
}

/// The walk of a system's ROM folder: the folders still to read, the last
/// one read first.
pub struct DirWalk {
    pending: Vec<String>,
}

/// The paths of the entries of kind `kind`, in order.
pub open spec fn entries_of_kind(entries: Seq<(String, EntryKind)>, kind: EntryKind) -> Seq<Seq<char>>
    decreases entries.len(),
{
    if entries.len() == 0 {
        seq![]
    } else {
        let before = entries_of_kind(entries.drop_last(), kind);
        if entries.last().1 == kind {
            before.push(entries.last().0@)
        } else {
            before
        }
    }
}

impl DirWalk {
    /// The folders still to read, in stack order (the last is read next).
    pub closed spec fn pending(&self) -> Seq<Seq<char>> {
        views(self.pending@)
    }

    /// A walk that starts at `root`.
    pub fn new(root: String) -> (w: DirWalk)
        ensures
            w.pending() == seq![root@],
    {
        let mut pending: Vec<String> = Vec::new();
        pending.push(root);
        let w = DirWalk { pending };
        assert(views(w.pending@) =~= seq![w.pending@[0]@]);
        w
    }

    /// The next folder to read, taken off the walk; `None` when the walk is
    /// over.
    pub fn next_dir(&mut self) -> (r: Option<String>)
        ensures
            old(self).pending().len() == 0 ==> r is None && final(self).pending() == old(self).pending(),
            old(self).pending().len() > 0 ==> (r matches Some(d) && d@ == old(self).pending().last()
                && final(self).pending() == old(self).pending().drop_last()),
    {
        let r = self.pending.pop();
        proof {
            if old(self).pending@.len() > 0 {
                assert(views(self.pending@) =~= views(old(self).pending@).drop_last());
            }
        }
        r
    }

    /// Takes in the entries of the folder just read: its sub-folders join the
    /// walk, in order; its files are returned, in order; other entries are
    /// skipped.
    pub fn visit(&mut self, entries: &[(String, EntryKind)]) -> (files: Vec<String>)
        ensures
            final(self).pending() == old(self).pending() + entries_of_kind(entries@, EntryKind::Dir),
            views(files@) == entries_of_kind(entries@, EntryKind::File),
    {
        let ghost start = self.pending();
        let mut files: Vec<String> = Vec::new();
        for i in 0..entries.len()
            invariant
                self.pending() == start + entries_of_kind(entries@.take(i as int), EntryKind::Dir),
                views(files@) == entries_of_kind(entries@.take(i as int), EntryKind::File),
        {
            assert(entries@.take(i + 1).drop_last() == entries@.take(i as int));
            let ghost before_files = files@;
            let ghost before_pending = self.pending@;
            match entries[i].1 {
                EntryKind::Dir => {
                    self.pending.push(entries[i].0.clone());
                    assert(views(self.pending@) =~= views(before_pending).push(entries@[i as int].0@));
                },
                EntryKind::File => {
                    files.push(entries[i].0.clone());
                    assert(views(files@) =~= views(before_files).push(entries@[i as int].0@));
                },
                EntryKind::Other => {},
            }
        }
        assert(entries@.take(entries@.len() as int) == entries@);
        files
    }
}

} // verus!

verus! {

/// A clock reading (whole seconds since the Unix epoch) as stored in the
/// catalogue: `None` when it does not fit in `i64`.
pub fn unix_secs_from(secs: u64) -> (r: Option<i64>)
    ensures
        r == (if secs <= i64::MAX { Some(secs as i64) } else { None::<i64> }),
{
    if secs <= 9223372036854775807u64 {
        Some(secs as i64)
    } else {
        None
    }
}

/// The current time as stored in the catalogue, from the clock reading:
/// capped at `i64::MAX`, and `0` when the clock is before the epoch.
pub fn now_secs_from(secs: Option<u64>) -> (r: i64)
    ensures
        r == (match secs {
            Some(s) => if s <= i64::MAX { s as i64 } else { i64::MAX },
            None => 0,
        }),
{
    match secs {
        Some(s) => match unix_secs_from(s) {
            Some(v) => v,
            None => 9223372036854775807i64,
        },
        None => 0,
    }
}

} // verus!

verus! {

/// The cover files tried for a ROM with stem `stem` in folder `dir` are, in
/// order: `<dir>/<stem>.png`, `.jpg`, `.jpeg`, `.webp`; then the same four
/// names in `<root>/covers/<system>/`; then in `<root>/covers/`.
pub proof fn lemma_cover_candidate_order(rom_path: Seq<char>, system_key: Seq<char>, root: Seq<char>)
    requires
        file_stem_of(rom_path) is Some,
        parent_of(rom_path) is Some,
    ensures
        ({
            let stem = file_stem_of(rom_path)->0;
            let dir = parent_of(rom_path)->0;
            let covers = joined_path(root, "covers"@);
            let by_system = joined_path(covers, system_key);
            cover_candidates_for(rom_path, system_key, root) matches Some(c) && c.len() == 12
                && c[0] == joined_path(dir, stem + ".png"@)
                && c[1] == joined_path(dir, stem + ".jpg"@)
                && c[2] == joined_path(dir, stem + ".jpeg"@)
                && c[3] == joined_path(dir, stem + ".webp"@)
                && c[4] == joined_path(by_system, stem + ".png"@)
                && c[5] == joined_path(by_system, stem + ".jpg"@)
                && c[6] == joined_path(by_system, stem + ".jpeg"@)
                && c[7] == joined_path(by_system, stem + ".webp"@)
                && c[8] == joined_path(covers, stem + ".png"@)
                && c[9] == joined_path(covers, stem + ".jpg"@)
                && c[10] == joined_path(covers, stem + ".jpeg"@)
                && c[11] == joined_path(covers, stem + ".webp"@)
        }),
{
    reveal_strlit(".png");
    reveal_strlit(".jpg");
    reveal_strlit(".jpeg");
    reveal_strlit(".webp");
    reveal_strlit("png");
    reveal_strlit("jpg");
    reveal_strlit("jpeg");
    reveal_strlit("webp");
    let stem = file_stem_of(rom_path)->0;
    assert(with_extension(stem, "png"@) =~= stem + ".png"@);
    assert(with_extension(stem, "jpg"@) =~= stem + ".jpg"@);
    assert(with_extension(stem, "jpeg"@) =~= stem + ".jpeg"@);
    assert(with_extension(stem, "webp"@) =~= stem + ".webp"@);
}

/// What the scan records for a file: a row exactly when the file has an
/// extension that one of the system's accepted extensions equals up to ASCII
/// case; the row keeps the file's own path, its file name, the extension in
/// lower case, the system's key, the modification time (or the scan's id when
/// unknown), the size (capped at `i64::MAX`) and the scan's id.
pub proof fn lemma_scanned_row_fields(
    system_key: Seq<char>,
    system: SystemConfig,
    path: Seq<char>,
    modified: Option<i64>,
    len: u64,
    scan_id: i64,
)
    ensures
        (scanned_row(system_key, system, path, modified, len, scan_id) is Some) == (extension_of(path) is Some
            && exists|i: int|
            0 <= i < system.accepted_extensions@.len() && eq_ignore_case(
                #[trigger] system.accepted_extensions@[i]@,
                extension_of(path)->0,
            )),
        scanned_row(system_key, system, path, modified, len, scan_id) matches Some(v) ==> {
            &&& v.0 == path
            &&& (file_name_of(path) matches Some(n) ==> v.1 == n)
            &&& (file_name_of(path) is None ==> v.1 == path)
            &&& v.2 == lower(extension_of(path)->0)
            &&& v.3 == system_key
            &&& (modified matches Some(m) ==> v.4 == m)
            &&& (modified is None ==> v.4 == scan_id)
            &&& (len <= i64::MAX ==> v.5 == len)
            &&& (len > i64::MAX ==> v.5 == i64::MAX)
            &&& v.6 == scan_id
        },
{
    if let Some(e) = extension_of(path) {
        crate::config::lemma_lower_idempotent(e);
    }
}

} // verus!

verus! {

/// Without brackets, `strip_brackets` at depth zero keeps everything.
proof fn lemma_strip_no_brackets(s: Seq<char>)
    requires
        forall|i: int| 0 <= i < s.len() ==> #[trigger] s[i] != '(' && s[i] != '[' && s[i] != ')' && s[i] != ']',
    ensures
        strip_brackets(s, 0) == s,
    decreases s.len(),
{
    if s.len() > 0 {
        assert forall|i: int| 0 <= i < s.drop_first().len() implies #[trigger] s.drop_first()[i] != '('
            && s.drop_first()[i] != '[' && s.drop_first()[i] != ')' && s.drop_first()[i] != ']' by {
            assert(s.drop_first()[i] == s[i + 1]);
        }
        lemma_strip_no_brackets(s.drop_first());
        assert(s[0] != '(' && s[0] != '[' && s[0] != ')' && s[0] != ']');
        assert(seq![s[0]] + s.drop_first() =~= s);
    }
}

/// A non-empty text without whitespace is one word.
proof fn lemma_words_single(s: Seq<char>)
    requires
        s.len() > 0,
        forall|i: int| 0 <= i < s.len() ==> !is_ws(#[trigger] s[i]),
    ensures
        words(s) == seq![s],
    decreases s.len(),
{
    if s.len() == 1 {
        assert(s.drop_last().len() == 0);
        assert(words(s.drop_last()) =~= Seq::<Seq<char>>::empty());
        assert(seq![s.last()] =~= s);
        assert(Seq::<Seq<char>>::empty().push(seq![s.last()]) =~= seq![s]);
    } else {
        let d = s.drop_last();
        assert forall|i: int| 0 <= i < d.len() implies !is_ws(#[trigger] d[i]) by {
            assert(d[i] == s[i]);
        }
        lemma_words_single(d);
        assert(!is_ws(s[s.len() - 2]));
        assert(!is_ws(s.last()));
        assert(d.push(s.last()) =~= s);
        let w = words(d);
        assert(w.len() == 1 && w.last() == d);
        assert(w.update(w.len() - 1, w.last().push(s.last())) =~= seq![s]);
    }
}

/// The title of a stem keeps every character that is not a bracket, an
/// underscore or whitespace: a stem made only of such characters is its own
/// title (e.g. `Kirby's-Adventure!` stays as it is).
pub proof fn lemma_plain_stem_is_title(stem: Seq<char>)
    requires
        forall|i: int|
            0 <= i < stem.len() ==> #[trigger] stem[i] != '(' && stem[i] != '[' && stem[i] != ')'
                && stem[i] != ']' && stem[i] != '_' && !is_ws(stem[i]),
    ensures
        clean_title(stem) == stem,
{
    lemma_strip_no_brackets(stem);
    assert(underscores_to_spaces(stem) =~= stem);
    if stem.len() > 0 {
        lemma_words_single(stem);
    } else {
        assert(words(stem) =~= Seq::<Seq<char>>::empty());
    }
}

} // verus!
