//! ROM scanning: which files of the ROM folder are games, of which system,
//! and the order they are listed in.
use vstd::prelude::*;

use crate::catalog::{display_file_name, file_name_for_path};
use crate::config::{first_system_for, LauncherConfig};
use crate::order::{char_vec_views, is_index_permutation, lex_le, sort_indices_by_keys, sorted_by_keys};
use crate::config::SystemConfig;
use crate::paths::{extension_of, file_name_of, opt_view, path_extension};
use crate::text::{lower, lower_string, to_chars};

verus! {

/// A ROM file found in the library.
#[derive(Debug, Clone)]
pub struct RomEntry {
    pub path: String,
    pub file_name: String,
    pub extension: String,
    pub system_key: Option<String>,
}

/// Path, file name, lower-cased extension and system key of a ROM.
pub type RomView = (Seq<char>, Seq<char>, Seq<char>, Option<Seq<char>>);

/// The view of a ROM entry.
pub open spec fn rom_view(e: RomEntry) -> RomView {
    (e.path@, e.file_name@, e.extension@, opt_view(e.system_key))
}

/// The entry made for a file: only files with an extension that some system
/// accepts are games.
pub open spec fn rom_of(config: LauncherConfig, path: Seq<char>) -> Option<RomView> {
    match extension_of(path) {
        None => None,
        Some(e) => match first_system_for(config.systems@, lower(e)) {
            None => None,
            Some(k) => Some((path, display_file_name(path), lower(e), Some(k))),
        },
    }
}

/// The entries made for a list of files, in file order.
pub open spec fn roms_of(config: LauncherConfig, files: Seq<Seq<char>>) -> Seq<RomView>
    decreases files.len(),
{
    if files.len() == 0 {
        seq![]
    } else {
        let before = roms_of(config, files.drop_last());
        match rom_of(config, files.last()) {
            Some(v) => before.push(v),
            None => before,
        }
    }
}

/// The entry for one file of the ROM folder, if it is a game.
pub fn rom_entry_for(config: &LauncherConfig, path: &str) -> (r: Option<RomEntry>)
    ensures
        match r {
            Some(e) => rom_of(*config, path@) == Some(rom_view(e)),
            None => rom_of(*config, path@) is None,
        },
        r matches Some(e) ==> e.path@ == path@,
{
    let extension = match path_extension(path) {
        Some(e) => lower_string(e.as_str()),
        None => {
            return None;
        },
    };
    let system_key = config.resolve_system_key_for_extension(extension.as_str());
    if system_key.is_none() {
        return None;
    }
    let file_name = file_name_for_path(path);
    Some(RomEntry { path: path.to_owned(), file_name, extension, system_key })
}

fn duplicate_rom(e: &RomEntry) -> (r: RomEntry)
    ensures
        rom_view(r) == rom_view(*e),
{
    RomEntry {
        path: e.path.clone(),
        file_name: e.file_name.clone(),
        extension: e.extension.clone(),
        system_key: match &e.system_key {
            Some(k) => Some(k.clone()),
            None => None,
        },
    }
}

/// The games among the files of the ROM folder (`files` lists the paths of
/// its regular files), ordered by file name (equal names in file order).
pub fn scan_roms(config: &LauncherConfig, files: &[String]) -> (r: Vec<RomEntry>)
    ensures
        ({
            let kept = roms_of(*config, crate::paths::views(files@));
            &&& r@.len() == kept.len()
            &&& exists|order: Seq<usize>|
                #![trigger is_index_permutation(order, kept.len())]
                is_index_permutation(order, kept.len())
                    && crate::order::stable_by_keys(order, kept.map_values(|v: RomView| v.1)) && forall|i: int|
                    0 <= i < r@.len() ==> #[trigger] rom_view(r@[i]) == kept[order[i] as int]
            &&& forall|a: int, b: int| 0 <= a < b < r@.len() ==> lex_le(r@[a].file_name@, r@[b].file_name@)
        }),
{
    let ghost fv = crate::paths::views(files@);
    let mut entries: Vec<RomEntry> = Vec::new();
    for i in 0..files.len()
        invariant
            fv == crate::paths::views(files@),
            entries@.map_values(|e: RomEntry| rom_view(e)) == roms_of(*config, fv.take(i as int)),
    {
        let ghost before = entries@;
        assert(fv.take(i + 1).drop_last() == fv.take(i as int));
        assert(fv.take(i + 1).last() == files@[i as int]@);
        match rom_entry_for(config, files[i].as_str()) {
            Some(e) => {
                entries.push(e);
                assert(entries@.map_values(|e: RomEntry| rom_view(e)) =~= before.map_values(|e: RomEntry| rom_view(e)).push(rom_view(entries@.last())));
            },
            None => {},
        }
    }
    assert(fv.take(fv.len() as int) == fv);
    let ghost kept = entries@.map_values(|e: RomEntry| rom_view(e));
    let mut keys: Vec<Vec<char>> = Vec::new();
    for i in 0..entries.len()
        invariant
            keys@.len() == i,
            forall|k: int| 0 <= k < i ==> #[trigger] keys@[k]@ == entries@[k].file_name@,
    {
        keys.push(to_chars(entries[i].file_name.as_str()));
    }
    let order = sort_indices_by_keys(keys.as_slice());
    assert(char_vec_views(keys@) =~= kept.map_values(|v: RomView| v.1));
    let mut out: Vec<RomEntry> = Vec::new();
    for i in 0..order.len()
        invariant
            kept == entries@.map_values(|e: RomEntry| rom_view(e)),
            keys@.len() == entries@.len(),
            forall|k: int| 0 <= k < keys@.len() ==> #[trigger] keys@[k]@ == entries@[k].file_name@,
            is_index_permutation(order@, keys@.len()),
            sorted_by_keys(order@, char_vec_views(keys@)),
            out@.len() == i,
            forall|k: int| 0 <= k < i ==> #[trigger] rom_view(out@[k]) == kept[order@[k] as int],
            forall|k: int| 0 <= k < i ==> #[trigger] out@[k].file_name@ == entries@[order@[k] as int].file_name@,
    {
        let idx = order[i];
        assert(order@[i as int] < keys@.len());
        let ghost before = out@;
        out.push(duplicate_rom(&entries[idx]));
        assert forall|k: int| 0 <= k < i + 1 implies #[trigger] rom_view(out@[k]) == kept[order@[k] as int] by {
            if k < i {
                assert(out@[k] == before[k]);
            }
        }
        assert forall|k: int| 0 <= k < i + 1 implies #[trigger] out@[k].file_name@ == entries@[order@[k] as int].file_name@ by {
            if k < i {
                assert(out@[k] == before[k]);
            }
        }
    }
    assert forall|a: int, b: int| 0 <= a < b < out@.len() implies lex_le(out@[a].file_name@, out@[b].file_name@) by {
        assert(char_vec_views(keys@)[order@[a] as int] == keys@[order@[a] as int]@);
        assert(char_vec_views(keys@)[order@[b] as int] == keys@[order@[b] as int]@);
    }
    out
}

/// The entry made for a file keeps the file's own path and its file name,
/// and exists exactly when the file has an extension that some configured
/// system accepts; that system is the first one, in list order, to accept the
/// extension (compared up to ASCII case).
pub proof fn lemma_rom_entry_fields(config: LauncherConfig, path: Seq<char>)
    ensures
        (rom_of(config, path) is Some) == (extension_of(path) is Some && exists|i: int|
            0 <= i < config.systems@.len() && crate::config::accepts_extension(
                #[trigger] config.systems@[i].1,
                extension_of(path)->0,
            )),
        rom_of(config, path) matches Some(v) ==> {
            &&& v.0 == path
            &&& (file_name_of(path) matches Some(n) ==> v.1 == n)
            &&& (file_name_of(path) is None ==> v.1 == path)
            &&& v.2 == lower(extension_of(path)->0)
            &&& v.3 matches Some(k) && exists|i: int|
                0 <= i < config.systems@.len() && #[trigger] config.systems@[i].0@ == k
                    && crate::config::accepts_extension(config.systems@[i].1, extension_of(path)->0)
                    && forall|j: int| 0 <= j < i ==> !crate::config::accepts_extension(
                        #[trigger] config.systems@[j].1,
                        extension_of(path)->0,
                    )
        },
{
    if let Some(e) = extension_of(path) {
        crate::config::lemma_lower_idempotent(e);
        lemma_accepts_lower(config.systems@, e);
        lemma_first_system(config.systems@, lower(e));
    }
}

proof fn lemma_accepts_lower(systems: Seq<(String, SystemConfig)>, e: Seq<char>)
    ensures
        forall|i: int| 0 <= i < systems.len() ==> crate::config::accepts_extension(#[trigger] systems[i].1, lower(e))
            == crate::config::accepts_extension(systems[i].1, e),
{
    crate::config::lemma_lower_idempotent(e);
}

/// `first_system_for` gives the key of the first accepting system, and
/// nothing when none accepts.
proof fn lemma_first_system(systems: Seq<(String, SystemConfig)>, e: Seq<char>)
    ensures
        (first_system_for(systems, e) is Some) == (exists|i: int|
            0 <= i < systems.len() && crate::config::accepts_extension(#[trigger] systems[i].1, e)),
        first_system_for(systems, e) matches Some(k) ==> exists|i: int|
            0 <= i < systems.len() && #[trigger] systems[i].0@ == k && crate::config::accepts_extension(systems[i].1, e)
                && forall|j: int| 0 <= j < i ==> !crate::config::accepts_extension(#[trigger] systems[j].1, e),
    decreases systems.len(),
{
    if systems.len() > 0 {
        let rest = systems.drop_first();
        lemma_first_system(rest, e);
        if crate::config::accepts_extension(systems[0].1, e) {
            assert(systems[0].0@ == first_system_for(systems, e)->0);
        } else {
            if exists|i: int| 0 <= i < systems.len() && crate::config::accepts_extension(#[trigger] systems[i].1, e) {
                let i = choose|i: int| 0 <= i < systems.len() && crate::config::accepts_extension(#[trigger] systems[i].1, e);
                assert(rest[i - 1] == systems[i]);
            }
            if exists|i: int| 0 <= i < rest.len() && crate::config::accepts_extension(#[trigger] rest[i].1, e) {
                let i = choose|i: int| 0 <= i < rest.len() && crate::config::accepts_extension(#[trigger] rest[i].1, e);
                assert(systems[i + 1] == rest[i]);
            }
            if let Some(k) = first_system_for(systems, e) {
                let i = choose|i: int|
                    0 <= i < rest.len() && #[trigger] rest[i].0@ == k && crate::config::accepts_extension(rest[i].1, e)
                        && forall|j: int| 0 <= j < i ==> !crate::config::accepts_extension(#[trigger] rest[j].1, e);
                assert(systems[i + 1] == rest[i]);
                assert forall|j: int| 0 <= j < i + 1 implies !crate::config::accepts_extension(#[trigger] systems[j].1, e) by {
                    if j > 0 {
                        assert(systems[j] == rest[j - 1]);
                    }
                }
            }
        }
    }
}

/// Every entry of a scan is made for one of the scanned files, and keeps that
/// file's path.
pub proof fn lemma_scan_paths_from_files(config: LauncherConfig, files: Seq<Seq<char>>)
    ensures
        forall|k: int| 0 <= k < roms_of(config, files).len() ==> exists|j: int|
            0 <= j < files.len() && #[trigger] roms_of(config, files)[k].0 == files[j],
    decreases files.len(),
{
    if files.len() > 0 {
        let d = files.drop_last();
        lemma_scan_paths_from_files(config, d);
        let before = roms_of(config, d);
        assert forall|k: int| 0 <= k < roms_of(config, files).len() implies exists|j: int|
            0 <= j < files.len() && #[trigger] roms_of(config, files)[k].0 == files[j] by {
            if k < before.len() {
                let j = choose|j: int| 0 <= j < d.len() && #[trigger] before[k].0 == d[j];
                assert(files[j] == d[j]);
                assert(roms_of(config, files)[k] == before[k]);
            } else {
                assert(roms_of(config, files)[k] == rom_of(config, files.last())->0);
                assert(files[files.len() - 1] == files.last());
            }
        }
    }
}

} // verus!
