//! Launcher configuration: RetroArch location, library folders, the systems
//! (one emulator core per platform, with the file extensions it accepts) and
//! the play history; plus the decisions taken when a configuration is loaded
//! or first created.
use vstd::prelude::*;

use crate::paths::{
    first_existing, first_flagged, is_absolute_path, joined_path, opt_view, path_eq,
    path_is_absolute, path_join, same_path, views,
};
use crate::default_systems::{s, str_views};
use crate::text::{eq_ignore_case, lower, lower_string, str_eq, str_eq_ignore_case};

verus! {

/// RetroArch binary, cores folder and arguments given to every launch.
#[derive(Debug, Clone)]
pub struct RetroArchConfig {
    pub binary_path: String,
    pub cores_dir: String,
    pub extra_args: Vec<String>,
}

/// Root folders of the ROM and BIOS trees.
#[derive(Debug, Clone)]
pub struct LibraryConfig {
    pub roms_dir: String,
    pub bios_dir: String,
}

/// One platform: its core, the file extensions it accepts and its extra
/// arguments.
#[derive(Debug, Clone)]
pub struct SystemConfig {
    pub default_core: String,
    pub accepted_extensions: Vec<String>,
    pub extra_args: Vec<String>,
}

/// The last game that was played.
#[derive(Debug, Clone)]
pub struct HistoryConfig {
    pub last_game_path: Option<String>,
}

impl Default for HistoryConfig {
    fn default() -> (r: Self)
        ensures
            r.last_game_path is None,
    {
        HistoryConfig { last_game_path: None }
    }
}

/// The whole configuration. `systems` maps a system key (the name of the
/// sub-folder under the ROM and BIOS roots) to its settings; a well-formed
/// configuration holds each key once.
#[derive(Debug, Clone)]
pub struct LauncherConfig {
    pub retroarch: RetroArchConfig,
    pub library: LibraryConfig,
    pub systems: Vec<(String, SystemConfig)>,
    pub history: HistoryConfig,
}

/// The contents of a system entry.
pub struct SystemView {
    pub default_core: Seq<char>,
    pub accepted_extensions: Seq<Seq<char>>,
    pub extra_args: Seq<Seq<char>>,
}

impl View for SystemConfig {
    type V = SystemView;

    open spec fn view(&self) -> SystemView {
        SystemView {
            default_core: self.default_core@,
            accepted_extensions: views(self.accepted_extensions@),
            extra_args: views(self.extra_args@),
        }
    }
}

/// The keys of a system list.
pub open spec fn system_keys(systems: Seq<(String, SystemConfig)>) -> Seq<Seq<char>> {
    systems.map_values(|e: (String, SystemConfig)| e.0@)
}

/// No key occurs twice.
pub open spec fn keys_distinct(keys: Seq<Seq<char>>) -> bool {
    forall|a: int, b: int| 0 <= a < b < keys.len() ==> keys[a] != keys[b]
}

/// A system accepts an extension when one of its accepted extensions equals
/// it up to ASCII case.
pub open spec fn accepts_extension(sys: SystemConfig, ext: Seq<char>) -> bool {
    exists|i: int|
        0 <= i < sys.accepted_extensions@.len() && eq_ignore_case(
            #[trigger] sys.accepted_extensions@[i]@,
            ext,
        )
}

/// The key of the first system, in list order, that accepts `ext`.
pub open spec fn first_system_for(systems: Seq<(String, SystemConfig)>, ext: Seq<char>) -> Option<
    Seq<char>,
>
    decreases systems.len(),
{
    if systems.len() == 0 {
        None
    } else if accepts_extension(systems[0].1, ext) {
        Some(systems[0].0@)
    } else {
        first_system_for(systems.drop_first(), ext)
    }
}

/// Lower-casing twice is lower-casing once.
pub proof fn lemma_lower_idempotent(s: Seq<char>)
    ensures
        lower(lower(s)) == lower(s),
{
    assert(lower(lower(s)) =~= lower(s));
}

/// A copy of a list of strings.
pub fn copy_strings(v: &[String]) -> (r: Vec<String>)
    ensures
        r@ == v@,
{
    let mut out: Vec<String> = Vec::new();
    for i in 0..v.len()
        invariant
            out@ == v@.take(i as int),
    {
        out.push(v[i].clone());
        assert(v@.take(i + 1) == v@.take(i as int).push(v@[i as int]));
    }
    assert(v@.take(v@.len() as int) == v@);
    out
}

impl SystemConfig {
    /// A field-for-field copy.
    pub fn duplicate(&self) -> (r: SystemConfig)
        ensures
            r@ == self@,
            r.accepted_extensions@ == self.accepted_extensions@,
            r.extra_args@ == self.extra_args@,
            r.default_core == self.default_core,
    {
        SystemConfig {
            default_core: self.default_core.clone(),
            accepted_extensions: copy_strings(self.accepted_extensions.as_slice()),
            extra_args: copy_strings(self.extra_args.as_slice()),
        }
    }

    /// Does this system accept `ext` (up to ASCII case)?
    pub fn accepts(&self, ext: &str) -> (r: bool)
        ensures
            r == accepts_extension(*self, ext@),
    {
        for i in 0..self.accepted_extensions.len()
            invariant
                forall|k: int|
                    0 <= k < i ==> !eq_ignore_case(#[trigger] self.accepted_extensions@[k]@, ext@),
        {
            if str_eq_ignore_case(self.accepted_extensions[i].as_str(), ext) {
                return true;
            }
        }
        false
    }
}

impl LauncherConfig {
    /// Each system key occurs once.
    pub open spec fn wf(&self) -> bool {
        keys_distinct(system_keys(self.systems@))
    }

    /// The key of the first system that accepts `extension` (compared after
    /// ASCII lower-casing, up to ASCII case), or `None` when no system does.
    pub fn resolve_system_key_for_extension(&self, extension: &str) -> (r: Option<String>)
        ensures
            opt_view(r) == first_system_for(self.systems@, extension@),
    {
        let normalized = lower_string(extension);
        proof {
            lemma_lower_idempotent(extension@);
        }
        let n = self.systems.len();
        let mut i: usize = 0;
        assert(self.systems@.skip(0) == self.systems@);
        while i < n
            invariant
                n == self.systems@.len(),
                i <= n,
                normalized@ == lower(extension@),
                lower(lower(extension@)) == lower(extension@),
                first_system_for(self.systems@, extension@) == first_system_for(
                    self.systems@.skip(i as int),
                    extension@,
                ),
            decreases n - i,
        {
            let entry = &self.systems[i];
            let hit = entry.1.accepts(normalized.as_str());
            assert(accepts_extension(entry.1, normalized@) == accepts_extension(entry.1, extension@));
            assert(self.systems@.skip(i as int)[0] == self.systems@[i as int]);
            if hit {
                return Some(entry.0.clone());
            }
            assert(self.systems@.skip(i as int).drop_first() == self.systems@.skip(i + 1));
            i = i + 1;
        }
        None
    }

    /// The first position of a system with key `key` (exact match), if any.
    pub fn system_index(&self, key: &str) -> (r: Option<usize>)
        ensures
            match r {
                Some(i) => i < self.systems@.len() && self.systems@[i as int].0@ == key@
                    && forall|j: int| 0 <= j < i ==> #[trigger] self.systems@[j].0@ != key@,
                None => forall|i: int| 0 <= i < self.systems@.len() ==> #[trigger] self.systems@[i].0@ != key@,
            },
    {
        for i in 0..self.systems.len()
            invariant
                forall|k: int| 0 <= k < i ==> #[trigger] self.systems@[k].0@ != key@,
        {
            if str_eq(self.systems[i].0.as_str(), key) {
                return Some(i);
            }
        }
        None
    }

    /// The ROM folder of a system: `<roms_dir>/<key>`.
    pub fn rom_dir_for_system(&self, system_key: &str) -> (r: String)
        ensures
            r@ == joined_path(self.library.roms_dir@, system_key@),
    {
        path_join(self.library.roms_dir.as_str(), system_key)
    }

    /// The BIOS folder of a system: `<bios_dir>/<key>`.
    pub fn bios_dir_for_system(&self, system_key: &str) -> (r: String)
        ensures
            r@ == joined_path(self.library.bios_dir@, system_key@),
    {
        path_join(self.library.bios_dir.as_str(), system_key)
    }
}

} // verus!

verus! {

/// The home folder to build default paths from: the given one, or
/// `/home/pi`.
pub open spec fn home_or_default(home: Option<Seq<char>>) -> Seq<char> {
    match home {
        Some(h) => h,
        None => "/home/pi"@,
    }
}

/// Keys and contents of a system list.
pub open spec fn entry_views(systems: Seq<(String, SystemConfig)>) -> Seq<(Seq<char>, SystemView)> {
    systems.map_values(|e: (String, SystemConfig)| (e.0@, e.1@))
}

/// The systems of the default configuration: `gba`, `nes` and `snes`.
pub open spec fn default_template_systems() -> Seq<(Seq<char>, SystemView)> {
    seq![
        ("gba"@, SystemView { default_core: "mgba_libretro.so"@, accepted_extensions: seq!["gba"@], extra_args: seq![] }),
        ("nes"@, SystemView { default_core: "nestopia_libretro.so"@, accepted_extensions: seq!["nes"@], extra_args: seq![] }),
        ("snes"@, SystemView { default_core: "snes9x_libretro.so"@, accepted_extensions: seq!["sfc"@, "smc"@], extra_args: seq![] }),
    ]
}

/// `c` is the configuration written on first start for the given home
/// folder.
pub open spec fn is_default_template(c: LauncherConfig, home: Option<Seq<char>>) -> bool {
    &&& c.retroarch.binary_path@ == "retroarch"@
    &&& c.retroarch.cores_dir@ == "/usr/lib/libretro"@
    &&& views(c.retroarch.extra_args@) == seq!["--verbose"@]
    &&& c.library.roms_dir@ == joined_path(home_or_default(home), "pi/ROMs"@)
    &&& c.library.bios_dir@ == joined_path(home_or_default(home), "pi/BIOS"@)
    &&& entry_views(c.systems@) == default_template_systems()
    &&& c.history.last_game_path is None
}

/// The ROM root written by early versions.
pub open spec fn legacy_roms_dir() -> Seq<char> {
    "/home/pi/ROMs"@
}

/// The folders probed, in order, to replace the legacy ROM root.
pub open spec fn legacy_candidates(home: Seq<char>) -> Seq<Seq<char>> {
    seq![joined_path(home, "pi/ROMs"@), joined_path(home, "ROMs"@)]
}

/// The new ROM root chosen by the legacy-path migration, if it applies: the
/// configured root must be the legacy one, a home folder must be known, and
/// one of the candidates must exist.
pub open spec fn legacy_target(c: LauncherConfig, home: Option<Seq<char>>, exists: Seq<bool>) -> Option<
    Seq<char>,
> {
    match home {
        Some(h) => if same_path(c.library.roms_dir@, legacy_roms_dir()) {
            first_flagged(legacy_candidates(h), exists)
        } else {
            None
        },
        None => None,
    }
}

/// The replacement RetroArch binary, if the configured one is an absolute
/// path that does not exist: the one found on `PATH`, else plain
/// `retroarch`.
pub open spec fn binary_target(c: LauncherConfig, binary_exists: bool, on_path: Option<Seq<char>>) -> Option<
    Seq<char>,
> {
    if is_absolute_path(c.retroarch.binary_path@) && !binary_exists {
        match on_path {
            Some(p) => Some(p),
            None => Some("retroarch"@),
        }
    } else {
        None
    }
}

/// The replacement cores folder, if the configured one does not exist and
/// another was found.
pub open spec fn cores_target(cores_exists: bool, found: Option<Seq<char>>) -> Option<Seq<char>> {
    if !cores_exists {
        found
    } else {
        None
    }
}

/// `after` is `before` with the ROM root replaced by `target` when there is
/// one.
pub open spec fn roms_updated(before: LauncherConfig, after: LauncherConfig, target: Option<Seq<char>>) -> bool {
    &&& after.library.roms_dir@ == (match target {
        Some(t) => t,
        None => before.library.roms_dir@,
    })
    &&& after.library.bios_dir == before.library.bios_dir
    &&& after.retroarch == before.retroarch
    &&& after.systems == before.systems
    &&& after.history == before.history
}

/// `after` is `before` with the binary and cores folder replaced by their
/// targets, when there are any.
pub open spec fn retroarch_updated(
    before: LauncherConfig,
    after: LauncherConfig,
    binary: Option<Seq<char>>,
    cores: Option<Seq<char>>,
) -> bool {
    &&& after.retroarch.binary_path@ == (match binary {
        Some(t) => t,
        None => before.retroarch.binary_path@,
    })
    &&& after.retroarch.cores_dir@ == (match cores {
        Some(t) => t,
        None => before.retroarch.cores_dir@,
    })
    &&& after.retroarch.extra_args == before.retroarch.extra_args
    &&& after.library == before.library
    &&& after.systems == before.systems
    &&& after.history == before.history
}

/// What the loader learnt from the environment and the file system: whether
/// each legacy candidate exists, whether the configured binary and cores
/// folder exist, the `retroarch` found on `PATH` and a Libretro folder found
/// on disk.
pub struct ConfigProbe {
    pub legacy_candidate_exists: Vec<bool>,
    pub binary_exists: bool,
    pub retroarch_on_path: Option<String>,
    pub cores_dir_exists: bool,
    pub libretro_dir_found: Option<String>,
}

/// The two legacy candidates for a home folder.
pub fn legacy_roms_candidates(home: &str) -> (r: Vec<String>)
    ensures
        views(r@) == legacy_candidates(home@),
{
    let mut v: Vec<String> = Vec::new();
    v.push(path_join(home, "pi/ROMs"));
    v.push(path_join(home, "ROMs"));
    assert(views(v@) =~= legacy_candidates(home@));
    v
}

/// The configuration written on first start: RetroArch from `PATH` with
/// `--verbose`, cores in `/usr/lib/libretro`, ROMs and BIOS under
/// `<home>/pi/`, and the `gba`, `nes` and `snes` systems.
pub fn default_template(home: Option<String>) -> (r: LauncherConfig)
    ensures
        is_default_template(r, opt_view(home)),
        r.wf(),
{
    let home_dir = match home {
        Some(h) => h,
        None => "/home/pi".to_owned(),
    };
    let mut systems: Vec<(String, SystemConfig)> = Vec::new();
    let gba_exts: [&str; 1] = ["gba"];
    let nes_exts: [&str; 1] = ["nes"];
    let snes_exts: [&str; 2] = ["sfc", "smc"];
    assert(str_views(gba_exts@) =~= seq!["gba"@]);
    assert(str_views(nes_exts@) =~= seq!["nes"@]);
    assert(str_views(snes_exts@) =~= seq!["sfc"@, "smc"@]);
    systems.push(("gba".to_owned(), s("mgba_libretro.so", &gba_exts)));
    systems.push(("nes".to_owned(), s("nestopia_libretro.so", &nes_exts)));
    systems.push(("snes".to_owned(), s("snes9x_libretro.so", &snes_exts)));
    let mut extra: Vec<String> = Vec::new();
    extra.push("--verbose".to_owned());
    let r = LauncherConfig {
        retroarch: RetroArchConfig {
            binary_path: "retroarch".to_owned(),
            cores_dir: "/usr/lib/libretro".to_owned(),
            extra_args: extra,
        },
        library: LibraryConfig {
            roms_dir: path_join(home_dir.as_str(), "pi/ROMs"),
            bios_dir: path_join(home_dir.as_str(), "pi/BIOS"),
        },
        systems,
        history: HistoryConfig::default(),
    };
    proof {
        reveal_strlit("gba");
        reveal_strlit("nes");
        reveal_strlit("snes");
        assert(views(r.retroarch.extra_args@) =~= seq!["--verbose"@]);
        assert(entry_views(r.systems@) =~= default_template_systems());
        assert(system_keys(r.systems@) =~= seq!["gba"@, "nes"@, "snes"@]);
        assert("gba"@[0] != "nes"@[0]);
        assert("gba"@.len() != "snes"@.len());
        assert("nes"@.len() != "snes"@.len());
    }
    r
}

impl LauncherConfig {
    /// Replaces the legacy ROM root `/home/pi/ROMs` by the first existing
    /// folder among `<home>/pi/ROMs` and `<home>/ROMs` (`candidate_exists`
    /// holds the probes of `legacy_roms_candidates(home)`, in order).
    /// Returns whether the configuration changed.
    pub fn migrate_legacy_paths_if_needed(&mut self, home: Option<String>, candidate_exists: &[bool]) -> (changed: bool)
        ensures
            changed == legacy_target(*old(self), opt_view(home), candidate_exists@) is Some,
            roms_updated(*old(self), *final(self), legacy_target(*old(self), opt_view(home), candidate_exists@)),
            final(self).wf() == old(self).wf(),
    {
        if !path_eq(self.library.roms_dir.as_str(), "/home/pi/ROMs") {
            return false;
        }
        let home_dir = match home {
            Some(h) => h,
            None => {
                return false;
            },
        };
        let candidates = legacy_roms_candidates(home_dir.as_str());
        match first_existing(candidates.as_slice(), candidate_exists) {
            Some(new_path) => {
                self.library.roms_dir = new_path;
                true
            },
            None => false,
        }
    }

    /// Repairs the RetroArch settings: an absolute binary path that does not
    /// exist is replaced by the `retroarch` found on `PATH` (or plain
    /// `retroarch`); a cores folder that does not exist is replaced by the
    /// Libretro folder found on disk, if any. Returns whether anything
    /// changed.
    pub fn migrate_retroarch_defaults_if_needed(
        &mut self,
        binary_exists: bool,
        retroarch_on_path: Option<String>,
        cores_dir_exists: bool,
        libretro_dir_found: Option<String>,
    ) -> (changed: bool)
        ensures
            changed == (binary_target(*old(self), binary_exists, opt_view(retroarch_on_path)) is Some
                || cores_target(cores_dir_exists, opt_view(libretro_dir_found)) is Some),
            retroarch_updated(
                *old(self),
                *final(self),
                binary_target(*old(self), binary_exists, opt_view(retroarch_on_path)),
                cores_target(cores_dir_exists, opt_view(libretro_dir_found)),
            ),
            final(self).wf() == old(self).wf(),
    {
        let mut changed = false;
        if path_is_absolute(self.retroarch.binary_path.as_str()) && !binary_exists {
            match retroarch_on_path {
                Some(found) => {
                    self.retroarch.binary_path = found;
                },
                None => {
                    self.retroarch.binary_path = "retroarch".to_owned();
                },
            }
            changed = true;
        }
        if !cores_dir_exists {
            if let Some(found_dir) = libretro_dir_found {
                self.retroarch.cores_dir = found_dir;
                changed = true;
            }
        }
        changed
    }

    /// What loading gives: with no file (`loaded` is `None`) the default
    /// template, to be saved; otherwise the loaded configuration after the
    /// legacy-path and RetroArch migrations, to be saved when either changed
    /// it. The second component says whether to save.
    pub fn load_or_create(loaded: Option<LauncherConfig>, home: Option<String>, probe: ConfigProbe) -> (r: (
        LauncherConfig,
        bool,
    ))
        ensures
            loaded is None ==> is_default_template(r.0, opt_view(home)) && r.1 && r.0.wf(),
            loaded matches Some(c) ==> (r.0.wf() == c.wf()),
            loaded matches Some(c) ==> {
                let legacy = legacy_target(c, opt_view(home), probe.legacy_candidate_exists@);
                let binary = binary_target(c, probe.binary_exists, opt_view(probe.retroarch_on_path));
                let cores = cores_target(probe.cores_dir_exists, opt_view(probe.libretro_dir_found));
                &&& r.0.library.roms_dir@ == (match legacy {
                    Some(t) => t,
                    None => c.library.roms_dir@,
                })
                &&& r.0.library.bios_dir == c.library.bios_dir
                &&& r.0.retroarch.binary_path@ == (match binary {
                    Some(t) => t,
                    None => c.retroarch.binary_path@,
                })
                &&& r.0.retroarch.cores_dir@ == (match cores {
                    Some(t) => t,
                    None => c.retroarch.cores_dir@,
                })
                &&& r.0.retroarch.extra_args == c.retroarch.extra_args
                &&& r.0.systems == c.systems
                &&& r.0.history == c.history
                &&& r.1 == (legacy is Some || binary is Some || cores is Some)
            },
    {
        match loaded {
            None => {
                let d = default_template(home);
                (d, true)
            },
            Some(c) => {
                let mut cfg = c;
                let a = cfg.migrate_legacy_paths_if_needed(home, probe.legacy_candidate_exists.as_slice());
                let b = cfg.migrate_retroarch_defaults_if_needed(
                    probe.binary_exists,
                    probe.retroarch_on_path,
                    probe.cores_dir_exists,
                    probe.libretro_dir_found,
                );
                (cfg, a || b)
            },
        }
    }
}

} // verus!

verus! {

impl LauncherConfig {
    /// Each system key, in lexicographic order (equal keys in list order),
    /// with its ROM folder `<roms_dir>/<key>`: the folders scanned when the
    /// catalogue is synced.
    pub fn rom_scan_pairs_sorted(&self) -> (r: Vec<(String, String)>)
        ensures
            r@.len() == self.systems@.len(),
            exists|order: Seq<usize>|
                #![trigger crate::order::is_index_permutation(order, self.systems@.len())]
                crate::order::is_index_permutation(order, self.systems@.len())
                    && crate::order::stable_by_keys(order, system_keys(self.systems@)) && forall|i: int|
                    0 <= i < r@.len() ==> #[trigger] r@[i].0@ == self.systems@[order[i] as int].0@
                        && r@[i].1@ == joined_path(self.library.roms_dir@, r@[i].0@),
            forall|a: int, b: int| 0 <= a < b < r@.len() ==> crate::order::lex_le(r@[a].0@, r@[b].0@),
    {
        let ghost keys = system_keys(self.systems@);
        let mut key_chars: Vec<Vec<char>> = Vec::new();
        for i in 0..self.systems.len()
            invariant
                keys == system_keys(self.systems@),
                key_chars@.len() == i,
                forall|k: int| 0 <= k < i ==> #[trigger] key_chars@[k]@ == keys[k],
        {
            key_chars.push(crate::text::to_chars(self.systems[i].0.as_str()));
        }
        assert(crate::order::char_vec_views(key_chars@) =~= keys);
        let order = crate::order::sort_indices_by_keys(key_chars.as_slice());
        let mut out: Vec<(String, String)> = Vec::new();
        for i in 0..order.len()
            invariant
                keys == system_keys(self.systems@),
                crate::order::is_index_permutation(order@, keys.len()),
                crate::order::sorted_by_keys(order@, keys),
                out@.len() == i,
                forall|k: int| 0 <= k < i ==> #[trigger] out@[k].0@ == self.systems@[order@[k] as int].0@
                    && out@[k].1@ == joined_path(self.library.roms_dir@, out@[k].0@),
        {
            let idx = order[i];
            assert(order@[i as int] < keys.len());
            let key = self.systems[idx].0.clone();
            let dir = self.rom_dir_for_system(key.as_str());
            let ghost before = out@;
            out.push((key, dir));
            assert forall|k: int| 0 <= k < i + 1 implies #[trigger] out@[k].0@ == self.systems@[order@[k] as int].0@
                && out@[k].1@ == joined_path(self.library.roms_dir@, out@[k].0@) by {
                if k < i {
                    assert(out@[k] == before[k]);
                }
            }
        }
        assert forall|a: int, b: int| 0 <= a < b < out@.len() implies crate::order::lex_le(out@[a].0@, out@[b].0@) by {
            assert(out@[a].0@ == keys[order@[a] as int]);
            assert(out@[b].0@ == keys[order@[b] as int]);
        }
        out
    }
}

} // verus!

verus! {

/// The usual Libretro core folders, tried in this order when the configured
/// cores folder does not exist.
pub open spec fn fixed_libretro_dirs() -> Seq<Seq<char>> {
    seq!["/usr/lib/libretro"@, "/usr/local/lib/libretro"@, "/var/lib/snapd/hostfs/usr/lib/libretro"@]
}

/// The usual Libretro core folders.
pub fn libretro_dir_candidates() -> (r: Vec<String>)
    ensures
        views(r@) == fixed_libretro_dirs(),
{
    let mut v: Vec<String> = Vec::new();
    v.push("/usr/lib/libretro".to_owned());
    v.push("/usr/local/lib/libretro".to_owned());
    v.push("/var/lib/snapd/hostfs/usr/lib/libretro".to_owned());
    assert(views(v@) =~= fixed_libretro_dirs());
    v
}

/// `<entry>/libretro` for each entry of `/usr/lib`.
pub open spec fn nested_libretro_dirs(entries: Seq<Seq<char>>) -> Seq<Seq<char>> {
    entries.map_values(|e: Seq<char>| joined_path(e, "libretro"@))
}

/// `<entry>/libretro` for each entry of `/usr/lib`, in order.
pub fn nested_libretro_candidates(entries: &[String]) -> (r: Vec<String>)
    ensures
        views(r@) == nested_libretro_dirs(views(entries@)),
{
    let mut v: Vec<String> = Vec::new();
    for i in 0..entries.len()
        invariant
            views(v@) == nested_libretro_dirs(views(entries@)).take(i as int),
    {
        let ghost before = v@;
        v.push(path_join(entries[i].as_str(), "libretro"));
        assert(views(entries@)[i as int] == entries@[i as int]@);
        assert(views(v@) =~= views(before).push(joined_path(entries@[i as int]@, "libretro"@)));
        assert(nested_libretro_dirs(views(entries@)).take(i + 1) =~= nested_libretro_dirs(views(entries@)).take(
            i as int,
        ).push(joined_path(entries@[i as int]@, "libretro"@)));
    }
    assert(nested_libretro_dirs(views(entries@)).take(entries@.len() as int) == nested_libretro_dirs(views(entries@)));
    v
}

/// The Libretro folder found on disk: the first usual folder that exists,
/// otherwise the first `<entry>/libretro` under `/usr/lib` that exists.
/// `fixed_exists` holds the probes of `libretro_dir_candidates()`,
/// `nested_exists` those of `nested_libretro_candidates(entries)`.
pub fn discover_libretro_dir(fixed_exists: &[bool], entries: &[String], nested_exists: &[bool]) -> (r: Option<String>)
    ensures
        opt_view(r) == (match first_flagged(fixed_libretro_dirs(), fixed_exists@) {
            Some(d) => Some(d),
            None => first_flagged(nested_libretro_dirs(views(entries@)), nested_exists@),
        }),
{
    let fixed = libretro_dir_candidates();
    match first_existing(fixed.as_slice(), fixed_exists) {
        Some(d) => Some(d),
        None => {
            let nested = nested_libretro_candidates(entries);
            first_existing(nested.as_slice(), nested_exists)
        },
    }
}

/// Where the previous version of the launcher kept its configuration and its
/// catalogue, under the home folder.
pub fn legacy_data_paths(home: &str) -> (r: (String, String))
    ensures
        r.0@ == joined_path(home@, ".config/rpi5-launcher/config.toml"@),
        r.1@ == joined_path(home@, ".local/share/rpi5-launcher/catalog.sqlite3"@),
{
    (path_join(home, ".config/rpi5-launcher/config.toml"), path_join(home, ".local/share/rpi5-launcher/catalog.sqlite3"))
}

} // verus!
