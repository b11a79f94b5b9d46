//! Launching games with RetroArch: which system a ROM belongs to, where its
//! core is, which RetroArch binary runs it, and the command line and the
//! extra configuration handed to it. The file-system probes are made by the
//! caller and passed in; everything decided from them is here.
use vstd::prelude::*;

use crate::config::{first_system_for, LauncherConfig, SystemConfig};
use crate::paths::{
    extension_of, file_name_of, first_existing, first_flagged, is_absolute_path, joined_path,
    opt_view, path_eq, path_extension, path_file_name, path_has_prefix, path_is_absolute,
    path_join, path_starts_with, same_path, views,
};
use crate::text::{
    append_chars, cat2, cat3, join_strings, join_with, contains_chars, contains_sub, ends_with_chars, from_chars, has_suffix, lower,
    lower_chars, lower_string, slice_chars, split_on, str_eq, to_chars, trim, trim_chars,
};

verus! {

/// Why a game could not be launched.
#[derive(Debug, Clone, PartialEq, Eq)]
pub enum LaunchError {
    /// The ROM file has no extension.
    NoExtension,
    /// The requested system is not configured.
    UnknownSystem(String),
    /// No configured system accepts this extension.
    NoSystemForExtension(String),
    /// The ROM is not under the folder of its system.
    RomOutsideSystemDir { expected_root: String, system_key: String },
    /// The system vanished from the configuration.
    SystemMissing(String),
    /// The configured absolute core path does not exist.
    CoreMissing(String),
    /// No core file was found in the searched folders.
    CoreNotFound { core: String, inspected: Vec<String>, hint: String },
    /// The configured absolute RetroArch path does not exist.
    BinaryMissing(String),
    /// The RetroArch command is not on `PATH`.
    NotOnPath(String),
}

/// The message shown for a launch error.
pub open spec fn launch_error_text(e: LaunchError) -> Seq<char> {
    match e {
        LaunchError::NoExtension => "arquivo ROM sem extensao reconhecivel"@,
        LaunchError::UnknownSystem(k) => "sistema '"@ + k@ + "' nao existe na configuracao"@,
        LaunchError::NoSystemForExtension(x) => "nenhum sistema configurado para extensao ."@ + x@,
        LaunchError::RomOutsideSystemDir { expected_root, system_key } => "ROM deve estar em "@
            + expected_root@ + " (subpasta do sistema '"@ + system_key@ + "')"@,
        LaunchError::SystemMissing(k) => "sistema "@ + k@ + " nao encontrado na configuracao"@,
        LaunchError::CoreMissing(c) => "core configurado nao existe: "@ + c@,
        LaunchError::CoreNotFound { core, inspected, hint } => "nao foi possivel localizar o core "@
            + core@ + " (buscado em: "@ + join_with(views(inspected@), ", "@) + "). "@ + hint@,
        LaunchError::BinaryMissing(b) => "binario RetroArch nao encontrado em "@ + b@,
        LaunchError::NotOnPath(b) => "comando '"@ + b@ + "' nao encontrado no PATH"@,
    }
}

impl LaunchError {
    /// The message shown to the user for this error.
    pub fn message(&self) -> (r: String)
        ensures
            r@ == launch_error_text(*self),
    {
        match self {
            LaunchError::NoExtension => "arquivo ROM sem extensao reconhecivel".to_owned(),
            LaunchError::UnknownSystem(k) => cat3("sistema '", k.as_str(), "' nao existe na configuracao"),
            LaunchError::NoSystemForExtension(x) => cat2("nenhum sistema configurado para extensao .", x.as_str()),
            LaunchError::RomOutsideSystemDir { expected_root, system_key } => {
                let head = cat3("ROM deve estar em ", expected_root.as_str(), " (subpasta do sistema '");
                cat3(head.as_str(), system_key.as_str(), "')")
            },
            LaunchError::SystemMissing(k) => cat3("sistema ", k.as_str(), " nao encontrado na configuracao"),
            LaunchError::CoreMissing(c) => cat2("core configurado nao existe: ", c.as_str()),
            LaunchError::CoreNotFound { core, inspected, hint } => {
                let dirs = join_strings(inspected.as_slice(), ", ");
                assert(inspected@.map_values(|x: String| x@) == views(inspected@));
                let head = cat3("nao foi possivel localizar o core ", core.as_str(), " (buscado em: ");
                let mid = cat3(head.as_str(), dirs.as_str(), "). ");
                cat2(mid.as_str(), hint.as_str())
            },
            LaunchError::BinaryMissing(b) => cat2("binario RetroArch nao encontrado em ", b.as_str()),
            LaunchError::NotOnPath(b) => cat3("comando '", b.as_str(), "' nao encontrado no PATH"),
        }
    }
}

/// The installation advice shown when a system's core is missing.
pub open spec fn package_hint(system_key: Seq<char>) -> Seq<char> {
    if system_key == "snes"@ {
        "Instale um core SNES (ex.: pacote 'libretro-snes9x') ou ajuste systems.snes.default_core para um core instalado."@
    } else if system_key == "nes"@ {
        "Instale um core NES (ex.: 'libretro-nestopia') ou ajuste systems.nes.default_core para um core instalado."@
    } else if system_key == "gba"@ {
        "Instale um core GBA (ex.: 'libretro-mgba') ou ajuste systems.gba.default_core para um core instalado."@
    } else {
        "Instale o core correspondente ou ajuste default_core para um arquivo existente."@
    }
}

/// The installation advice for a system.
pub fn package_hint_for_system(system_key: &str) -> (r: &'static str)
    ensures
        r@ == package_hint(system_key@),
{
    if str_eq(system_key, "snes") {
        "Instale um core SNES (ex.: pacote 'libretro-snes9x') ou ajuste systems.snes.default_core para um core instalado."
    } else if str_eq(system_key, "nes") {
        "Instale um core NES (ex.: 'libretro-nestopia') ou ajuste systems.nes.default_core para um core instalado."
    } else if str_eq(system_key, "gba") {
        "Instale um core GBA (ex.: 'libretro-mgba') ou ajuste systems.gba.default_core para um core instalado."
    } else {
        "Instale o core correspondente ou ajuste default_core para um arquivo existente."
    }
}

/// A path as written inside a RetroArch configuration value: backslashes
/// become slashes and double quotes are escaped.
pub open spec fn cfg_escape(s: Seq<char>) -> Seq<char>
    decreases s.len(),
{
    if s.len() == 0 {
        seq![]
    } else {
        let c = s.last();
        cfg_escape(s.drop_last()) + (if c == '\\' {
            seq!['/']
        } else if c == '"' {
            seq!['\\', '"']
        } else {
            seq![c]
        })
    }
}

/// A path escaped for a RetroArch configuration value.
pub fn path_for_retroarch_system_cfg(path: &str) -> (r: String)
    ensures
        r@ == cfg_escape(path@),
{
    let cs = to_chars(path);
    let mut out: Vec<char> = Vec::new();
    for i in 0..cs.len()
        invariant
            out@ == cfg_escape(cs@.take(i as int)),
    {
        let c = cs[i];
        assert(cs@.take(i + 1).drop_last() == cs@.take(i as int));
        assert(cs@.take(i + 1).last() == c);
        if c == '\\' {
            out.push('/');
        } else if c == '"' {
            out.push('\\');
            out.push('"');
        } else {
            out.push(c);
        }
        assert(out@ =~= cfg_escape(cs@.take(i + 1)));
    }
    assert(cs@.take(cs@.len() as int) == cs@);
    assert(cs@ == path@);
    from_chars(out.as_slice())
}

/// The user's home folder: `HOME` when it is set and non-empty, otherwise
/// `USERPROFILE`.
pub fn user_home_dir(home: Option<String>, userprofile: Option<String>) -> (r: Option<String>)
    ensures
        opt_view(r) == (match opt_view(home) {
            Some(h) => if h.len() > 0 {
                Some(h)
            } else {
                opt_view(userprofile)
            },
            None => opt_view(userprofile),
        }),
{
    match home {
        Some(h) => {
            if h.as_str().is_empty() {
                userprofile
            } else {
                Some(h)
            }
        },
        None => userprofile,
    }
}

/// The user's `retroarch.cfg` locations (native and Flatpak), in the order
/// they are tried.
pub open spec fn main_cfg_candidates(home: Option<Seq<char>>) -> Seq<Seq<char>> {
    match home {
        Some(h) => seq![
            joined_path(h, ".config/retroarch/retroarch.cfg"@),
            joined_path(h, ".var/app/org.libretro.RetroArch/config/retroarch/retroarch.cfg"@),
        ],
        None => seq![],
    }
}

/// The user's `retroarch.cfg` locations.
pub fn retroarch_main_cfg_candidates(home: &Option<String>) -> (r: Vec<String>)
    ensures
        views(r@) == main_cfg_candidates(opt_view(*home)),
{
    let mut v: Vec<String> = Vec::new();
    if let Some(h) = home {
        v.push(path_join(h.as_str(), ".config/retroarch/retroarch.cfg"));
        v.push(path_join(h.as_str(), ".var/app/org.libretro.RetroArch/config/retroarch/retroarch.cfg"));
    }
    assert(views(v@) =~= main_cfg_candidates(opt_view(*home)));
    v
}

/// The user's `retroarch.cfg` in use: the first candidate that is a file
/// (`is_file` holds the caller's probes of `retroarch_main_cfg_candidates`).
pub fn first_existing_retroarch_main_cfg(home: &Option<String>, is_file: &[bool]) -> (r: Option<String>)
    ensures
        opt_view(r) == first_flagged(main_cfg_candidates(opt_view(*home)), is_file@),
{
    let candidates = retroarch_main_cfg_candidates(home);
    first_existing(candidates.as_slice(), is_file)
}

/// The joypad autoconfig folders, user ones first, then the system ones.
pub open spec fn autoconfig_candidates(home: Option<Seq<char>>) -> Seq<Seq<char>> {
    (match home {
        Some(h) => seq![
            joined_path(h, ".config/retroarch/autoconfig"@),
            joined_path(h, ".var/app/org.libretro.RetroArch/config/retroarch/autoconfig"@),
        ],
        None => seq![],
    }) + seq![
        "/usr/share/libretro/autoconfig"@,
        "/usr/share/retroarch/autoconfig"@,
        "/usr/lib/libretro/autoconfig"@,
        "/usr/local/share/libretro/autoconfig"@,
    ]
}

/// The joypad autoconfig folders, in the order they are tried.
pub fn joypad_autoconfig_candidate_dirs(home: &Option<String>) -> (r: Vec<String>)
    ensures
        views(r@) == autoconfig_candidates(opt_view(*home)),
{
    let mut v: Vec<String> = Vec::new();
    if let Some(h) = home {
        v.push(path_join(h.as_str(), ".config/retroarch/autoconfig"));
        v.push(path_join(h.as_str(), ".var/app/org.libretro.RetroArch/config/retroarch/autoconfig"));
    }
    v.push("/usr/share/libretro/autoconfig".to_owned());
    v.push("/usr/share/retroarch/autoconfig".to_owned());
    v.push("/usr/lib/libretro/autoconfig".to_owned());
    v.push("/usr/local/share/libretro/autoconfig".to_owned());
    assert(views(v@) =~= autoconfig_candidates(opt_view(*home)));
    v
}

/// The autoconfig folder handed to RetroArch: the first candidate that is a
/// folder (`is_dir` holds the caller's probes of
/// `joypad_autoconfig_candidate_dirs`).
pub fn first_existing_autoconfig_dir(home: &Option<String>, is_dir: &[bool]) -> (r: Option<String>)
    ensures
        opt_view(r) == first_flagged(autoconfig_candidates(opt_view(*home)), is_dir@),
{
    let candidates = joypad_autoconfig_candidate_dirs(home);
    first_existing(candidates.as_slice(), is_dir)
}

/// The text given to `--appendconfig`: the BIOS folder, controller
/// auto-detection on, and the autoconfig folder when one was found.
pub open spec fn appendconfig_text(bios_escaped: Seq<char>, autoconfig_dir: Option<Seq<char>>) -> Seq<char> {
    "system_directory = \""@ + bios_escaped + "\"\n"@ + "input_autodetect_enable = \"true\"\n"@
        + match autoconfig_dir {
        Some(d) => "joypad_autoconfig_dir = \""@ + cfg_escape(d) + "\"\n"@,
        None => seq![],
    }
}

/// Builds the `--appendconfig` text.
pub fn build_appendconfig_snippet(bios_escaped: &str, autoconfig_dir: &Option<String>) -> (r: String)
    ensures
        r@ == appendconfig_text(bios_escaped@, opt_view(*autoconfig_dir)),
{
    let mut cfg = to_chars("system_directory = \"");
    append_chars(&mut cfg, to_chars(bios_escaped).as_slice());
    append_chars(&mut cfg, to_chars("\"\n").as_slice());
    append_chars(&mut cfg, to_chars("input_autodetect_enable = \"true\"\n").as_slice());
    if let Some(dir) = autoconfig_dir {
        let esc = path_for_retroarch_system_cfg(dir.as_str());
        let mut line = to_chars("joypad_autoconfig_dir = \"");
        append_chars(&mut line, to_chars(esc.as_str()).as_slice());
        append_chars(&mut line, to_chars("\"\n").as_slice());
        append_chars(&mut cfg, line.as_slice());
    } else {
        assert(cfg@ + Seq::<char>::empty() == cfg@);
    }
    from_chars(cfg.as_slice())
}

/// The folders searched for cores, before the existence check: the
/// configured cores folder, the user's RetroArch core folders, then the usual
/// system folders.
pub open spec fn core_dir_candidates(primary: Seq<char>, home: Option<Seq<char>>) -> Seq<Seq<char>> {
    seq![primary] + (match home {
        Some(h) => seq![
            joined_path(h, ".config/retroarch/cores"@),
            joined_path(h, ".local/share/retroarch/cores"@),
            joined_path(h, ".var/app/org.libretro.RetroArch/config/retroarch/cores"@),
        ],
        None => seq![],
    }) + seq![
        "/usr/lib/libretro"@,
        "/usr/local/lib/libretro"@,
        "/usr/lib/x86_64-linux-gnu/libretro"@,
        "/usr/lib/aarch64-linux-gnu/libretro"@,
        "/usr/lib/arm-linux-gnueabihf/libretro"@,
        "/var/lib/snapd/hostfs/usr/lib/libretro"@,
    ]
}

/// The folders to probe for cores, in order.
pub fn core_search_candidates(primary: &str, home: &Option<String>) -> (r: Vec<String>)
    ensures
        views(r@) == core_dir_candidates(primary@, opt_view(*home)),
{
    let mut v: Vec<String> = Vec::new();
    v.push(primary.to_owned());
    if let Some(h) = home {
        v.push(path_join(h.as_str(), ".config/retroarch/cores"));
        v.push(path_join(h.as_str(), ".local/share/retroarch/cores"));
        v.push(path_join(h.as_str(), ".var/app/org.libretro.RetroArch/config/retroarch/cores"));
    }
    v.push("/usr/lib/libretro".to_owned());
    v.push("/usr/local/lib/libretro".to_owned());
    v.push("/usr/lib/x86_64-linux-gnu/libretro".to_owned());
    v.push("/usr/lib/aarch64-linux-gnu/libretro".to_owned());
    v.push("/usr/lib/arm-linux-gnueabihf/libretro".to_owned());
    v.push("/var/lib/snapd/hostfs/usr/lib/libretro".to_owned());
    assert(views(v@) =~= core_dir_candidates(primary@, opt_view(*home)));
    v
}

/// Some entry of `dirs` is the same path as `p`.
pub open spec fn has_same_path(dirs: Seq<Seq<char>>, p: Seq<char>) -> bool {
    exists|i: int| 0 <= i < dirs.len() && same_path(#[trigger] dirs[i], p)
}

/// Adds `candidate` to `dirs` when it exists and is not already there (paths
/// compared by components).
pub fn push_if_exists_unique(dirs: &mut Vec<String>, candidate: String, exists: bool)
    ensures
        final(dirs)@ == (if exists && !has_same_path(views(old(dirs)@), candidate@) {
            old(dirs)@.push(candidate)
        } else {
            old(dirs)@
        }),
{
    if !exists {
        return;
    }
    for i in 0..dirs.len()
        invariant
            dirs@ == old(dirs)@,
            forall|k: int| 0 <= k < i ==> !same_path(#[trigger] views(dirs@)[k], candidate@),
    {
        if path_eq(dirs[i].as_str(), candidate.as_str()) {
            assert(same_path(views(dirs@)[i as int], candidate@));
            return;
        }
    }
    dirs.push(candidate);
}

/// The distinct existing folders among the candidates, in order (a
/// candidate without a probe counts as missing).
pub open spec fn distinct_existing(cands: Seq<Seq<char>>, exists: Seq<bool>) -> Seq<Seq<char>>
    decreases cands.len(),
{
    if cands.len() == 0 {
        seq![]
    } else {
        let before = distinct_existing(cands.drop_last(), exists);
        let k = cands.len() - 1;
        if k < exists.len() && exists[k] && !has_same_path(before, cands.last()) {
            before.push(cands.last())
        } else {
            before
        }
    }
}

/// The folders searched for cores: the existing candidates, each path once.
pub fn build_core_search_dirs(candidates: &[String], exists: &[bool]) -> (r: Vec<String>)
    ensures
        views(r@) == distinct_existing(views(candidates@), exists@),
{
    let mut dirs: Vec<String> = Vec::new();
    for i in 0..candidates.len()
        invariant
            views(dirs@) == distinct_existing(views(candidates@).take(i as int), exists@),
    {
        let flag = i < exists.len() && exists[i];
        push_if_exists_unique(&mut dirs, candidates[i].clone(), flag);
        proof {
            let c = views(candidates@).take(i + 1);
            assert(c.drop_last() == views(candidates@).take(i as int));
            assert(c.last() == candidates@[i as int]@);
            assert(views(dirs@) =~= distinct_existing(c, exists@));
        }
    }
    assert(views(candidates@).take(candidates@.len() as int) == views(candidates@));
    dirs
}

/// `s` without the suffix `suf`, when it ends with it.
pub open spec fn without_suffix(s: Seq<char>, suf: Seq<char>) -> Seq<char> {
    if has_suffix(s, suf) {
        s.subrange(0, s.len() - suf.len())
    } else {
        s
    }
}

/// The name fragment looked for when the configured core file is not found:
/// the core name without `_libretro.so`, lower-cased.
pub open spec fn core_stem(core: Seq<char>) -> Seq<char> {
    lower(without_suffix(core, "_libretro.so"@))
}

/// A file in a core folder is taken as the core when its lower-cased name is
/// a Libretro core containing the stem.
pub open spec fn core_file_matches(path: Seq<char>, stem: Seq<char>) -> bool {
    match file_name_of(path) {
        Some(n) => has_suffix(lower(n), "_libretro.so"@) && contains_sub(lower(n), stem),
        None => false,
    }
}

/// The first matching file of one folder listing.
pub open spec fn first_core_in(entries: Seq<Seq<char>>, stem: Seq<char>) -> Option<Seq<char>>
    decreases entries.len(),
{
    if entries.len() == 0 {
        None
    } else if core_file_matches(entries[0], stem) {
        Some(entries[0])
    } else {
        first_core_in(entries.drop_first(), stem)
    }
}

/// The first matching file over the folder listings, folder by folder.
pub open spec fn first_core_across(listings: Seq<Seq<Seq<char>>>, stem: Seq<char>) -> Option<Seq<char>>
    decreases listings.len(),
{
    if listings.len() == 0 {
        None
    } else {
        match first_core_in(listings[0], stem) {
            Some(p) => Some(p),
            None => first_core_across(listings.drop_first(), stem),
        }
    }
}

/// The name fragment of a configured core.
pub fn configured_core_stem(core: &str) -> (r: Vec<char>)
    ensures
        r@ == core_stem(core@),
{
    let cs = to_chars(core);
    let suffix = to_chars("_libretro.so");
    if ends_with_chars(cs.as_slice(), suffix.as_slice()) {
        let base = slice_chars(cs.as_slice(), 0, cs.len() - suffix.len());
        lower_chars(base.as_slice())
    } else {
        lower_chars(cs.as_slice())
    }
}

/// Is the file at `path` a Libretro core whose name contains `stem`?
pub fn core_file_is_match(path: &str, stem: &[char]) -> (r: bool)
    ensures
        r == core_file_matches(path@, stem@),
{
    match path_file_name(path) {
        Some(n) => {
            let nc = to_chars(n.as_str());
            let ln = lower_chars(nc.as_slice());
            let suffix = to_chars("_libretro.so");
            ends_with_chars(ln.as_slice(), suffix.as_slice()) && contains_chars(ln.as_slice(), stem)
        },
        None => false,
    }
}

fn first_core_in_listing(entries: &[String], stem: &[char]) -> (r: Option<String>)
    ensures
        opt_view(r) == first_core_in(views(entries@), stem@),
{
    let n = entries.len();
    let mut i: usize = 0;
    assert(views(entries@).skip(0) == views(entries@));
    while i < n
        invariant
            n == entries@.len(),
            i <= n,
            first_core_in(views(entries@), stem@) == first_core_in(views(entries@).skip(i as int), stem@),
        decreases n - i,
    {
        assert(views(entries@).skip(i as int)[0] == entries@[i as int]@);
        if core_file_is_match(entries[i].as_str(), stem) {
            return Some(entries[i].clone());
        }
        assert(views(entries@).skip(i as int).drop_first() == views(entries@).skip(i + 1));
        i = i + 1;
    }
    None
}

/// The views of nested lists of strings.
pub open spec fn nested_views(v: Seq<Vec<String>>) -> Seq<Seq<Seq<char>>> {
    v.map_values(|x: Vec<String>| views(x@))
}

/// What the caller found on disk while looking for a core: whether the
/// configured (absolute) core exists, whether `<cores_dir>/<core>` exists,
/// the search folders (from `build_core_search_dirs`), whether
/// `<folder>/<core>` exists for each, and the files of each folder (empty
/// when a folder could not be read).
pub struct CoreProbe {
    pub configured_exists: bool,
    pub default_candidate_exists: bool,
    pub search_dirs: Vec<String>,
    pub candidate_exists: Vec<bool>,
    pub listings: Vec<Vec<String>>,
}

/// `<dir>/<core>` for each search folder.
pub open spec fn core_in_dirs(dirs: Seq<Seq<char>>, core: Seq<char>) -> Seq<Seq<char>> {
    dirs.map_values(|d: Seq<char>| joined_path(d, core))
}

/// The core file chosen for a system: the configured absolute path when it
/// exists; else `<cores_dir>/<core>`; else `<folder>/<core>` in the first
/// search folder where it exists; else the first Libretro file of the search
/// folders whose name contains the core's stem. `None` when none applies.
pub open spec fn core_choice(config: LauncherConfig, core: Seq<char>, probe: CoreProbe) -> Option<Seq<char>> {
    if is_absolute_path(core) {
        if probe.configured_exists {
            Some(core)
        } else {
            None
        }
    } else if probe.default_candidate_exists {
        Some(joined_path(config.retroarch.cores_dir@, core))
    } else {
        match first_flagged(core_in_dirs(views(probe.search_dirs@), core), probe.candidate_exists@) {
            Some(p) => Some(p),
            None => first_core_across(nested_views(probe.listings@), core_stem(core)),
        }
    }
}

/// Finds the core file of a system from the caller's probes (see
/// `core_choice`). A missing absolute core gives `CoreMissing`; a core
/// found nowhere gives `CoreNotFound` with the folders searched and the
/// installation advice for the system.
pub fn resolve_core_path(config: &LauncherConfig, system_key: &str, system: &SystemConfig, probe: &CoreProbe) -> (r: Result<String, LaunchError>)
    ensures
        match core_choice(*config, system.default_core@, *probe) {
            Some(p) => r matches Ok(s) && s@ == p,
            None => if is_absolute_path(system.default_core@) {
                r matches Err(LaunchError::CoreMissing(c)) && c@ == system.default_core@
            } else {
                r matches Err(LaunchError::CoreNotFound { core, inspected, hint }) && core@
                    == system.default_core@ && views(inspected@) == views(probe.search_dirs@)
                    && hint@ == package_hint(system_key@)
            },
        },
{
    let core = system.default_core.as_str();
    if path_is_absolute(core) {
        if probe.configured_exists {
            return Ok(core.to_owned());
        }
        return Err(LaunchError::CoreMissing(core.to_owned()));
    }
    if probe.default_candidate_exists {
        return Ok(path_join(config.retroarch.cores_dir.as_str(), core));
    }
    let mut candidates: Vec<String> = Vec::new();
    for i in 0..probe.search_dirs.len()
        invariant
            views(candidates@) == core_in_dirs(views(probe.search_dirs@), core@).take(i as int),
    {
        let ghost before = candidates@;
        candidates.push(path_join(probe.search_dirs[i].as_str(), core));
        assert(core_in_dirs(views(probe.search_dirs@), core@)[i as int] == joined_path(probe.search_dirs@[i as int]@, core@));
        assert(views(candidates@) =~= views(before).push(joined_path(probe.search_dirs@[i as int]@, core@)));
        assert(core_in_dirs(views(probe.search_dirs@), core@).take(i + 1) =~= core_in_dirs(views(probe.search_dirs@), core@).take(i as int).push(joined_path(probe.search_dirs@[i as int]@, core@)));
    }
    assert(core_in_dirs(views(probe.search_dirs@), core@).take(probe.search_dirs@.len() as int) == core_in_dirs(views(probe.search_dirs@), core@));
    if let Some(found) = first_existing(candidates.as_slice(), probe.candidate_exists.as_slice()) {
        return Ok(found);
    }
    let stem = configured_core_stem(core);
    let ghost ls = nested_views(probe.listings@);
    let n = probe.listings.len();
    let mut i: usize = 0;
    assert(ls.skip(0) == ls);
    while i < n
        invariant
            n == probe.listings@.len(),
            ls == nested_views(probe.listings@),
            stem@ == core_stem(core@),
            core@ == system.default_core@,
            !is_absolute_path(core@),
            !probe.default_candidate_exists,
            first_flagged(core_in_dirs(views(probe.search_dirs@), core@), probe.candidate_exists@) is None,
            i <= n,
            first_core_across(ls, stem@) == first_core_across(ls.skip(i as int), stem@),
        decreases n - i,
    {
        assert(ls.skip(i as int)[0] == views(probe.listings@[i as int]@));
        if let Some(p) = first_core_in_listing(probe.listings[i].as_slice(), stem.as_slice()) {
            return Ok(p);
        }
        assert(ls.skip(i as int).drop_first() == ls.skip(i + 1));
        i = i + 1;
    }
    let inspected = crate::config::copy_strings(probe.search_dirs.as_slice());
    Err(LaunchError::CoreNotFound {
        core: core.to_owned(),
        inspected,
        hint: package_hint_for_system(system_key).to_owned(),
    })
}

} // verus!

verus! {

/// The command looked up on `PATH` for RetroArch: the configured binary, or
/// `retroarch` when that is empty.
pub open spec fn program_name(config: LauncherConfig) -> Seq<char> {
    if config.retroarch.binary_path@.len() > 0 {
        config.retroarch.binary_path@
    } else {
        "retroarch"@
    }
}

/// The command looked up on `PATH`.
pub fn retroarch_program_name(config: &LauncherConfig) -> (r: String)
    ensures
        r@ == program_name(*config),
{
    if config.retroarch.binary_path.as_str().is_empty() {
        "retroarch".to_owned()
    } else {
        config.retroarch.binary_path.clone()
    }
}

/// The files tried for a program, one per `PATH` entry, in order.
pub open spec fn executable_paths(path_var: Seq<char>, program: Seq<char>) -> Seq<Seq<char>> {
    split_on(path_var, ':').map_values(|d: Seq<char>| joined_path(d, program))
}

/// The files tried for `program` along a `PATH` value (entries separated by
/// `:`).
pub fn executable_candidates(path_var: &str, program: &str) -> (r: Vec<String>)
    ensures
        views(r@) == executable_paths(path_var@, program@),
{
    let cs = to_chars(path_var);
    let mut pieces: Vec<Vec<char>> = Vec::new();
    let mut cur: Vec<char> = Vec::new();
    assert(cs@.take(0) == Seq::<char>::empty());
    for i in 0..cs.len()
        invariant
            cs@ == path_var@,
            split_on(cs@.take(i as int), ':') == crate::order::char_vec_views(pieces@).push(cur@),
    {
        let c = cs[i];
        assert(cs@.take(i + 1).drop_last() == cs@.take(i as int));
        assert(cs@.take(i + 1).last() == c);
        if c == ':' {
            let done = cur;
            pieces.push(done);
            cur = Vec::new();
            assert(split_on(cs@.take(i + 1), ':') =~= crate::order::char_vec_views(pieces@).push(cur@));
        } else {
            cur.push(c);
            assert(split_on(cs@.take(i + 1), ':') =~= crate::order::char_vec_views(pieces@).push(cur@));
        }
    }
    assert(cs@.take(cs@.len() as int) == cs@);
    pieces.push(cur);
    let ghost all = crate::order::char_vec_views(pieces@);
    assert(all == split_on(path_var@, ':'));
    let mut out: Vec<String> = Vec::new();
    for i in 0..pieces.len()
        invariant
            all == crate::order::char_vec_views(pieces@),
            views(out@) == all.map_values(|d: Seq<char>| joined_path(d, program@)).take(i as int),
    {
        let dir = from_chars(pieces[i].as_slice());
        let ghost before = out@;
        out.push(path_join(dir.as_str(), program));
        assert(all[i as int] == pieces@[i as int]@);
        assert(views(out@) =~= views(before).push(joined_path(all[i as int], program@)));
        assert(all.map_values(|d: Seq<char>| joined_path(d, program@)).take(i + 1) =~= all.map_values(|d: Seq<char>| joined_path(d, program@)).take(i as int).push(joined_path(all[i as int], program@)));
        assert(views(out@) =~= all.map_values(|d: Seq<char>| joined_path(d, program@)).take(i + 1));
    }
    assert(all.map_values(|d: Seq<char>| joined_path(d, program@)).take(all.len() as int) == all.map_values(|d: Seq<char>| joined_path(d, program@)));
    out
}

/// Picks the RetroArch binary: an absolute configured path must exist; a
/// relative one is looked up on `PATH` (`found_on_path` is the first match
/// among `executable_candidates`).
pub fn resolve_retroarch_binary(config: &LauncherConfig, binary_exists: bool, found_on_path: Option<String>) -> (r: Result<String, LaunchError>)
    ensures
        is_absolute_path(config.retroarch.binary_path@) ==> (if binary_exists {
            r matches Ok(s) && s@ == config.retroarch.binary_path@
        } else {
            r matches Err(LaunchError::BinaryMissing(b)) && b@ == config.retroarch.binary_path@
        }),
        !is_absolute_path(config.retroarch.binary_path@) ==> (match opt_view(found_on_path) {
            Some(p) => r matches Ok(s) && s@ == p,
            None => r matches Err(LaunchError::NotOnPath(b)) && b@ == config.retroarch.binary_path@,
        }),
{
    let configured = config.retroarch.binary_path.as_str();
    if path_is_absolute(configured) {
        if binary_exists {
            return Ok(configured.to_owned());
        }
        return Err(LaunchError::BinaryMissing(configured.to_owned()));
    }
    match found_on_path {
        Some(p) => Ok(p),
        None => Err(LaunchError::NotOnPath(configured.to_owned())),
    }
}

proof fn lemma_first_system_is_key(systems: Seq<(String, SystemConfig)>, ext: Seq<char>)
    requires
        first_system_for(systems, ext) is Some,
    ensures
        exists|i: int| 0 <= i < systems.len() && #[trigger] systems[i].0@ == first_system_for(systems, ext)->0,
    decreases systems.len(),
{
    if !crate::config::accepts_extension(systems[0].1, ext) {
        lemma_first_system_is_key(systems.drop_first(), ext);
        let i = choose|i: int| 0 <= i < systems.drop_first().len() && #[trigger] systems.drop_first()[i].0@ == first_system_for(systems, ext)->0;
        assert(systems[i + 1] == systems.drop_first()[i]);
    } else {
        assert(systems[0].0@ == first_system_for(systems, ext)->0);
    }
}

/// Some configured system has exactly this key.
pub open spec fn has_key(config: LauncherConfig, key: Seq<char>) -> bool {
    exists|i: int| 0 <= i < config.systems@.len() && #[trigger] config.systems@[i].0@ == key
}

/// The system a launch would use: the requested key (trimmed and
/// lower-cased) when it is configured, otherwise, with no request, the
/// first system accepting the ROM's lower-cased extension. `None` when the
/// ROM has no extension or no system applies.
pub open spec fn launch_key(config: LauncherConfig, rom: Seq<char>, req: Option<Seq<char>>) -> Option<Seq<char>> {
    match extension_of(rom) {
        None => None,
        Some(e) => match req {
            Some(k) => if has_key(config, lower(trim(k))) {
                Some(lower(trim(k)))
            } else {
                None
            },
            None => first_system_for(config.systems@, lower(e)),
        },
    }
}

/// A launch goes ahead: a system applies and the ROM lies under its folder.
pub open spec fn launch_accepted(config: LauncherConfig, rom: Seq<char>, req: Option<Seq<char>>) -> bool {
    match launch_key(config, rom, req) {
        Some(k) => path_has_prefix(rom, joined_path(config.library.roms_dir@, k)),
        None => false,
    }
}

/// Chooses the system a ROM is launched with and checks that the ROM lies
/// under that system's ROM folder. Returns the key and the first position
/// of a system with that key in the configuration.
pub fn select_launch_system(config: &LauncherConfig, rom_path: &str, system_key_override: Option<&str>) -> (r: Result<(String, usize), LaunchError>)
    ensures
        (r is Ok) == launch_accepted(
            *config,
            rom_path@,
            match system_key_override { Some(k) => Some(k@), None => None },
        ),
        ({
            let ext = extension_of(rom_path@);
            let req = match system_key_override { Some(k) => Some(k@), None => None };
            match ext {
                None => r == Err::<(String, usize), LaunchError>(LaunchError::NoExtension),
                Some(e) => match req {
                    Some(k) if !has_key(*config, lower(trim(k))) =>
                        r matches Err(LaunchError::UnknownSystem(x)) && x@ == lower(trim(k)),
                    None if first_system_for(config.systems@, lower(e)) is None =>
                        r matches Err(LaunchError::NoSystemForExtension(x)) && x@ == lower(e),
                    _ => {
                        let key = match req {
                            Some(k) => lower(trim(k)),
                            None => first_system_for(config.systems@, lower(e))->0,
                        };
                        if path_has_prefix(rom_path@, joined_path(config.library.roms_dir@, key)) {
                            r matches Ok((s, i)) && s@ == key && i < config.systems@.len()
                                && config.systems@[i as int].0@ == key
                                && forall|j: int| 0 <= j < i ==> #[trigger] config.systems@[j].0@ != key
                        } else {
                            r matches Err(LaunchError::RomOutsideSystemDir { expected_root, system_key })
                                && expected_root@ == joined_path(config.library.roms_dir@, key)
                                && system_key@ == key
                        }
                    },
                },
            }
        }),
{
    let extension = match path_extension(rom_path) {
        Some(e) => lower_string(e.as_str()),
        None => {
            return Err(LaunchError::NoExtension);
        },
    };
    let system_key = match system_key_override {
        Some(key) => {
            let kc = to_chars(key);
            let kt = trim_chars(kc.as_slice());
            let kl = lower_chars(kt.as_slice());
            let key_norm = from_chars(kl.as_slice());
            if config.system_index(key_norm.as_str()).is_none() {
                return Err(LaunchError::UnknownSystem(key_norm));
            }
            key_norm
        },
        None => match config.resolve_system_key_for_extension(extension.as_str()) {
            Some(k) => k,
            None => {
                return Err(LaunchError::NoSystemForExtension(extension));
            },
        },
    };
    proof {
        if system_key_override is None {
            lemma_first_system_is_key(config.systems@, extension@);
        }
    }
    let expected_rom_root = config.rom_dir_for_system(system_key.as_str());
    if !path_starts_with(rom_path, expected_rom_root.as_str()) {
        return Err(LaunchError::RomOutsideSystemDir { expected_root: expected_rom_root, system_key });
    }
    match config.system_index(system_key.as_str()) {
        Some(i) => Ok((system_key, i)),
        None => Err(LaunchError::SystemMissing(system_key)),
    }
}

/// The RetroArch command line (after the binary): the user's main
/// configuration when one was found, the extra configuration file, the core,
/// full screen, the global and per-system extra arguments, and the ROM.
pub open spec fn retroarch_args_spec(
    config: LauncherConfig,
    system: SystemConfig,
    main_cfg: Option<Seq<char>>,
    append_cfg: Seq<char>,
    core: Seq<char>,
    rom: Seq<char>,
) -> Seq<Seq<char>> {
    (match main_cfg {
        Some(m) => seq!["--config"@, m],
        None => seq![],
    }) + seq!["--appendconfig"@, append_cfg, "-L"@, core, "--fullscreen"@] + views(
        config.retroarch.extra_args@,
    ) + views(system.extra_args@) + seq![rom]
}

fn push_all(out: &mut Vec<String>, xs: &[String])
    ensures
        views(final(out)@) == views(old(out)@) + views(xs@),
{
    let ghost start = views(out@);
    for i in 0..xs.len()
        invariant
            views(out@) == start + views(xs@).take(i as int),
    {
        let ghost before = out@;
        out.push(xs[i].clone());
        assert(views(out@) =~= views(before).push(xs@[i as int]@));
        assert(views(xs@).take(i + 1) =~= views(xs@).take(i as int).push(xs@[i as int]@));
        assert(views(out@) =~= start + views(xs@).take(i + 1));
    }
    assert(views(xs@).take(xs@.len() as int) == views(xs@));
}

/// The RetroArch command line (see `retroarch_args_spec`).
pub fn retroarch_command_args(
    config: &LauncherConfig,
    system: &SystemConfig,
    main_cfg: &Option<String>,
    append_cfg: &str,
    core_path: &str,
    rom_path: &str,
) -> (r: Vec<String>)
    ensures
        views(r@) == retroarch_args_spec(*config, *system, opt_view(*main_cfg), append_cfg@, core_path@, rom_path@),
{
    let mut args: Vec<String> = Vec::new();
    if let Some(m) = main_cfg {
        args.push("--config".to_owned());
        args.push(m.clone());
    }
    args.push("--appendconfig".to_owned());
    args.push(append_cfg.to_owned());
    args.push("-L".to_owned());
    args.push(core_path.to_owned());
    args.push("--fullscreen".to_owned());
    let ghost head = views(args@);
    assert(head =~= (match opt_view(*main_cfg) {
        Some(m) => seq!["--config"@, m],
        None => seq![],
    }) + seq!["--appendconfig"@, append_cfg@, "-L"@, core_path@, "--fullscreen"@]);
    push_all(&mut args, config.retroarch.extra_args.as_slice());
    push_all(&mut args, system.extra_args.as_slice());
    args.push(rom_path.to_owned());
    assert(views(args@) =~= retroarch_args_spec(*config, *system, opt_view(*main_cfg), append_cfg@, core_path@, rom_path@));
    args
}

/// The system of a ROM by extension alone: the first system accepting its
/// lower-cased extension. Returns the key and the first position of a
/// system with that key.
pub fn select_system_by_extension(config: &LauncherConfig, rom_path: &str) -> (r: Result<(String, usize), LaunchError>)
    ensures
        match extension_of(rom_path@) {
            None => r == Err::<(String, usize), LaunchError>(LaunchError::NoExtension),
            Some(e) => match first_system_for(config.systems@, lower(e)) {
                None => r matches Err(LaunchError::NoSystemForExtension(x)) && x@ == lower(e),
                Some(k) => r matches Ok((s, i)) && s@ == k && i < config.systems@.len()
                    && config.systems@[i as int].0@ == k
                    && forall|j: int| 0 <= j < i ==> #[trigger] config.systems@[j].0@ != k,
            },
        },
{
    let extension = match path_extension(rom_path) {
        Some(e) => lower_string(e.as_str()),
        None => {
            return Err(LaunchError::NoExtension);
        },
    };
    match config.resolve_system_key_for_extension(extension.as_str()) {
        Some(k) => {
            proof {
                lemma_first_system_is_key(config.systems@, extension@);
            }
            match config.system_index(k.as_str()) {
                Some(i) => Ok((k, i)),
                None => Err(LaunchError::SystemMissing(k)),
            }
        },
        None => Err(LaunchError::NoSystemForExtension(extension)),
    }
}

/// The plain launch command line (after the binary): the core, the global
/// and per-system extra arguments, and the ROM.
pub open spec fn launch_args_spec(config: LauncherConfig, system: SystemConfig, core: Seq<char>, rom: Seq<char>) -> Seq<Seq<char>> {
    seq!["-L"@, core] + views(config.retroarch.extra_args@) + views(system.extra_args@) + seq![rom]
}

/// The plain launch command line (see `launch_args_spec`).
pub fn launch_args(config: &LauncherConfig, system: &SystemConfig, core_path: &str, rom_path: &str) -> (r: Vec<String>)
    ensures
        views(r@) == launch_args_spec(*config, *system, core_path@, rom_path@),
{
    let mut args: Vec<String> = Vec::new();
    args.push("-L".to_owned());
    args.push(core_path.to_owned());
    assert(views(args@) =~= seq!["-L"@, core_path@]);
    push_all(&mut args, config.retroarch.extra_args.as_slice());
    push_all(&mut args, system.extra_args.as_slice());
    args.push(rom_path.to_owned());
    assert(views(args@) =~= launch_args_spec(*config, *system, core_path@, rom_path@));
    args
}

} // verus!

verus! {

/// A ROM that the scan records for a system whose key is already in normal
/// form (trimmed, lower case, as the settings form saves it), and that lies
/// under that system's ROM folder, is accepted for launch with that system.
pub proof fn lemma_scanned_rom_is_launchable(
    config: LauncherConfig,
    i: int,
    path: Seq<char>,
    modified: Option<i64>,
    len: u64,
    scan_id: i64,
)
    requires
        0 <= i < config.systems@.len(),
        lower(trim(config.systems@[i].0@)) == config.systems@[i].0@,
        crate::catalog::scanned_row(config.systems@[i].0@, config.systems@[i].1, path, modified, len, scan_id) is Some,
        path_has_prefix(path, joined_path(config.library.roms_dir@, config.systems@[i].0@)),
    ensures
        launch_accepted(config, path, Some(config.systems@[i].0@)),
{
    let k = config.systems@[i].0@;
    assert(has_key(config, lower(trim(k))));
}

} // verus!
