//! The settings form: a draft made from the configuration, edited as text,
//! and checked and written back into the configuration.
use vstd::prelude::*;

use crate::config::{LauncherConfig, SystemConfig};
use crate::order::{char_vec_views, is_index_permutation, sort_indices_by_keys, sorted_by_keys};
use crate::paths::views;
use crate::text::{
    eq_ignore_case, from_chars, join_strings, join_with, lower, lower_chars, split_on, to_chars,
    trim, trim_chars, trim_end, trim_start, chars_eq,
};

verus! {

/// The non-empty trimmed pieces of `pieces`, in order.
pub open spec fn kept_values(pieces: Seq<Seq<char>>) -> Seq<Seq<char>> {
    pieces.map_values(|p: Seq<char>| trim(p)).filter(|p: Seq<char>| p.len() > 0)
}

/// The values of a comma-separated list: the pieces between commas,
/// trimmed, empty ones dropped.
pub open spec fn csv_values(raw: Seq<char>) -> Seq<Seq<char>> {
    kept_values(split_on(raw, ','))
}

proof fn lemma_kept_push(pieces: Seq<Seq<char>>, x: Seq<char>)
    ensures
        kept_values(pieces.push(x)) == (if trim(x).len() > 0 {
            kept_values(pieces).push(trim(x))
        } else {
            kept_values(pieces)
        }),
{
    let f = |p: Seq<char>| trim(p);
    let g = |p: Seq<char>| p.len() > 0;
    assert(pieces.push(x).map_values(f) == pieces.map_values(f).push(trim(x)));
    reveal_with_fuel(Seq::<_>::filter, 1);
    assert(pieces.map_values(f).push(trim(x)).drop_last() == pieces.map_values(f));
}

/// Splits a comma-separated list into trimmed, non-empty values (e.g.
/// `" sfc, ,smc "` gives `["sfc", "smc"]`).
pub fn parse_csv_values(raw: &str) -> (r: Vec<String>)
    ensures
        views(r@) == csv_values(raw@),
{
    let cs = to_chars(raw);
    let mut done: Vec<String> = Vec::new();
    let mut cur: Vec<char> = Vec::new();
    let ghost mut closed: Seq<Seq<char>> = seq![];
    assert(cs@.take(0) == Seq::<char>::empty());
    assert(kept_values(seq![]) =~= Seq::<Seq<char>>::empty()) by {
        reveal_with_fuel(Seq::<_>::filter, 1);
    }
    for i in 0..cs.len()
        invariant
            cs@ == raw@,
            split_on(cs@.take(i as int), ',') == closed.push(cur@),
            views(done@) == kept_values(closed),
    {
        let c = cs[i];
        assert(cs@.take(i + 1).drop_last() == cs@.take(i as int));
        assert(cs@.take(i + 1).last() == c);
        if c == ',' {
            let t = trim_chars(cur.as_slice());
            proof {
                lemma_kept_push(closed, cur@);
            }
            if t.len() > 0 {
                done.push(from_chars(t.as_slice()));
                assert(views(done@) =~= kept_values(closed.push(cur@)));
            }
            proof {
                closed = closed.push(cur@);
            }
            cur = Vec::new();
            assert(split_on(cs@.take(i + 1), ',') =~= closed.push(cur@));
        } else {
            cur.push(c);
            assert(split_on(cs@.take(i + 1), ',') =~= closed.push(cur@));
        }
    }
    assert(cs@.take(cs@.len() as int) == cs@);
    let t = trim_chars(cur.as_slice());
    proof {
        lemma_kept_push(closed, cur@);
    }
    if t.len() > 0 {
        done.push(from_chars(t.as_slice()));
        assert(views(done@) =~= kept_values(closed.push(cur@)));
    }
    done
}

} // verus!

verus! {

/// One system as edited in the settings form.
#[derive(Debug, Clone)]
pub struct SystemDraft {
    pub key: String,
    pub default_core: String,
    pub accepted_extensions_csv: String,
    pub extra_args_csv: String,
}

/// The settings form.
#[derive(Debug, Clone)]
pub struct SettingsDraft {
    pub retroarch_binary: String,
    pub cores_dir: String,
    pub roms_dir: String,
    pub bios_dir: String,
    pub systems: Vec<SystemDraft>,
    pub new_system_key: String,
    pub new_system_core: String,
    pub new_system_extensions_csv: String,
    pub new_system_args_csv: String,
}

/// Why the form could not be written back.
#[derive(Debug, Clone, PartialEq, Eq)]
pub enum DraftError {
    /// A system has an empty key.
    EmptyKey,
    /// Two systems share this (normalised) key.
    DuplicateKey(String),
    /// The system with this key has an empty core.
    EmptyCore(String),
}

/// Why a new system could not be added to the form.
#[derive(Debug, Clone, PartialEq, Eq)]
pub enum AddSystemError {
    /// No key was typed.
    MissingKey,
    /// A system with this key is already in the form.
    AlreadyExists(String),
    /// No core was typed.
    MissingCore,
}

/// The separator used to show lists as text.
pub open spec fn list_separator() -> Seq<char> {
    ", "@
}

/// `d` shows the system `key`, `sys` in the form.
pub open spec fn drafts_system(d: SystemDraft, key: String, sys: SystemConfig) -> bool {
    &&& d.key@ == key@
    &&& d.default_core@ == sys.default_core@
    &&& d.accepted_extensions_csv@ == join_with(views(sys.accepted_extensions@), list_separator())
    &&& d.extra_args_csv@ == join_with(views(sys.extra_args@), list_separator())
}

/// The key a draft system is saved under: trimmed and ASCII lower-cased.
pub open spec fn normalized_key(d: SystemDraft) -> Seq<char> {
    lower(trim(d.key@))
}

/// The draft at position `i` cannot be saved: its key is empty, repeats an
/// earlier key, or its core is empty.
pub open spec fn draft_rejected_at(ds: Seq<SystemDraft>, i: int) -> bool {
    ||| normalized_key(ds[i]).len() == 0
    ||| exists|j: int| 0 <= j < i && normalized_key(#[trigger] ds[j]) == normalized_key(ds[i])
    ||| trim(ds[i].default_core@).len() == 0
}

/// Every draft system can be saved.
pub open spec fn drafts_valid(ds: Seq<SystemDraft>) -> bool {
    forall|i: int| 0 <= i < ds.len() ==> !#[trigger] draft_rejected_at(ds, i)
}

/// The error reported for the first rejected draft, at position `i`.
pub open spec fn draft_error_at(ds: Seq<SystemDraft>, i: int, e: DraftError) -> bool {
    &&& 0 <= i < ds.len()
    &&& draft_rejected_at(ds, i)
    &&& forall|j: int| 0 <= j < i ==> !#[trigger] draft_rejected_at(ds, j)
    &&& if normalized_key(ds[i]).len() == 0 {
        e == DraftError::EmptyKey
    } else if exists|j: int| 0 <= j < i && normalized_key(#[trigger] ds[j]) == normalized_key(ds[i]) {
        e matches DraftError::DuplicateKey(k) && k@ == normalized_key(ds[i])
    } else {
        e matches DraftError::EmptyCore(k) && k@ == normalized_key(ds[i])
    }
}

/// The system entry saved from a valid draft.
pub open spec fn saved_system(e: (String, SystemConfig), d: SystemDraft) -> bool {
    &&& e.0@ == normalized_key(d)
    &&& e.1.default_core@ == trim(d.default_core@)
    &&& views(e.1.accepted_extensions@) == csv_values(d.accepted_extensions_csv@)
    &&& views(e.1.extra_args@) == csv_values(d.extra_args_csv@)
}

fn duplicate_draft(d: &SystemDraft) -> (r: SystemDraft)
    ensures
        r == *d,
{
    SystemDraft {
        key: d.key.clone(),
        default_core: d.default_core.clone(),
        accepted_extensions_csv: d.accepted_extensions_csv.clone(),
        extra_args_csv: d.extra_args_csv.clone(),
    }
}

impl SettingsDraft {
    /// The form showing `config`: the four paths as text, and one entry per
    /// system in key order (equal keys in list order), lists shown as `", "`-separated text; the
    /// new-system fields empty.
    pub fn from_config(config: &LauncherConfig) -> (r: SettingsDraft)
        ensures
            r.retroarch_binary@ == config.retroarch.binary_path@,
            r.cores_dir@ == config.retroarch.cores_dir@,
            r.roms_dir@ == config.library.roms_dir@,
            r.bios_dir@ == config.library.bios_dir@,
            r.systems@.len() == config.systems@.len(),
            exists|order: Seq<usize>|
                #![trigger is_index_permutation(order, config.systems@.len())]
                is_index_permutation(order, config.systems@.len())
                    && crate::order::stable_by_keys(order, crate::config::system_keys(config.systems@))
                    && forall|i: int| 0 <= i < r.systems@.len() ==> drafts_system(
                        #[trigger] r.systems@[i],
                        config.systems@[order[i] as int].0,
                        config.systems@[order[i] as int].1,
                    ),
            forall|a: int, b: int|
                0 <= a < b < r.systems@.len() ==> crate::order::lex_le(r.systems@[a].key@, r.systems@[b].key@),
            r.new_system_key@.len() == 0,
            r.new_system_core@.len() == 0,
            r.new_system_extensions_csv@.len() == 0,
            r.new_system_args_csv@.len() == 0,
    {
        let ghost keys = crate::config::system_keys(config.systems@);
        let mut key_chars: Vec<Vec<char>> = Vec::new();
        for i in 0..config.systems.len()
            invariant
                keys == crate::config::system_keys(config.systems@),
                key_chars@.len() == i,
                forall|k: int| 0 <= k < i ==> #[trigger] key_chars@[k]@ == keys[k],
        {
            key_chars.push(to_chars(config.systems[i].0.as_str()));
        }
        assert(char_vec_views(key_chars@) =~= keys);
        let order = sort_indices_by_keys(key_chars.as_slice());
        let mut systems: Vec<SystemDraft> = Vec::new();
        for i in 0..order.len()
            invariant
                keys == crate::config::system_keys(config.systems@),
                char_vec_views(key_chars@) == keys,
                is_index_permutation(order@, keys.len()),
                sorted_by_keys(order@, keys),
                crate::order::stable_by_keys(order@, keys),
                systems@.len() == i,
                forall|k: int|
                    0 <= k < i ==> drafts_system(
                        #[trigger] systems@[k],
                        config.systems@[order@[k] as int].0,
                        config.systems@[order@[k] as int].1,
                    ),
        {
            let idx = order[i];
            assert(order@[i as int] < keys.len());
            let entry = &config.systems[idx];
            let d = SystemDraft {
                key: entry.0.clone(),
                default_core: entry.1.default_core.clone(),
                accepted_extensions_csv: join_strings(entry.1.accepted_extensions.as_slice(), ", "),
                extra_args_csv: join_strings(entry.1.extra_args.as_slice(), ", "),
            };
            let ghost before = systems@;
            systems.push(d);
            assert forall|k: int| 0 <= k < i + 1 implies drafts_system(
                #[trigger] systems@[k],
                config.systems@[order@[k] as int].0,
                config.systems@[order@[k] as int].1,
            ) by {
                if k < i {
                    assert(systems@[k] == before[k]);
                }
            }
        }
        let r = SettingsDraft {
            retroarch_binary: config.retroarch.binary_path.clone(),
            cores_dir: config.retroarch.cores_dir.clone(),
            roms_dir: config.library.roms_dir.clone(),
            bios_dir: config.library.bios_dir.clone(),
            systems,
            new_system_key: String::new(),
            new_system_core: String::new(),
            new_system_extensions_csv: String::new(),
            new_system_args_csv: String::new(),
        };
        assert forall|a: int, b: int| 0 <= a < b < r.systems@.len() implies crate::order::lex_le(
            r.systems@[a].key@,
            r.systems@[b].key@,
        ) by {
            assert(r.systems@[a].key@ == keys[order@[a] as int]);
            assert(r.systems@[b].key@ == keys[order@[b] as int]);
        }
        r
    }
}

} // verus!

verus! {

fn trimmed_string(s: &str) -> (r: String)
    ensures
        r@ == trim(s@),
{
    let cs = to_chars(s);
    let t = trim_chars(cs.as_slice());
    from_chars(t.as_slice())
}

fn normalize_key(s: &str) -> (r: Vec<char>)
    ensures
        r@ == lower(trim(s@)),
{
    let cs = to_chars(s);
    let t = trim_chars(cs.as_slice());
    lower_chars(t.as_slice())
}

fn seen_contains(seen: &[Vec<char>], k: &[char]) -> (r: bool)
    ensures
        r == char_vec_views(seen@).contains(k@),
{
    for i in 0..seen.len()
        invariant
            forall|j: int| 0 <= j < i ==> seen@[j]@ != k@,
    {
        if chars_eq(seen[i].as_slice(), k) {
            assert(char_vec_views(seen@)[i as int] == k@);
            return true;
        }
    }
    proof {
        if char_vec_views(seen@).contains(k@) {
            let j = choose|j: int| 0 <= j < char_vec_views(seen@).len() && char_vec_views(seen@)[j] == k@;
            assert(seen@[j]@ == k@);
        }
    }
    false
}

/// Writes the form back into `config`. The four paths are always taken
/// (trimmed). The systems are then checked in form order; the first one
/// whose normalised key is empty, repeats an earlier key, or whose core is
/// empty stops the save with the matching error and leaves the systems as
/// they were. Otherwise the systems become the drafts, in form order, with
/// normalised keys, trimmed cores and the comma-separated lists parsed.
pub fn save_settings_from_draft(config: &mut LauncherConfig, draft: &SettingsDraft) -> (r: Result<(), DraftError>)
    ensures
        final(config).retroarch.binary_path@ == trim(draft.retroarch_binary@),
        final(config).retroarch.cores_dir@ == trim(draft.cores_dir@),
        final(config).library.roms_dir@ == trim(draft.roms_dir@),
        final(config).library.bios_dir@ == trim(draft.bios_dir@),
        final(config).retroarch.extra_args == old(config).retroarch.extra_args,
        final(config).history == old(config).history,
        match r {
            Ok(()) => {
                &&& drafts_valid(draft.systems@)
                &&& final(config).systems@.len() == draft.systems@.len()
                &&& forall|i: int|
                    0 <= i < draft.systems@.len() ==> saved_system(
                        #[trigger] final(config).systems@[i],
                        draft.systems@[i],
                    )
                &&& final(config).wf()
            },
            Err(e) => {
                &&& exists|i: int| draft_error_at(draft.systems@, i, e)
                &&& final(config).systems == old(config).systems
            },
        },
{
    config.retroarch.binary_path = trimmed_string(draft.retroarch_binary.as_str());
    config.retroarch.cores_dir = trimmed_string(draft.cores_dir.as_str());
    config.library.roms_dir = trimmed_string(draft.roms_dir.as_str());
    config.library.bios_dir = trimmed_string(draft.bios_dir.as_str());
    let ghost ds = draft.systems@;
    let mut systems: Vec<(String, SystemConfig)> = Vec::new();
    let mut seen: Vec<Vec<char>> = Vec::new();
    for i in 0..draft.systems.len()
        invariant
            ds == draft.systems@,
            config.retroarch.binary_path@ == trim(draft.retroarch_binary@),
            config.retroarch.cores_dir@ == trim(draft.cores_dir@),
            config.library.roms_dir@ == trim(draft.roms_dir@),
            config.library.bios_dir@ == trim(draft.bios_dir@),
            config.retroarch.extra_args == old(config).retroarch.extra_args,
            config.history == old(config).history,
            config.systems == old(config).systems,
            systems@.len() == i,
            seen@.len() == i,
            forall|k: int| 0 <= k < i ==> #[trigger] seen@[k]@ == normalized_key(ds[k]),
            forall|k: int| 0 <= k < i ==> !#[trigger] draft_rejected_at(ds, k),
            forall|k: int| 0 <= k < i ==> saved_system(#[trigger] systems@[k], ds[k]),
    {
        let system = &draft.systems[i];
        let key = normalize_key(system.key.as_str());
        if key.len() == 0 {
            assert(draft_rejected_at(ds, i as int));
            assert(draft_error_at(ds, i as int, DraftError::EmptyKey));
            return Err(DraftError::EmptyKey);
        }
        if seen_contains(seen.as_slice(), key.as_slice()) {
            let ghost j = choose|j: int| 0 <= j < char_vec_views(seen@).len() && char_vec_views(seen@)[j] == key@;
            assert(seen@[j]@ == key@);
            assert(normalized_key(ds[j]) == normalized_key(ds[i as int]));
            let k = from_chars(key.as_slice());
            assert(draft_error_at(ds, i as int, DraftError::DuplicateKey(k)));
            return Err(DraftError::DuplicateKey(k));
        }
        assert(!exists|j: int| 0 <= j < i && normalized_key(#[trigger] ds[j]) == normalized_key(ds[i as int])) by {
            if exists|j: int| 0 <= j < i && normalized_key(#[trigger] ds[j]) == normalized_key(ds[i as int]) {
                let j = choose|j: int| 0 <= j < i && normalized_key(#[trigger] ds[j]) == normalized_key(ds[i as int]);
                assert(char_vec_views(seen@)[j] == key@);
            }
        }
        let default_core = trimmed_string(system.default_core.as_str());
        if default_core.as_str().is_empty() {
            let k = from_chars(key.as_slice());
            assert(draft_error_at(ds, i as int, DraftError::EmptyCore(k)));
            return Err(DraftError::EmptyCore(k));
        }
        let entry = (
            from_chars(key.as_slice()),
            SystemConfig {
                default_core,
                accepted_extensions: parse_csv_values(system.accepted_extensions_csv.as_str()),
                extra_args: parse_csv_values(system.extra_args_csv.as_str()),
            },
        );
        let ghost before_s = systems@;
        let ghost before_seen = seen@;
        systems.push(entry);
        seen.push(key);
        assert forall|k: int| 0 <= k < i + 1 implies saved_system(#[trigger] systems@[k], ds[k]) by {
            if k < i {
                assert(systems@[k] == before_s[k]);
            }
        }
        assert forall|k: int| 0 <= k < i + 1 implies #[trigger] seen@[k]@ == normalized_key(ds[k]) by {
            if k < i {
                assert(seen@[k] == before_seen[k]);
            }
        }
    }
    config.systems = systems;
    proof {
        assert forall|a: int, b: int| 0 <= a < b < config.systems@.len() implies crate::config::system_keys(config.systems@)[a] != crate::config::system_keys(config.systems@)[b] by {
            assert(!draft_rejected_at(ds, b));
            assert(crate::config::system_keys(config.systems@)[a] == normalized_key(ds[a]));
            assert(crate::config::system_keys(config.systems@)[b] == normalized_key(ds[b]));
        }
    }
    Ok(())
}

} // verus!

verus! {

/// The keys of a list of draft systems.
pub open spec fn draft_keys(ds: Seq<SystemDraft>) -> Seq<Seq<char>> {
    ds.map_values(|d: SystemDraft| d.key@)
}

/// `after` holds the systems of `before`, reordered so that the keys are in
/// lexicographic order, systems with equal keys keeping their order.
pub open spec fn sorted_arrangement_of(after: Seq<SystemDraft>, before: Seq<SystemDraft>) -> bool {
    &&& exists|order: Seq<usize>|
        #![trigger is_index_permutation(order, before.len())]
        is_index_permutation(order, before.len()) && crate::order::stable_by_keys(order, draft_keys(before))
            && forall|i: int| 0 <= i < after.len() ==> #[trigger] after[i] == before[order[i] as int]
    &&& forall|a: int, b: int| 0 <= a < b < after.len() ==> crate::order::lex_le(after[a].key@, after[b].key@)
}

fn sort_drafts(ds: &Vec<SystemDraft>) -> (r: Vec<SystemDraft>)
    ensures
        r@.len() == ds@.len(),
        sorted_arrangement_of(r@, ds@),
{
    let ghost keys = draft_keys(ds@);
    let mut key_chars: Vec<Vec<char>> = Vec::new();
    for i in 0..ds.len()
        invariant
            keys == draft_keys(ds@),
            key_chars@.len() == i,
            forall|k: int| 0 <= k < i ==> #[trigger] key_chars@[k]@ == keys[k],
    {
        key_chars.push(to_chars(ds[i].key.as_str()));
    }
    assert(char_vec_views(key_chars@) =~= keys);
    let order = sort_indices_by_keys(key_chars.as_slice());
    let mut out: Vec<SystemDraft> = Vec::new();
    for i in 0..order.len()
        invariant
            keys == draft_keys(ds@),
            is_index_permutation(order@, ds@.len()),
            sorted_by_keys(order@, keys),
            crate::order::stable_by_keys(order@, keys),
            out@.len() == i,
            forall|k: int| 0 <= k < i ==> #[trigger] out@[k] == ds@[order@[k] as int],
    {
        let idx = order[i];
        assert(order@[i as int] < ds@.len());
        out.push(duplicate_draft(&ds[idx]));
    }
    assert forall|a: int, b: int| 0 <= a < b < out@.len() implies crate::order::lex_le(out@[a].key@, out@[b].key@) by {
        assert(out@[a].key@ == keys[order@[a] as int]);
        assert(out@[b].key@ == keys[order@[b] as int]);
    }
    out
}

fn draft_key_exists(ds: &[SystemDraft], key: &[char]) -> (r: bool)
    ensures
        r == exists|i: int| 0 <= i < ds@.len() && eq_ignore_case(#[trigger] ds@[i].key@, key@),
{
    let lk = lower_chars(key);
    for i in 0..ds.len()
        invariant
            lk@ == lower(key@),
            forall|j: int| 0 <= j < i ==> !eq_ignore_case(#[trigger] ds@[j].key@, key@),
    {
        let kc = to_chars(ds[i].key.as_str());
        let lc = lower_chars(kc.as_slice());
        if chars_eq(lc.as_slice(), lk.as_slice()) {
            return true;
        }
    }
    false
}

impl SettingsDraft {
    /// Adds the system typed in the new-system fields: the key is trimmed and
    /// lower-cased and must be non-empty and new (up to ASCII case), the core
    /// trimmed and non-empty; the lists are kept as trimmed text. The systems
    /// are then reordered by key and the new-system fields cleared. Returns
    /// the key added; on an error the form is unchanged.
    pub fn add_system_to_draft(&mut self) -> (r: Result<String, AddSystemError>)
        ensures
            ({
                let key = lower(trim(old(self).new_system_key@));
                let core = trim(old(self).new_system_core@);
                &&& key.len() == 0 ==> r == Err::<String, AddSystemError>(AddSystemError::MissingKey)
                &&& key.len() > 0 && (exists|i: int| 0 <= i < old(self).systems@.len() && eq_ignore_case(#[trigger] old(self).systems@[i].key@, key))
                    ==> (r matches Err(AddSystemError::AlreadyExists(k)) && k@ == key)
                &&& key.len() > 0 && !(exists|i: int| 0 <= i < old(self).systems@.len() && eq_ignore_case(#[trigger] old(self).systems@[i].key@, key))
                    && core.len() == 0 ==> r == Err::<String, AddSystemError>(AddSystemError::MissingCore)
                &&& key.len() > 0 && !(exists|i: int| 0 <= i < old(self).systems@.len() && eq_ignore_case(#[trigger] old(self).systems@[i].key@, key))
                    && core.len() > 0 ==> r is Ok
                &&& r is Err ==> *final(self) == *old(self)
                &&& r matches Ok(k) ==> {
                    &&& k@ == key
                    &&& exists|added: SystemDraft| {
                        &&& added.key@ == key
                        &&& added.default_core@ == core
                        &&& added.accepted_extensions_csv@ == trim(old(self).new_system_extensions_csv@)
                        &&& added.extra_args_csv@ == trim(old(self).new_system_args_csv@)
                        &&& #[trigger] sorted_arrangement_of(final(self).systems@, old(self).systems@.push(added))
                    }
                    &&& final(self).new_system_key@.len() == 0
                    &&& final(self).new_system_core@.len() == 0
                    &&& final(self).new_system_extensions_csv@.len() == 0
                    &&& final(self).new_system_args_csv@.len() == 0
                    &&& final(self).retroarch_binary == old(self).retroarch_binary
                    &&& final(self).cores_dir == old(self).cores_dir
                    &&& final(self).roms_dir == old(self).roms_dir
                    &&& final(self).bios_dir == old(self).bios_dir
                }
            }),
    {
        let key = normalize_key(self.new_system_key.as_str());
        if key.len() == 0 {
            return Err(AddSystemError::MissingKey);
        }
        if draft_key_exists(self.systems.as_slice(), key.as_slice()) {
            return Err(AddSystemError::AlreadyExists(from_chars(key.as_slice())));
        }
        let default_core = trimmed_string(self.new_system_core.as_str());
        if default_core.as_str().is_empty() {
            return Err(AddSystemError::MissingCore);
        }
        let added = SystemDraft {
            key: from_chars(key.as_slice()),
            default_core,
            accepted_extensions_csv: trimmed_string(self.new_system_extensions_csv.as_str()),
            extra_args_csv: trimmed_string(self.new_system_args_csv.as_str()),
        };
        let ghost added_ghost = added;
        let mut all = duplicate_drafts(&self.systems);
        all.push(added);
        let sorted = sort_drafts(&all);
        self.systems = sorted;
        self.new_system_key = String::new();
        self.new_system_core = String::new();
        self.new_system_extensions_csv = String::new();
        self.new_system_args_csv = String::new();
        assert(sorted_arrangement_of(self.systems@, old(self).systems@.push(added_ghost)));
        Ok(from_chars(key.as_slice()))
    }
}

fn duplicate_drafts(ds: &Vec<SystemDraft>) -> (r: Vec<SystemDraft>)
    ensures
        r@ == ds@,
{
    let mut out: Vec<SystemDraft> = Vec::new();
    for i in 0..ds.len()
        invariant
            out@ == ds@.take(i as int),
    {
        out.push(duplicate_draft(&ds[i]));
        assert(ds@.take(i + 1) == ds@.take(i as int).push(ds@[i as int]));
    }
    assert(ds@.take(ds@.len() as int) == ds@);
    out
}

} // verus!

verus! {

/// A list item that survives being shown as text and parsed back: non-empty,
/// already trimmed, and free of commas.
pub open spec fn is_clean_item(x: Seq<char>) -> bool {
    x.len() > 0 && trim(x) == x && !x.contains(',')
}

/// Every item of the list is clean.
pub open spec fn all_clean(xs: Seq<Seq<char>>) -> bool {
    forall|i: int| 0 <= i < xs.len() ==> #[trigger] is_clean_item(xs[i])
}

/// A system entry in the form that saving produces: the key is non-empty,
/// trimmed and lower-case, the core non-empty and trimmed, and the lists
/// clean.
pub open spec fn system_is_normal(e: (String, SystemConfig)) -> bool {
    &&& e.0@.len() > 0
    &&& lower(trim(e.0@)) == e.0@
    &&& e.1.default_core@.len() > 0
    &&& trim(e.1.default_core@) == e.1.default_core@
    &&& all_clean(views(e.1.accepted_extensions@))
    &&& all_clean(views(e.1.extra_args@))
}

/// A configuration in the form that saving produces.
pub open spec fn config_is_normal(c: LauncherConfig) -> bool {
    &&& c.wf()
    &&& forall|i: int| 0 <= i < c.systems@.len() ==> #[trigger] system_is_normal(c.systems@[i])
    &&& trim(c.retroarch.binary_path@) == c.retroarch.binary_path@
    &&& trim(c.retroarch.cores_dir@) == c.retroarch.cores_dir@
    &&& trim(c.library.roms_dir@) == c.library.roms_dir@
    &&& trim(c.library.bios_dir@) == c.library.bios_dir@
}

proof fn lemma_trim_start_len(s: Seq<char>)
    ensures
        trim_start_len_ok(s),
    decreases s.len(),
{
    if s.len() > 0 && crate::text::is_ws(s[0]) {
        lemma_trim_start_len(s.drop_first());
    }
}

spec fn trim_start_len_ok(s: Seq<char>) -> bool {
    &&& crate::text::trim_start(s).len() <= s.len()
    &&& (s.len() > 0 && crate::text::is_ws(s[0]) ==> crate::text::trim_start(s).len() < s.len())
}

proof fn lemma_trim_end_len(s: Seq<char>)
    ensures
        crate::text::trim_end(s).len() <= s.len(),
        s.len() > 0 && crate::text::is_ws(s.last()) ==> crate::text::trim_end(s).len() < s.len(),
    decreases s.len(),
{
    if s.len() > 0 && crate::text::is_ws(s.last()) {
        lemma_trim_end_len(s.drop_last());
    }
}

/// A trimmed non-empty sequence starts and ends with a non-space.
proof fn lemma_trimmed_ends(x: Seq<char>)
    requires
        x.len() > 0,
        trim(x) == x,
    ensures
        !crate::text::is_ws(x[0]),
        !crate::text::is_ws(x.last()),
        crate::text::trim_start(x) == x,
        crate::text::trim_end(x) == x,
{
    lemma_trim_start_len(x);
    lemma_trim_end_len(crate::text::trim_start(x));
    assert(!crate::text::is_ws(x[0]));
    assert(crate::text::trim_start(x) == x);
    lemma_trim_end_len(x);
}

/// A space in front of a trimmed non-empty sequence is trimmed away.
proof fn lemma_trim_space_prefix(x: Seq<char>)
    requires
        x.len() > 0,
        trim(x) == x,
    ensures
        trim(seq![' '] + x) == x,
{
    lemma_trimmed_ends(x);
    let y = seq![' '] + x;
    assert(crate::text::is_ws(y[0]));
    assert(y.drop_first() == x);
}

/// Appending comma-free text extends the last piece.
proof fn lemma_split_append(s: Seq<char>, t: Seq<char>)
    requires
        !t.contains(','),
    ensures
        split_on(s + t, ',') == split_on(s, ',').update(
            split_on(s, ',').len() - 1,
            split_on(s, ',').last() + t,
        ),
    decreases t.len(),
{
    crate::text::lemma_split_nonempty(s, ',');
    if t.len() == 0 {
        assert(s + t == s);
        assert(split_on(s, ',').last() + t == split_on(s, ',').last());
        assert(split_on(s, ',').update(split_on(s, ',').len() - 1, split_on(s, ',').last())
            =~= split_on(s, ','));
    } else {
        let t0 = t.drop_last();
        assert(!t0.contains(',')) by {
            if t0.contains(',') {
                let k = choose|k: int| 0 <= k < t0.len() && t0[k] == ',';
                assert(t[k] == ',');
            }
        }
        lemma_split_append(s, t0);
        assert((s + t).drop_last() == s + t0);
        assert((s + t).last() == t.last());
        assert(t.last() != ',') by {
            assert(t[t.len() - 1] == t.last());
        }
        assert(split_on(s, ',').last() + t0 + seq![t.last()] == split_on(s, ',').last() + t) by {
            assert(t0.push(t.last()) == t);
        }
        assert(split_on(s + t, ',') =~= split_on(s, ',').update(
            split_on(s, ',').len() - 1,
            split_on(s, ',').last() + t,
        ));
    }
}

/// Showing a clean list as `", "`-separated text and parsing it back gives
/// the list again.
pub proof fn lemma_csv_roundtrip(xs: Seq<Seq<char>>)
    requires
        all_clean(xs),
    ensures
        csv_values(join_with(xs, list_separator())) == xs,
    decreases xs.len(),
{
    reveal_strlit(", ");
    let sep = list_separator();
    assert(sep == seq![',', ' ']);
    reveal_with_fuel(Seq::<_>::filter, 1);
    if xs.len() == 0 {
        assert(split_on(seq![], ',') == seq![Seq::<char>::empty()]);
        lemma_kept_push(seq![], seq![]);
        assert(kept_values(seq![]) =~= Seq::<Seq<char>>::empty());
        assert(seq![Seq::<Seq<char>>::empty()].len() == 1);
        assert(seq![].push(Seq::<char>::empty()) == seq![Seq::<char>::empty()]);
        assert(trim(Seq::<char>::empty()).len() == 0);
    } else if xs.len() == 1 {
        let x = xs[0];
        assert(is_clean_item(x));
        lemma_split_append(seq![], x);
        assert(Seq::<char>::empty() + x == x);
        assert(split_on(x, ',') =~= seq![x]);
        lemma_kept_push(seq![], x);
        assert(kept_values(seq![]) =~= Seq::<Seq<char>>::empty());
        assert(seq![].push(x) == seq![x]);
        assert(kept_values(seq![x]) =~= seq![x]);
    } else {
        let init = xs.drop_last();
        let x = xs.last();
        assert(is_clean_item(xs[xs.len() - 1]));
        assert(all_clean(init)) by {
            assert forall|i: int| 0 <= i < init.len() implies #[trigger] is_clean_item(init[i]) by {
                assert(init[i] == xs[i]);
            }
        }
        lemma_csv_roundtrip(init);
        let j = join_with(init, sep);
        assert(join_with(xs, sep) == j + sep + x);
        let tail = seq![' '] + x;
        assert(j + sep + x == j.push(',') + tail);
        assert(!tail.contains(',')) by {
            if tail.contains(',') {
                let k = choose|k: int| 0 <= k < tail.len() && tail[k] == ',';
                assert(k > 0);
                assert(x[k - 1] == ',');
            }
        }
        lemma_split_append(j.push(','), tail);
        assert(j.push(',').drop_last() == j);
        let sj = split_on(j, ',');
        assert(split_on(j.push(','), ',') == sj.push(seq![]));
        assert(sj.push(seq![]).last() + tail == tail);
        assert(split_on(j.push(',') + tail, ',') =~= sj.push(tail));
        lemma_kept_push(sj, tail);
        lemma_trim_space_prefix(x);
        assert(kept_values(sj) == init);
        assert(init.push(x) =~= xs);
    }
}

/// Opening the settings form on a normal configuration and saving it
/// unchanged is accepted and gives back every system as it was (in key
/// order) and the same paths.
pub proof fn lemma_settings_roundtrip(config: LauncherConfig, draft: SettingsDraft, order: Seq<usize>)
    requires
        config_is_normal(config),
        draft.retroarch_binary@ == config.retroarch.binary_path@,
        draft.cores_dir@ == config.retroarch.cores_dir@,
        draft.roms_dir@ == config.library.roms_dir@,
        draft.bios_dir@ == config.library.bios_dir@,
        is_index_permutation(order, config.systems@.len()),
        draft.systems@.len() == config.systems@.len(),
        forall|i: int|
            0 <= i < draft.systems@.len() ==> drafts_system(
                #[trigger] draft.systems@[i],
                config.systems@[order[i] as int].0,
                config.systems@[order[i] as int].1,
            ),
    ensures
        drafts_valid(draft.systems@),
        trim(draft.retroarch_binary@) == config.retroarch.binary_path@,
        trim(draft.cores_dir@) == config.retroarch.cores_dir@,
        trim(draft.roms_dir@) == config.library.roms_dir@,
        trim(draft.bios_dir@) == config.library.bios_dir@,
        forall|i: int, e: (String, SystemConfig)|
            0 <= i < draft.systems@.len() && #[trigger] saved_system(e, draft.systems@[i]) ==> e.0@
                == config.systems@[order[i] as int].0@ && e.1@ == config.systems@[order[i] as int].1@,
{
    let ds = draft.systems@;
    let cs = config.systems@;
    assert forall|i: int| 0 <= i < ds.len() implies normalized_key(#[trigger] ds[i]) == cs[order[i] as int].0@ by {
        assert(order[i] < cs.len());
        assert(system_is_normal(cs[order[i] as int]));
    }
    assert forall|i: int| 0 <= i < ds.len() implies !#[trigger] draft_rejected_at(ds, i) by {
        assert(order[i] < cs.len());
        assert(system_is_normal(cs[order[i] as int]));
        assert(normalized_key(ds[i]) == cs[order[i] as int].0@);
        if exists|j: int| 0 <= j < i && normalized_key(#[trigger] ds[j]) == normalized_key(ds[i]) {
            let j = choose|j: int| 0 <= j < i && normalized_key(#[trigger] ds[j]) == normalized_key(ds[i]);
            assert(normalized_key(ds[j]) == cs[order[j] as int].0@);
            assert(order[j] != order[i]);
            let (a, b) = if order[j] < order[i] { (order[j] as int, order[i] as int) } else { (order[i] as int, order[j] as int) };
            assert(crate::config::system_keys(cs)[a] != crate::config::system_keys(cs)[b]);
        }
    }
    assert forall|i: int, e: (String, SystemConfig)|
        0 <= i < ds.len() && #[trigger] saved_system(e, ds[i]) implies e.0@ == cs[order[i] as int].0@
            && e.1@ == cs[order[i] as int].1@ by {
        let c = cs[order[i] as int];
        assert(order[i] < cs.len());
        assert(system_is_normal(c));
        lemma_csv_roundtrip(views(c.1.accepted_extensions@));
        lemma_csv_roundtrip(views(c.1.extra_args@));
    }
}

} // verus!

verus! {

proof fn lemma_trim_idempotent(s: Seq<char>)
    ensures
        trim(trim(s)) == trim(s),
{
    let t = trim(s);
    if t.len() > 0 {
        lemma_trim_start_ne(s);
        lemma_trim_end_ne(crate::text::trim_start(s));
        assert(crate::text::trim_start(t) == t);
        assert(crate::text::trim_end(t) == t);
    }
}

/// After trimming the start, a non-empty result starts with a non-space.
proof fn lemma_trim_start_ne(s: Seq<char>)
    ensures
        crate::text::trim_start(s).len() > 0 ==> !crate::text::is_ws(crate::text::trim_start(s)[0]),
    decreases s.len(),
{
    if s.len() > 0 && crate::text::is_ws(s[0]) {
        lemma_trim_start_ne(s.drop_first());
    }
}

/// Trimming the end keeps a prefix; a non-empty result ends with a
/// non-space.
proof fn lemma_trim_end_ne(s: Seq<char>)
    ensures
        crate::text::trim_end(s).len() <= s.len(),
        crate::text::trim_end(s) == s.subrange(0, crate::text::trim_end(s).len() as int),
        crate::text::trim_end(s).len() > 0 ==> !crate::text::is_ws(crate::text::trim_end(s).last()),
    decreases s.len(),
{
    if s.len() > 0 && crate::text::is_ws(s.last()) {
        lemma_trim_end_ne(s.drop_last());
        assert(s.drop_last().subrange(0, crate::text::trim_end(s).len() as int) == s.subrange(0, crate::text::trim_end(s).len() as int));
    } else {
        assert(s.subrange(0, s.len() as int) == s);
    }
}

proof fn lemma_trim_start_suffix(s: Seq<char>)
    ensures
        crate::text::trim_start(s) == s.subrange(s.len() - crate::text::trim_start(s).len(), s.len() as int),
        crate::text::trim_start(s).len() <= s.len(),
    decreases s.len(),
{
    if s.len() > 0 && crate::text::is_ws(s[0]) {
        lemma_trim_start_suffix(s.drop_first());
        assert(s.drop_first().subrange(s.drop_first().len() - crate::text::trim_start(s).len(), s.drop_first().len() as int)
            == s.subrange(s.len() - crate::text::trim_start(s).len(), s.len() as int));
    } else {
        assert(s.subrange(0, s.len() as int) == s);
    }
}

/// A piece between separators holds no separator.
proof fn lemma_split_pieces_free(s: Seq<char>, sep: char)
    ensures
        forall|i: int| 0 <= i < split_on(s, sep).len() ==> !(#[trigger] split_on(s, sep)[i]).contains(sep),
    decreases s.len(),
{
    crate::text::lemma_split_nonempty(s, sep);
    if s.len() > 0 {
        lemma_split_pieces_free(s.drop_last(), sep);
        crate::text::lemma_split_nonempty(s.drop_last(), sep);
        let w = split_on(s.drop_last(), sep);
        if s.last() != sep {
            assert forall|i: int| 0 <= i < split_on(s, sep).len() implies !(#[trigger] split_on(s, sep)[i]).contains(sep) by {
                if i == w.len() - 1 {
                    let p = w.last().push(s.last());
                    if p.contains(sep) {
                        let k = choose|k: int| 0 <= k < p.len() && p[k] == sep;
                        assert(w.last()[k] == sep);
                    }
                }
            }
        }
    }
}

/// A trimmed part of a comma-free piece is comma-free.
proof fn lemma_trim_keeps_free(x: Seq<char>)
    requires
        !x.contains(','),
    ensures
        !trim(x).contains(','),
{
    lemma_trim_start_suffix(x);
    let t0 = crate::text::trim_start(x);
    lemma_trim_end_ne(t0);
    let t = trim(x);
    if t.contains(',') {
        let k = choose|k: int| 0 <= k < t.len() && t[k] == ',';
        assert(t0[k] == ',');
        assert(x[x.len() - t0.len() + k] == ',');
    }
}

/// Every value parsed from a comma-separated list is clean, so showing the
/// parsed list as text and parsing it again gives it back unchanged.
pub proof fn lemma_csv_values_clean(raw: Seq<char>)
    ensures
        all_clean(csv_values(raw)),
        csv_values(join_with(csv_values(raw), list_separator())) == csv_values(raw),
{
    let pieces = split_on(raw, ',');
    lemma_split_pieces_free(raw, ',');
    let f = |p: Seq<char>| trim(p);
    let g = |p: Seq<char>| p.len() > 0;
    let mapped = pieces.map_values(f);
    assert forall|i: int| 0 <= i < mapped.len() implies trim(#[trigger] mapped[i]) == mapped[i]
        && !mapped[i].contains(',') by {
        lemma_trim_idempotent(pieces[i]);
        lemma_trim_keeps_free(pieces[i]);
    }
    let kept = mapped.filter(g);
    assert forall|i: int| 0 <= i < kept.len() implies #[trigger] is_clean_item(kept[i]) by {
        assert(kept.contains(kept[i]));
        mapped.lemma_filter_contains_rev(g, kept[i]);
        mapped.lemma_filter_pred(g, i);
        let j = choose|j: int| 0 <= j < mapped.len() && mapped[j] == kept[i];
        assert(trim(mapped[j]) == mapped[j]);
    }
    lemma_csv_roundtrip(csv_values(raw));
}

impl SettingsDraft {
    /// Takes the system at `index` out of the form and returns its key; with
    /// no system at that position the form is left as it is.
    pub fn remove_system(&mut self, index: usize) -> (r: Option<String>)
        ensures
            index < old(self).systems@.len() ==> (r == Some(old(self).systems@[index as int].key)
                && final(self).systems@ == old(self).systems@.remove(index as int)),
            index >= old(self).systems@.len() ==> (r is None && final(self).systems@ == old(self).systems@),
            final(self).retroarch_binary == old(self).retroarch_binary,
            final(self).cores_dir == old(self).cores_dir,
            final(self).roms_dir == old(self).roms_dir,
            final(self).bios_dir == old(self).bios_dir,
            final(self).new_system_key == old(self).new_system_key,
            final(self).new_system_core == old(self).new_system_core,
            final(self).new_system_extensions_csv == old(self).new_system_extensions_csv,
            final(self).new_system_args_csv == old(self).new_system_args_csv,
    {
        if index < self.systems.len() {
            let removed = self.systems.remove(index);
            Some(removed.key)
        } else {
            None
        }
    }
}

} // verus!

verus! {

/// Lower-casing leaves whitespace alone, so trimming the start commutes
/// with it.
proof fn lemma_trim_start_lower(s: Seq<char>)
    ensures
        trim_start(lower(s)) == lower(trim_start(s)),
    decreases s.len(),
{
    if s.len() > 0 {
        assert(lower(s)[0] == crate::text::ascii_lower(s[0]));
        assert(lower(s).drop_first() =~= lower(s.drop_first()));
        lemma_trim_start_lower(s.drop_first());
    }
}

/// Trimming the end commutes with lower-casing.
proof fn lemma_trim_end_lower(s: Seq<char>)
    ensures
        trim_end(lower(s)) == lower(trim_end(s)),
    decreases s.len(),
{
    if s.len() > 0 {
        assert(lower(s).last() == crate::text::ascii_lower(s.last()));
        assert(lower(s).drop_last() =~= lower(s.drop_last()));
        lemma_trim_end_lower(s.drop_last());
    }
}

/// A key saved from the settings form is in normal form: trimming and
/// lower-casing it again leaves it as it is.
pub proof fn lemma_saved_key_is_normal(e: (String, SystemConfig), d: SystemDraft)
    requires
        saved_system(e, d),
    ensures
        lower(trim(e.0@)) == e.0@,
{
    let t = trim(d.key@);
    lemma_trim_start_lower(t);
    lemma_trim_end_lower(trim_start(t));
    lemma_trim_idempotent(d.key@);
    crate::config::lemma_lower_idempotent(t);
}

} // verus!

verus! {

/// What a successful save writes is a configuration in normal form: its
/// paths are trimmed, its keys distinct, trimmed and lower-case, its cores
/// trimmed and non-empty, and its lists clean. (So opening the form on it
/// and saving again gives it back: see `lemma_settings_roundtrip`.)
pub proof fn lemma_saved_config_is_normal(after: LauncherConfig, draft: SettingsDraft)
    requires
        after.retroarch.binary_path@ == trim(draft.retroarch_binary@),
        after.retroarch.cores_dir@ == trim(draft.cores_dir@),
        after.library.roms_dir@ == trim(draft.roms_dir@),
        after.library.bios_dir@ == trim(draft.bios_dir@),
        drafts_valid(draft.systems@),
        after.systems@.len() == draft.systems@.len(),
        forall|i: int| 0 <= i < draft.systems@.len() ==> saved_system(#[trigger] after.systems@[i], draft.systems@[i]),
        after.wf(),
    ensures
        config_is_normal(after),
{
    lemma_trim_idempotent(draft.retroarch_binary@);
    lemma_trim_idempotent(draft.cores_dir@);
    lemma_trim_idempotent(draft.roms_dir@);
    lemma_trim_idempotent(draft.bios_dir@);
    assert forall|i: int| 0 <= i < after.systems@.len() implies #[trigger] system_is_normal(after.systems@[i]) by {
        let e = after.systems@[i];
        let d = draft.systems@[i];
        assert(saved_system(e, d));
        assert(!draft_rejected_at(draft.systems@, i));
        lemma_saved_key_is_normal(e, d);
        lemma_trim_idempotent(d.default_core@);
        lemma_csv_values_clean(d.accepted_extensions_csv@);
        lemma_csv_values_clean(d.extra_args_csv@);
    }
}

} // verus!
