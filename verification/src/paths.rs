//! File-system paths are held as text. Their syntax (joining, the file name,
//! stem and extension, the parent, absoluteness, prefix and equality by
//! components, hashing) is `std::path`'s; each such query is one call of
//! `std::path`, and its result is named here as a function of its arguments.
use vstd::prelude::*;

verus! {

/// What `Path::join` gives for `base` joined with `rel`.
pub uninterp spec fn joined_path(base: Seq<char>, rel: Seq<char>) -> Seq<char>;

/// What `Path::file_name` gives for `p`.
pub uninterp spec fn file_name_of(p: Seq<char>) -> Option<Seq<char>>;

/// What `Path::file_stem` gives for `p`.
pub uninterp spec fn file_stem_of(p: Seq<char>) -> Option<Seq<char>>;

/// What `Path::extension` gives for `p`.
pub uninterp spec fn extension_of(p: Seq<char>) -> Option<Seq<char>>;

/// What `Path::parent` gives for `p`.
pub uninterp spec fn parent_of(p: Seq<char>) -> Option<Seq<char>>;

/// What `Path::is_absolute` gives for `p`.
pub uninterp spec fn is_absolute_path(p: Seq<char>) -> bool;

/// What `Path::starts_with` gives for `p` and `base`.
pub uninterp spec fn path_has_prefix(p: Seq<char>, base: Seq<char>) -> bool;

/// What `Path`'s `==` gives for `a` and `b` (comparison by components).
pub uninterp spec fn same_path(a: Seq<char>, b: Seq<char>) -> bool;

/// What std's `DefaultHasher` (as made by `DefaultHasher::new`) gives after
/// hashing `p` as a `std::path::Path`.
pub uninterp spec fn default_path_hash(p: Seq<char>) -> u64;


/// Text of an optional path, as a view.
pub open spec fn opt_view(o: Option<String>) -> Option<Seq<char>> {
    match o {
        Some(s) => Some(s@),
        None => None,
    }
}

/// `std::path::Path::join`: `rel` appended to `base` with one separator (or
/// `rel` alone when it is absolute).
#[verifier::external_body]
pub(crate) fn path_join(base: &str, rel: &str) -> (r: String)
    ensures
        r@ == joined_path(base@, rel@),
{
    std::path::Path::new(base).join(rel).to_string_lossy().into_owned()
}

/// `std::path::Path::file_name`: the final component, if it is a normal one.
#[verifier::external_body]
pub(crate) fn path_file_name(p: &str) -> (r: Option<String>)
    ensures
        opt_view(r) == file_name_of(p@),
{
    std::path::Path::new(p).file_name().map(|n| n.to_string_lossy().into_owned())
}

/// `std::path::Path::file_stem`: the file name without its final extension.
#[verifier::external_body]
pub(crate) fn path_file_stem(p: &str) -> (r: Option<String>)
    ensures
        opt_view(r) == file_stem_of(p@),
{
    std::path::Path::new(p).file_stem().map(|n| n.to_string_lossy().into_owned())
}

/// `std::path::Path::extension`: the text after the final `.` of the file
/// name, if any.
#[verifier::external_body]
pub(crate) fn path_extension(p: &str) -> (r: Option<String>)
    ensures
        opt_view(r) == extension_of(p@),
{
    std::path::Path::new(p).extension().map(|n| n.to_string_lossy().into_owned())
}

/// `std::path::Path::parent`: the path without its final component.
#[verifier::external_body]
pub(crate) fn path_parent(p: &str) -> (r: Option<String>)
    ensures
        opt_view(r) == parent_of(p@),
{
    std::path::Path::new(p).parent().map(|n| n.to_string_lossy().into_owned())
}

/// `std::path::Path::is_absolute`.
#[verifier::external_body]
pub(crate) fn path_is_absolute(p: &str) -> (r: bool)
    ensures
        r == is_absolute_path(p@),
{
    std::path::Path::new(p).is_absolute()
}

/// `std::path::Path::starts_with`: `base` is a prefix of `p`, component by
/// component.
#[verifier::external_body]
pub(crate) fn path_starts_with(p: &str, base: &str) -> (r: bool)
    ensures
        r == path_has_prefix(p@, base@),
{
    std::path::Path::new(p).starts_with(base)
}

/// `BuildHasher::hash_one` of the path with the builder of default
/// `DefaultHasher`s (a fresh `DefaultHasher`, `Hash for Path`, then
/// `finish`): the result is named `default_path_hash`. The value depends on
/// the path alone within one build; it may differ between Rust releases and
/// pointer widths.
#[verifier::external_body]
pub(crate) fn path_hash(p: &str) -> (r: u64)
    ensures
        r == default_path_hash(p@),
{
    let builder = std::hash::BuildHasherDefault::<std::collections::hash_map::DefaultHasher>::default();
    std::hash::BuildHasher::hash_one(&builder, std::path::Path::new(p))
}

/// `==` on `std::path::Path`: equality of the component sequences.
#[verifier::external_body]
pub(crate) fn path_eq(a: &str, b: &str) -> (r: bool)
    ensures
        r == same_path(a@, b@),
{
    std::path::Path::new(a) == std::path::Path::new(b)
}

/// The first candidate whose probe came back positive.
pub open spec fn first_flagged(candidates: Seq<Seq<char>>, flags: Seq<bool>) -> Option<Seq<char>>
    decreases candidates.len(),
{
    if candidates.len() == 0 || flags.len() == 0 {
        None
    } else if flags[0] {
        Some(candidates[0])
    } else {
        first_flagged(candidates.drop_first(), flags.drop_first())
    }
}

/// The views of a list of strings.
pub open spec fn views(v: Seq<String>) -> Seq<Seq<char>> {
    v.map_values(|s: String| s@)
}

/// The first of `candidates` for which `exists` holds (the probes are made
/// by the caller, in the same order; candidates without a probe count as
/// missing).
pub fn first_existing(candidates: &[String], exists: &[bool]) -> (r: Option<String>)
    ensures
        opt_view(r) == first_flagged(views(candidates@), exists@),
{
    let n = candidates.len();
    let m = exists.len();
    let mut i: usize = 0;
    assert(views(candidates@).skip(0) == views(candidates@));
    assert(exists@.skip(0) == exists@);
    while i < n && i < m
        invariant
            n == candidates@.len(),
            m == exists@.len(),
            i <= n,
            i <= m,
            first_flagged(views(candidates@), exists@) == first_flagged(
                views(candidates@).skip(i as int),
                exists@.skip(i as int),
            ),
        decreases n - i,
    {
        if exists[i] {
            return Some(candidates[i].clone());
        }
        assert(views(candidates@).skip(i as int).drop_first() == views(candidates@).skip(i + 1));
        assert(exists@.skip(i as int).drop_first() == exists@.skip(i + 1));
        i = i + 1;
    }
    None
}

} // verus!
