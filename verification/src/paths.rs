//! File-system path operations (on paths written as strings).
//!
//! Each is a single call of `std::path`, whose result is named here; the
//! library's logic is stated over those names.
use vstd::prelude::*;

verus! {

/// What `Path::is_absolute` returns for a path.
pub uninterp spec fn path_is_absolute(p: Seq<char>) -> bool;

/// What `Path::join` returns for a base path and a path.
pub uninterp spec fn path_join(base: Seq<char>, p: Seq<char>) -> Seq<char>;

/// What `pathdiff::diff_paths` returns for a path and a base.
pub uninterp spec fn path_diff_of(path: Seq<char>, base: Seq<char>) -> Option<Seq<char>>;

/// What `Path::parent` returns for a path.
pub uninterp spec fn path_parent(p: Seq<char>) -> Option<Seq<char>>;

/// The path made again of the components of a path, as `Path::components`
/// reads them; two paths are equal as paths when these are equal.
pub uninterp spec fn path_normal(p: Seq<char>) -> Seq<char>;

/// `Path::is_absolute`: whether the path is absolute on this platform.
#[verifier::external_body]
pub(crate) fn is_absolute(p: &str) -> (r: bool)
    ensures
        r == path_is_absolute(p@),
{
    std::path::Path::new(p).is_absolute()
}

/// `Path::join`: `p` appended to `base`. As documented, an absolute `p`
/// replaces the base.
#[verifier::external_body]
pub(crate) fn join(base: &str, p: &str) -> (r: String)
    ensures
        r@ == path_join(base@, p@),
        path_is_absolute(p@) ==> r@ == p@,
{
    std::path::Path::new(base).join(p).to_string_lossy().to_string()
}

/// `Path::parent`: the path without its last component, if it has one.
#[verifier::external_body]
pub(crate) fn parent(p: &str) -> (r: Option<String>)
    ensures
        r.is_none() <==> path_parent(p@).is_none(),
        r matches Some(s) ==> path_parent(p@) == Some(s@),
{
    std::path::Path::new(p).parent().map(|q| q.to_string_lossy().to_string())
}

/// `Path::components`, collected into a path: as documented, repeated
/// separators, `.` components other than a leading one and a trailing
/// separator are dropped. The result is named `path_normal`.
#[verifier::external_body]
pub(crate) fn normal_path(p: &str) -> (r: String)
    ensures
        r@ == path_normal(p@),
{
    std::path::Path::new(p).components().collect::<std::path::PathBuf>().to_string_lossy().to_string()
}

/// `pathdiff::diff_paths`: the path relative to the base, if there is one.
/// The result is named `path_diff_of`; as its source shows, an absolute
/// path against a relative base is the path itself, and a relative path
/// against an absolute base has none.
#[verifier::external_body]
pub(crate) fn diff_paths(path: &str, base: &str) -> (r: Option<String>)
    ensures
        r.is_none() <==> path_diff_of(path@, base@).is_none(),
        r matches Some(s) ==> path_diff_of(path@, base@) == Some(s@),
        (r.is_some() && r.unwrap()@ == path@) || !(path_is_absolute(path@) && !path_is_absolute(base@)),
        r.is_none() || !(!path_is_absolute(path@) && path_is_absolute(base@)),
{
    pathdiff::diff_paths(path, base).map(|p| p.to_string_lossy().to_string())
}

} // verus!
