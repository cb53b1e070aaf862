//! File-name parts as `std::path::Path` reports them.
//!
//! The library asks `Path` for a name's extension and stem.  What `Path`
//! returns for an arbitrary path is named here; for a plain file name (no
//! separator, no `:` that Windows could read as a drive prefix, not `.` or
//! `..`) its documentation fixes the answer on every platform, and that is
//! stated.

use vstd::prelude::*;
use crate::model::opt_view;

verus! {

/// A plain file name: non-empty, no `/` or `\`, no `:` (on Windows `C:`
/// starts a drive prefix), and neither `.` nor `..`.
pub open spec fn plain_name(p: Seq<char>) -> bool {
    &&& p.len() > 0
    &&& !p.contains('/')
    &&& !p.contains('\\')
    &&& !p.contains(':')
    &&& p != seq!['.']
    &&& p != seq!['.', '.']
}

/// Position of the last `.` before `j` (`-1` when there is none).
pub open spec fn last_dot_before(p: Seq<char>, j: int) -> int
    decreases j,
{
    if j <= 0 || j > p.len() {
        -1
    } else if p[j - 1] == '.' {
        j - 1
    } else {
        last_dot_before(p, j - 1)
    }
}

/// Position of the dot that starts a plain name's extension: the last `.`,
/// unless that is the name's first character (`-1` when there is none).
pub open spec fn extension_dot(p: Seq<char>) -> int {
    let d = last_dot_before(p, p.len() as int);
    if d <= 0 {
        -1
    } else {
        d
    }
}

/// The extension of a plain name that has one.
pub open spec fn after_dot(p: Seq<char>) -> Seq<char> {
    p.skip(extension_dot(p) + 1)
}

/// The stem of a plain name: all of it when it has no extension.
pub open spec fn before_dot(p: Seq<char>) -> Seq<char> {
    if extension_dot(p) < 0 {
        p
    } else {
        p.take(extension_dot(p))
    }
}

/// What `Path::extension` returns for a path.
pub uninterp spec fn path_extension(p: Seq<char>) -> Option<Seq<char>>;

/// What `Path::file_stem` returns for a path.
pub uninterp spec fn path_stem(p: Seq<char>) -> Option<Seq<char>>;

/// `Path::new(p).extension()` as text (`None` also when it is not UTF-8).
///
/// For a plain name the documented answer holds: no extension when the name
/// has no `.` or only a leading one, else the text after the last `.`.
#[verifier::external_body]
pub(crate) fn extension_of(p: &str) -> (r: Option<String>)
    ensures
        opt_view(r) == path_extension(p@),
        plain_name(p@) ==> (r is Some <==> extension_dot(p@) >= 0),
        plain_name(p@) && extension_dot(p@) >= 0 ==> opt_view(r) == Some(after_dot(p@)),
{
    let ext = std::path::Path::new(p).extension()?;
    Some(ext.to_str()?.to_string())
}

/// `Path::new(p).file_stem()` as text (`None` also when it is not UTF-8).
///
/// For a plain name the documented answer holds: the whole name when it has
/// no `.` or only a leading one, else the text before the last `.`.
#[verifier::external_body]
pub(crate) fn stem_of(p: &str) -> (r: Option<String>)
    ensures
        opt_view(r) == path_stem(p@),
        plain_name(p@) ==> opt_view(r) == Some(before_dot(p@)),
{
    let stem = std::path::Path::new(p).file_stem()?;
    Some(stem.to_str()?.to_string())
}

/// What `Path::is_absolute` answers for a path (it depends on the
/// platform's path rules).
pub uninterp spec fn path_absolute(p: Seq<char>) -> bool;

/// `Path::new(p).is_absolute()`.
#[verifier::external_body]
pub(crate) fn is_absolute(p: &str) -> (r: bool)
    ensures
        r == path_absolute(p@),
{
    std::path::Path::new(p).is_absolute()
}

/// What `Path::starts_with` answers: whether the components of `base` are
/// the leading components of `p`.
pub uninterp spec fn path_prefix(p: Seq<char>, base: Seq<char>) -> bool;

/// `Path::new(p).starts_with(base)`: only whole components match.
#[verifier::external_body]
pub(crate) fn starts_with_path(p: &str, base: &str) -> (r: bool)
    ensures
        r == path_prefix(p@, base@),
{
    std::path::Path::new(p).starts_with(base)
}


/// What `Path::strip_prefix` leaves of `p` once the leading components
/// `base` are taken off, as text; `None` when `base` is not a prefix.
pub uninterp spec fn path_strip(p: Seq<char>, base: Seq<char>) -> Option<Seq<char>>;

/// `Path::new(p).strip_prefix(base)` as text.  As std documents, it fails
/// exactly when `base` is not a prefix of `p` (`Path::starts_with`).
#[verifier::external_body]
pub(crate) fn strip_prefix_of(p: &str, base: &str) -> (r: Option<String>)
    ensures
        opt_view(r) == path_strip(p@, base@),
        r is Some <==> path_prefix(p@, base@),
{
    let rest = std::path::Path::new(p).strip_prefix(base).ok()?;
    Some(rest.to_string_lossy().into_owned())
}

} // verus!
