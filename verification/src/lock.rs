//! Cooperative file locks under `.localref/locks/`.
//!
//! A lock is a file created exclusively; its name is derived from the locked
//! key so that every key maps to one safe file name.  Creating and removing
//! the file is left to the caller; this module names the files and the
//! conflict reported when one already exists.

use vstd::prelude::*;
use crate::error::LocalrefError;
use crate::text::{chars_of, concat2, is_ascii_alnum, join, join_path, owned, push_str, string_of};

verus! {

/// A character kept as-is in a lock file name.
pub open spec fn lock_safe(c: char) -> bool {
    is_ascii_alnum(c) || c == '-' || c == '_'
}

/// The lock-file stem for a key: unsafe characters become `_`, and an empty
/// key becomes `lock`.
pub open spec fn lock_stem(key: Seq<char>) -> Seq<char> {
    if key.len() == 0 {
        "lock"@
    } else {
        key.map_values(|c: char| if lock_safe(c) { c } else { '_' })
    }
}

/// Lock-file stem for a key.
pub fn lock_component(value: &str) -> (r: String)
    ensures
        r@ == lock_stem(value@),
{
    let v = chars_of(value);
    if v.len() == 0 {
        return owned("lock");
    }
    let mut out: Vec<char> = Vec::new();
    let mut i: usize = 0;
    while i < v.len()
        invariant
            i <= v@.len(),
            out@ == v@.take(i as int).map_values(|c: char| if lock_safe(c) { c } else { '_' }),
        decreases v.len() - i,
    {
        let c = v[i];
        let keep = crate::text::ascii_alnum(c) || c == '-' || c == '_';
        out.push(if keep { c } else { '_' });
        proof {
            assert(v@.take(i + 1).map_values(|c: char| if lock_safe(c) { c } else { '_' })
                =~= v@.take(i as int).map_values(|c: char| if lock_safe(c) { c } else { '_' }).push(
                if lock_safe(c) { c } else { '_' },
            ));
        }
        i = i + 1;
    }
    proof {
        assert(v@.take(v@.len() as int) =~= v@);
    }
    string_of(&out)
}

/// Directory of lock files for one library.
#[derive(Clone, Debug)]
pub struct LockManager {
    dir: String,
}

/// A held lock: the path of its lock file.
#[derive(Debug)]
pub struct FsLock {
    path: String,
}

impl View for FsLock {
    type V = Seq<char>;

    closed spec fn view(&self) -> Seq<char> {
        self.path@
    }
}

impl FsLock {
    /// Path of the lock file.
    pub fn path(&self) -> (r: &str)
        ensures
            r@ == self@,
    {
        self.path.as_str()
    }
}

impl LockManager {
    /// The lock directory.
    pub closed spec fn spec_dir(&self) -> Seq<char> {
        self.dir@
    }

    /// Create a lock manager for a library root: locks live in
    /// `.localref/locks`.
    pub fn new(library_root: &str) -> (r: LockManager)
        ensures
            r.spec_dir() == join_path(join_path(library_root@, ".localref"@), "locks"@),
    {
        let state = join(library_root, ".localref");
        LockManager { dir: join(state.as_str(), "locks") }
    }

    /// The lock directory.
    pub fn dir(&self) -> (r: &str)
        ensures
            r@ == self.spec_dir(),
    {
        self.dir.as_str()
    }

    /// The lock held for `key` once its file exists: `<dir>/<stem>.lock`.
    pub fn lock_for(&self, key: &str) -> (r: FsLock)
        ensures
            r@ == join_path(self.spec_dir(), lock_stem(key@) + ".lock"@),
    {
        let mut name = lock_component(key);
        push_str(&mut name, ".lock");
        FsLock { path: join(self.dir.as_str(), name.as_str()) }
    }
}

/// The error reported when the lock file for `key` already exists.
pub fn lock_conflict(key: &str) -> (r: LocalrefError)
    ensures
        r matches LocalrefError::Conflict(m) && m@ == "lock already exists for "@ + key@,
{
    LocalrefError::Conflict(concat2("lock already exists for ", key))
}

} // verus!
