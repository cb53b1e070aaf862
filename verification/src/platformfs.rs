//! NTFS-aware naming for the library layout.
//!
//! Every path component the library writes passes through
//! [`sanitize_ntfs_component`]: characters NTFS refuses become `_`, trailing
//! spaces and dots are dropped and reserved DOS device names get a trailing
//! `_`.  [`LibraryFs`] computes the layout paths (`All/`, `Cat/`,
//! `.localref/`) of one library root.

use vstd::prelude::*;
use crate::error::LocalrefError;
use crate::text::{chars_of, join, join_path, owned, string_of, trim, trim_chars};
use crate::types::CategoryPath;
use crate::text::split;

verus! {

/// A character NTFS refuses in a file name: `< > : " / \ | ? *` and the
/// control characters `U+0000..=U+001F`.
pub open spec fn ntfs_forbidden(c: char) -> bool {
    ||| c == '<' || c == '>' || c == ':' || c == '"' || c == '/'
    ||| c == '\\' || c == '|' || c == '?' || c == '*'
    ||| c <= '\u{1f}'
}

/// The character written in place of `c`.
pub open spec fn ntfs_char(c: char) -> char {
    if ntfs_forbidden(c) {
        '_'
    } else {
        c
    }
}

/// Drop every trailing space and dot.
pub open spec fn drop_trailing_dots(s: Seq<char>) -> Seq<char>
    decreases s.len(),
{
    if s.len() > 0 && (s.last() == ' ' || s.last() == '.') {
        drop_trailing_dots(s.drop_last())
    } else {
        s
    }
}

/// Position of the first `.` at or after `i` (the length when none).
pub open spec fn dot_from(s: Seq<char>, i: int) -> int
    decreases s.len() - i,
{
    if i < 0 || i >= s.len() {
        s.len() as int
    } else if s[i] == '.' {
        i
    } else {
        dot_from(s, i + 1)
    }
}

/// The part of a name before its first `.`.
pub open spec fn name_stem(s: Seq<char>) -> Seq<char> {
    s.take(dot_from(s, 0))
}

/// An upper-cased stem that names a DOS device: `CON`, `PRN`, `AUX`, `NUL`,
/// `COM1`..`COM9`, `LPT1`..`LPT9`.
pub open spec fn is_device_name(u: Seq<char>) -> bool {
    ||| u.len() == 3 && u[0] == 'C' && u[1] == 'O' && u[2] == 'N'
    ||| u.len() == 3 && u[0] == 'P' && u[1] == 'R' && u[2] == 'N'
    ||| u.len() == 3 && u[0] == 'A' && u[1] == 'U' && u[2] == 'X'
    ||| u.len() == 3 && u[0] == 'N' && u[1] == 'U' && u[2] == 'L'
    ||| u.len() == 4 && ((u[0] == 'C' && u[1] == 'O' && u[2] == 'M') || (u[0] == 'L' && u[1]
        == 'P' && u[2] == 'T')) && '1' <= u[3] && u[3] <= '9'
}

/// A name whose stem (ASCII upper-cased) is a DOS device name.
pub open spec fn is_reserved_name(s: Seq<char>) -> bool {
    is_device_name(crate::text::upper(name_stem(s)))
}

/// The sanitized form of a component, or `None` when it is refused: blank
/// input, or input that becomes empty once sanitized.
pub open spec fn ntfs_component(v: Seq<char>) -> Option<Seq<char>> {
    let t = trim(v);
    let s = drop_trailing_dots(t.map_values(|c: char| ntfs_char(c)));
    if t.len() == 0 || s.len() == 0 {
        None
    } else if is_reserved_name(s) {
        Some(s.push('_'))
    } else {
        Some(s)
    }
}

/// The error reported for a refused component: a blank one is a missing
/// field, one emptied by sanitization an invalid component.
pub open spec fn ntfs_rejection(v: Seq<char>, e: LocalrefError) -> bool {
    if trim(v).len() == 0 {
        e matches LocalrefError::MissingField(m) && m@ == "path component"@
    } else {
        e matches LocalrefError::InvalidPathComponent { component, reason } && component@ == v
            && reason@ == "component becomes empty after NTFS sanitization"@
    }
}

/// Whether a name is a reserved DOS device name (ignoring extension and
/// ASCII case).
pub fn is_reserved_windows_name(value: &str) -> (r: bool)
    ensures
        r == is_reserved_name(value@),
{
    let v = chars_of(value);
    let mut i: usize = 0;
    while i < v.len() && v[i] != '.'
        invariant
            i <= v.len(),
            dot_from(v@, 0) == dot_from(v@, i as int),
        decreases v.len() - i,
    {
        i = i + 1;
    }
    let ghost stem = v@.take(i as int);
    assert(stem == name_stem(value@));
    let mut u: Vec<char> = Vec::new();
    let mut k: usize = 0;
    while k < i
        invariant
            k <= i <= v.len(),
            u@ == crate::text::upper(v@.take(k as int)),
        decreases i - k,
    {
        u.push(crate::text::to_upper_char(v[k]));
        proof {
            assert(crate::text::upper(v@.take(k + 1)) =~= crate::text::upper(v@.take(k as int)).push(
                crate::text::upper_char(v@[k as int]),
            ));
        }
        k = k + 1;
    }
    let r = if u.len() == 3 {
        (u[0] == 'C' && u[1] == 'O' && u[2] == 'N') || (u[0] == 'P' && u[1] == 'R' && u[2] == 'N')
            || (u[0] == 'A' && u[1] == 'U' && u[2] == 'X') || (u[0] == 'N' && u[1] == 'U' && u[2]
            == 'L')
    } else if u.len() == 4 {
        ((u[0] == 'C' && u[1] == 'O' && u[2] == 'M') || (u[0] == 'L' && u[1] == 'P' && u[2]
            == 'T')) && '1' <= u[3] && u[3] <= '9'
    } else {
        false
    };
    r
}

/// Sanitize one filename/path component according to NTFS constraints.
pub fn sanitize_ntfs_component(value: &str) -> (r: Result<String, LocalrefError>)
    ensures
        match r {
            Ok(s) => ntfs_component(value@) == Some(s@),
            Err(e) => ntfs_component(value@) is None && ntfs_rejection(value@, e),
        },
{
    let v = chars_of(value);
    let t = trim_chars(&v);
    if t.len() == 0 {
        return Err(LocalrefError::MissingField(owned("path component")));
    }
    let mut s: Vec<char> = Vec::new();
    let mut i: usize = 0;
    while i < t.len()
        invariant
            i <= t.len(),
            s@ == t@.take(i as int).map_values(|c: char| ntfs_char(c)),
        decreases t.len() - i,
    {
        let c = t[i];
        let ch = if c == '<' || c == '>' || c == ':' || c == '"' || c == '/' || c == '\\' || c
            == '|' || c == '?' || c == '*' || c <= '\u{1f}' {
            '_'
        } else {
            c
        };
        s.push(ch);
        proof {
            assert(t@.take(i + 1).map_values(|c: char| ntfs_char(c)) =~= t@.take(
                i as int,
            ).map_values(|c: char| ntfs_char(c)).push(ntfs_char(t@[i as int])));
        }
        i = i + 1;
    }
    proof {
        assert(t@.take(t@.len() as int) == t@);
    }
    let ghost mapped = s@;
    while s.len() > 0 && (s[s.len() - 1] == ' ' || s[s.len() - 1] == '.')
        invariant
            drop_trailing_dots(s@) == drop_trailing_dots(mapped),
        decreases s.len(),
    {
        let _ = s.pop();
    }
    proof {
        assert(s@ == drop_trailing_dots(s@));
    }
    if s.len() == 0 {
        return Err(
            LocalrefError::InvalidPathComponent {
                component: owned(value),
                reason: owned("component becomes empty after NTFS sanitization"),
            },
        );
    }
    let mut out = string_of(&s);
    if is_reserved_windows_name(out.as_str()) {
        crate::text::push_char(&mut out, '_');
    }
    Ok(out)
}

/// Filesystem layout helper rooted at one Localref library.
#[derive(Clone, Debug)]
pub struct LibraryFs {
    root: String,
}

impl View for LibraryFs {
    type V = Seq<char>;

    closed spec fn view(&self) -> Seq<char> {
        self.root@
    }
}

/// The directory of a category under `base`, component by component, or
/// `None` when a component is refused.
pub open spec fn category_dir_of(base: Seq<char>, comps: Seq<Seq<char>>) -> Option<Seq<char>>
    decreases comps.len(),
{
    if comps.len() == 0 {
        Some(base)
    } else {
        match ntfs_component(comps[0]) {
            Some(c) => category_dir_of(join_path(base, c), comps.drop_first()),
            None => None,
        }
    }
}

/// Index of the first refused component (the length when none is).
pub open spec fn first_refused(comps: Seq<Seq<char>>) -> int
    decreases comps.len(),
{
    if comps.len() == 0 {
        0
    } else if ntfs_component(comps[0]) is None {
        0
    } else {
        1 + first_refused(comps.drop_first())
    }
}

proof fn lemma_category_dir_none(base: Seq<char>, comps: Seq<Seq<char>>)
    ensures
        0 <= first_refused(comps) <= comps.len(),
        category_dir_of(base, comps) is None <==> first_refused(comps) < comps.len(),
        first_refused(comps) < comps.len() ==> ntfs_component(comps[first_refused(comps)]) is None,
    decreases comps.len(),
{
    if comps.len() > 0 {
        if let Some(c) = ntfs_component(comps[0]) {
            lemma_category_dir_none(join_path(base, c), comps.drop_first());
        }
    }
}

proof fn lemma_category_dir_step(base: Seq<char>, comps: Seq<Seq<char>>, i: int, acc: Seq<char>)
    requires
        0 <= i < comps.len(),
        category_dir_of(base, comps) == category_dir_of(acc, comps.skip(i)),
    ensures
        ntfs_component(comps[i]) matches Some(c) ==> category_dir_of(base, comps)
            == category_dir_of(join_path(acc, c), comps.skip(i + 1)),
        first_refused(comps.skip(i)) == 0 <==> ntfs_component(comps[i]) is None,
        ntfs_component(comps[i]) is Some ==> first_refused(comps.skip(i)) == 1 + first_refused(
            comps.skip(i + 1),
        ),
{
    assert(comps.skip(i)[0] == comps[i]);
    assert(comps.skip(i).drop_first() =~= comps.skip(i + 1));
    lemma_category_dir_none(acc, comps.skip(i + 1));
}

impl LibraryFs {
    /// Create a filesystem helper for a library root.
    pub fn new(root: &str) -> (r: LibraryFs)
        ensures
            r@ == root@,
    {
        LibraryFs { root: owned(root) }
    }

    /// Return the library root.
    pub fn root(&self) -> (r: &str)
        ensures
            r@ == self@,
    {
        self.root.as_str()
    }

    /// Return the `All/` directory path.
    pub fn all_dir(&self) -> (r: String)
        ensures
            r@ == join_path(self@, "All"@),
    {
        join(self.root.as_str(), "All")
    }

    /// Return the `Cat/` directory path.
    pub fn cat_dir(&self) -> (r: String)
        ensures
            r@ == join_path(self@, "Cat"@),
    {
        join(self.root.as_str(), "Cat")
    }

    /// Return the `.localref/` directory path.
    pub fn state_dir(&self) -> (r: String)
        ensures
            r@ == join_path(self@, ".localref"@),
    {
        join(self.root.as_str(), ".localref")
    }

    /// Return the filesystem path for a category: each component sanitized
    /// and joined under `Cat/`.  Fails with the first refused component's
    /// error.
    pub fn category_dir(&self, category: &CategoryPath) -> (r: Result<String, LocalrefError>)
        ensures
            ({
                let comps = split(category@, seq!['/']);
                let base = join_path(self@, "Cat"@);
                match r {
                    Ok(p) => category_dir_of(base, comps) == Some(p@),
                    Err(e) => category_dir_of(base, comps) is None && ntfs_rejection(
                        comps[first_refused(comps)],
                        e,
                    ),
                }
            }),
    {
        let comps = category.components();
        let ghost cs = split(category@, seq!['/']);
        let mut path = self.cat_dir();
        let mut i: usize = 0;
        proof {
            assert(comps@.len() == cs.len());
            assert(cs.skip(0) =~= cs);
            lemma_category_dir_none(path@, cs);
        }
        while i < comps.len()
            invariant
                i <= comps@.len() == cs.len(),
                cs == split(category@, seq!['/']),
                forall|k: int| 0 <= k < cs.len() ==> #[trigger] cs[k] == comps@[k]@,
                category_dir_of(join_path(self@, "Cat"@), cs) == category_dir_of(
                    path@,
                    cs.skip(i as int),
                ),
                first_refused(cs) == i + first_refused(cs.skip(i as int)),
            decreases comps.len() - i,
        {
            proof {
                assert(cs[i as int] == comps@[i as int]@);
                lemma_category_dir_step(join_path(self@, "Cat"@), cs, i as int, path@);
                assert(cs.skip(i as int).drop_first() =~= cs.skip(i + 1));
            }
            match sanitize_ntfs_component(comps[i].as_str()) {
                Ok(c) => {
                    path = join(path.as_str(), c.as_str());
                },
                Err(e) => {
                    proof {
                        lemma_category_dir_none(path@, cs.skip(i as int));
                        lemma_category_dir_none(join_path(self@, "Cat"@), cs);
                        assert(first_refused(cs.skip(i as int)) == 0);
                        assert(first_refused(cs) == i);
                        assert(ntfs_rejection(cs[i as int], e));
                    }
                    return Err(e);
                },
            }
            i = i + 1;
        }
        proof {
            assert(cs.skip(i as int) =~= Seq::<Seq<char>>::empty());
        }
        Ok(path)
    }
}

/// Name of the temporary sibling used for an atomic write of `filename`.
pub fn temporary_name(filename: &str) -> (r: String)
    ensures
        r@ == seq!['.'] + filename@ + ".localref-tmp"@,
{
    let mut out = String::new();
    crate::text::push_char(&mut out, '.');
    crate::text::push_str(&mut out, filename);
    crate::text::push_str(&mut out, ".localref-tmp");
    proof {
        assert(out@ =~= seq!['.'] + filename@ + ".localref-tmp"@);
    }
    out
}


/// The position of the last `/` of `s`, `-1` when it has none.
pub open spec fn last_slash(s: Seq<char>) -> int
    decreases s.len(),
{
    if s.len() == 0 {
        -1
    } else if s.last() == '/' {
        s.len() - 1
    } else {
        last_slash(s.drop_last())
    }
}

proof fn lemma_last_slash(s: Seq<char>)
    ensures
        -1 <= last_slash(s) < s.len(),
        last_slash(s) >= 0 ==> s[last_slash(s)] == '/',
        forall|k: int| last_slash(s) < k < s.len() ==> s[k] != '/',
    decreases s.len(),
{
    if s.len() > 0 && s.last() != '/' {
        lemma_last_slash(s.drop_last());
        assert forall|k: int| last_slash(s) < k < s.len() implies s[k] != '/' by {
            if k < s.len() - 1 {
                assert(s.drop_last()[k] == s[k]);
            }
        }
    }
}

/// The category a real directory under `Cat/` sits in: the path between
/// `Cat/` and the directory's own name.
pub open spec fn category_of_cat_dir(cat_root: Seq<char>, dir: Seq<char>) -> Option<Seq<char>> {
    let prefix = cat_root + seq!['/'];
    if prefix.len() <= dir.len() && dir.subrange(0, prefix.len() as int) == prefix {
        let rel = dir.subrange(prefix.len() as int, dir.len() as int);
        let k = last_slash(rel);
        if k >= 0 && crate::types::category_ok(crate::types::category_norm(rel.subrange(0, k))) {
            Some(crate::types::category_norm(rel.subrange(0, k)))
        } else {
            None
        }
    } else {
        None
    }
}

impl LibraryFs {
    /// The category that a real directory `cat_dir` under `Cat/` sits in
    /// (`Cat/<category>/<name>`).  Fails when the directory is not below a
    /// category of this library.
    pub fn category_for_real_directory(&self, cat_dir: &str) -> (r: Result<CategoryPath, LocalrefError>)
        ensures
            match category_of_cat_dir(join_path(self@, "Cat"@), cat_dir@) {
                Some(c) => r matches Ok(p) && p@ == c,
                None => r matches Err(e) && e matches LocalrefError::InvalidPathComponent {
                    component,
                    reason,
                } && component@ == cat_dir@ && reason@ == "directory is not inside a Cat category"@,
            },
    {
        let base = chars_of(self.cat_dir().as_str());
        let mut prefix = base;
        prefix.push('/');
        assert(prefix@ == join_path(self@, "Cat"@) + seq!['/']);
        let dir = chars_of(cat_dir);
        let refused = LocalrefError::InvalidPathComponent {
            component: owned(cat_dir),
            reason: owned("directory is not inside a Cat category"),
        };
        if !crate::text::starts_with_chars(&dir, &prefix) {
            return Err(refused);
        }
        let rel = crate::text::slice_range(&dir, prefix.len(), dir.len());
        assert(rel@ == cat_dir@.subrange(prefix@.len() as int, cat_dir@.len() as int));
        let mut k: usize = rel.len();
        while k > 0 && rel[k - 1] != '/'
            invariant
                k <= rel@.len(),
                forall|j: int| k <= j < rel@.len() ==> rel@[j] != '/',
            decreases k,
        {
            k = k - 1;
        }
        proof {
            lemma_last_slash(rel@);
            if k > 0 {
                assert(last_slash(rel@) == k - 1) by {
                    if last_slash(rel@) > k - 1 {
                        assert(rel@[last_slash(rel@)] == '/');
                    }
                    if last_slash(rel@) < k - 1 {
                        assert(rel@[k - 1] == '/');
                    }
                }
            } else {
                assert(last_slash(rel@) < 0) by {
                    if last_slash(rel@) >= 0 {
                        assert(rel@[last_slash(rel@)] == '/');
                    }
                }
            }
        }
        if k == 0 {
            return Err(refused);
        }
        let parent = string_of(&crate::text::slice_range(&rel, 0, k - 1));
        match CategoryPath::new(parent.as_str()) {
            Some(category) => Ok(category),
            None => Err(refused),
        }
    }
}


// ---------------------------------------------------------------------------
// Directory junctions
// ---------------------------------------------------------------------------

/// Reparse tag of a mount point (directory junction), `IO_REPARSE_TAG_MOUNT_POINT`.
pub const IO_REPARSE_TAG_MOUNT_POINT: u32 = 0xA000_0003;

/// A 16-bit value as two little-endian bytes.
pub open spec fn le16(v: int) -> Seq<u8> {
    seq![(v % 256) as u8, (v / 256) as u8]
}

/// UTF-16 code units as little-endian bytes, in order.
pub open spec fn units_le(units: Seq<u16>) -> Seq<u8>
    decreases units.len(),
{
    if units.len() == 0 {
        Seq::empty()
    } else {
        units_le(units.drop_last()) + le16(units.last() as int)
    }
}

/// Whether the names fit the 16-bit length fields of a mount-point buffer:
/// the reparse data (four 16-bit fields, both names and a 16-bit NUL after
/// each) must stay within `u16::MAX` bytes.
pub open spec fn mount_point_fits(sub_len: nat, print_len: nat) -> bool {
    2 * sub_len + 2 + 2 * print_len + 2 + 8 <= 0xffff
}

/// The `REPARSE_DATA_BUFFER` of a mount point: the tag (little-endian),
/// the reparse data length, a reserved zero, the substitute name's offset
/// (0) and byte length, the print name's offset (just past the substitute
/// name and its NUL) and byte length, then the path buffer: substitute
/// name, NUL, print name, NUL.
pub open spec fn mount_point_bytes(sub: Seq<u16>, print: Seq<u16>) -> Seq<u8> {
    let sub_bytes: int = 2 * (sub.len() as int);
    let print_bytes: int = 2 * (print.len() as int);
    let path_bytes: int = sub_bytes + 2 + print_bytes + 2;
    seq![0x03u8, 0x00u8, 0x00u8, 0xA0u8] + le16(path_bytes + 8) + le16(0) + le16(0) + le16(sub_bytes)
        + le16(sub_bytes + 2) + le16(print_bytes) + units_le(sub) + le16(0) + units_le(print) + le16(
        0,
    )
}

fn push_le16(out: &mut Vec<u8>, v: u16)
    ensures
        final(out)@ == old(out)@ + le16(v as int),
{
    out.push((v % 256) as u8);
    out.push((v / 256) as u8);
    assert(final(out)@ =~= old(out)@ + le16(v as int));
}

fn push_units(out: &mut Vec<u8>, units: &[u16])
    ensures
        final(out)@ == old(out)@ + units_le(units@),
{
    let ghost start = out@;
    let mut i: usize = 0;
    while i < units.len()
        invariant
            i <= units@.len(),
            out@ == start + units_le(units@.take(i as int)),
        decreases units.len() - i,
    {
        push_le16(out, units[i]);
        proof {
            assert(units@.take(i + 1).drop_last() =~= units@.take(i as int));
            assert(units@.take(i + 1).last() == units@[i as int]);
            assert(out@ =~= start + units_le(units@.take(i + 1)));
        }
        i = i + 1;
    }
    assert(units@.take(units@.len() as int) =~= units@);
}

/// The reparse buffer that makes a directory a junction to the target whose
/// NT path is `substitute_name` (shown as `print_name`), both UTF-16 without
/// a terminator.  Fails when a 16-bit length field of the buffer would
/// overflow.
pub fn mount_point_buffer(substitute_name: &[u16], print_name: &[u16]) -> (r: Result<
    Vec<u8>,
    LocalrefError,
>)
    ensures
        r is Ok <==> mount_point_fits(substitute_name@.len(), print_name@.len()),
        r matches Err(e) ==> e matches LocalrefError::Platform(m) && m@ == "junction target path too long"@,
        r matches Ok(b) ==> b@ == mount_point_bytes(substitute_name@, print_name@) && b@.len() == 16 + 2
            * substitute_name@.len() + 2 + 2 * print_name@.len() + 2 && b@.subrange(0, 4) == le16(
            (IO_REPARSE_TAG_MOUNT_POINT as int) % 0x10000,
        ) + le16((IO_REPARSE_TAG_MOUNT_POINT as int) / 0x10000),
{
    if substitute_name.len() > 0x7fff || print_name.len() > 0x7fff
        || 2 * substitute_name.len() + 2 * print_name.len() + 12 > 0xffff {
        return Err(LocalrefError::Platform(owned("junction target path too long")));
    }
    let sub_bytes = (2 * substitute_name.len()) as u16;
    let print_bytes = (2 * print_name.len()) as u16;
    let path_bytes: u16 = sub_bytes + 2 + print_bytes + 2;
    let mut out: Vec<u8> = Vec::new();
    out.push(0x03u8);
    out.push(0x00u8);
    out.push(0x00u8);
    out.push(0xA0u8);
    push_le16(&mut out, path_bytes + 8);
    push_le16(&mut out, 0);
    push_le16(&mut out, 0);
    push_le16(&mut out, sub_bytes);
    push_le16(&mut out, sub_bytes + 2);
    push_le16(&mut out, print_bytes);
    push_units(&mut out, substitute_name);
    push_le16(&mut out, 0);
    push_units(&mut out, print_name);
    push_le16(&mut out, 0);
    proof {
        lemma_units_le_len(substitute_name@);
        lemma_units_le_len(print_name@);
        assert(out@ =~= mount_point_bytes(substitute_name@, print_name@));
        assert(out@.subrange(0, 4) =~= le16((IO_REPARSE_TAG_MOUNT_POINT as int) % 0x10000) + le16(
            (IO_REPARSE_TAG_MOUNT_POINT as int) / 0x10000,
        ));
    }
    Ok(out)
}

proof fn lemma_units_le_len(units: Seq<u16>)
    ensures
        units_le(units).len() == 2 * units.len(),
    decreases units.len(),
{
    if units.len() > 0 {
        lemma_units_le_len(units.drop_last());
    }
}


/// UTF-16 of the Win32 long-path prefix `\\?\`.
pub open spec fn win32_prefix() -> Seq<u16> {
    seq![0x5Cu16, 0x5Cu16, 0x3Fu16, 0x5Cu16]
}

/// UTF-16 of the NT object-namespace prefix `\??\`.
pub open spec fn nt_prefix() -> Seq<u16> {
    seq![0x5Cu16, 0x3Fu16, 0x3Fu16, 0x5Cu16]
}

/// The NT form of a junction target: `\??\` before the path, an existing
/// `\\?\` long-path prefix folded into it.
pub open spec fn nt_name(print_name: Seq<u16>) -> Seq<u16> {
    if print_name.len() >= 4 && print_name.take(4) == win32_prefix() {
        nt_prefix() + print_name.skip(4)
    } else {
        nt_prefix() + print_name
    }
}

/// The substitute name a junction stores for the target `print_name`.
pub fn nt_substitute_name(print_name: &[u16]) -> (r: Vec<u16>)
    ensures
        r@ == nt_name(print_name@),
{
    let mut out: Vec<u16> = vec![0x5C, 0x3F, 0x3F, 0x5C];
    let long = print_name.len() >= 4 && print_name[0] == 0x5C && print_name[1] == 0x5C
        && print_name[2] == 0x3F && print_name[3] == 0x5C;
    let start: usize = if long { 4 } else { 0 };
    proof {
        if long {
            assert(print_name@.take(4) =~= win32_prefix());
        } else if print_name@.len() >= 4 {
            assert(print_name@.take(4)[0] == print_name@[0]);
            assert(print_name@.take(4)[1] == print_name@[1]);
            assert(print_name@.take(4)[2] == print_name@[2]);
            assert(print_name@.take(4)[3] == print_name@[3]);
            assert(print_name@.take(4) != win32_prefix());
        }
    }
    let ghost base = out@;
    assert(base =~= nt_prefix());
    let mut i: usize = start;
    while i < print_name.len()
        invariant
            start <= i <= print_name@.len(),
            out@ == base + print_name@.subrange(start as int, i as int),
        decreases print_name.len() - i,
    {
        out.push(print_name[i]);
        proof {
            assert(print_name@.subrange(start as int, i + 1) =~= print_name@.subrange(start as int, i as int).push(
                print_name@[i as int],
            ));
        }
        i = i + 1;
    }
    proof {
        assert(print_name@.subrange(start as int, print_name@.len() as int) =~= print_name@.skip(start as int));
        assert(print_name@.skip(0) =~= print_name@);
    }
    out
}

/// Dropping trailing spaces and dots keeps a prefix that does not end in
/// either.
proof fn lemma_drop_trailing_dots_prefix(s: Seq<char>)
    ensures
        drop_trailing_dots(s).len() <= s.len(),
        drop_trailing_dots(s) == s.take(drop_trailing_dots(s).len() as int),
        drop_trailing_dots(s).len() > 0 ==> drop_trailing_dots(s).last() != ' '
            && drop_trailing_dots(s).last() != '.',
    decreases s.len(),
{
    if s.len() > 0 && (s.last() == ' ' || s.last() == '.') {
        lemma_drop_trailing_dots_prefix(s.drop_last());
        let d = drop_trailing_dots(s.drop_last());
        assert(s.drop_last().take(d.len() as int) =~= s.take(d.len() as int));
    } else {
        assert(s.take(s.len() as int) =~= s);
    }
}

/// A sanitized component is never empty, holds none of the characters NTFS
/// refuses (`< > : " / \ | ? *` and `U+0000..=U+001F`), and does not end in
/// a space or a dot.  Position by position it keeps the trimmed input's
/// character, except that a refused character becomes `_`; only its last
/// character may instead be the `_` that escapes a device name.
pub proof fn law_sanitized_component_is_ntfs_safe(v: Seq<char>, s: Seq<char>)
    requires
        ntfs_component(v) == Some(s),
    ensures
        s.len() > 0,
        s.last() != ' ' && s.last() != '.',
        forall|i: int|
            0 <= i < s.len() ==> {
                let c = #[trigger] s[i];
                &&& c != '<' && c != '>' && c != ':' && c != '"' && c != '/'
                &&& c != '\\' && c != '|' && c != '?' && c != '*'
                &&& !(c <= '\u{1f}')
            },
        forall|i: int|
            0 <= i < s.len() - 1 ==> i < trim(v).len() && #[trigger] s[i] == if {
                let c = trim(v)[i];
                ||| c == '<' || c == '>' || c == ':' || c == '"' || c == '/'
                ||| c == '\\' || c == '|' || c == '?' || c == '*'
                ||| c <= '\u{1f}'
            } {
                '_'
            } else {
                trim(v)[i]
            },
        s.last() == '_' || (s.len() <= trim(v).len() && s.last() == trim(v)[s.len() - 1]),
{
    let t = trim(v);
    let mapped = t.map_values(|c: char| ntfs_char(c));
    let d = drop_trailing_dots(mapped);
    lemma_drop_trailing_dots_prefix(mapped);
    assert forall|i: int| 0 <= i < d.len() implies d[i] == ntfs_char(t[i]) by {
        assert(d[i] == mapped.take(d.len() as int)[i]);
    }
    if is_reserved_name(d) {
        assert(s == d.push('_'));
        assert forall|i: int| 0 <= i < d.len() implies s[i] == d[i] by {}
    } else {
        assert(s == d);
    }
}

} // verus!
