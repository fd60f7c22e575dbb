//! Filename sanitization for the upload handler.
//!
//! A client-supplied filename is joined onto the upload directory to form
//! the destination path of the uploaded file. The join is safe only if the
//! filename cannot name anything outside that directory, so the handler
//! rejects any name that could: one holding a path separator, a NUL, or a
//! current- or parent-directory segment.

use vstd::prelude::*;
use vstd::string::StrSliceExecFns;
use vstd::string::StringExecFns;

verus! {

/// A character that must not occur in a filename: either path separator,
/// or NUL.
pub open spec fn is_forbidden_char(c: char) -> bool {
    c == '/' || c == '\\' || c == '\u{0}'
}

/// A filename may be joined onto the upload directory only if it is
/// non-empty, holds no forbidden character, and is neither `.` nor `..`.
/// Such a name always names an entry directly inside the directory.
pub open spec fn is_safe_filename(s: Seq<char>) -> bool {
    &&& s.len() > 0
    &&& forall|i: int| 0 <= i < s.len() ==> !is_forbidden_char(s[i])
    &&& !(s.len() == 1 && s[0] == '.')
    &&& !(s.len() == 2 && s[0] == '.' && s[1] == '.')
}

/// Decides whether a client-supplied filename is safe to join onto the
/// upload directory.
pub fn sanitize_filename(name: &str) -> (ok: bool)
    ensures
        ok == is_safe_filename(name@),
{
    let n = name.unicode_len();
    if n == 0 {
        return false;
    }
    if n == 1 && name.get_char(0) == '.' {
        return false;
    }
    if n == 2 && name.get_char(0) == '.' && name.get_char(1) == '.' {
        return false;
    }
    let mut i: usize = 0;
    while i < n
        invariant
            i <= n,
            n == name@.len(),
            forall|j: int| 0 <= j < i ==> !is_forbidden_char(name@[j]),
        decreases n - i,
    {
        let c = name.get_char(i);
        if c == '/' || c == '\\' || c == '\u{0}' {
            return false;
        }
        i = i + 1;
    }
    true
}

/// The destination path of an upload: the upload directory, a separator,
/// and the filename.
pub open spec fn joined_path(dir: Seq<char>, name: Seq<char>) -> Seq<char> {
    dir + seq!['/'] + name
}

/// Joins the upload directory and a sanitized filename into the
/// destination path.
pub fn destination_path(dir: &str, name: &str) -> (p: String)
    ensures
        p@ == joined_path(dir@, name@),
{
    proof {
        reveal_strlit("/");
    }
    let mut p = dir.to_owned();
    p.append("/");
    p.append(name);
    proof {
        assert(p@ =~= joined_path(dir@, name@));
    }
    p
}

/// A safe filename joined onto the upload directory never escapes it: the
/// path is the directory, one separator, and one final segment that holds
/// no separator and is not `.` or `..`, so it names an entry directly
/// inside the directory.
pub proof fn lemma_safe_path_within_dir(dir: Seq<char>, name: Seq<char>)
    requires
        is_safe_filename(name),
    ensures
        joined_path(dir, name).len() == dir.len() + 1 + name.len(),
        joined_path(dir, name).subrange(0, dir.len() as int) == dir,
        joined_path(dir, name)[dir.len() as int] == '/',
        joined_path(dir, name).subrange(
            dir.len() + 1 as int,
            joined_path(dir, name).len() as int,
        ) == name,
        forall|i: int|
            dir.len() + 1 <= i < joined_path(dir, name).len() ==> joined_path(dir, name)[i] != '/',
{
    let p = joined_path(dir, name);
    assert(p.subrange(0, dir.len() as int) =~= dir);
    assert(p.subrange(dir.len() + 1 as int, p.len() as int) =~= name);
    assert forall|i: int| dir.len() + 1 <= i < p.len() implies p[i] != '/' by {
        assert(p[i] == name[i - dir.len() - 1]);
        assert(!is_forbidden_char(name[i - dir.len() - 1]));
    }
}

} // verus!
