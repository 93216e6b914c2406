//! Checking relative paths that tools may touch. Two readings of a path are
//! combined: `/` separates components on every platform the program runs on,
//! and std's `Path::components` gives the reading of the platform it runs on
//! (on Windows, `\` separates components too and a path may start with a
//! drive or network prefix).
use vstd::prelude::*;
use crate::text::{chars_of, owned};

verus! {

/// Whether a path is absolute: it starts at the root `/`.
pub open spec fn is_absolute_path(p: Seq<char>) -> bool {
    p.len() > 0 && p[0] == '/'
}

/// Whether `p.subrange(i, j)` is a whole component of `p` (delimited by `/`
/// or the ends).
pub open spec fn is_component(p: Seq<char>, i: int, j: int) -> bool {
    &&& 0 <= i <= j <= p.len()
    &&& (i == 0 || p[i - 1] == '/')
    &&& (j == p.len() || p[j] == '/')
    &&& forall|k: int| i <= k < j ==> p[k] != '/'
}

/// Whether the component of `p` that starts at `i` is `..`.
pub open spec fn is_parent_at(p: Seq<char>, i: int) -> bool {
    is_component(p, i, i + 2) && p[i] == '.' && p[i + 1] == '.'
}

/// Whether some component of `p` is `..`.
pub open spec fn has_parent_component(p: Seq<char>) -> bool {
    exists|i: int| #[trigger] is_parent_at(p, i)
}

/// One component of a path as std's `Path::components` reports it. A
/// prefix (a Windows drive such as `C:` or a network share) and the root
/// make a path start outside any base directory.
#[derive(Debug, Clone, Copy, PartialEq, Eq)]
pub enum PathPart {
    Prefix,
    RootDir,
    CurDir,
    ParentDir,
    Normal,
}

/// The components of `path` as std's `Path::components` reads it on the
/// platform the program runs on. That reading differs between platforms
/// (`\` separates components only on Windows; drive prefixes exist only
/// there), so nothing is stated of the result.
#[verifier::external_body]
fn path_components(path: &str) -> Vec<PathPart> {
    std::path::Path::new(path)
        .components()
        .map(|c| match c {
            std::path::Component::Prefix(_) => PathPart::Prefix,
            std::path::Component::RootDir => PathPart::RootDir,
            std::path::Component::CurDir => PathPart::CurDir,
            std::path::Component::ParentDir => PathPart::ParentDir,
            std::path::Component::Normal(_) => PathPart::Normal,
        })
        .collect()
}

/// Whether the components `parts` start at a prefix or the root.
pub open spec fn parts_rooted(parts: Seq<PathPart>) -> bool {
    exists|i: int| 0 <= i < parts.len() && (#[trigger] parts[i] == PathPart::Prefix || parts[i] == PathPart::RootDir)
}

/// Whether one of the components `parts` is `..`.
pub open spec fn parts_climb(parts: Seq<PathPart>) -> bool {
    exists|i: int| 0 <= i < parts.len() && #[trigger] parts[i] == PathPart::ParentDir
}

/// Whether `p` passes the check on `/` alone: it does not start at `/` and
/// no `/`-separated component is `..`.
pub open spec fn portable_safe(p: Seq<char>) -> bool {
    !is_absolute_path(p) && !has_parent_component(p)
}

/// The check a tool path `p` must pass, where `parts` are its components as
/// the platform reads them: it is refused as absolute when it starts at `/`
/// or the platform finds a prefix or root, and as a traversal when a
/// component is `..` by either reading.
pub open spec fn safe_path_check(p: Seq<char>, parts: Seq<PathPart>) -> Result<(), Seq<char>> {
    if is_absolute_path(p) || parts_rooted(parts) {
        Err("absolute paths are not allowed"@)
    } else if has_parent_component(p) || parts_climb(parts) {
        Err("path traversal is not allowed"@)
    } else {
        Ok(())
    }
}

/// A check's result by its message.
pub open spec fn check_view(r: Result<(), String>) -> Result<(), Seq<char>> {
    match r {
        Ok(_) => Ok(()),
        Err(e) => Err(e@),
    }
}

/// A text result by its characters.
pub open spec fn text_result_view(r: Result<String, String>) -> Result<Seq<char>, Seq<char>> {
    match r {
        Ok(s) => Ok(s@),
        Err(e) => Err(e@),
    }
}

/// Whether some component of the characters `v` is `..`.
pub fn has_parent_dir(v: &[char]) -> (r: bool)
    ensures
        r == has_parent_component(v@),
{
    let n = v.len();
    let mut start: usize = 0;
    let mut k: usize = 0;
    while k < n
        invariant
            n == v@.len(),
            start <= k <= n,
            start == 0 || v@[start - 1] == '/',
            forall|j: int| start <= j < k ==> v@[j] != '/',
            forall|i: int| 0 <= i < start ==> !#[trigger] is_parent_at(v@, i),
        decreases n - k,
    {
        if v[k] == '/' {
            if k - start == 2 && v[start] == '.' && v[start + 1] == '.' {
                assert(is_parent_at(v@, start as int));
                return true;
            }
            assert forall|i: int| 0 <= i < k + 1 implies !is_parent_at(v@, i) by {
                if start <= i <= k && is_component(v@, i, i + 2) {
                    if i > start {
                        assert(v@[i - 1] != '/');
                    }
                    assert(i == start);
                }
            }
            start = k + 1;
        }
        k = k + 1;
    }
    if n - start == 2 && v[start] == '.' && v[start + 1] == '.' {
        assert(is_parent_at(v@, start as int));
        return true;
    }
    assert forall|i: int| !is_parent_at(v@, i) by {
        if start <= i && is_component(v@, i, i + 2) {
            if i > start {
                assert(v@[i - 1] != '/');
            }
            assert(i == start);
        }
    }
    false
}

/// The check of `path` (see `safe_path_check`) against the components
/// `parts` that the platform reported for it.
pub fn check_path_parts(path: &str, parts: &[PathPart]) -> (r: Result<(), String>)
    ensures
        check_view(r) == safe_path_check(path@, parts@),
{
    let v = chars_of(path);
    let mut rooted = v.len() > 0 && v[0] == '/';
    let mut climbs = false;
    let mut i: usize = 0;
    while i < parts.len()
        invariant
            i <= parts@.len(),
            rooted == (is_absolute_path(path@) || exists|k: int|
                0 <= k < i && (#[trigger] parts@[k] == PathPart::Prefix || parts@[k] == PathPart::RootDir)),
            climbs == exists|k: int| 0 <= k < i && #[trigger] parts@[k] == PathPart::ParentDir,
            v@ == path@,
        decreases parts@.len() - i,
    {
        match parts[i] {
            PathPart::Prefix | PathPart::RootDir => rooted = true,
            PathPart::ParentDir => climbs = true,
            _ => {},
        }
        i = i + 1;
    }
    if rooted {
        return Err(owned("absolute paths are not allowed"));
    }
    if climbs || has_parent_dir(v.as_slice()) {
        return Err(owned("path traversal is not allowed"));
    }
    Ok(())
}

/// Rejects an absolute path or one with a `..` component, as the platform
/// the program runs on reads `path` and as `/` alone splits it. Whatever the
/// platform, a path starting at `/` is refused as absolute, one with a
/// `/`-separated `..` component is refused, and an accepted path passes both
/// readings.
pub fn validate_safe_path(path: &str) -> (r: Result<(), String>)
    ensures
        exists|parts: Seq<PathPart>| #[trigger] safe_path_check(path@, parts) == check_view(r),
        r is Ok ==> portable_safe(path@),
        is_absolute_path(path@) ==> (r matches Err(e) && e@ == "absolute paths are not allowed"@),
        has_parent_component(path@) ==> r is Err,
{
    let parts = path_components(path);
    let r = check_path_parts(path, parts.as_slice());
    assert(safe_path_check(path@, parts@) == check_view(r));
    r
}

} // verus!
