//! Path utilities: directory validation and destination-path construction.
//!
//! Paths are plain UTF-8 strings throughout, and their meaning is given by
//! spec functions over character sequences.  `basename_of` names the final
//! filename component the way path normalization reads it: trailing
//! separators and trailing `.` components are ignored, so `"a/b/"` and
//! `"a/b/."` both carry the basename `"b"`; `join_of` is the result of
//! appending a filename to a directory path.

use crate::sys::{canonicalize_path, path_exists, path_is_dir};
use vstd::prelude::*;
use vstd::string::{StrSliceExecFns, StringExecFns};

verus! {

/// A rejected path, with the offending input.
#[derive(Debug)]
#[non_exhaustive]
pub enum DirError {
    /// The path names nothing on disk.
    PathNotExist(String),
    /// The path exists but is not a directory.
    PathNotDir(String),
    /// The path has no extractable filename.
    PathInvalid(String),
}

/// The path that a validation error carries.
pub open spec fn dir_error_path(e: DirError) -> Seq<char> {
    match e {
        DirError::PathNotExist(s) => s@,
        DirError::PathNotDir(s) => s@,
        DirError::PathInvalid(s) => s@,
    }
}

/// The text after the last `'/'` of `p`; all of `p` when it holds no
/// separator, and empty when `p` ends with one.
pub open spec fn suffix_after_slash(p: Seq<char>) -> Seq<char>
    decreases p.len(),
{
    if p.len() == 0 {
        p
    } else if p.last() == '/' {
        Seq::empty()
    } else {
        suffix_after_slash(p.drop_last()).push(p.last())
    }
}

/// Whether `p` ends in a lone `.` component — a trailing `"."` that path
/// normalization removes.
pub open spec fn ends_in_dot_component(p: Seq<char>) -> bool {
    p.len() > 0 && p.last() == '.' && (p.len() == 1 || p[p.len() - 2] == '/')
}

/// The base filename component of `p`, as path normalization reads it:
/// trailing separators and trailing `.` components are ignored, and the
/// component after the last remaining separator is the basename.  It is
/// empty when the path exhausts itself (`""`, `"/"`, `"."`, `"./"`), and
/// `".."` when the path terminates in a parent-directory component.
pub open spec fn basename_of(p: Seq<char>) -> Seq<char>
    decreases p.len(),
{
    if p.len() == 0 {
        p
    } else if p.last() == '/' || ends_in_dot_component(p) {
        basename_of(p.drop_last())
    } else {
        suffix_after_slash(p)
    }
}

/// Whether `p` carries a usable filename: its basename is neither empty nor
/// one of the relative components `.` and `..`.
pub open spec fn valid_basename(p: Seq<char>) -> bool {
    let b = basename_of(p);
    b.len() != 0 && b != seq!['.'] && b != seq!['.', '.']
}

/// `name` appended to the directory path `dir`, with a separator added
/// unless `dir` is empty or already ends with one.
pub open spec fn join_of(dir: Seq<char>, name: Seq<char>) -> Seq<char> {
    if dir.len() == 0 {
        name
    } else if dir.last() == '/' {
        dir + name
    } else {
        dir + seq!['/'] + name
    }
}

/// The text after the last separator never holds a separator.
pub proof fn lemma_suffix_no_slash(p: Seq<char>)
    ensures
        forall|k: int| 0 <= k < suffix_after_slash(p).len() ==> suffix_after_slash(p)[k] != '/',
    decreases p.len(),
{
    if p.len() == 0 {
    } else if p.last() == '/' {
    } else {
        lemma_suffix_no_slash(p.drop_last());
        assert forall|k: int|
            0 <= k < suffix_after_slash(p).len() implies suffix_after_slash(p)[k] != '/' by {
            if k < suffix_after_slash(p.drop_last()).len() {
                assert(suffix_after_slash(p)[k] == suffix_after_slash(p.drop_last())[k]);
            } else {
                assert(suffix_after_slash(p)[k] == p.last());
            }
        }
    }
}

/// The basename never holds a separator.
pub proof fn lemma_basename_no_slash(p: Seq<char>)
    ensures
        forall|k: int| 0 <= k < basename_of(p).len() ==> basename_of(p)[k] != '/',
    decreases p.len(),
{
    if p.len() == 0 {
    } else if p.last() == '/' || ends_in_dot_component(p) {
        lemma_basename_no_slash(p.drop_last());
        assert forall|k: int| 0 <= k < basename_of(p).len() implies basename_of(p)[k] != '/' by {
            assert(basename_of(p)[k] == basename_of(p.drop_last())[k]);
        }
    } else {
        lemma_suffix_no_slash(p);
    }
}

/// Appending separator-free text extends the text after the last separator
/// by exactly that much.
pub proof fn lemma_suffix_append(s: Seq<char>, b: Seq<char>)
    requires
        forall|k: int| 0 <= k < b.len() ==> b[k] != '/',
    ensures
        suffix_after_slash(s + b) == suffix_after_slash(s) + b,
    decreases b.len(),
{
    if b.len() == 0 {
        assert(s + b =~= s);
        assert(suffix_after_slash(s) + b =~= suffix_after_slash(s));
    } else {
        lemma_suffix_append(s, b.drop_last());
        assert((s + b).last() == b.last());
        assert((s + b).drop_last() =~= s + b.drop_last());
        assert(suffix_after_slash(s + b) =~= suffix_after_slash(s) + b);
    }
}

/// The basename of a join is the joined name itself, whenever the name is a
/// real filename: non-empty, separator-free, and not the lone `.` that
/// normalization would strip.
pub proof fn lemma_basename_of_join(d: Seq<char>, b: Seq<char>)
    requires
        b.len() > 0,
        forall|k: int| 0 <= k < b.len() ==> b[k] != '/',
        b != seq!['.'],
    ensures
        basename_of(join_of(d, b)) == b,
{
    let j = join_of(d, b);
    let s = if d.len() == 0 {
        Seq::<char>::empty()
    } else if d.last() == '/' {
        d
    } else {
        d + seq!['/']
    };
    assert(j =~= s + b);
    assert(j.len() == s.len() + b.len());
    assert(j.last() == b.last());
    assert(b.last() != '/');
    assert(!ends_in_dot_component(j)) by {
        if ends_in_dot_component(j) {
            assert(b.last() == '.');
            if b.len() == 1 {
                assert(b =~= seq!['.']);
            } else {
                assert(j[j.len() - 2] == b[b.len() - 2]);
                assert(b[b.len() - 2] != '/');
            }
        }
    }
    assert(basename_of(j) == suffix_after_slash(j));
    lemma_suffix_append(s, b);
    assert(suffix_after_slash(s) =~= Seq::<char>::empty());
    assert(Seq::<char>::empty() + b =~= b);
}

/// The base filename of `file`, or `None` when `file` has no usable one:
/// after trailing separators and `.` components are ignored, nothing is
/// left, or what is left terminates in `..`.
pub fn basename(file: &str) -> (r: Option<&str>)
    ensures
        r is Some <==> valid_basename(file@),
        r matches Some(b) ==> b@ == basename_of(file@),
{
    let n = file.unicode_len();
    proof {
        assert(file@.take(n as int) =~= file@);
    }
    // Ignore trailing separators and trailing `.` components, one
    // character at a time, exactly as `basename_of` does.
    let mut e = n;
    loop
        invariant
            e <= n,
            n == file@.len(),
            basename_of(file@) == basename_of(file@.take(e as int)),
        ensures
            1 <= e <= n,
            n == file@.len(),
            basename_of(file@) == basename_of(file@.take(e as int)),
            file@[e as int - 1] != '/',
            !ends_in_dot_component(file@.take(e as int)),
        decreases e,
    {
        if e == 0 {
            proof {
                assert(file@.take(0) =~= Seq::<char>::empty());
            }
            return None;
        }
        let c = file.get_char(e - 1);
        let strip_dot = c == '.' && (e == 1 || file.get_char(e - 2) == '/');
        proof {
            let q = file@.take(e as int);
            assert(q.last() == c);
            if e >= 2 {
                assert(q[q.len() - 2] == file@[e as int - 2]);
            }
            assert(strip_dot == ends_in_dot_component(q));
            assert(q.drop_last() =~= file@.take(e as int - 1));
        }
        if c == '/' || strip_dot {
            e = e - 1;
        } else {
            break;
        }
    }
    proof {
        let q = file@.take(e as int);
        assert(basename_of(q) == suffix_after_slash(q));
        assert(q.subrange(e as int, e as int) =~= Seq::<char>::empty());
        assert(suffix_after_slash(q) =~= suffix_after_slash(q) + file@.subrange(e as int, e as int));
        assert(file@.take(e as int).take(e as int) =~= file@.take(e as int));
    }
    // Find where the final component starts: just past the last separator.
    let mut i = e;
    loop
        invariant
            i <= e,
            1 <= e <= n,
            n == file@.len(),
            file@[e as int - 1] != '/',
            suffix_after_slash(file@.take(e as int)) == suffix_after_slash(file@.take(i as int))
                + file@.subrange(i as int, e as int),
        ensures
            i < e <= n,
            n == file@.len(),
            suffix_after_slash(file@.take(e as int)) == file@.subrange(i as int, e as int),
            i == 0 || file@[i as int - 1] == '/',
        decreases i,
    {
        if i == 0 {
            proof {
                assert(file@.take(0) =~= Seq::<char>::empty());
                assert(suffix_after_slash(Seq::<char>::empty()) + file@.subrange(0, e as int)
                    =~= file@.subrange(0, e as int));
            }
            break;
        }
        if file.get_char(i - 1) == '/' {
            proof {
                assert(i < e) by {
                    if i == e {
                        assert(file@[e as int - 1] == '/');
                    }
                }
                let t = file@.take(i as int);
                assert(t.last() == '/');
                assert(suffix_after_slash(t) =~= Seq::<char>::empty());
                assert(suffix_after_slash(t) + file@.subrange(i as int, e as int) =~= file@.subrange(
                    i as int,
                    e as int,
                ));
            }
            break;
        }
        proof {
            let t = file@.take(i as int);
            assert(t.last() == file@[i as int - 1]);
            assert(t.drop_last() =~= file@.take(i as int - 1));
            assert(suffix_after_slash(t) == suffix_after_slash(file@.take(i as int - 1)).push(
                file@[i as int - 1],
            ));
            assert(suffix_after_slash(file@.take(i as int - 1)).push(file@[i as int - 1])
                + file@.subrange(i as int, e as int) =~= suffix_after_slash(
                file@.take(i as int - 1),
            ) + file@.subrange(i as int - 1, e as int));
        }
        i = i - 1;
    }
    let b = file.substring_char(i, e);
    proof {
        assert(b@ == basename_of(file@));
        assert(b@.len() == e - i);
    }
    let blen = e - i;
    if blen == 2 {
        let c0 = b.get_char(0);
        let c1 = b.get_char(1);
        if c0 == '.' && c1 == '.' {
            proof {
                assert(basename_of(file@) =~= seq!['.', '.']);
            }
            return None;
        }
        proof {
            let bb = basename_of(file@);
            assert(bb != seq!['.', '.']) by {
                if bb == seq!['.', '.'] {
                    assert(c0 == bb[0] && c1 == bb[1]);
                }
            }
        }
        return Some(b);
    }
    proof {
        let bb = basename_of(file@);
        assert(bb.len() != 0 && bb.len() != 2);
        assert(bb != seq!['.']) by {
            if bb == seq!['.'] {
                let q = file@.take(e as int);
                assert(bb[0] == file@[i as int]);
                assert(q.last() == file@[e as int - 1]);
                assert(file@[e as int - 1] == '.');
                if i == 0 {
                    assert(e == 1);
                } else {
                    assert(file@[i as int - 1] == '/');
                    assert(q[q.len() - 2] == file@[e as int - 2]);
                }
                assert(ends_in_dot_component(q));
            }
        }
    }
    Some(b)
}

/// Joins `name` onto the directory path `dir`.
pub fn join_path(dir: &str, name: &str) -> (r: String)
    ensures
        r@ == join_of(dir@, name@),
{
    let n = dir.unicode_len();
    if n == 0 {
        return String::from_str(name);
    }
    let mut s = String::from_str(dir);
    if dir.get_char(n - 1) != '/' {
        s.append("/");
        proof {
            reveal_strlit("/");
            assert(s@ =~= dir@ + seq!['/']);
        }
    }
    s.append(name);
    proof {
        assert(s@ =~= join_of(dir@, name@));
    }
    s
}

/// Builds the destination path for `file` inside `dir`: the base filename of
/// `file` joined onto `dir`.  Fails with `PathInvalid` exactly when `file`
/// has no extractable filename.
pub fn create_dest_path(dir: &str, file: &str) -> (r: Result<String, DirError>)
    ensures
        r is Ok <==> valid_basename(file@),
        r matches Ok(p) ==> p@ == join_of(dir@, basename_of(file@)),
        r matches Err(e) ==> (e matches DirError::PathInvalid(s) && s@ == file@),
{
    match basename(file) {
        Some(b) => Ok(join_path(dir, b)),
        None => Err(DirError::PathInvalid(String::from_str(file))),
    }
}

/// The validator's decision for a path whose existence, directory-ness and
/// canonical form were probed: missing paths fail with `PathNotExist`,
/// existing non-directories with `PathNotDir`, and a directory comes back
/// in the canonical form the probe reported.  A directory whose canonical
/// form could not be read — it vanished between probes, or its resolved
/// form is not representable — is reported as missing.
pub fn classify_directory(
    dir: &str,
    exists: bool,
    is_dir: bool,
    canonical: Option<String>,
) -> (r: Result<String, DirError>)
    ensures
        !exists ==> (r matches Err(DirError::PathNotExist(s)) && s@ == dir@),
        exists && !is_dir ==> (r matches Err(DirError::PathNotDir(s)) && s@ == dir@),
        exists && is_dir && canonical is Some ==> (r matches Ok(q) && q@ == canonical->0@),
        exists && is_dir && canonical is None ==> (r matches Err(DirError::PathNotExist(s)) && s@
            == dir@),
{
    if !exists {
        Err(DirError::PathNotExist(String::from_str(dir)))
    } else if !is_dir {
        Err(DirError::PathNotDir(String::from_str(dir)))
    } else {
        match canonical {
            Some(p) => Ok(p),
            None => Err(DirError::PathNotExist(String::from_str(dir))),
        }
    }
}

/// Confirms that `dir` exists and is a directory, returning its canonical
/// (symlink-free, absolute) path as the resolver probe reported it;
/// otherwise the matching error, which carries `dir` as given.  The probes
/// reflect the disk at the moment of the call, so which outcome arrives is
/// not promised — the decision on every probe outcome is
/// `classify_directory`'s.
pub fn directory_exists(dir: &str) -> (r: Result<String, DirError>)
    ensures
        r matches Err(DirError::PathNotExist(s)) ==> s@ == dir@,
        r matches Err(DirError::PathNotDir(s)) ==> s@ == dir@,
        !(r matches Err(DirError::PathInvalid(_))),
{
    let ex = path_exists(dir);
    let isd = if ex {
        path_is_dir(dir)
    } else {
        false
    };
    let canonical = if ex && isd {
        canonicalize_path(dir)
    } else {
        None
    };
    classify_directory(dir, ex, isd, canonical)
}

} // verus!
