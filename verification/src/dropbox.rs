//! The drop-box core: the resolved directory set, the per-file destination
//! plan, and the conflict resolver.
//!
//! A file's lifecycle state is the directory that holds it: `target` is the
//! inbox, `processing` the staging area of an in-flight handler, `processed`
//! the terminal success location, and `error` the archive for failures and
//! evicted files.  No file is ever deleted or overwritten: every move is a
//! rename, and every rename whose destination might be occupied is preceded
//! by an occupancy check that first evacuates the occupant to the error
//! directory.  The renames themselves are I/O and are carried out by the
//! embedding application; this module computes them as exact [`RenameOp`]
//! plans, so which rename happens on which probe outcome is verified.

use crate::decimal::{dec_str, u64_to_dec};
use crate::file::{
    basename, basename_of, create_dest_path, dir_error_path, directory_exists, join_of,
    valid_basename, DirError,
};
use crate::pattern::{regex_compile_check, regex_match, regex_matches, regex_ok};
use crate::sys::{now_epoch_secs, path_exists};
use vstd::prelude::*;
use vstd::string::{StrSliceExecFns, StringExecFns};

verus! {

/// The configured directory paths, as handed in by the caller before
/// validation.
pub struct DropBoxDirs<'a> {
    pub target: &'a str,
    pub error: &'a str,
    pub processing: &'a str,
    pub processed: &'a str,
    /// Optional named extra directories, each validated like the four
    /// required ones.
    pub other: Option<Vec<(&'a str, &'a str)>>,
}

impl<'a> DropBoxDirs<'a> {
    /// Whether `p` is one of the configured directory paths.
    pub open spec fn names_path(&self, p: Seq<char>) -> bool {
        ||| p == self.target@
        ||| p == self.error@
        ||| p == self.processing@
        ||| p == self.processed@
        ||| (self.other matches Some(v) && exists|k: int|
            0 <= k < v@.len() && p == (#[trigger] v@[k]).1@)
    }

    /// Whether the named extra directories carry pairwise distinct names,
    /// as a genuine mapping does.
    pub open spec fn distinct_other_names(&self) -> bool {
        match self.other {
            None => true,
            Some(v) => forall|x: int, y: int|
                0 <= x < y < v@.len() ==> (#[trigger] v@[x]).0@ != (#[trigger] v@[y]).0@,
        }
    }
}

/// The per-file destination plan: the three sibling destinations that share
/// the input file's base filename.
#[derive(Clone, Debug, PartialEq, Eq)]
pub struct FilePaths {
    pub filename: String,
    pub error: String,
    pub processing: String,
    pub processed: String,
}

/// The resolved directory set.  Every path in it was confirmed to name a
/// directory at construction time; it is never re-validated afterward, so a
/// directory deleted mid-run surfaces later as an I/O failure.
#[derive(Clone, Debug)]
pub struct DropBoxes {
    pub target: String,
    pub error: String,
    pub processing: String,
    pub processed: String,
    pub other: Option<Vec<(String, String)>>,
}

impl DropBoxes {
    /// Whether the named extra directories carry pairwise distinct names,
    /// as a genuine mapping does.
    pub open spec fn distinct_other_names(&self) -> bool {
        match self.other {
            None => true,
            Some(w) => forall|x: int, y: int|
                0 <= x < y < w@.len() ==> (#[trigger] w@[x]).0@ != (#[trigger] w@[y]).0@,
        }
    }
}

/// Selects one of the drop-box directories, or carries an explicit path.
#[derive(Debug)]
#[non_exhaustive]
pub enum DropBoxDir {
    Target,
    Error,
    Processing,
    Processed,
    Other(String),
}

/// The engine's error kinds.
#[derive(Debug)]
#[non_exhaustive]
pub enum DropBoxError {
    /// A configured path failed validation.
    Path(DirError),
    /// The filename-filter pattern was rejected by the regex crate.
    Regex(regex::Error),
    /// A listing or rename failed; the text describes the failure.
    IO(String),
    /// An internal precondition failed; the text names it.
    Misc(String),
    /// The system clock could not be read while disambiguating a collision.
    Time,
}

/// One pending rename: move the file at `from` to `to`.  Executing it is the
/// embedding application's step; the plan itself is exact.
#[derive(Clone, Debug, PartialEq, Eq)]
pub struct RenameOp {
    pub from: String,
    pub to: String,
}

/// `path` with the disambiguation suffix for epoch second count `secs`.
pub open spec fn timestamped(path: Seq<char>, secs: nat) -> Seq<char> {
    path + seq!['.'] + dec_str(secs)
}

/// An acceptable archive destination for an occupant evicted toward
/// `error`: the error path itself, or the error path with some
/// epoch-seconds suffix.
pub open spec fn archive_to_ok(to: Seq<char>, error: Seq<char>) -> bool {
    to == error || exists|t: nat| to == timestamped(error, t)
}

/// The disambiguation suffix only extends the base filename: for an error
/// path that ends inside a real filename component — as every path the
/// destination builder produces does — the archived occupant lands in the
/// same directory as the intended error path, under the same base name with
/// the epoch second count appended.  So nothing is clobbered and nothing
/// strays out of the error directory.
pub proof fn lemma_archive_keeps_basename(error: Seq<char>, t: nat)
    requires
        error.len() > 0,
        error.last() != '/',
        !crate::file::ends_in_dot_component(error),
    ensures
        basename_of(timestamped(error, t)) == basename_of(error) + seq!['.'] + dec_str(t),
{
    crate::decimal::lemma_dec_str_digits(t);
    let suffix = seq!['.'] + dec_str(t);
    assert forall|k: int| 0 <= k < suffix.len() implies suffix[k] != '/' by {
        if k >= 1 {
            assert(suffix[k] == dec_str(t)[k - 1]);
        }
    }
    let j = error + suffix;
    assert(j.last() == dec_str(t).last());
    assert('0' <= j.last() <= '9');
    assert(!crate::file::ends_in_dot_component(j));
    assert(basename_of(j) == crate::file::suffix_after_slash(j));
    assert(basename_of(error) == crate::file::suffix_after_slash(error));
    crate::file::lemma_suffix_append(error, suffix);
    assert(timestamped(error, t) =~= j);
    assert(basename_of(error) + suffix =~= basename_of(error) + seq!['.'] + dec_str(t));
}

/// The conflict resolver's decision for moving `file` to the archive path
/// `error`, given whether `error` is already occupied and what the clock
/// read.  An unoccupied archive path is used as is; an occupied one gets the
/// epoch-seconds suffix, so an already-archived file is never clobbered; an
/// unreadable clock fails with `Time`.
pub fn plan_move_to_error(file: &str, error: &str, occupied: bool, now: Option<u64>) -> (r: Result<
    RenameOp,
    DropBoxError,
>)
    ensures
        !occupied ==> (r matches Ok(op) && op.from@ == file@ && op.to@ == error@),
        occupied && now is Some ==> (r matches Ok(op) && op.from@ == file@ && op.to@
            == timestamped(error@, now->0 as nat)),
        occupied && now is None ==> r matches Err(DropBoxError::Time),
{
    if !occupied {
        Ok(RenameOp { from: String::from_str(file), to: String::from_str(error) })
    } else {
        match now {
            Some(t) => {
                let mut to = String::from_str(error);
                to.append(".");
                let ts = u64_to_dec(t);
                to.append(ts.as_str());
                proof {
                    reveal_strlit(".");
                    assert(to@ =~= timestamped(error@, t as nat));
                }
                Ok(RenameOp { from: String::from_str(file), to })
            },
            None => Err(DropBoxError::Time),
        }
    }
}

/// The occupancy check before a promotion into `dstfile`, decided from the
/// probed disk state: an unoccupied destination needs no move at all; an
/// occupied one has its occupant planned away to `errorfile`, suffixed when
/// that slot is taken too.  This is the single path by which the engine
/// guarantees that no file is silently lost.
pub fn plan_check_dest(
    dstfile: &str,
    errorfile: &str,
    dst_occupied: bool,
    error_occupied: bool,
    now: Option<u64>,
) -> (r: Result<Option<RenameOp>, DropBoxError>)
    ensures
        !dst_occupied ==> (r matches Ok(o) && o is None),
        dst_occupied && !error_occupied ==> (r matches Ok(Some(op)) && op.from@ == dstfile@
            && op.to@ == errorfile@),
        dst_occupied && error_occupied && now is Some ==> (r matches Ok(Some(op)) && op.from@
            == dstfile@ && op.to@ == timestamped(errorfile@, now->0 as nat)),
        dst_occupied && error_occupied && now is None ==> r matches Err(DropBoxError::Time),
{
    if !dst_occupied {
        Ok(None)
    } else {
        match plan_move_to_error(dstfile, errorfile, error_occupied, now) {
            Ok(op) => Ok(Some(op)),
            Err(e) => Err(e),
        }
    }
}

/// Plans the move of `file` to the archive path `error`, probing the disk
/// and the clock.  Which probe outcome arrives is not promised, but every
/// returned plan moves `file` itself to an acceptable archive destination,
/// and the only possible failure is an unreadable clock.
pub fn move_to_error(file: &str, error: &str) -> (r: Result<RenameOp, DropBoxError>)
    ensures
        r matches Ok(op) ==> op.from@ == file@ && archive_to_ok(op.to@, error@),
        r is Err ==> r matches Err(DropBoxError::Time),
{
    let occupied = path_exists(error);
    let now = if occupied {
        now_epoch_secs()
    } else {
        None
    };
    plan_move_to_error(file, error, occupied, now)
}

/// Archives whatever occupies `dstfile`, if anything does: probes the disk
/// and returns either no move (slot free) or the plan that evacuates the
/// occupant to `errorfile`.
pub fn check_dest(dstfile: &str, errorfile: &str) -> (r: Result<Option<RenameOp>, DropBoxError>)
    ensures
        r matches Ok(Some(op)) ==> op.from@ == dstfile@ && archive_to_ok(op.to@, errorfile@),
        r is Err ==> r matches Err(DropBoxError::Time),
{
    if path_exists(dstfile) {
        match move_to_error(dstfile, errorfile) {
            Ok(op) => Ok(Some(op)),
            Err(e) => Err(e),
        }
    } else {
        Ok(None)
    }
}

impl DropBoxes {
    /// Assembles the full per-file plan for `file`: the three destination
    /// paths sharing its base filename, plus the evacuation of any stale
    /// occupant of the processed slot.  Fails with the generic kind when
    /// `file` carries no usable filename, and with `Time` only when an
    /// occupied processed slot meets an occupied error slot and the clock
    /// cannot be read.
    pub fn generate_filepaths(&self, file: &str) -> (r: Result<
        (FilePaths, Option<RenameOp>),
        DropBoxError,
    >)
        ensures
            r matches Ok((fp, op)) ==> ({
                &&& valid_basename(file@)
                &&& fp.filename@ == basename_of(file@)
                &&& fp.error@ == join_of(self.error@, basename_of(file@))
                &&& fp.processing@ == join_of(self.processing@, basename_of(file@))
                &&& fp.processed@ == join_of(self.processed@, basename_of(file@))
                &&& (op matches Some(o) ==> o.from@ == fp.processed@ && archive_to_ok(
                    o.to@,
                    fp.error@,
                ))
            }),
            !valid_basename(file@) ==> (r matches Err(DropBoxError::Misc(m)) && m@
                == "basename from filename"@),
            valid_basename(file@) ==> (r is Ok || r matches Err(DropBoxError::Time)),
            r matches Err(DropBoxError::Time) ==> valid_basename(file@),
    {
        let filename = match basename(file) {
            Some(b) => String::from_str(b),
            None => {
                return Err(DropBoxError::Misc(String::from_str("basename from filename")));
            },
        };
        let error = match create_dest_path(self.error.as_str(), file) {
            Ok(p) => p,
            Err(_) => unreached(),
        };
        let processing = match create_dest_path(self.processing.as_str(), file) {
            Ok(p) => p,
            Err(_) => unreached(),
        };
        proof {
            crate::file::lemma_basename_no_slash(file@);
            crate::file::lemma_basename_of_join(self.processing@, basename_of(file@));
        }
        let processed = match create_dest_path(self.processed.as_str(), processing.as_str()) {
            Ok(p) => p,
            Err(_) => unreached(),
        };
        let op = match check_dest(processed.as_str(), error.as_str()) {
            Ok(o) => o,
            Err(e) => {
                return Err(e);
            },
        };
        Ok((FilePaths { filename, error, processing, processed }, op))
    }

    /// Validates every configured directory via the Directory Validator —
    /// so the set holds each one's canonical path — and wraps them into the
    /// resolved set; any failure aborts construction, so no partially
    /// validated set ever exists.  The canonical paths come from disk
    /// probes and are not promised here; the structure is: the extra
    /// directories keep their names, their count and (when the input is a
    /// genuine mapping) their distinctness, and every error names the
    /// configured directory that failed.
    pub fn resolve(dirs: &DropBoxDirs) -> (r: Result<DropBoxes, DropBoxError>)
        ensures
            r matches Ok(b) ==> ({
                &&& (dirs.other is None ==> b.other is None)
                &&& (dirs.other matches Some(v) ==> (b.other matches Some(w) && w@.len()
                    == v@.len() && (forall|k: int|
                    0 <= k < v@.len() ==> (#[trigger] w@[k]).0@ == v@[k].0@)))
                &&& (dirs.distinct_other_names() ==> b.distinct_other_names())
            }),
            r is Err ==> r matches Err(DropBoxError::Path(_)),
            r matches Err(DropBoxError::Path(e)) ==> !(e matches DirError::PathInvalid(_)),
            r matches Err(DropBoxError::Path(e)) ==> dirs.names_path(dir_error_path(e)),
    {
        let target = match directory_exists(dirs.target) {
            Ok(p) => p,
            Err(e) => {
                return Err(DropBoxError::Path(e));
            },
        };
        let error = match directory_exists(dirs.error) {
            Ok(p) => p,
            Err(e) => {
                return Err(DropBoxError::Path(e));
            },
        };
        let processing = match directory_exists(dirs.processing) {
            Ok(p) => p,
            Err(e) => {
                return Err(DropBoxError::Path(e));
            },
        };
        let processed = match directory_exists(dirs.processed) {
            Ok(p) => p,
            Err(e) => {
                return Err(DropBoxError::Path(e));
            },
        };
        let other = match dirs.other.as_ref() {
            None => None,
            Some(v) => {
                let mut w: Vec<(String, String)> = Vec::new();
                let n = v.len();
                let mut i: usize = 0;
                while i < n
                    invariant
                        i <= n,
                        n == v@.len(),
                        dirs.other is Some,
                        v@ == dirs.other->0@,
                        w@.len() == i,
                        forall|k: int| 0 <= k < i ==> (#[trigger] w@[k]).0@ == v@[k].0@,
                    decreases n - i,
                {
                    let name = v[i].0;
                    let path = v[i].1;
                    let resolved = match directory_exists(path) {
                        Ok(p) => p,
                        Err(e) => {
                            proof {
                                let vv = dirs.other->0;
                                assert(v@ == vv@);
                                assert(dir_error_path(e) == (vv@[i as int]).1@);
                                assert(dirs.names_path(dir_error_path(e)));
                            }
                            return Err(DropBoxError::Path(e));
                        },
                    };
                    w.push((String::from_str(name), resolved));
                    i = i + 1;
                }
                Some(w)
            },
        };
        Ok(DropBoxes { target, error, processing, processed, other })
    }

    /// The path of the selected drop-box directory.
    pub fn dir_path<'a>(&'a self, dirtype: &'a DropBoxDir) -> (p: &'a str)
        ensures
            p@ == spec_dir_path(*self, *dirtype),
    {
        match dirtype {
            DropBoxDir::Target => self.target.as_str(),
            DropBoxDir::Error => self.error.as_str(),
            DropBoxDir::Processing => self.processing.as_str(),
            DropBoxDir::Processed => self.processed.as_str(),
            DropBoxDir::Other(p) => p.as_str(),
        }
    }
}

/// The path that `dirtype` selects out of the resolved set `boxes`.
pub open spec fn spec_dir_path(boxes: DropBoxes, dirtype: DropBoxDir) -> Seq<char> {
    match dirtype {
        DropBoxDir::Target => boxes.target@,
        DropBoxDir::Error => boxes.error@,
        DropBoxDir::Processing => boxes.processing@,
        DropBoxDir::Processed => boxes.processed@,
        DropBoxDir::Other(p) => p@,
    }
}

/// The view of an optional filter pattern.
pub open spec fn filter_view(f: Option<String>) -> Option<Seq<char>> {
    match f {
        None => None,
        Some(p) => Some(p@),
    }
}

/// Whether a filename passes the configured filter: everything passes when
/// no filter is set; otherwise the pattern must be one the regex crate
/// accepts and must match the name.
pub open spec fn selected(filter: Option<Seq<char>>, name: Seq<char>) -> bool {
    match filter {
        None => true,
        Some(p) => regex_ok(p) && regex_match(p, name),
    }
}

/// The absolute path that the listing reports for `name` inside `dir`.
pub open spec fn listed_path(dir: Seq<char>, name: Seq<char>) -> Seq<char> {
    dir + seq!['/'] + name
}

/// The listing the engine reports for a directory whose enumerated filenames
/// are `names`: the absolute path of every name that passes the filter, in
/// enumeration order.
pub open spec fn spec_list(
    dir: Seq<char>,
    filter: Option<Seq<char>>,
    names: Seq<Seq<char>>,
) -> Seq<Seq<char>>
    decreases names.len(),
{
    if names.len() == 0 {
        Seq::empty()
    } else {
        let rest = spec_list(dir, filter, names.drop_last());
        if selected(filter, names.last()) {
            rest.push(listed_path(dir, names.last()))
        } else {
            rest
        }
    }
}

/// Filters the enumerated filenames of `dir` and returns the absolute paths
/// of those that pass, in enumeration order.  The enumeration itself is the
/// caller's I/O; this is the decision.
pub fn list_matching(dir: &str, filter: &Option<String>, names: &Vec<String>) -> (r: Vec<String>)
    ensures
        r.deep_view() == spec_list(dir@, filter_view(*filter), names.deep_view()),
{
    let mut out: Vec<String> = Vec::new();
    let n = names.len();
    let mut i: usize = 0;
    proof {
        assert(names.deep_view().take(0) =~= Seq::<Seq<char>>::empty());
    }
    while i < n
        invariant
            i <= n,
            n == names@.len(),
            names.deep_view().len() == n,
            out.deep_view() == spec_list(dir@, filter_view(*filter), names.deep_view().take(i as int)),
        decreases n - i,
    {
        let name = &names[i];
        proof {
            assert(names.deep_view()[i as int] == name@);
        }
        let sel = match filter {
            Some(p) => regex_matches(p.as_str(), name.as_str()),
            None => true,
        };
        if sel {
            let mut path = String::from_str(dir);
            path.append("/");
            path.append(name.as_str());
            proof {
                reveal_strlit("/");
                assert(path@ =~= listed_path(dir@, name@));
            }
            out.push(path);
        }
        proof {
            let full = names.deep_view();
            assert(full.take(i + 1).drop_last() =~= full.take(i as int));
            assert(full.take(i + 1).last() == full[i as int]);
            assert(out.deep_view() =~~= spec_list(dir@, filter_view(*filter), full.take(i + 1)));
        }
        i = i + 1;
    }
    proof {
        assert(names.deep_view().take(n as int) =~= names.deep_view());
    }
    out
}

/// What the listing holds: exactly the absolute paths of the enumerated
/// names that pass the filter, and nothing else.
pub proof fn lemma_list_membership(
    dir: Seq<char>,
    filter: Option<Seq<char>>,
    names: Seq<Seq<char>>,
    p: Seq<char>,
)
    ensures
        spec_list(dir, filter, names).contains(p) <==> exists|i: int|
            0 <= i < names.len() && selected(filter, #[trigger] names[i]) && p == listed_path(
                dir,
                names[i],
            ),
    decreases names.len(),
{
    let l = spec_list(dir, filter, names);
    if names.len() == 0 {
    } else {
        let rest_names = names.drop_last();
        lemma_list_membership(dir, filter, rest_names, p);
        let rest = spec_list(dir, filter, rest_names);
        assert(forall|i: int| 0 <= i < rest_names.len() ==> rest_names[i] == names[i]);
        if l.contains(p) {
            let j = choose|j: int| 0 <= j < l.len() && l[j] == p;
            if selected(filter, names.last()) && j == l.len() - 1 {
                assert(p == listed_path(dir, names[names.len() - 1]));
            } else {
                assert(rest[j] == p);
                assert(rest.contains(p));
            }
        }
        if exists|i: int|
            0 <= i < names.len() && selected(filter, #[trigger] names[i]) && p == listed_path(
                dir,
                names[i],
            ) {
            let i = choose|i: int|
                0 <= i < names.len() && selected(filter, #[trigger] names[i]) && p == listed_path(
                    dir,
                    names[i],
                );
            if i == names.len() - 1 {
                assert(l[l.len() - 1] == p);
                assert(l.contains(p));
            } else {
                assert(rest_names[i] == names[i]);
                assert(rest.contains(p));
                let j = choose|j: int| 0 <= j < rest.len() && rest[j] == p;
                assert(l[j] == p);
                assert(l.contains(p));
            }
        }
    }
}

/// Filtering is a pure function of the filter and the enumerated names: two
/// listings of a directory that did not change in between report the same
/// files — the same sequence, hence the same set.
pub proof fn lemma_list_idempotent(
    dir: Seq<char>,
    filter: Option<Seq<char>>,
    first: Seq<Seq<char>>,
    second: Seq<Seq<char>>,
)
    requires
        first == second,
    ensures
        spec_list(dir, filter, first) == spec_list(dir, filter, second),
        spec_list(dir, filter, first).to_set() == spec_list(dir, filter, second).to_set(),
{
}

/// Validates the optional filename-filter pattern at construction time: a
/// pattern the regex crate rejects fails with its error, a valid or absent
/// one is kept as given.
pub fn new_filter(rxstr: &Option<String>) -> (r: Result<Option<String>, DropBoxError>)
    ensures
        rxstr is None ==> (r matches Ok(f) && f is None),
        rxstr matches Some(p) ==> ((regex_ok(p@) ==> (r matches Ok(Some(q)) && q@ == p@)) && (
        !regex_ok(p@) ==> r matches Err(DropBoxError::Regex(_)))),
{
    match rxstr {
        None => Ok(None),
        Some(p) => match regex_compile_check(p.as_str()) {
            Ok(()) => Ok(Some(p.clone())),
            Err(e) => Err(DropBoxError::Regex(e)),
        },
    }
}

} // verus!
