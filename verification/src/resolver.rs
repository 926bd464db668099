//! The path resolver: turns user-supplied path strings, together with the
//! outcome of looking each one up on the filesystem, into an ordered list of
//! concrete file targets and per-path errors.
//!
//! The resolver performs no I/O of its own. The caller queries the filesystem
//! for each path (and, for a recursive search, walks a directory for its
//! regular files) and hands the outcomes in as [`FsLookup`] values; the
//! resolver contributes the policy: the standard-input sentinel passes
//! through untouched, a failed lookup becomes an error entry, a directory
//! becomes either its walked files or an error depending on the recursion
//! flag, a regular file becomes a target, and anything else is dropped.

use vstd::prelude::*;
use vstd::seq_lib::*;
use vstd::string::*;

verus! {

/// What the filesystem said about one path: the lookup failed with a cause,
/// or the path is a directory (with the regular files a recursive walk found
/// under it, in discovery order), a regular file, or an entry of some other
/// kind (device, socket, and the like).
pub enum FsLookup {
    LookupFailed { cause: String },
    Directory { files: Vec<String> },
    RegularFile,
    Other,
}

/// Why one path produced no file target.
pub enum ResolveError {
    /// The path is a directory but recursion was not enabled.
    DirectoryNotRecursive { path: String },
    /// The filesystem lookup failed: the path does not exist or is not
    /// accessible, with the underlying cause.
    NotFound { path: String, cause: String },
}

/// One resolution outcome: a concrete, openable file target, or an error.
pub enum ResolvedEntry {
    Target(String),
    Failure(ResolveError),
}

/// The mathematical shape of an [`FsLookup`].
pub enum LookupModel {
    LookupFailed { cause: Seq<char> },
    Directory { files: Seq<Seq<char>> },
    RegularFile,
    Other,
}

/// The mathematical shape of a [`ResolveError`].
pub enum ErrorModel {
    DirectoryNotRecursive { path: Seq<char> },
    NotFound { path: Seq<char>, cause: Seq<char> },
}

/// The mathematical shape of a [`ResolvedEntry`].
pub enum EntryModel {
    Target(Seq<char>),
    Failure(ErrorModel),
}

impl View for FsLookup {
    type V = LookupModel;

    open spec fn view(&self) -> LookupModel {
        match self {
            FsLookup::LookupFailed { cause } => (LookupModel::LookupFailed { cause: cause@ }),
            FsLookup::Directory { files } => (LookupModel::Directory {
                files: files@.map_values(|f: String| f@),
            }),
            FsLookup::RegularFile => LookupModel::RegularFile,
            FsLookup::Other => LookupModel::Other,
        }
    }
}

impl View for ResolveError {
    type V = ErrorModel;

    open spec fn view(&self) -> ErrorModel {
        match self {
            ResolveError::DirectoryNotRecursive { path } => (ErrorModel::DirectoryNotRecursive {
                path: path@,
            }),
            ResolveError::NotFound { path, cause } => (ErrorModel::NotFound {
                path: path@,
                cause: cause@,
            }),
        }
    }
}

impl View for ResolvedEntry {
    type V = EntryModel;

    open spec fn view(&self) -> EntryModel {
        match self {
            ResolvedEntry::Target(path) => EntryModel::Target(path@),
            ResolvedEntry::Failure(e) => EntryModel::Failure(e@),
        }
    }
}

/// The single-dash sentinel that names standard input.
pub open spec fn is_stdin_path(p: Seq<char>) -> bool {
    p.len() == 1 && p[0] == '-'
}

/// The entries one path contributes, given what the filesystem said about
/// it. The standard-input sentinel passes through without a lookup; a failed
/// lookup reports its cause; a directory yields its walked files when
/// recursion is on and an error when it is off; a regular file yields
/// itself; any other kind of entry yields nothing.
pub open spec fn resolve_one_model(path: Seq<char>, recursive: bool, lookup: LookupModel) -> Seq<
    EntryModel,
> {
    if is_stdin_path(path) {
        seq![EntryModel::Target(path)]
    } else {
        match lookup {
            LookupModel::LookupFailed { cause } => seq![
                EntryModel::Failure(ErrorModel::NotFound { path, cause }),
            ],
            LookupModel::Directory { files } => {
                if recursive {
                    files.map_values(|f: Seq<char>| EntryModel::Target(f))
                } else {
                    seq![EntryModel::Failure(ErrorModel::DirectoryNotRecursive { path })]
                }
            },
            LookupModel::RegularFile => seq![EntryModel::Target(path)],
            LookupModel::Other => Seq::empty(),
        }
    }
}

/// The entries a whole path list contributes, in input order; `lookups[i]`
/// answers for `paths[i]`.
pub open spec fn resolve_model(
    paths: Seq<Seq<char>>,
    recursive: bool,
    lookups: Seq<LookupModel>,
) -> Seq<EntryModel>
    decreases paths.len(),
{
    if paths.len() == 0 {
        Seq::empty()
    } else {
        resolve_model(paths.drop_last(), recursive, lookups.drop_last()) + resolve_one_model(
            paths.last(),
            recursive,
            lookups.last(),
        )
    }
}

/// Tests whether `path` is the single-dash sentinel naming standard input.
fn is_stdin(path: &String) -> (r: bool)
    ensures
        r == is_stdin_path(path@),
{
    let s = path.as_str();
    s.unicode_len() == 1 && s.get_char(0) == '-'
}

/// Resolves each path, in input order, into its file targets and errors.
/// `lookups[i]` is the filesystem's answer for `paths[i]`; the answer for
/// the standard-input sentinel is never consulted.
#[verifier::loop_isolation(false)]
pub fn find_files(paths: &Vec<String>, recursive: bool, lookups: &Vec<FsLookup>) -> (r: Vec<
    ResolvedEntry,
>)
    requires
        paths@.len() == lookups@.len(),
    ensures
        r@.map_values(|e: ResolvedEntry| e@) == resolve_model(
            paths@.map_values(|p: String| p@),
            recursive,
            lookups@.map_values(|l: FsLookup| l@),
        ),
{
    let ghost fe = |e: ResolvedEntry| e@;
    let ghost fp = |p: String| p@;
    let ghost fl = |l: FsLookup| l@;
    let ghost ft = |f: Seq<char>| EntryModel::Target(f);
    let ghost pm = paths@.map_values(fp);
    let ghost lm = lookups@.map_values(fl);
    let mut out: Vec<ResolvedEntry> = Vec::new();
    let mut i: usize = 0;
    proof {
        assert(pm.take(0) =~= Seq::<Seq<char>>::empty());
        assert(out@.map_values(fe) =~= resolve_model(pm.take(0), recursive, lm.take(0)));
    }
    while i < paths.len()
        invariant
            i <= paths@.len(),
            out@.map_values(fe) == resolve_model(pm.take(i as int), recursive, lm.take(i as int)),
        decreases paths@.len() - i,
    {
        let path = &paths[i];
        let ghost out0 = out@;
        if is_stdin(path) {
            let entry = ResolvedEntry::Target(path.clone());
            proof {
                out0.lemma_push_map_commute(fe, entry);
            }
            out.push(entry);
            proof {
                assert(out@.map_values(fe) =~= out0.map_values(fe) + resolve_one_model(
                    pm[i as int],
                    recursive,
                    lm[i as int],
                ));
            }
        } else {
            let lookup = &lookups[i];
            match lookup {
                FsLookup::LookupFailed { cause } => {
                    let entry = ResolvedEntry::Failure(
                        ResolveError::NotFound { path: path.clone(), cause: cause.clone() },
                    );
                    proof {
                        out0.lemma_push_map_commute(fe, entry);
                    }
                    out.push(entry);
                    proof {
                        assert(out@.map_values(fe) =~= out0.map_values(fe) + resolve_one_model(
                            pm[i as int],
                            recursive,
                            lm[i as int],
                        ));
                    }
                },
                FsLookup::Directory { files } => {
                    if recursive {
                        let ghost fm = files@.map_values(fp);
                        let mut j: usize = 0;
                        proof {
                            assert(fm.take(0).map_values(ft) =~= Seq::<EntryModel>::empty());
                            assert(out@.map_values(fe) =~= out0.map_values(fe) + fm.take(
                                0,
                            ).map_values(ft));
                        }
                        while j < files.len()
                            invariant
                                j <= files@.len(),
                                out@.map_values(fe) == out0.map_values(fe) + fm.take(
                                    j as int,
                                ).map_values(ft),
                            decreases files@.len() - j,
                        {
                            let target = ResolvedEntry::Target(files[j].clone());
                            let ghost out1 = out@;
                            proof {
                                out1.lemma_push_map_commute(fe, target);
                            }
                            out.push(target);
                            proof {
                                fm.lemma_map_take_succ(ft, j as int);
                                assert(out@.map_values(fe) =~= out0.map_values(fe) + fm.take(
                                    j + 1,
                                ).map_values(ft));
                            }
                            j = j + 1;
                        }
                        proof {
                            assert(fm.take(files@.len() as int) =~= fm);
                            assert(resolve_one_model(pm[i as int], recursive, lm[i as int])
                                == fm.map_values(ft));
                        }
                    } else {
                        let entry = ResolvedEntry::Failure(
                            ResolveError::DirectoryNotRecursive { path: path.clone() },
                        );
                        proof {
                            out0.lemma_push_map_commute(fe, entry);
                        }
                        out.push(entry);
                        proof {
                            assert(out@.map_values(fe) =~= out0.map_values(fe) + resolve_one_model(
                                pm[i as int],
                                recursive,
                                lm[i as int],
                            ));
                        }
                    }
                },
                FsLookup::RegularFile => {
                    let entry = ResolvedEntry::Target(path.clone());
                    proof {
                        out0.lemma_push_map_commute(fe, entry);
                    }
                    out.push(entry);
                    proof {
                        assert(out@.map_values(fe) =~= out0.map_values(fe) + resolve_one_model(
                            pm[i as int],
                            recursive,
                            lm[i as int],
                        ));
                    }
                },
                FsLookup::Other => {
                    proof {
                        assert(resolve_one_model(pm[i as int], recursive, lm[i as int])
                            =~= Seq::<EntryModel>::empty());
                        assert(out@.map_values(fe) =~= out0.map_values(fe) + resolve_one_model(
                            pm[i as int],
                            recursive,
                            lm[i as int],
                        ));
                    }
                },
            }
        }
        proof {
            assert(pm.take(i + 1).drop_last() =~= pm.take(i as int));
            assert(lm.take(i + 1).drop_last() =~= lm.take(i as int));
            assert(pm.take(i + 1).last() == pm[i as int]);
            assert(lm.take(i + 1).last() == lm[i as int]);
            assert(resolve_model(pm.take(i + 1), recursive, lm.take(i + 1)) == resolve_model(
                pm.take(i as int),
                recursive,
                lm.take(i as int),
            ) + resolve_one_model(pm[i as int], recursive, lm[i as int]));
        }
        i = i + 1;
    }
    proof {
        assert(pm.take(paths@.len() as int) =~= pm);
        assert(lm.take(paths@.len() as int) =~= lm);
    }
    out
}

/// The diagnostic text for one resolution error: `<path> is a directory`,
/// or `<path>: <cause>`.
pub open spec fn spec_error_message(e: ErrorModel) -> Seq<char> {
    match e {
        ErrorModel::DirectoryNotRecursive { path } => path + " is a directory"@,
        ErrorModel::NotFound { path, cause } => path + ": "@ + cause,
    }
}

impl ResolveError {
    /// Renders this error's diagnostic message.
    pub fn message(&self) -> (r: String)
        ensures
            r@ == spec_error_message(self@),
    {
        match self {
            ResolveError::DirectoryNotRecursive { path } => {
                let mut s = path.as_str().to_owned();
                s.append(" is a directory");
                s
            },
            ResolveError::NotFound { path, cause } => {
                let mut s = path.as_str().to_owned();
                s.append(": ");
                s.append(cause.as_str());
                s
            },
        }
    }
}

/// Law: a path whose lookup answered "regular file" resolves to exactly one
/// entry, a success naming that path. The standard-input sentinel behaves
/// the same way.
pub proof fn lemma_resolve_file(path: Seq<char>, recursive: bool)
    ensures
        resolve_model(seq![path], recursive, seq![LookupModel::RegularFile]) =~= seq![
            EntryModel::Target(path),
        ],
{
    let ps = seq![path];
    let ls = seq![LookupModel::RegularFile];
    assert(ps.drop_last() =~= Seq::<Seq<char>>::empty());
    assert(ls.drop_last() =~= Seq::<LookupModel>::empty());
    assert(resolve_model(ps.drop_last(), recursive, ls.drop_last()) =~= Seq::<EntryModel>::empty());
}

/// Law: a directory path resolves, with recursion disabled, to exactly one
/// entry, an error whose message is `<path> is a directory` — whatever the
/// walked file list would have been.
pub proof fn lemma_resolve_dir_not_recursive(path: Seq<char>, files: Seq<Seq<char>>)
    requires
        !is_stdin_path(path),
    ensures
        resolve_model(seq![path], false, seq![(LookupModel::Directory { files })]) =~= seq![
            EntryModel::Failure(ErrorModel::DirectoryNotRecursive { path }),
        ],
        spec_error_message(ErrorModel::DirectoryNotRecursive { path }) == path
            + " is a directory"@,
{
    let ps = seq![path];
    let ls = seq![(LookupModel::Directory { files })];
    assert(ps.drop_last() =~= Seq::<Seq<char>>::empty());
    assert(ls.drop_last() =~= Seq::<LookupModel>::empty());
    assert(resolve_model(ps.drop_last(), false, ls.drop_last()) =~= Seq::<EntryModel>::empty());
}

/// Law: a directory path holding `files.len()` regular files resolves, with
/// recursion enabled, to exactly that many entries, every one a success
/// naming the corresponding walked file, and no error entries.
pub proof fn lemma_resolve_dir_recursive(path: Seq<char>, files: Seq<Seq<char>>)
    requires
        !is_stdin_path(path),
    ensures
        resolve_model(seq![path], true, seq![(LookupModel::Directory { files })]).len()
            == files.len(),
        forall|i: int|
            0 <= i < files.len() ==> resolve_model(
                seq![path],
                true,
                seq![(LookupModel::Directory { files })],
            )[i] == EntryModel::Target(files[i]),
{
    let ps = seq![path];
    let ls = seq![(LookupModel::Directory { files })];
    assert(ps.drop_last() =~= Seq::<Seq<char>>::empty());
    assert(ls.drop_last() =~= Seq::<LookupModel>::empty());
    assert(resolve_model(ps.drop_last(), true, ls.drop_last()) =~= Seq::<EntryModel>::empty());
    assert(resolve_model(ps, true, ls) =~= files.map_values(|f: Seq<char>| EntryModel::Target(f)));
}

/// Law: a path whose lookup failed resolves to exactly one entry, an error
/// carrying the path and the cause; the resolver never refuses such a path.
pub proof fn lemma_resolve_missing(path: Seq<char>, cause: Seq<char>, recursive: bool)
    requires
        !is_stdin_path(path),
    ensures
        resolve_model(seq![path], recursive, seq![(LookupModel::LookupFailed { cause })]) =~= seq![
            EntryModel::Failure(ErrorModel::NotFound { path, cause }),
        ],
{
    let ps = seq![path];
    let ls = seq![(LookupModel::LookupFailed { cause })];
    assert(ps.drop_last() =~= Seq::<Seq<char>>::empty());
    assert(ls.drop_last() =~= Seq::<LookupModel>::empty());
    assert(resolve_model(ps.drop_last(), recursive, ls.drop_last()) =~= Seq::<EntryModel>::empty());
}

} // verus!
