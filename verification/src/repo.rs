//! Finding the repository that holds a directory, and the path
//! conversions that hang on where it was found.

use crate::error::RepoError;
use crate::path::{
    is_cur_dir, is_sub_path, join, lemma_parent_shorter, parent, spec_is_cur_dir,
    spec_is_sub_path, spec_join, spec_parent, spec_to_relative, to_relative,
};
use crate::text::texts;
use vstd::prelude::*;

verus! {

/// The name of the control directory that marks a repository's root.
pub const ROOT_DIR: &'static str = ".libra";

/// The name of the database file inside the control directory.
pub const DATABASE: &'static str = "libra.db";

/// The control directories that a search from `cwd` looks for: that of
/// `cwd` itself, then that of each directory above it, up to the root.
pub open spec fn spec_candidates(cwd: Seq<char>) -> Seq<Seq<char>>
    decreases cwd.len(),
{
    match spec_parent(cwd) {
        None => seq![spec_join(cwd, ROOT_DIR@)],
        Some(dir) => {
            proof {
                lemma_parent_shorter(cwd);
            }
            seq![spec_join(cwd, ROOT_DIR@)] + spec_candidates(dir)
        },
    }
}

/// The control directory of the repository that holds `cwd`: the nearest
/// one, going upwards, that is among `existing`.
pub open spec fn spec_locate(cwd: Seq<char>, existing: Seq<Seq<char>>) -> Option<Seq<char>>
    decreases cwd.len(),
{
    if existing.contains(spec_join(cwd, ROOT_DIR@)) {
        Some(spec_join(cwd, ROOT_DIR@))
    } else {
        match spec_parent(cwd) {
            None => None,
            Some(dir) => {
                proof {
                    lemma_parent_shorter(cwd);
                }
                spec_locate(dir, existing)
            },
        }
    }
}

/// The search finds the first candidate that exists and passes over none
/// that does; it fails only where no candidate exists.
pub proof fn lemma_locate_is_nearest(cwd: Seq<char>, existing: Seq<Seq<char>>)
    ensures
        match spec_locate(cwd, existing) {
            Some(found) => exists|k: int|
                0 <= k < spec_candidates(cwd).len() && #[trigger] spec_candidates(cwd)[k] == found
                    && existing.contains(found) && forall|j: int|
                    0 <= j < k ==> !existing.contains(#[trigger] spec_candidates(cwd)[j]),
            None => forall|j: int|
                0 <= j < spec_candidates(cwd).len() ==> !existing.contains(
                    #[trigger] spec_candidates(cwd)[j],
                ),
        },
    decreases cwd.len(),
{
    let here = spec_join(cwd, ROOT_DIR@);
    let all = spec_candidates(cwd);
    assert(all[0] == here);
    if existing.contains(here) {
    } else {
        match spec_parent(cwd) {
            None => {},
            Some(dir) => {
                lemma_parent_shorter(cwd);
                lemma_locate_is_nearest(dir, existing);
                let above = spec_candidates(dir);
                assert(forall|j: int| 0 <= j < above.len() ==> all[j + 1] == above[j]);
                match spec_locate(dir, existing) {
                    Some(found) => {
                        let k = choose|k: int|
                            0 <= k < above.len() && #[trigger] above[k] == found
                                && existing.contains(found) && forall|j: int|
                                0 <= j < k ==> !existing.contains(#[trigger] above[j]);
                        assert(all[k + 1] == found);
                        assert forall|j: int| 0 <= j < k + 1 implies !existing.contains(
                            #[trigger] all[j],
                        ) by {
                            if j > 0 {
                                assert(all[j] == above[j - 1]);
                            }
                        }
                    },
                    None => {
                        assert forall|j: int| 0 <= j < all.len() implies !existing.contains(
                            #[trigger] all[j],
                        ) by {
                            if j > 0 {
                                assert(all[j] == above[j - 1]);
                            }
                        }
                    },
                }
            },
        }
    }
}

/// Whether `list` holds a string with the text of `wanted`.
pub fn contains_text(list: &Vec<String>, wanted: &String) -> (found: bool)
    ensures
        found == texts(list@).contains(wanted@),
{
    let mut i: usize = 0;
    while i < list.len()
        invariant
            i <= list.len(),
            forall|k: int| 0 <= k < i ==> texts(list@)[k] != wanted@,
        decreases list.len() - i,
    {
        if list[i] == *wanted {
            assert(texts(list@)[i as int] == wanted@);
            return true;
        }
        i += 1;
    }
    false
}

/// The control directories to look for when searching from `cwd`,
/// nearest first.
pub fn storage_candidates(cwd: &str) -> (out: Vec<String>)
    ensures
        texts(out@) == spec_candidates(cwd@),
{
    let mut out: Vec<String> = Vec::new();
    let mut dir = cwd.to_owned();
    loop
        invariant
            spec_candidates(cwd@) == texts(out@) + spec_candidates(dir@),
        decreases dir@.len(),
    {
        let ghost before = texts(out@);
        let ghost rest = spec_candidates(dir@);
        out.push(join(dir.as_str(), ROOT_DIR));
        assert(texts(out@) == before.push(spec_join(dir@, ROOT_DIR@)));
        match parent(dir.as_str()) {
            None => {
                assert(texts(out@) == before + rest);
                return out;
            },
            Some(up) => {
                proof {
                    lemma_parent_shorter(dir@);
                    assert(before + rest == texts(out@) + spec_candidates(up@));
                }
                dir = up;
            },
        }
    }
}

/// The control directory of the repository that holds `cwd`, where
/// `existing` lists the control directories that are there. Fails with
/// `NotARepository` when the root is reached without finding one.
pub fn try_get_storage_path(cwd: &str, existing: &Vec<String>) -> (found: Result<
    String,
    RepoError,
>)
    ensures
        match found {
            Ok(p) => spec_locate(cwd@, texts(existing@)) == Some(p@),
            Err(e) => e == RepoError::NotARepository && spec_locate(
                cwd@,
                texts(existing@),
            ).is_none(),
        },
{
    let mut dir = cwd.to_owned();
    loop
        invariant
            spec_locate(cwd@, texts(existing@)) == spec_locate(dir@, texts(existing@)),
        decreases dir@.len(),
    {
        let candidate = join(dir.as_str(), ROOT_DIR);
        if contains_text(existing, &candidate) {
            return Ok(candidate);
        }
        match parent(dir.as_str()) {
            None => {
                return Err(RepoError::NotARepository);
            },
            Some(up) => {
                proof {
                    lemma_parent_shorter(dir@);
                }
                dir = up;
            },
        }
    }
}

/// Whether `cwd` lies in a repository.
pub fn check_repo_exist(cwd: &str, existing: &Vec<String>) -> (yes: bool)
    ensures
        yes == spec_locate(cwd@, texts(existing@)).is_some(),
{
    try_get_storage_path(cwd, existing).is_ok()
}

/// What one command knows of where it runs: the current directory and
/// the control directory of the repository around it.
#[derive(Clone, Debug)]
pub struct RepoContext {
    pub cwd: String,
    pub storage: String,
}

/// The directory that holds the control directory `storage`.
pub open spec fn spec_working_dir(storage: Seq<char>) -> Seq<char> {
    match spec_parent(storage) {
        Some(dir) => dir,
        None => storage,
    }
}

impl RepoContext {
    /// The working directory of this repository.
    pub open spec fn spec_workdir(self) -> Seq<char> {
        spec_working_dir(self.storage@)
    }

    /// The context of a command run in `cwd`, or `NotARepository`.
    pub fn locate(cwd: &str, existing: &Vec<String>) -> (ctx: Result<RepoContext, RepoError>)
        ensures
            match ctx {
                Ok(c) => c.cwd@ == cwd@ && spec_locate(cwd@, texts(existing@)) == Some(
                    c.storage@,
                ),
                Err(e) => e == RepoError::NotARepository && spec_locate(
                    cwd@,
                    texts(existing@),
                ).is_none(),
            },
    {
        match try_get_storage_path(cwd, existing) {
            Ok(storage) => Ok(RepoContext { cwd: cwd.to_owned(), storage }),
            Err(e) => Err(e),
        }
    }
}

/// The control directory of the repository.
pub fn storage_path(ctx: &RepoContext) -> (path: String)
    ensures
        path@ == ctx.storage@,
{
    ctx.storage.clone()
}

/// The working directory of the repository: the directory that holds
/// its control directory.
pub fn working_dir(ctx: &RepoContext) -> (dir: String)
    ensures
        dir@ == ctx.spec_workdir(),
{
    match parent(ctx.storage.as_str()) {
        Some(dir) => dir,
        None => ctx.storage.clone(),
    }
}

/// The working directory of the repository, as text.
pub fn working_dir_string(ctx: &RepoContext) -> (dir: String)
    ensures
        dir@ == ctx.spec_workdir(),
{
    working_dir(ctx)
}

/// `path` relative to the working directory. Existence is not checked.
pub fn to_workdir_path(ctx: &RepoContext, path: &str) -> (rel: Result<String, RepoError>)
    ensures
        match rel {
            Ok(r) => spec_to_relative(ctx.cwd@, path@, ctx.spec_workdir()) == Some(r@),
            Err(e) => e == RepoError::PathConversion && spec_to_relative(
                ctx.cwd@,
                path@,
                ctx.spec_workdir(),
            ).is_none(),
        },
{
    let workdir = working_dir(ctx);
    to_relative(ctx.cwd.as_str(), path, workdir.as_str())
}

/// A path given relative to the working directory, below that directory.
pub fn workdir_to_absolute(ctx: &RepoContext, path: &str) -> (abs: String)
    ensures
        abs@ == spec_join(ctx.spec_workdir(), path@),
{
    let workdir = working_dir(ctx);
    join(workdir.as_str(), path)
}

/// `path` relative to the current directory.
pub fn to_current_dir(ctx: &RepoContext, path: &str) -> (rel: Result<String, RepoError>)
    ensures
        match rel {
            Ok(r) => spec_to_relative(ctx.cwd@, path@, ctx.cwd@) == Some(r@),
            Err(e) => e == RepoError::PathConversion && spec_to_relative(
                ctx.cwd@,
                path@,
                ctx.cwd@,
            ).is_none(),
        },
{
    to_relative(ctx.cwd.as_str(), path, ctx.cwd.as_str())
}

/// A path given relative to the working directory, relative to `base`.
pub fn workdir_to_relative(ctx: &RepoContext, path: &str, base: &str) -> (rel: Result<
    String,
    RepoError,
>)
    ensures
        match rel {
            Ok(r) => spec_to_relative(
                ctx.cwd@,
                spec_join(ctx.spec_workdir(), path@),
                base@,
            ) == Some(r@),
            Err(e) => e == RepoError::PathConversion && spec_to_relative(
                ctx.cwd@,
                spec_join(ctx.spec_workdir(), path@),
                base@,
            ).is_none(),
        },
{
    let path_abs = workdir_to_absolute(ctx, path);
    to_relative(ctx.cwd.as_str(), path_abs.as_str(), base)
}

/// A path given relative to the working directory, relative to the
/// current directory.
pub fn workdir_to_current(ctx: &RepoContext, path: &str) -> (rel: Result<String, RepoError>)
    ensures
        match rel {
            Ok(r) => spec_to_relative(
                ctx.cwd@,
                spec_join(ctx.spec_workdir(), path@),
                ctx.cwd@,
            ) == Some(r@),
            Err(e) => e == RepoError::PathConversion && spec_to_relative(
                ctx.cwd@,
                spec_join(ctx.spec_workdir(), path@),
                ctx.cwd@,
            ).is_none(),
        },
{
    workdir_to_relative(ctx, path, ctx.cwd.as_str())
}

/// `head` before what `tail` holds, where it holds anything.
pub open spec fn spec_prepend(head: Seq<Seq<char>>, tail: Option<Seq<Seq<char>>>) -> Option<
    Seq<Seq<char>>,
> {
    match tail {
        None => None,
        Some(rest) => Some(head + rest),
    }
}

/// The directories, from `dir` upwards, that may be removed when they are
/// found empty: the chain ends before the first directory that holds the
/// control directory `storage` or is the current directory. `None` where
/// a path met on the way has no absolute form.
pub open spec fn spec_clearable(cwd: Seq<char>, storage: Seq<char>, dir: Seq<char>) -> Option<
    Seq<Seq<char>>,
>
    decreases dir.len(),
{
    match spec_is_sub_path(cwd, storage, dir) {
        None => None,
        Some(true) => Some(Seq::empty()),
        Some(false) => match spec_is_cur_dir(cwd, dir) {
            None => None,
            Some(true) => Some(Seq::empty()),
            Some(false) => match spec_parent(dir) {
                None => Some(seq![dir]),
                Some(up) => {
                    proof {
                        lemma_parent_shorter(dir);
                    }
                    spec_prepend(seq![dir], spec_clearable(cwd, storage, up))
                },
            },
        },
    }
}

/// No directory to clear holds the repository or is the current
/// directory.
pub proof fn lemma_clearable_spares(cwd: Seq<char>, storage: Seq<char>, dir: Seq<char>)
    ensures
        spec_clearable(cwd, storage, dir) matches Some(dirs) ==> forall|i: int|
            0 <= i < dirs.len() ==> spec_is_sub_path(cwd, storage, #[trigger] dirs[i]) == Some(false)
                && spec_is_cur_dir(cwd, dirs[i]) == Some(false),
    decreases dir.len(),
{
    if spec_is_sub_path(cwd, storage, dir) == Some(false) && spec_is_cur_dir(cwd, dir) == Some(
        false,
    ) {
        match spec_parent(dir) {
            None => {},
            Some(up) => {
                lemma_parent_shorter(dir);
                lemma_clearable_spares(cwd, storage, up);
                match spec_clearable(cwd, storage, up) {
                    None => {},
                    Some(rest) => {
                        let dirs = seq![dir] + rest;
                        assert forall|i: int| 0 <= i < dirs.len() implies spec_is_sub_path(
                            cwd,
                            storage,
                            #[trigger] dirs[i],
                        ) == Some(false) && spec_is_cur_dir(cwd, dirs[i]) == Some(false) by {
                            if i > 0 {
                                assert(dirs[i] == rest[i - 1]);
                            }
                        }
                    },
                }
            },
        }
    }
}

/// Where the clearing of empty directories starts: at `path` if it is a
/// directory, at the directory that holds it otherwise.
pub open spec fn spec_clear_start(path: Seq<char>, is_dir: bool) -> Option<Seq<char>> {
    if is_dir {
        Some(path)
    } else {
        spec_parent(path)
    }
}

/// The directories to remove, in this order and each only if it is found
/// empty, once `path` is gone: stop at the first that is not empty.
/// Neither the directory that holds the repository nor the current
/// directory is ever among them.
pub fn clearable_dirs(ctx: &RepoContext, path: &str, is_dir: bool) -> (dirs: Result<
    Vec<String>,
    RepoError,
>)
    ensures
        match dirs {
            Ok(ds) => spec_clear_start(path@, is_dir).is_some() && spec_clearable(
                ctx.cwd@,
                ctx.storage@,
                spec_clear_start(path@, is_dir).unwrap(),
            ) == Some(texts(ds@)),
            Err(e) => e == RepoError::PathConversion && (spec_clear_start(path@, is_dir).is_none()
                || spec_clearable(
                ctx.cwd@,
                ctx.storage@,
                spec_clear_start(path@, is_dir).unwrap(),
            ).is_none()),
        },
{
    let start = if is_dir {
        path.to_owned()
    } else {
        match parent(path) {
            Some(dir) => dir,
            None => {
                return Err(RepoError::PathConversion);
            },
        }
    };
    let mut dir = start.clone();
    let mut out: Vec<String> = Vec::new();
    assert(texts(out@) + Seq::<Seq<char>>::empty() == Seq::<Seq<char>>::empty());
    assert(spec_clearable(ctx.cwd@, ctx.storage@, start@) == spec_prepend(
        texts(out@),
        spec_clearable(ctx.cwd@, ctx.storage@, dir@),
    )) by {
        let tail = spec_clearable(ctx.cwd@, ctx.storage@, dir@);
        if tail.is_some() {
            assert(texts(out@) + tail.unwrap() == tail.unwrap());
        }
    }
    loop
        invariant
            spec_clear_start(path@, is_dir) == Some(start@),
            spec_clearable(ctx.cwd@, ctx.storage@, start@) == spec_prepend(
                texts(out@),
                spec_clearable(ctx.cwd@, ctx.storage@, dir@),
            ),
        decreases dir@.len(),
    {
        let ghost before = texts(out@);
        match is_sub_path(ctx.cwd.as_str(), ctx.storage.as_str(), dir.as_str()) {
            Err(e) => {
                return Err(e);
            },
            Ok(true) => {
                assert(before + Seq::<Seq<char>>::empty() == before);
                return Ok(out);
            },
            Ok(false) => {},
        }
        match is_cur_dir(ctx.cwd.as_str(), dir.as_str()) {
            Err(e) => {
                return Err(e);
            },
            Ok(true) => {
                assert(before + Seq::<Seq<char>>::empty() == before);
                return Ok(out);
            },
            Ok(false) => {},
        }
        out.push(dir.clone());
        assert(texts(out@) == before + seq![dir@]);
        match parent(dir.as_str()) {
            None => {
                return Ok(out);
            },
            Some(up) => {
                proof {
                    lemma_parent_shorter(dir@);
                    let tail = spec_clearable(ctx.cwd@, ctx.storage@, up@);
                    if tail.is_some() {
                        assert(before + (seq![dir@] + tail.unwrap()) == texts(out@)
                            + tail.unwrap());
                    }
                }
                dir = up;
            },
        }
    }
}

} // verus!
