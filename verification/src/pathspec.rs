//! From the paths a user names to the files they stand for: listing a
//! directory tree, expanding and deduplicating path arguments, and
//! keeping the paths that lie in given subtrees.

use crate::error::RepoError;
use crate::path::{
    file_name, is_sub_of_paths, join, spec_file_name, spec_is_sub_of_paths, spec_is_sub_path,
    spec_join, spec_to_relative,
};
use crate::repo::{
    contains_text, to_workdir_path, workdir_to_absolute, working_dir, RepoContext, ROOT_DIR,
};
use crate::text::texts;
use vstd::prelude::*;
use vstd::string::StringExecFns;

verus! {

/// What a directory entry is, as far as listing goes: a directory with
/// its entries, or anything else.
#[derive(Debug)]
pub enum FsNode {
    File,
    Dir(Vec<DirEntry>),
}

/// One entry of a directory: its name and what it is.
#[derive(Debug)]
pub struct DirEntry {
    pub name: String,
    pub node: FsNode,
}

/// A path argument, told apart by what was found at it: a directory that
/// exists, with its tree, or a path that is taken literally (a file, or
/// nothing at all).
#[derive(Debug)]
pub enum PathSpec {
    Directory { path: String, entries: Vec<DirEntry> },
    LiteralPath { path: String },
}

/// The files below the directory `dir`, each relative to `workdir`, in
/// the order of a depth-first walk. A control directory holds none.
/// `None` where a file's path cannot be made relative.
pub open spec fn spec_list_dir(
    cwd: Seq<char>,
    workdir: Seq<char>,
    dir: Seq<char>,
    entries: Seq<DirEntry>,
) -> Option<Seq<Seq<char>>>
    decreases entries, entries.len() + 1,
{
    if spec_file_name(dir) == ROOT_DIR@ {
        Some(Seq::empty())
    } else {
        spec_list_entries(cwd, workdir, dir, entries, entries.len())
    }
}

/// The files that the first `n` entries of `dir` contribute.
pub open spec fn spec_list_entries(
    cwd: Seq<char>,
    workdir: Seq<char>,
    dir: Seq<char>,
    entries: Seq<DirEntry>,
    n: nat,
) -> Option<Seq<Seq<char>>>
    decreases entries, n,
{
    if n == 0 || n > entries.len() {
        Some(Seq::empty())
    } else {
        match spec_list_entries(cwd, workdir, dir, entries, (n - 1) as nat) {
            None => None,
            Some(before) => {
                let entry = entries[n - 1];
                let path = spec_join(dir, entry.name@);
                match entry.node {
                    FsNode::File => match spec_to_relative(cwd, path, workdir) {
                        None => None,
                        Some(rel) => Some(before.push(rel)),
                    },
                    FsNode::Dir(sub) => match spec_list_dir(cwd, workdir, path, sub@) {
                        None => None,
                        Some(files) => Some(before + files),
                    },
                }
            },
        }
    }
}

/// The files below `path`, where `node` says what `path` holds; anything
/// but a directory holds none.
pub open spec fn spec_list_files(
    cwd: Seq<char>,
    workdir: Seq<char>,
    path: Seq<char>,
    node: FsNode,
) -> Option<Seq<Seq<char>>> {
    match node {
        FsNode::File => Some(Seq::empty()),
        FsNode::Dir(entries) => spec_list_dir(cwd, workdir, path, entries@),
    }
}

/// Every file below the directory `dir`, whose entries are `entries`,
/// relative to the working directory. Nothing inside a control directory
/// is listed, wherever it lies.
pub fn list_dir_files(ctx: &RepoContext, dir: &str, entries: &Vec<DirEntry>) -> (files: Result<
    Vec<String>,
    RepoError,
>)
    ensures
        match files {
            Ok(fs) => spec_list_dir(ctx.cwd@, ctx.spec_workdir(), dir@, entries@) == Some(
                texts(fs@),
            ),
            Err(e) => e == RepoError::PathConversion && spec_list_dir(
                ctx.cwd@,
                ctx.spec_workdir(),
                dir@,
                entries@,
            ).is_none(),
        },
    decreases entries,
{
    let mut files: Vec<String> = Vec::new();
    if file_name(dir) == String::from_str(ROOT_DIR) {
        assert(texts(files@) == Seq::<Seq<char>>::empty());
        return Ok(files);
    }
    let mut i: usize = 0;
    assert(texts(files@) == Seq::<Seq<char>>::empty());
    while i < entries.len()
        invariant
            i <= entries.len(),
            spec_file_name(dir@) != ROOT_DIR@,
            spec_list_entries(ctx.cwd@, ctx.spec_workdir(), dir@, entries@, i as nat) == Some(
                texts(files@),
            ),
        decreases entries.len() - i,
    {
        let ghost before = texts(files@);
        let path = join(dir, entries[i].name.as_str());
        match &entries[i].node {
            FsNode::File => {
                match to_workdir_path(ctx, path.as_str()) {
                    Ok(rel) => {
                        files.push(rel);
                        assert(texts(files@) == before.push(rel@));
                    },
                    Err(e) => {
                        assert(spec_list_entries(
                            ctx.cwd@,
                            ctx.spec_workdir(),
                            dir@,
                            entries@,
                            (i + 1) as nat,
                        ).is_none());
                        proof {
                            lemma_list_entries_failure(
                                ctx.cwd@,
                                ctx.spec_workdir(),
                                dir@,
                                entries@,
                                (i + 1) as nat,
                                entries.len() as nat,
                            );
                        }
                        return Err(e);
                    },
                }
            },
            FsNode::Dir(sub) => {
                match list_dir_files(ctx, path.as_str(), sub) {
                    Ok(mut found) => {
                        let ghost added = texts(found@);
                        files.append(&mut found);
                        assert(texts(files@) == before + added);
                    },
                    Err(e) => {
                        assert(spec_list_entries(
                            ctx.cwd@,
                            ctx.spec_workdir(),
                            dir@,
                            entries@,
                            (i + 1) as nat,
                        ).is_none());
                        proof {
                            lemma_list_entries_failure(
                                ctx.cwd@,
                                ctx.spec_workdir(),
                                dir@,
                                entries@,
                                (i + 1) as nat,
                                entries.len() as nat,
                            );
                        }
                        return Err(e);
                    },
                }
            },
        }
        i += 1;
    }
    Ok(files)
}

/// Once the first `n` entries fail to list, so do the first `m` for
/// every `m` from `n` on.
pub proof fn lemma_list_entries_failure(
    cwd: Seq<char>,
    workdir: Seq<char>,
    dir: Seq<char>,
    entries: Seq<DirEntry>,
    n: nat,
    m: nat,
)
    requires
        1 <= n <= m <= entries.len(),
        spec_list_entries(cwd, workdir, dir, entries, n).is_none(),
    ensures
        spec_list_entries(cwd, workdir, dir, entries, m).is_none(),
    decreases m - n,
{
    if n < m {
        lemma_list_entries_failure(cwd, workdir, dir, entries, n, (m - 1) as nat);
    }
}

/// Every file below `path`, relative to the working directory, where
/// `node` tells what was found at `path`. A path that is no directory
/// holds no files.
pub fn list_files(ctx: &RepoContext, path: &str, node: &FsNode) -> (files: Result<
    Vec<String>,
    RepoError,
>)
    ensures
        match files {
            Ok(fs) => spec_list_files(ctx.cwd@, ctx.spec_workdir(), path@, *node) == Some(
                texts(fs@),
            ),
            Err(e) => e == RepoError::PathConversion && spec_list_files(
                ctx.cwd@,
                ctx.spec_workdir(),
                path@,
                *node,
            ).is_none(),
        },
{
    match node {
        FsNode::File => {
            let files: Vec<String> = Vec::new();
            assert(texts(files@) == Seq::<Seq<char>>::empty());
            Ok(files)
        },
        FsNode::Dir(entries) => list_dir_files(ctx, path, entries),
    }
}

/// Every file of the working directory, whose entries are `entries`.
pub fn list_workdir_files(ctx: &RepoContext, entries: &Vec<DirEntry>) -> (files: Result<
    Vec<String>,
    RepoError,
>)
    ensures
        match files {
            Ok(fs) => spec_list_dir(
                ctx.cwd@,
                ctx.spec_workdir(),
                ctx.spec_workdir(),
                entries@,
            ) == Some(texts(fs@)),
            Err(e) => e == RepoError::PathConversion && spec_list_dir(
                ctx.cwd@,
                ctx.spec_workdir(),
                ctx.spec_workdir(),
                entries@,
            ).is_none(),
        },
{
    let workdir = working_dir(ctx);
    list_dir_files(ctx, workdir.as_str(), entries)
}

/// `all` with each path kept where it first occurs and dropped where it
/// occurs again.
pub open spec fn dedup(all: Seq<Seq<char>>) -> Seq<Seq<char>>
    decreases all.len(),
{
    if all.len() == 0 {
        Seq::empty()
    } else {
        let front = dedup(all.drop_last());
        if front.contains(all.last()) {
            front
        } else {
            front.push(all.last())
        }
    }
}

/// Deduplication yields a set: no path occurs twice in it, and it holds
/// exactly the paths that were given.
pub proof fn lemma_dedup_is_set(all: Seq<Seq<char>>)
    ensures
        dedup(all).no_duplicates(),
        forall|p: Seq<char>| dedup(all).contains(p) <==> all.contains(p),
    decreases all.len(),
{
    if all.len() > 0 {
        let front = all.drop_last();
        lemma_dedup_is_set(front);
        let kept = dedup(front);
        assert forall|p: Seq<char>| dedup(all).contains(p) <==> all.contains(p) by {
            if all.contains(p) {
                let i = choose|i: int| 0 <= i < all.len() && all[i] == p;
                if i < front.len() {
                    assert(front[i] == p);
                    assert(front.contains(p));
                    assert(kept.contains(p));
                    let k = choose|k: int| 0 <= k < kept.len() && kept[k] == p;
                    if !kept.contains(all.last()) {
                        assert(kept.push(all.last())[k] == p);
                    }
                } else {
                    assert(p == all.last());
                    if !kept.contains(all.last()) {
                        assert(kept.push(all.last())[kept.len() as int] == p);
                    }
                }
            }
            if dedup(all).contains(p) {
                let k = choose|k: int| 0 <= k < dedup(all).len() && dedup(all)[k] == p;
                if k < kept.len() {
                    assert(kept[k] == p);
                    assert(front.contains(p));
                    let i = choose|i: int| 0 <= i < front.len() && front[i] == p;
                    assert(all[i] == p);
                } else {
                    assert(all[all.len() - 1] == p);
                }
            }
        }
    }
}

/// The files that one path argument stands for: those below a directory,
/// or the literal path itself, relative to the working directory.
pub open spec fn spec_expand(cwd: Seq<char>, workdir: Seq<char>, input: PathSpec) -> Option<
    Seq<Seq<char>>,
> {
    match input {
        PathSpec::Directory { path, entries } => spec_list_dir(cwd, workdir, path@, entries@),
        PathSpec::LiteralPath { path } => match spec_to_relative(cwd, path@, workdir) {
            None => None,
            Some(rel) => Some(seq![rel]),
        },
    }
}

/// What the first `n` arguments stand for, one after the other.
pub open spec fn spec_expand_all(
    cwd: Seq<char>,
    workdir: Seq<char>,
    inputs: Seq<PathSpec>,
    n: nat,
) -> Option<Seq<Seq<char>>>
    decreases n,
{
    if n == 0 || n > inputs.len() {
        Some(Seq::empty())
    } else {
        match spec_expand_all(cwd, workdir, inputs, (n - 1) as nat) {
            None => None,
            Some(before) => match spec_expand(cwd, workdir, inputs[n - 1]) {
                None => None,
                Some(files) => Some(before + files),
            },
        }
    }
}

/// The set of files that the arguments stand for, each once, in the
/// order in which they are first met.
pub open spec fn spec_integrate(cwd: Seq<char>, workdir: Seq<char>, inputs: Seq<PathSpec>) -> Option<
    Seq<Seq<char>>,
> {
    match spec_expand_all(cwd, workdir, inputs, inputs.len()) {
        None => None,
        Some(all) => Some(dedup(all)),
    }
}

/// Once the first `n` arguments fail to expand, so do the first `m` for
/// every `m` from `n` on.
pub proof fn lemma_expand_all_failure(
    cwd: Seq<char>,
    workdir: Seq<char>,
    inputs: Seq<PathSpec>,
    n: nat,
    m: nat,
)
    requires
        1 <= n <= m <= inputs.len(),
        spec_expand_all(cwd, workdir, inputs, n).is_none(),
    ensures
        spec_expand_all(cwd, workdir, inputs, m).is_none(),
    decreases m - n,
{
    if n < m {
        lemma_expand_all_failure(cwd, workdir, inputs, n, (m - 1) as nat);
    }
}

/// The files that one argument stands for.
pub fn expand_pathspec(ctx: &RepoContext, input: &PathSpec) -> (files: Result<
    Vec<String>,
    RepoError,
>)
    ensures
        match files {
            Ok(fs) => spec_expand(ctx.cwd@, ctx.spec_workdir(), *input) == Some(texts(fs@)),
            Err(e) => e == RepoError::PathConversion && spec_expand(
                ctx.cwd@,
                ctx.spec_workdir(),
                *input,
            ).is_none(),
        },
{
    match input {
        PathSpec::Directory { path, entries } => list_dir_files(ctx, path.as_str(), entries),
        PathSpec::LiteralPath { path } => match to_workdir_path(ctx, path.as_str()) {
            Ok(rel) => {
                let mut files: Vec<String> = Vec::new();
                files.push(rel);
                assert(texts(files@) == seq![rel@]);
                Ok(files)
            },
            Err(e) => Err(e),
        },
    }
}

/// Adds to `out` each path of `files` that it does not hold yet.
fn extend_unique(out: &mut Vec<String>, files: Vec<String>, Ghost(seen): Ghost<
    Seq<Seq<char>>,
>)
    requires
        texts(old(out)@) == dedup(seen),
    ensures
        texts(final(out)@) == dedup(seen + texts(files@)),
{
    let mut files = files;
    let ghost added = texts(files@);
    let mut j: usize = 0;
    assert(seen + added.take(0) == seen);
    while j < files.len()
        invariant
            j <= files.len(),
            added == texts(files@),
            texts(out@) == dedup(seen + added.take(j as int)),
        decreases files.len() - j,
    {
        let ghost sofar = seen + added.take(j as int);
        let ghost kept = texts(out@);
        proof {
            let next = seen + added.take(j + 1);
            assert(next.drop_last() == sofar);
            assert(next.last() == files@[j as int]@);
        }
        let file = files[j].clone();
        if !contains_text(out, &file) {
            out.push(file);
            assert(texts(out@) == kept.push(file@));
        }
        j += 1;
    }
    assert(added.take(files.len() as int) == added);
}

/// The working-directory paths of all files that the arguments name: a
/// directory stands for every file below it, any other path for itself,
/// whether it exists or not. Each file is there once.
pub fn integrate_pathspec(ctx: &RepoContext, inputs: &Vec<PathSpec>) -> (files: Result<
    Vec<String>,
    RepoError,
>)
    ensures
        match files {
            Ok(fs) => spec_integrate(ctx.cwd@, ctx.spec_workdir(), inputs@) == Some(texts(fs@))
                && texts(fs@).no_duplicates(),
            Err(e) => e == RepoError::PathConversion && spec_integrate(
                ctx.cwd@,
                ctx.spec_workdir(),
                inputs@,
            ).is_none(),
        },
{
    let mut out: Vec<String> = Vec::new();
    let ghost mut seen: Seq<Seq<char>> = Seq::empty();
    let mut i: usize = 0;
    assert(texts(out@) == dedup(seen));
    while i < inputs.len()
        invariant
            i <= inputs.len(),
            spec_expand_all(ctx.cwd@, ctx.spec_workdir(), inputs@, i as nat) == Some(seen),
            texts(out@) == dedup(seen),
        decreases inputs.len() - i,
    {
        match expand_pathspec(ctx, &inputs[i]) {
            Ok(found) => {
                let ghost added = texts(found@);
                extend_unique(&mut out, found, Ghost(seen));
                proof {
                    seen = seen + added;
                }
            },
            Err(e) => {
                proof {
                    assert(spec_expand_all(
                        ctx.cwd@,
                        ctx.spec_workdir(),
                        inputs@,
                        (i + 1) as nat,
                    ).is_none());
                    lemma_expand_all_failure(
                        ctx.cwd@,
                        ctx.spec_workdir(),
                        inputs@,
                        (i + 1) as nat,
                        inputs.len() as nat,
                    );
                }
                return Err(e);
            },
        }
        i += 1;
    }
    proof {
        lemma_dedup_is_set(seen);
    }
    Ok(out)
}

/// Whether the working-directory path `path` lies in one of the
/// subtrees `fit`.
pub open spec fn spec_fits(cwd: Seq<char>, workdir: Seq<char>, path: Seq<char>, fit: Seq<Seq<char>>) -> Option<
    bool,
> {
    spec_is_sub_of_paths(cwd, spec_join(workdir, path), fit)
}

/// The first `n` of `paths` without those that lie in no subtree of
/// `fit`; `None` where one of the questions has no answer.
pub open spec fn spec_filter(
    cwd: Seq<char>,
    workdir: Seq<char>,
    paths: Seq<Seq<char>>,
    fit: Seq<Seq<char>>,
    n: nat,
) -> Option<Seq<Seq<char>>>
    decreases n,
{
    if n == 0 || n > paths.len() {
        Some(Seq::empty())
    } else {
        match spec_filter(cwd, workdir, paths, fit, (n - 1) as nat) {
            None => None,
            Some(kept) => match spec_fits(cwd, workdir, paths[n - 1], fit) {
                None => None,
                Some(true) => Some(kept.push(paths[n - 1])),
                Some(false) => Some(kept),
            },
        }
    }
}

/// Once the first `n` paths cannot be filtered, neither can the first
/// `m` for every `m` from `n` on.
pub proof fn lemma_filter_failure(
    cwd: Seq<char>,
    workdir: Seq<char>,
    paths: Seq<Seq<char>>,
    fit: Seq<Seq<char>>,
    n: nat,
    m: nat,
)
    requires
        1 <= n <= m <= paths.len(),
        spec_filter(cwd, workdir, paths, fit, n).is_none(),
    ensures
        spec_filter(cwd, workdir, paths, fit, m).is_none(),
    decreases m - n,
{
    if n < m {
        lemma_filter_failure(cwd, workdir, paths, fit, n, (m - 1) as nat);
    }
}

/// Where filtering succeeds, every question had an answer, and what is
/// kept are exactly the paths that lie in a subtree, in their order.
pub proof fn lemma_filter_is_selection(
    cwd: Seq<char>,
    workdir: Seq<char>,
    paths: Seq<Seq<char>>,
    fit: Seq<Seq<char>>,
    n: nat,
)
    requires
        n <= paths.len(),
        spec_filter(cwd, workdir, paths, fit, n).is_some(),
    ensures
        forall|i: int| 0 <= i < n ==> spec_fits(cwd, workdir, #[trigger] paths[i], fit).is_some(),
        spec_filter(cwd, workdir, paths, fit, n).unwrap() == paths.take(n as int).filter(
            |p: Seq<char>| spec_fits(cwd, workdir, p, fit) == Some(true),
        ),
    decreases n,
{
    let pred = |p: Seq<char>| spec_fits(cwd, workdir, p, fit) == Some(true);
    if n == 0 {
        assert(paths.take(0).filter(pred) == Seq::<Seq<char>>::empty()) by {
            reveal(Seq::filter);
        }
    } else {
        lemma_filter_is_selection(cwd, workdir, paths, fit, (n - 1) as nat);
        assert(paths.take(n as int).drop_last() == paths.take(n - 1));
        assert(paths.take(n as int).last() == paths[n - 1]);
        reveal(Seq::filter);
    }
}

/// A path that is one of the subtrees is kept: to lie in a subtree
/// includes being its root.
pub proof fn lemma_sub_of_paths_holds_member(
    cwd: Seq<char>,
    path: Seq<char>,
    fit: Seq<Seq<char>>,
)
    requires
        fit.contains(path),
        spec_is_sub_of_paths(cwd, path, fit).is_some(),
    ensures
        spec_is_sub_of_paths(cwd, path, fit) == Some(true),
    decreases fit.len(),
{
    if fit[0] == path {
    } else {
        let i = choose|i: int| 0 <= i < fit.len() && fit[i] == path;
        assert(fit.drop_first()[i - 1] == path);
        if spec_is_sub_path(cwd, path, fit[0]) == Some(false) {
            lemma_sub_of_paths_holds_member(cwd, path, fit.drop_first());
        }
    }
}

/// The paths of `paths`, given relative to the working directory, that
/// are one of `fit_paths` or lie below one of them. Existence is not
/// checked.
pub fn filter_to_fit_paths(ctx: &RepoContext, paths: &Vec<String>, fit_paths: &Vec<String>) -> (kept:
    Result<Vec<String>, RepoError>)
    ensures
        match kept {
            Ok(k) => spec_filter(
                ctx.cwd@,
                ctx.spec_workdir(),
                texts(paths@),
                texts(fit_paths@),
                paths.len() as nat,
            ) == Some(texts(k@)),
            Err(e) => e == RepoError::PathConversion && spec_filter(
                ctx.cwd@,
                ctx.spec_workdir(),
                texts(paths@),
                texts(fit_paths@),
                paths.len() as nat,
            ).is_none(),
        },
{
    let mut kept: Vec<String> = Vec::new();
    let mut i: usize = 0;
    assert(texts(kept@) == Seq::<Seq<char>>::empty());
    while i < paths.len()
        invariant
            i <= paths.len(),
            spec_filter(
                ctx.cwd@,
                ctx.spec_workdir(),
                texts(paths@),
                texts(fit_paths@),
                i as nat,
            ) == Some(texts(kept@)),
        decreases paths.len() - i,
    {
        let ghost before = texts(kept@);
        assert(texts(paths@)[i as int] == paths@[i as int]@);
        let abs = workdir_to_absolute(ctx, paths[i].as_str());
        match is_sub_of_paths(ctx.cwd.as_str(), abs.as_str(), fit_paths) {
            Ok(true) => {
                let path = paths[i].clone();
                kept.push(path);
                assert(texts(kept@) == before.push(paths@[i as int]@));
            },
            Ok(false) => {},
            Err(e) => {
                proof {
                    assert(spec_filter(
                        ctx.cwd@,
                        ctx.spec_workdir(),
                        texts(paths@),
                        texts(fit_paths@),
                        (i + 1) as nat,
                    ).is_none());
                    lemma_filter_failure(
                        ctx.cwd@,
                        ctx.spec_workdir(),
                        texts(paths@),
                        texts(fit_paths@),
                        (i + 1) as nat,
                        paths.len() as nat,
                    );
                }
                return Err(e);
            },
        }
        i += 1;
    }
    Ok(kept)
}

} // verus!
