//! Paths as text with `/` as the separator: the lexical operations on
//! them, and the conversions between absolute and relative forms.

use crate::error::RepoError;
use crate::text::{chars_of, find_last, last_index_of, lemma_last_index_of, texts};
use vstd::prelude::*;
use vstd::string::{StrSliceExecFns, StringExecFns};

verus! {

/// The separator between the components of a path.
pub const SEPARATOR: char = '/';

/// A path is absolute when it starts at the root.
pub open spec fn is_absolute(path: Seq<char>) -> bool {
    path.len() > 0 && path[0] == SEPARATOR
}

/// `path` without the separators at its end.
pub open spec fn strip_trailing(path: Seq<char>) -> Seq<char>
    decreases path.len(),
{
    if path.len() > 0 && path.last() == SEPARATOR {
        strip_trailing(path.drop_last())
    } else {
        path
    }
}

/// `rel` below `base`: an absolute `rel` stands for itself, and exactly
/// one separator joins the two otherwise.
pub open spec fn spec_join(base: Seq<char>, rel: Seq<char>) -> Seq<char> {
    if is_absolute(rel) || base.len() == 0 {
        rel
    } else if base.last() == SEPARATOR {
        base + rel
    } else {
        base + seq![SEPARATOR] + rel
    }
}

/// The directory that holds `path`: `path` without its last component.
/// The root and the empty path have none.
pub open spec fn spec_parent(path: Seq<char>) -> Option<Seq<char>> {
    let trimmed = strip_trailing(path);
    if trimmed.len() == 0 {
        None
    } else {
        match last_index_of(trimmed, SEPARATOR) {
            None => Some(Seq::empty()),
            Some(i) => {
                let dir = strip_trailing(trimmed.take(i));
                if dir.len() == 0 {
                    Some(seq![SEPARATOR])
                } else {
                    Some(dir)
                }
            },
        }
    }
}

/// The last component of `path`; empty for the root and the empty path.
pub open spec fn spec_file_name(path: Seq<char>) -> Seq<char> {
    let trimmed = strip_trailing(path);
    match last_index_of(trimmed, SEPARATOR) {
        None => trimmed,
        Some(i) => trimmed.skip(i + 1),
    }
}

/// `path` is `parent` itself or lies below it: `parent` is a prefix of
/// `path` that ends where a component of `path` ends.
pub open spec fn spec_nested(path: Seq<char>, parent: Seq<char>) -> bool {
    path == parent || (parent.len() < path.len() && path.take(parent.len() as int) == parent && (
    parent.len() == 0 || parent.last() == SEPARATOR || path[parent.len() as int] == SEPARATOR))
}

/// What `strip_trailing` leaves is a prefix that does not end in a
/// separator, and all that it drops are separators.
pub proof fn lemma_strip_trailing(path: Seq<char>)
    ensures
        strip_trailing(path).len() <= path.len(),
        strip_trailing(path) == path.take(strip_trailing(path).len() as int),
        strip_trailing(path).len() > 0 ==> strip_trailing(path).last() != SEPARATOR,
        forall|i: int| strip_trailing(path).len() <= i < path.len() ==> path[i] == SEPARATOR,
    decreases path.len(),
{
    if path.len() > 0 && path.last() == SEPARATOR {
        let front = path.drop_last();
        lemma_strip_trailing(front);
        let n = strip_trailing(front).len() as int;
        assert(front.take(n) == path.take(n));
        assert forall|i: int| n <= i < path.len() implies path[i] == SEPARATOR by {
            if i < front.len() {
                assert(front[i] == path[i]);
            }
        }
    } else {
        assert(path.take(path.len() as int) == path);
    }
}

/// A parent is strictly shorter than its child, so climbing ends.
pub proof fn lemma_parent_shorter(path: Seq<char>)
    ensures
        spec_parent(path) matches Some(dir) ==> dir.len() < path.len(),
{
    lemma_strip_trailing(path);
    let trimmed = strip_trailing(path);
    if trimmed.len() > 0 {
        lemma_last_index_of(trimmed, SEPARATOR);
        match last_index_of(trimmed, SEPARATOR) {
            None => {},
            Some(i) => {
                lemma_strip_trailing(trimmed.take(i));
            },
        }
    }
}

/// The length of `s[..len]` without the separators at its end.
pub(crate) fn trimmed_len(s: &Vec<char>, len: usize) -> (n: usize)
    requires
        len <= s.len(),
    ensures
        n <= len,
        s@.take(n as int) == strip_trailing(s@.take(len as int)),
{
    let mut n: usize = len;
    while n > 0 && s[n - 1] == SEPARATOR
        invariant
            n <= len <= s.len(),
            strip_trailing(s@.take(len as int)) == strip_trailing(s@.take(n as int)),
        decreases n,
    {
        assert(s@.take(n as int).last() == s@[n - 1]);
        assert(s@.take(n as int).drop_last() == s@.take(n - 1));
        n -= 1;
    }
    proof {
        if n > 0 {
            assert(s@.take(n as int).last() == s@[n - 1]);
        }
    }
    n
}

/// Whether `path` starts at the root.
pub fn path_is_absolute(path: &str) -> (yes: bool)
    ensures
        yes == is_absolute(path@),
{
    !path.is_empty() && path.get_char(0) == SEPARATOR
}

/// `rel` below `base`.
pub fn join(base: &str, rel: &str) -> (joined: String)
    ensures
        joined@ == spec_join(base@, rel@),
{
    proof {
        reveal_strlit("/");
    }
    if path_is_absolute(rel) || base.is_empty() {
        return String::from_str(rel);
    }
    let base_chars = chars_of(base);
    if base_chars[base_chars.len() - 1] == SEPARATOR {
        String::from_str(base).concat(rel)
    } else {
        let joined = String::from_str(base).concat("/").concat(rel);
        assert(joined@ =~= spec_join(base@, rel@));
        joined
    }
}

/// The directory that holds `path`, if it has one.
pub fn parent(path: &str) -> (dir: Option<String>)
    ensures
        match dir {
            Some(d) => spec_parent(path@) == Some(d@),
            None => spec_parent(path@).is_none(),
        },
{
    proof {
        reveal_strlit("/");
    }
    let chars = chars_of(path);
    assert(chars@.take(chars.len() as int) == chars@);
    let n = trimmed_len(&chars, chars.len());
    if n == 0 {
        return None;
    }
    assert(chars@.take(n as int).take(n as int) == chars@.take(n as int));
    match find_last(&chars, n, SEPARATOR) {
        None => Some(String::new()),
        Some(i) => {
            proof {
                lemma_last_index_of(chars@.take(n as int), SEPARATOR);
                assert(chars@.take(n as int).take(i as int) == chars@.take(i as int));
            }
            let m = trimmed_len(&chars, i);
            if m == 0 {
                let root = String::from_str("/");
                assert(root@ =~= seq![SEPARATOR]);
                Some(root)
            } else {
                let dir = String::from_str(path.substring_char(0, m));
                assert(dir@ == chars@.take(m as int));
                Some(dir)
            }
        },
    }
}

/// The last component of `path`.
pub fn file_name(path: &str) -> (name: String)
    ensures
        name@ == spec_file_name(path@),
{
    let chars = chars_of(path);
    assert(chars@.take(chars.len() as int) == chars@);
    let n = trimmed_len(&chars, chars.len());
    match find_last(&chars, n, SEPARATOR) {
        None => {
            let name = String::from_str(path.substring_char(0, n));
            assert(name@ == chars@.take(n as int));
            name
        },
        Some(i) => {
            proof {
                lemma_last_index_of(chars@.take(n as int), SEPARATOR);
            }
            let name = String::from_str(path.substring_char(i + 1, n));
            assert(name@ =~= chars@.take(n as int).skip(i + 1));
            name
        },
    }
}

/// Whether `path` is `parent` or lies below it.
pub fn nested(path: &str, parent: &str) -> (yes: bool)
    ensures
        yes == spec_nested(path@, parent@),
{
    let p = chars_of(path);
    let q = chars_of(parent);
    if q.len() > p.len() {
        return false;
    }
    let mut i: usize = 0;
    while i < q.len()
        invariant
            i <= q.len() <= p.len(),
            p@ == path@,
            q@ == parent@,
            p@.take(i as int) == q@.take(i as int),
        decreases q.len() - i,
    {
        if p[i] != q[i] {
            assert(p@[i as int] != q@[i as int]);
            assert(p@.take(q.len() as int)[i as int] == p@[i as int]);
            assert(path@ != parent@);
            assert(path@.take(parent@.len() as int) != parent@);
            return false;
        }
        assert(p@.take(i + 1) == p@.take(i as int).push(p@[i as int]));
        assert(q@.take(i + 1) == q@.take(i as int).push(q@[i as int]));
        i += 1;
    }
    assert(q@.take(q.len() as int) == q@);
    if q.len() == p.len() {
        assert(p@.take(p.len() as int) == p@);
        return true;
    }
    q.len() == 0 || q[q.len() - 1] == SEPARATOR || p[q.len()] == SEPARATOR
}

/// The absolute, normalised form that `path_abs::PathAbs::new` gives to an
/// absolute path: no `.`, every `..` resolved against the component before
/// it; `None` where a `..` would climb above the root.
pub uninterp spec fn abs_path_of(path: Seq<char>) -> Option<Seq<char>>;

/// The path that `pathdiff::diff_paths` finds to lead from `base` to
/// `path`, if it finds one.
pub uninterp spec fn rel_path_of(path: Seq<char>, base: Seq<char>) -> Option<Seq<char>>;

/// The error of `path_abs`, carried through without being looked into.
#[verifier::external_type_specification]
#[verifier::external_body]
pub struct ExPathAbsError(path_abs::Error);

/// Calls `path_abs::PathAbs::new` on an absolute path, on a host whose
/// paths are rooted at `/`. Trusted: for such a path the outcome depends
/// on the text alone (the working directory is consulted for relative
/// paths only), and is what `abs_path_of` names; the failure is the
/// crate's error for a `..` that leaves the root.
#[verifier::external_body]
fn path_abs_new(path: &str) -> (abs: Result<String, path_abs::Error>)
    requires
        is_absolute(path@),
    ensures
        match abs {
            Ok(p) => abs_path_of(path@) == Some(p@),
            Err(_) => abs_path_of(path@).is_none(),
        },
{
    match path_abs::PathAbs::new(path) {
        Ok(p) => Ok(p.as_path().to_string_lossy().into_owned()),
        Err(e) => Err(e),
    }
}

/// Calls `pathdiff::diff_paths`. Trusted: the outcome depends on the two
/// texts alone and is what `rel_path_of` names.
#[verifier::external_body]
fn diff_paths(path: &str, base: &str) -> (rel: Option<String>)
    ensures
        match rel {
            Some(r) => rel_path_of(path@, base@) == Some(r@),
            None => rel_path_of(path@, base@).is_none(),
        },
{
    match pathdiff::diff_paths(path, base) {
        Some(p) => Some(p.to_string_lossy().into_owned()),
        None => None,
    }
}

/// The absolute form of `path`, a relative one being taken below `cwd`.
/// There is none where `path` is relative and `cwd` is not absolute.
pub open spec fn spec_absolute(cwd: Seq<char>, path: Seq<char>) -> Option<Seq<char>> {
    if is_absolute(path) {
        abs_path_of(path)
    } else if is_absolute(cwd) {
        abs_path_of(spec_join(cwd, path))
    } else {
        None
    }
}

/// `path` as seen from `base`, both taken below `cwd` where relative.
pub open spec fn spec_to_relative(cwd: Seq<char>, path: Seq<char>, base: Seq<char>) -> Option<
    Seq<char>,
> {
    match (spec_absolute(cwd, path), spec_absolute(cwd, base)) {
        (Some(p), Some(b)) => rel_path_of(p, b),
        _ => None,
    }
}

/// Whether `path` is `parent` or lies below it, by their absolute forms.
pub open spec fn spec_is_sub_path(cwd: Seq<char>, path: Seq<char>, parent: Seq<char>) -> Option<
    bool,
> {
    match (spec_absolute(cwd, path), spec_absolute(cwd, parent)) {
        (Some(p), Some(q)) => Some(spec_nested(p, q)),
        _ => None,
    }
}

/// Whether `path` lies in one of `paths`, asked of each in turn up to the
/// first that holds it; `None` where a path met on the way has no
/// absolute form.
pub open spec fn spec_is_sub_of_paths(
    cwd: Seq<char>,
    path: Seq<char>,
    paths: Seq<Seq<char>>,
) -> Option<bool>
    decreases paths.len(),
{
    if paths.len() == 0 {
        Some(false)
    } else {
        match spec_is_sub_path(cwd, path, paths[0]) {
            None => None,
            Some(true) => Some(true),
            Some(false) => spec_is_sub_of_paths(cwd, path, paths.drop_first()),
        }
    }
}

/// Maps the outcome of making a path absolute to this library's error.
pub fn absolute_or_error(abs: Result<String, path_abs::Error>) -> (out: Result<String, RepoError>)
    ensures
        match abs {
            Ok(p) => out == Ok::<String, RepoError>(p),
            Err(_) => out == Err::<String, RepoError>(RepoError::PathConversion),
        },
{
    match abs {
        Ok(p) => Ok(p),
        Err(_) => Err(RepoError::PathConversion),
    }
}

/// A relative path that was found, or the error for two paths that
/// cannot be compared.
pub fn relative_or_error(rel: Option<String>) -> (out: Result<String, RepoError>)
    ensures
        match rel {
            Some(r) => out == Ok::<String, RepoError>(r),
            None => out == Err::<String, RepoError>(RepoError::PathConversion),
        },
{
    match rel {
        Some(r) => Ok(r),
        None => Err(RepoError::PathConversion),
    }
}

/// The absolute, normalised form of `path`; a relative `path` is taken
/// below `cwd`.
pub fn absolute(cwd: &str, path: &str) -> (abs: Result<String, RepoError>)
    ensures
        match abs {
            Ok(p) => spec_absolute(cwd@, path@) == Some(p@),
            Err(e) => e == RepoError::PathConversion && spec_absolute(cwd@, path@).is_none(),
        },
{
    if path_is_absolute(path) {
        absolute_or_error(path_abs_new(path))
    } else if path_is_absolute(cwd) {
        let joined = join(cwd, path);
        proof {
            if path@.len() > 0 {
                assert(spec_join(cwd@, path@)[0] == cwd@[0]);
            }
        }
        absolute_or_error(path_abs_new(joined.as_str()))
    } else {
        Err(RepoError::PathConversion)
    }
}

/// `path` relative to `base`. Both may be absolute or relative to `cwd`.
/// Fails where either has no absolute form or the two cannot be compared.
pub fn to_relative(cwd: &str, path: &str, base: &str) -> (rel: Result<String, RepoError>)
    ensures
        match rel {
            Ok(r) => spec_to_relative(cwd@, path@, base@) == Some(r@),
            Err(e) => e == RepoError::PathConversion && spec_to_relative(cwd@, path@, base@).is_none(),
        },
{
    let path_abs = match absolute(cwd, path) {
        Ok(p) => p,
        Err(e) => {
            return Err(e);
        },
    };
    let base_abs = match absolute(cwd, base) {
        Ok(b) => b,
        Err(e) => {
            return Err(e);
        },
    };
    relative_or_error(diff_paths(path_abs.as_str(), base_abs.as_str()))
}

/// Whether `path` is `parent` or a path below it. Existence is not
/// checked; a path is below itself.
pub fn is_sub_path(cwd: &str, path: &str, parent: &str) -> (sub: Result<bool, RepoError>)
    ensures
        match sub {
            Ok(b) => spec_is_sub_path(cwd@, path@, parent@) == Some(b),
            Err(e) => e == RepoError::PathConversion && spec_is_sub_path(
                cwd@,
                path@,
                parent@,
            ).is_none(),
        },
{
    let path_abs = match absolute(cwd, path) {
        Ok(p) => p,
        Err(e) => {
            return Err(e);
        },
    };
    let parent_abs = match absolute(cwd, parent) {
        Ok(b) => b,
        Err(e) => {
            return Err(e);
        },
    };
    Ok(nested(path_abs.as_str(), parent_abs.as_str()))
}

/// Whether `path` is one of `paths` or lies below one of them.
pub fn is_sub_of_paths(cwd: &str, path: &str, paths: &Vec<String>) -> (sub: Result<bool, RepoError>)
    ensures
        match sub {
            Ok(b) => spec_is_sub_of_paths(cwd@, path@, texts(paths@)) == Some(b),
            Err(e) => e == RepoError::PathConversion && spec_is_sub_of_paths(
                cwd@,
                path@,
                texts(paths@),
            ).is_none(),
        },
{
    let ghost all = texts(paths@);
    let mut i: usize = 0;
    assert(all.skip(0) == all);
    while i < paths.len()
        invariant
            i <= paths.len(),
            all == texts(paths@),
            spec_is_sub_of_paths(cwd@, path@, all) == spec_is_sub_of_paths(
                cwd@,
                path@,
                all.skip(i as int),
            ),
        decreases paths.len() - i,
    {
        assert(all.skip(i as int)[0] == paths@[i as int]@);
        assert(all.skip(i as int).drop_first() == all.skip(i + 1));
        match is_sub_path(cwd, path, paths[i].as_str()) {
            Ok(true) => {
                return Ok(true);
            },
            Ok(false) => {},
            Err(e) => {
                return Err(e);
            },
        }
        i += 1;
    }
    Ok(false)
}

/// Whether `dir` is the directory `cwd`, by their absolute forms.
pub open spec fn spec_is_cur_dir(cwd: Seq<char>, dir: Seq<char>) -> Option<bool> {
    match (spec_absolute(cwd, dir), spec_absolute(cwd, cwd)) {
        (Some(d), Some(c)) => Some(d == c),
        _ => None,
    }
}

/// Whether `dir` names the current directory `cwd`.
pub fn is_cur_dir(cwd: &str, dir: &str) -> (same: Result<bool, RepoError>)
    ensures
        match same {
            Ok(b) => spec_is_cur_dir(cwd@, dir@) == Some(b),
            Err(e) => e == RepoError::PathConversion && spec_is_cur_dir(cwd@, dir@).is_none(),
        },
{
    let dir_abs = match absolute(cwd, dir) {
        Ok(p) => p,
        Err(e) => {
            return Err(e);
        },
    };
    let cwd_abs = match absolute(cwd, cwd) {
        Ok(p) => p,
        Err(e) => {
            return Err(e);
        },
    };
    Ok(dir_abs == cwd_abs)
}

/// A path that has an absolute form lies within itself.
pub proof fn lemma_sub_path_reflexive(cwd: Seq<char>, path: Seq<char>)
    requires
        spec_absolute(cwd, path).is_some(),
    ensures
        spec_is_sub_path(cwd, path, path) == Some(true),
{
}

/// A path of the host, carried through without being looked into.
#[verifier::external_type_specification]
#[verifier::external_body]
pub struct ExPathBuf(std::path::PathBuf);

/// A path of the host as text. Calls `std::path::Path::to_string_lossy`.
/// Trusted, and nothing is claimed of the text: a path is opaque here.
#[verifier::external_body]
pub fn path_to_string(path: &std::path::PathBuf) -> (text: String) {
    path.to_string_lossy().to_string()
}

} // verus!
