//! Reading a repository's name out of its address.

use crate::text::{chars_of, find_last, last_index_of, lemma_last_index_of};
use vstd::prelude::*;
use vstd::string::StrSliceExecFns;

verus! {

/// `url` without one `/` at its end.
pub open spec fn spec_trim_slash(url: Seq<char>) -> Seq<char> {
    if url.len() > 0 && url.last() == '/' {
        url.drop_last()
    } else {
        url
    }
}

/// The repository's name in `url`: what stands between the last `/` and
/// the last `.`, one `/` at the end not counted. There is none where
/// either is missing or the `.` stands before the `/`.
pub open spec fn spec_repo_name(url: Seq<char>) -> Option<Seq<char>> {
    let trimmed = spec_trim_slash(url);
    match (last_index_of(trimmed, '/'), last_index_of(trimmed, '.')) {
        (Some(slash), Some(dot)) => if slash < dot {
            Some(trimmed.subrange(slash + 1, dot))
        } else {
            None
        },
        _ => None,
    }
}

/// The name of the repository that `url` addresses, as in
/// `https://host/group/name.git` and `https://host/group/name.git/`.
pub fn get_repo_name_from_url(url: &str) -> (name: Option<&str>)
    ensures
        match name {
            Some(n) => spec_repo_name(url@) == Some(n@),
            None => spec_repo_name(url@).is_none(),
        },
{
    let chars = chars_of(url);
    let len = if chars.len() > 0 && chars[chars.len() - 1] == '/' {
        chars.len() - 1
    } else {
        chars.len()
    };
    assert(chars@.take(len as int) == spec_trim_slash(url@));
    let slash = match find_last(&chars, len, '/') {
        Some(i) => i,
        None => {
            return None;
        },
    };
    let dot = match find_last(&chars, len, '.') {
        Some(i) => i,
        None => {
            return None;
        },
    };
    proof {
        lemma_last_index_of(chars@.take(len as int), '/');
        lemma_last_index_of(chars@.take(len as int), '.');
    }
    if slash < dot {
        let name = url.substring_char(slash + 1, dot);
        assert(name@ == chars@.take(len as int).subrange(slash + 1, dot as int));
        Some(name)
    } else {
        None
    }
}

} // verus!
