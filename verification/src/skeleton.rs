//! The result of creating the configuration directory skeleton, and the path
//! expansion its directory entries go through. Creating the directories is
//! I/O and stays with the caller; what is recorded about the outcome, and how
//! a `~`-prefixed path is resolved against the home directory, is decided
//! here.
use vstd::prelude::*;

verus! {

/// Outcome of creating the directory skeleton: which directories were newly
/// created, which already existed, and which failed with what error text.
#[derive(Debug)]
pub struct SkeletonResult {
    pub created: Vec<String>,
    pub already_existed: Vec<String>,
    pub errors: Vec<(String, String)>,
}

impl SkeletonResult {
    /// A fresh, empty result.
    pub fn new() -> (r: SkeletonResult)
        ensures
            r.created@ == Seq::<String>::empty(),
            r.already_existed@ == Seq::<String>::empty(),
            r.errors@ == Seq::<(String, String)>::empty(),
    {
        SkeletonResult { created: Vec::new(), already_existed: Vec::new(), errors: Vec::new() }
    }

    /// Whether every directory was created or already existed.
    pub fn is_success(&self) -> (r: bool)
        ensures
            r == (self.errors@.len() == 0),
    {
        self.errors.len() == 0
    }

    /// How many directories were processed in all.
    pub fn total_count(&self) -> (r: usize)
        requires
            self.created@.len() + self.already_existed@.len() + self.errors@.len()
                <= usize::MAX,
        ensures
            r == self.created@.len() + self.already_existed@.len() + self.errors@.len(),
    {
        self.created.len() + self.already_existed.len() + self.errors.len()
    }
}

/// What expanding `path` against home directory `home` yields: a path that
/// starts with `~` has the tilde and any following slashes replaced by
/// `home` and one slash; any other path, or any path when no home directory
/// is known, is returned unchanged.
pub open spec fn expanded_path(path: Seq<char>, home: Option<Seq<char>>) -> Seq<char> {
    match home {
        Some(h) => {
            if path.len() > 0 && path[0] == '~' {
                h + "/"@ + path.subrange(skip_slashes(path, 1), path.len() as int)
            } else {
                path
            }
        },
        None => path,
    }
}

/// The first index at or after `from` that does not hold a `/`.
pub open spec fn skip_slashes(s: Seq<char>, from: int) -> int
    decreases s.len() - from,
{
    if from < 0 || from >= s.len() || s[from] != '/' {
        from
    } else {
        skip_slashes(s, from + 1)
    }
}

/// Expands a leading `~` in `path` to the home directory, joining with a
/// single slash as path joining does; without a home directory, or without a
/// leading `~`, the path is returned as it is.
pub fn expand_path(path: &str, home: Option<&str>) -> (r: String)
    ensures
        r@ == expanded_path(path@, match home {
            Some(h) => Some(h@),
            None => None,
        }),
{
    let h = match home {
        Some(h) => h,
        None => {
            return path.to_owned();
        },
    };
    let len = path.unicode_len();
    if len == 0 || path.get_char(0) != '~' {
        return path.to_owned();
    }
    let mut from: usize = 1;
    while from < len && path.get_char(from) == '/'
        invariant
            1 <= from <= len,
            len == path@.len(),
            skip_slashes(path@, 1) == skip_slashes(path@, from as int),
        decreases len - from,
    {
        from += 1;
    }
    proof {
        assert(skip_slashes(path@, from as int) == from);
    }
    let mut out = h.to_owned();
    out.append("/");
    out.append(path.substring_char(from, len));
    proof {
        reveal_strlit("/");
        assert(out@ =~= expanded_path(path@, Some(h@)));
    }
    out
}

} // verus!
