//! Classifying a container's observed state from the runtime's `ps` output.
//!
//! The runtime is asked for all containers filtered by name, one line per
//! container, each line `<name>|||<status>`; the delimiter is chosen not to
//! collide with legitimate output. The name filter is a substring filter, so
//! the name must be matched exactly here: a line whose name is merely a
//! superstring must be rejected. A matching container is running exactly when
//! its status begins with `Up`.
use vstd::prelude::*;
use crate::orchestrator::ContainerState;
use crate::text::{is_prefix, str_eq};

verus! {

/// Whether `c` is blank space inside a line.
pub open spec fn is_space(c: char) -> bool {
    c == ' ' || c == '\t' || c == '\r'
}

/// The first index at or after `from` holding a line break (or the end).
pub open spec fn line_end(s: Seq<char>, from: int) -> int
    decreases s.len() - from,
{
    if from < 0 || from >= s.len() || s[from] == '\n' {
        from
    } else {
        line_end(s, from + 1)
    }
}

/// The first index in `[lo, hi)` where the delimiter `|||` starts, or `-1`.
pub open spec fn first_sep(s: Seq<char>, lo: int, hi: int) -> int
    decreases hi - lo,
{
    if lo < 0 || lo + 3 > hi || hi > s.len() {
        -1
    } else if s[lo] == '|' && s[lo + 1] == '|' && s[lo + 2] == '|' {
        lo
    } else {
        first_sep(s, lo + 1, hi)
    }
}

/// The first index in `[lo, hi)` that is not blank, or `hi`.
pub open spec fn skip_space(s: Seq<char>, lo: int, hi: int) -> int
    decreases hi - lo,
{
    if lo < 0 || lo >= hi || hi > s.len() || !is_space(s[lo]) {
        lo
    } else {
        skip_space(s, lo + 1, hi)
    }
}

/// The last index in `[lo, hi)` after which everything is blank, so that
/// `[lo, r)` ends in a non-blank character, or `lo` when all is blank.
pub open spec fn rskip_space(s: Seq<char>, lo: int, hi: int) -> int
    decreases hi - lo,
{
    if hi <= lo || lo < 0 || hi > s.len() || !is_space(s[hi - 1]) {
        hi
    } else {
        rskip_space(s, lo, hi - 1)
    }
}

/// `s[lo..hi)` with blank space removed from both ends.
pub open spec fn trimmed(s: Seq<char>, lo: int, hi: int) -> Seq<char> {
    let a = skip_space(s, lo, hi);
    let b = rskip_space(s, a, hi);
    s.subrange(a, b)
}

/// What the line `s[lo..hi)` says about the container `name`: `Some(running)`
/// when the line has exactly one delimiter and its name part, trimmed, is
/// exactly `name`; `None` when the line is about something else.
pub open spec fn classify_line(s: Seq<char>, lo: int, hi: int, name: Seq<char>) -> Option<bool> {
    let p = first_sep(s, lo, hi);
    if p < 0 {
        None
    } else if first_sep(s, p + 3, hi) >= 0 {
        None
    } else if trimmed(s, lo, p) != name {
        None
    } else {
        Some(is_prefix("Up"@, trimmed(s, p + 3, hi)))
    }
}

/// The container state the output starting at `from` reports for `name`:
/// the first line about exactly `name` decides — running when its status
/// begins with `Up`, stopped otherwise — and with no such line the container
/// is absent.
pub open spec fn classified_from(s: Seq<char>, from: int, name: Seq<char>) -> ContainerState
    decreases s.len() + 1 - from,
{
    if from < 0 || from >= s.len() {
        ContainerState::Absent
    } else {
        let e0 = line_end(s, from);
        let e = if from <= e0 <= s.len() {
            e0
        } else {
            from
        };
        match classify_line(s, from, e, name) {
            Some(true) => ContainerState::Running,
            Some(false) => ContainerState::Stopped,
            None => classified_from(s, e + 1, name),
        }
    }
}

/// The end of a line lies at or after its start, and within the string.
pub proof fn lemma_line_end_bounds(s: Seq<char>, from: int)
    requires
        0 <= from <= s.len(),
    ensures
        from <= line_end(s, from) <= s.len(),
    decreases s.len() - from,
{
    if from < s.len() && s[from] != '\n' {
        lemma_line_end_bounds(s, from + 1);
    }
}

/// The container state the whole `ps` output reports for `name`.
pub open spec fn classified(s: Seq<char>, name: Seq<char>) -> ContainerState {
    classified_from(s, 0, name)
}

/// Finds where the current line ends.
fn find_line_end(s: &str, from: usize) -> (r: usize)
    requires
        from <= s@.len(),
    ensures
        r as int == line_end(s@, from as int),
        from <= r <= s@.len(),
{
    let len = s.unicode_len();
    let mut pos = from;
    while pos < len
        invariant
            from <= pos <= len,
            len == s@.len(),
            line_end(s@, from as int) == line_end(s@, pos as int),
        ensures
            from <= pos <= len,
            line_end(s@, from as int) == pos as int,
        decreases len - pos,
    {
        if s.get_char(pos) == '\n' {
            proof {
                assert(line_end(s@, pos as int) == pos);
            }
            break ;
        }
        pos += 1;
    }
    pos
}

/// Finds the first `|||` delimiter in `[lo, hi)`.
fn find_sep(s: &str, lo: usize, hi: usize) -> (r: Option<usize>)
    requires
        lo <= hi <= s@.len(),
    ensures
        match r {
            Some(p) => first_sep(s@, lo as int, hi as int) == p as int && lo <= p && p + 3 <= hi,
            None => first_sep(s@, lo as int, hi as int) == -1,
        },
{
    let mut pos = lo;
    if hi < 3 {
        proof {
            assert(first_sep(s@, lo as int, hi as int) == -1);
        }
        return None;
    }
    while pos <= hi - 3
        invariant
            lo <= pos <= hi,
            3 <= hi <= s@.len(),
            first_sep(s@, lo as int, hi as int) == first_sep(s@, pos as int, hi as int),
        decreases hi - pos,
    {
        if s.get_char(pos) == '|' && s.get_char(pos + 1) == '|' && s.get_char(pos + 2) == '|' {
            return Some(pos);
        }
        pos += 1;
    }
    None
}

/// Trims blank space from both ends of `s[lo..hi)`.
fn trim_range<'a>(s: &'a str, lo: usize, hi: usize) -> (r: &'a str)
    requires
        lo <= hi <= s@.len(),
    ensures
        r@ == trimmed(s@, lo as int, hi as int),
{
    let mut a = lo;
    while a < hi
        invariant
            lo <= a <= hi,
            hi <= s@.len(),
            skip_space(s@, lo as int, hi as int) == skip_space(s@, a as int, hi as int),
        ensures
            lo <= a <= hi,
            skip_space(s@, lo as int, hi as int) == a as int,
        decreases hi - a,
    {
        let c = s.get_char(a);
        if !(c == ' ' || c == '\t' || c == '\r') {
            proof {
                assert(skip_space(s@, a as int, hi as int) == a);
            }
            break ;
        }
        a += 1;
    }
    let mut b = hi;
    while b > a
        invariant
            a <= b <= hi,
            hi <= s@.len(),
            rskip_space(s@, a as int, hi as int) == rskip_space(s@, a as int, b as int),
        ensures
            a <= b <= hi,
            rskip_space(s@, a as int, hi as int) == b as int,
        decreases b - a,
    {
        let c = s.get_char(b - 1);
        if !(c == ' ' || c == '\t' || c == '\r') {
            proof {
                assert(rskip_space(s@, a as int, b as int) == b);
            }
            break ;
        }
        b -= 1;
    }
    s.substring_char(a, b)
}

/// Classifies a container's state from the runtime's `ps` output: one line
/// per container, each `<name>|||<status>`. Only a line whose name part is
/// exactly `name` counts; its container is running exactly when the status
/// begins with `Up`. With no such line the container is absent.
pub fn classify_container(output: &str, name: &str) -> (r: ContainerState)
    ensures
        r == classified(output@, name@),
{
    let len = output.unicode_len();
    let mut from: usize = 0;
    while from < len
        invariant
            from <= len,
            len == output@.len(),
            classified(output@, name@) == classified_from(output@, from as int, name@),
        decreases len - from,
    {
        let e = find_line_end(output, from);
        let verdict: Option<bool> = match find_sep(output, from, e) {
            Some(p) => {
                match find_sep(output, p + 3, e) {
                    Some(_) => None,
                    None => {
                        let namepart = trim_range(output, from, p);
                        if str_eq(namepart, name) {
                            let status = trim_range(output, p + 3, e);
                            proof {
                                reveal_strlit("Up");
                            }
                            Some(crate::text::str_starts_with(status, "Up"))
                        } else {
                            None
                        }
                    },
                }
            },
            None => None,
        };
        proof {
            assert(classified_from(output@, from as int, name@) == (match classify_line(
                output@,
                from as int,
                e as int,
                name@,
            ) {
                Some(true) => ContainerState::Running,
                Some(false) => ContainerState::Stopped,
                None => classified_from(output@, e as int + 1, name@),
            }));
        }
        match verdict {
            Some(true) => {
                return ContainerState::Running;
            },
            Some(false) => {
                return ContainerState::Stopped;
            },
            None => {},
        }
        if e >= len {
            return ContainerState::Absent;
        }
        from = e + 1;
    }
    ContainerState::Absent
}

} // verus!
