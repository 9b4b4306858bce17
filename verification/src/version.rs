//! Version handling: scanning a tool's `--version` output for its version
//! number, parsing dotted version triples, and checking a version against a
//! requirement such as `">=2.30.0"`.
//!
//! A version here is a dotted triple `major.minor.patch` of decimal numbers
//! without leading zeros, each fitting in 64 bits — the form version scans
//! produce and bootstrap configurations use. Triples are ordered
//! lexicographically, major first.
use vstd::prelude::*;
use crate::text::{is_prefix, str_starts_with};

verus! {

/// Whether `c` is a decimal digit.
pub open spec fn is_digit(c: char) -> bool {
    48 <= c as int <= 57
}

/// The first index at or after `from` that does not hold a digit (or the end
/// of the string).
pub open spec fn digits_end(s: Seq<char>, from: int) -> int
    decreases s.len() - from,
{
    if from < 0 || from >= s.len() || !is_digit(s[from]) {
        from
    } else {
        digits_end(s, from + 1)
    }
}

/// The value of the decimal digits `s[from..to]`.
pub open spec fn digits_val(s: Seq<char>, from: int, to: int) -> int
    decreases to - from,
{
    if to <= from {
        0
    } else {
        digits_val(s, from, to - 1) * 10 + (s[to - 1] as int - 48)
    }
}

/// `s[from..to]` is a well-formed decimal number: nonempty, no leading zero
/// unless it is exactly `0`, and small enough for a `u64`.
pub open spec fn numeral_ok(s: Seq<char>, from: int, to: int) -> bool {
    &&& to > from
    &&& (to == from + 1 || s[from] != '0')
    &&& digits_val(s, from, to) <= u64::MAX
}

/// Where the dotted triple starting at digit position `p` ends, or `-1` when
/// no triple of digit runs separated by single dots starts there.
pub open spec fn triple_end(s: Seq<char>, p: int) -> int {
    let e1 = digits_end(s, p);
    let e2 = digits_end(s, e1 + 1);
    let e3 = digits_end(s, e2 + 1);
    if e1 > p && e1 < s.len() && s[e1] == '.' && e2 > e1 + 1 && e2 < s.len() && s[e2] == '.' && e3
        > e2 + 1 {
        e3
    } else {
        -1
    }
}

/// The parse of a whole string as a version triple: the three component
/// values when the string is exactly a well-formed triple, `None` otherwise.
pub open spec fn parsed_triple(s: Seq<char>) -> Option<(int, int, int)> {
    let e1 = digits_end(s, 0);
    let e2 = digits_end(s, e1 + 1);
    let e3 = digits_end(s, e2 + 1);
    if triple_end(s, 0) == s.len() as int && s.len() > 0 && is_digit(s[0]) && numeral_ok(s, 0, e1)
        && numeral_ok(s, e1 + 1, e2) && numeral_ok(s, e2 + 1, e3) {
        Some((digits_val(s, 0, e1), digits_val(s, e1 + 1, e2), digits_val(s, e2 + 1, e3)))
    } else {
        None
    }
}

/// The value of a digit run is never negative.
proof fn lemma_digits_val_nonneg(s: Seq<char>, from: int, to: int)
    requires
        from <= to,
        forall|q: int| from <= q < to ==> is_digit(#[trigger] s[q]),
    ensures
        digits_val(s, from, to) >= 0,
    decreases to - from,
{
    if to > from {
        lemma_digits_val_nonneg(s, from, to - 1);
    }
}

/// Every index in a digit run holds a digit.
proof fn lemma_digits_run(s: Seq<char>, from: int, q: int)
    requires
        0 <= from,
        from <= q < digits_end(s, from),
    ensures
        is_digit(s[q]),
        digits_end(s, from) <= s.len(),
    decreases q - from,
{
    if q > from {
        lemma_digits_run(s, from + 1, q);
    } else {
        lemma_digits_end_bounds(s, from);
    }
}

/// A digit run starting in bounds ends in bounds.
proof fn lemma_digits_end_bounds(s: Seq<char>, from: int)
    requires
        0 <= from <= s.len(),
    ensures
        from <= digits_end(s, from) <= s.len(),
    decreases s.len() - from,
{
    if from < s.len() && is_digit(s[from]) {
        lemma_digits_end_bounds(s, from + 1);
    }
}

/// Scans the digit run starting at `from` and returns its end and its value,
/// or `None` when the run's value does not fit in a `u64`.
fn scan_digits(s: &str, from: usize) -> (r: (usize, Option<u64>))
    requires
        from <= s@.len(),
    ensures
        r.0 == digits_end(s@, from as int),
        from <= r.0 <= s@.len(),
        match r.1 {
            Some(v) => v as int == digits_val(s@, from as int, r.0 as int),
            None => digits_val(s@, from as int, r.0 as int) > u64::MAX,
        },
{
    let len = s.unicode_len();
    let mut pos = from;
    let mut val: u64 = 0;
    let mut overflow = false;
    while pos < len
        invariant
            from <= pos <= len,
            len == s@.len(),
            digits_end(s@, from as int) == digits_end(s@, pos as int),
            forall|q: int| from <= q < pos ==> is_digit(#[trigger] s@[q]),
            !overflow ==> val as int == digits_val(s@, from as int, pos as int),
            overflow ==> digits_val(s@, from as int, pos as int) > u64::MAX,
        ensures
            from <= pos <= len,
            digits_end(s@, from as int) == pos as int,
            !overflow ==> val as int == digits_val(s@, from as int, pos as int),
            overflow ==> digits_val(s@, from as int, pos as int) > u64::MAX,
        decreases len - pos,
    {
        let c = s.get_char(pos);
        let u = c as u32;
        if u < 48 || u > 57 {
            proof {
                assert(digits_end(s@, pos as int) == pos);
            }
            break ;
        }
        let d = (u as u64) - 48;
        let ghost prevval = digits_val(s@, from as int, pos as int);
        proof {
            lemma_digits_val_nonneg(s@, from as int, pos as int);
            assert(digits_val(s@, from as int, pos + 1) == prevval * 10 + d);
        }
        if !overflow {
            if val > (u64::MAX - d) / 10 {
                overflow = true;
                proof {
                    vstd::arithmetic::div_mod::lemma_fundamental_div_mod(
                        (u64::MAX - d) as int,
                        10,
                    );
                    let q = ((u64::MAX - d) / 10) as int;
                    assert(u64::MAX - d < 10 * q + 10);
                    assert(10 * val >= 10 * (q + 1)) by (nonlinear_arith)
                        requires
                            val as int >= q + 1,
                    ;
                }
            } else {
                proof {
                    vstd::arithmetic::div_mod::lemma_fundamental_div_mod(
                        (u64::MAX - d) as int,
                        10,
                    );
                    let q = ((u64::MAX - d) / 10) as int;
                    assert(10 * val <= 10 * q) by (nonlinear_arith)
                        requires
                            val as int <= q,
                    ;
                    assert(10 * q <= u64::MAX - d);
                }
                val = val * 10 + d;
            }
        } else {
            proof {
                lemma_digits_val_nonneg(s@, from as int, pos as int);
                assert(prevval * 10 >= prevval) by (nonlinear_arith)
                    requires
                        prevval >= 0,
                ;
            }
        }
        pos += 1;
    }
    if overflow {
        (pos, None)
    } else {
        (pos, Some(val))
    }
}

/// Parses a whole string as a dotted version triple `major.minor.patch`.
pub fn parse_version_triple(s: &str) -> (r: Option<(u64, u64, u64)>)
    ensures
        match r {
            Some(t) => parsed_triple(s@) == Some((t.0 as int, t.1 as int, t.2 as int)),
            None => parsed_triple(s@) is None,
        },
{
    let len = s.unicode_len();
    if len == 0 {
        return None;
    }
    let (e1, v1) = scan_digits(s, 0);
    if e1 == 0 || e1 >= len || s.get_char(e1) != '.' {
        return None;
    }
    let (e2, v2) = scan_digits(s, e1 + 1);
    if e2 == e1 + 1 || e2 >= len || s.get_char(e2) != '.' {
        return None;
    }
    let (e3, v3) = scan_digits(s, e2 + 1);
    if e3 == e2 + 1 || e3 != len {
        return None;
    }
    // leading zeros
    if e1 > 1 && s.get_char(0) == '0' {
        return None;
    }
    if e2 > e1 + 2 && s.get_char(e1 + 1) == '0' {
        return None;
    }
    if e3 > e2 + 2 && s.get_char(e2 + 1) == '0' {
        return None;
    }
    match (v1, v2, v3) {
        (Some(a), Some(b), Some(c)) => Some((a, b, c)),
        _ => None,
    }
}

/// The comparison operator a requirement starts with.
#[derive(Clone, Copy, PartialEq, Eq, Structural, Debug)]
pub enum VersionOp {
    Ge,
    Le,
    Gt,
    Lt,
    Eq,
}

/// Which inputs a requirement check rejects.
#[derive(Clone, Copy, PartialEq, Eq, Structural, Debug)]
pub enum VersionError {
    /// The installed version is not a dotted triple.
    BadInstalled,
    /// The required version is not a dotted triple.
    BadRequirement,
}

/// The operator encoded by a requirement's prefix, and where its version
/// part starts: `>=`, `<=`, `>`, `<`, `=`, or no operator at all, which
/// means exact equality.
pub open spec fn req_op(s: Seq<char>) -> (VersionOp, int) {
    if is_prefix(">="@, s) {
        (VersionOp::Ge, 2)
    } else if is_prefix("<="@, s) {
        (VersionOp::Le, 2)
    } else if is_prefix(">"@, s) {
        (VersionOp::Gt, 1)
    } else if is_prefix("<"@, s) {
        (VersionOp::Lt, 1)
    } else if is_prefix("="@, s) {
        (VersionOp::Eq, 1)
    } else {
        (VersionOp::Eq, 0)
    }
}

/// Lexicographic order on version triples, major first.
pub open spec fn triple_lt(a: (int, int, int), b: (int, int, int)) -> bool {
    a.0 < b.0 || (a.0 == b.0 && (a.1 < b.1 || (a.1 == b.1 && a.2 < b.2)))
}

/// Whether triple `a` satisfies `op` against triple `b`.
pub open spec fn op_holds(op: VersionOp, a: (int, int, int), b: (int, int, int)) -> bool {
    match op {
        VersionOp::Ge => !triple_lt(a, b),
        VersionOp::Le => !triple_lt(b, a),
        VersionOp::Gt => triple_lt(b, a),
        VersionOp::Lt => triple_lt(a, b),
        VersionOp::Eq => a == b,
    }
}

/// What a requirement check returns: the requirement's operator applied to
/// the two parsed triples, `Err` naming whichever side does not parse (the
/// installed version first).
pub open spec fn requirement_verdict(installed: Seq<char>, requirement: Seq<char>) -> Result<
    bool,
    VersionError,
> {
    let (op, at) = req_op(requirement);
    let reqver = requirement.subrange(at, requirement.len() as int);
    match parsed_triple(installed) {
        Some(a) => match parsed_triple(reqver) {
            Some(b) => Ok(op_holds(op, a, b)),
            None => Err(VersionError::BadRequirement),
        },
        None => Err(VersionError::BadInstalled),
    }
}

/// Checks an installed version against a requirement such as `">=2.30.0"`.
/// The requirement may start with `>=`, `<=`, `>`, `<` or `=`; without an
/// operator, exact equality is required. Versions are dotted triples,
/// compared lexicographically.
pub fn version_meets_requirement(installed: &str, requirement: &str) -> (r: Result<
    bool,
    VersionError,
>)
    ensures
        r == requirement_verdict(installed@, requirement@),
{
    proof {
        reveal_strlit(">=");
        reveal_strlit("<=");
        reveal_strlit(">");
        reveal_strlit("<");
        reveal_strlit("=");
    }
    let (op, at): (VersionOp, usize) = if str_starts_with(requirement, ">=") {
        (VersionOp::Ge, 2)
    } else if str_starts_with(requirement, "<=") {
        (VersionOp::Le, 2)
    } else if str_starts_with(requirement, ">") {
        (VersionOp::Gt, 1)
    } else if str_starts_with(requirement, "<") {
        (VersionOp::Lt, 1)
    } else if str_starts_with(requirement, "=") {
        (VersionOp::Eq, 1)
    } else {
        (VersionOp::Eq, 0)
    };
    let reqver = requirement.substring_char(at, requirement.unicode_len());
    let a = match parse_version_triple(installed) {
        Some(t) => t,
        None => {
            return Err(VersionError::BadInstalled);
        },
    };
    let b = match parse_version_triple(reqver) {
        Some(t) => t,
        None => {
            return Err(VersionError::BadRequirement);
        },
    };
    let lt_ab = a.0 < b.0 || (a.0 == b.0 && (a.1 < b.1 || (a.1 == b.1 && a.2 < b.2)));
    let lt_ba = b.0 < a.0 || (b.0 == a.0 && (b.1 < a.1 || (b.1 == a.1 && b.2 < a.2)));
    let verdict = match op {
        VersionOp::Ge => !lt_ab,
        VersionOp::Le => !lt_ba,
        VersionOp::Gt => lt_ba,
        VersionOp::Lt => lt_ab,
        VersionOp::Eq => a.0 == b.0 && a.1 == b.1 && a.2 == b.2,
    };
    Ok(verdict)
}

/// Where the leftmost version-number match begins, at or after `p`: the first
/// position where a dotted digit triple starts, directly or after a `v`
/// prefix; `-1` when there is none.
pub open spec fn first_version_pos(s: Seq<char>, p: int) -> int
    decreases s.len() - p,
{
    if p < 0 || p >= s.len() {
        -1
    } else if triple_end(s, p) >= 0 || (s[p] == 'v' && triple_end(s, p + 1) >= 0) {
        p
    } else {
        first_version_pos(s, p + 1)
    }
}

/// The version number the leftmost match denotes: the digit triple itself,
/// without any `v` prefix.
pub open spec fn extracted_version(s: Seq<char>) -> Option<Seq<char>> {
    let p = first_version_pos(s, 0);
    if p < 0 {
        None
    } else if triple_end(s, p) >= 0 {
        Some(s.subrange(p, triple_end(s, p)))
    } else {
        Some(s.subrange(p + 1, triple_end(s, p + 1)))
    }
}

/// Whether a dotted digit triple starts at `p`, and where it ends.
fn triple_end_at(s: &str, p: usize) -> (r: Option<usize>)
    requires
        p <= s@.len(),
    ensures
        match r {
            Some(e) => triple_end(s@, p as int) == e as int && p < e <= s@.len(),
            None => triple_end(s@, p as int) == -1,
        },
{
    let len = s.unicode_len();
    let (e1, _) = scan_digits(s, p);
    if e1 == p || e1 >= len || s.get_char(e1) != '.' {
        return None;
    }
    let (e2, _) = scan_digits(s, e1 + 1);
    if e2 == e1 + 1 || e2 >= len || s.get_char(e2) != '.' {
        return None;
    }
    let (e3, _) = scan_digits(s, e2 + 1);
    if e3 == e2 + 1 {
        return None;
    }
    Some(e3)
}

/// Scans version-probe output for the first version number, such as
/// `"2.34.1"` in `"git version 2.34.1"`; a `v` prefix as in `"v3.2.1"` is
/// not part of the number.
pub fn extract_version(output: &str) -> (r: Option<String>)
    ensures
        match r {
            Some(v) => extracted_version(output@) == Some(v@),
            None => extracted_version(output@) is None,
        },
{
    let len = output.unicode_len();
    let mut p: usize = 0;
    while p < len
        invariant
            p <= len,
            len == output@.len(),
            first_version_pos(output@, 0) == first_version_pos(output@, p as int),
        decreases len - p,
    {
        match triple_end_at(output, p) {
            Some(e) => {
                return Some(output.substring_char(p, e).to_owned());
            },
            None => {
                if output.get_char(p) == 'v' {
                    match triple_end_at(output, p + 1) {
                        Some(e) => {
                            return Some(output.substring_char(p + 1, e).to_owned());
                        },
                        None => {},
                    }
                }
            },
        }
        p += 1;
    }
    None
}

} // verus!
