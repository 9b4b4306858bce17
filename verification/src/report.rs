//! The bootstrap report and its TOON rendering: a TOML-styled, token-lean
//! text format with a meta section, a summary, and tabular sections for the
//! checked binaries and the created directories. The exact text produced is
//! pinned down by [`toon_of`]; writing it to disk is the caller's job.
use vstd::prelude::*;
use crate::prereq::{BinaryCheck, PrereqResult, count_missing, count_missing_checks};
use crate::skeleton::SkeletonResult;
use crate::text::{bool_str, bool_to_str, dec_str, usize_to_dec};

verus! {

/// Bootstrap report encompassing all checks.
#[derive(Debug)]
pub struct BootstrapReport {
    pub timestamp: String,
    pub prereq_result: PrereqResult,
    pub skeleton_result: Option<SkeletonResult>,
}

/// The report's meta section.
pub open spec fn meta_section(ts: Seq<char>) -> Seq<char> {
    "# b00t Bootstrap Report\n"@
        + "# Generated in Toon format (30-60% more token-efficient than JSON)\n\n"@ + "[meta]\n"@
        + "timestamp = \""@ + ts + "\"\n"@ + "format = \"toon\"\n"@
        + "schema = \"https://b00t.promptexecution.com/schemas/bootstrap-report/v0.1.0\"\n\n"@
}

/// The report's summary counters over the prerequisite checks.
pub open spec fn summary_section(pr: PrereqResult) -> Seq<char> {
    "[summary]\n"@ + "all_required_met = "@ + bool_str(pr.all_required_met) + "\n"@
        + "required_binaries_count = "@ + dec_str(pr.required@.len()) + "\n"@
        + "optional_binaries_count = "@ + dec_str(pr.optional@.len()) + "\n"@
        + "missing_required = "@ + dec_str(count_missing(pr.required@, pr.required@.len())) + "\n"@
        + "missing_optional = "@ + dec_str(count_missing(pr.optional@, pr.optional@.len()))
        + "\n"@
}

/// The summary's directory counters: the skeleton's numbers, or zeros when no
/// skeleton was processed.
pub open spec fn skeleton_summary(sk: Option<SkeletonResult>) -> Seq<char> {
    match sk {
        Some(s) => "directories_created = "@ + dec_str(s.created@.len()) + "\n"@
            + "directories_existed = "@ + dec_str(s.already_existed@.len()) + "\n"@
            + "directories_processed = "@ + dec_str(
            s.created@.len() + s.already_existed@.len() + s.errors@.len(),
        ) + "\n"@ + "directory_errors = "@ + dec_str(s.errors@.len()) + "\n\n"@,
        None => "directories_created = 0\n"@ + "directories_existed = 0\n"@
            + "directories_processed = 0\n"@ + "directory_errors = 0\n\n"@,
    }
}

/// One required binary's table entry.
pub open spec fn required_block(b: BinaryCheck) -> Seq<char> {
    "name = \""@ + b.name@ + "\"\n"@ + "found = "@ + bool_str(b.found) + "\n"@
        + "required_version = \""@ + b.required_version@ + "\"\n"@ + (match b.installed_version {
        Some(v) => "installed_version = \""@ + v@ + "\"\n"@,
        None => "installed_version = \"not_installed\"\n"@,
    }) + "meets_requirement = "@ + bool_str(b.meets_requirement) + "\n"@ + (match b.path {
        Some(p) => "path = \""@ + p@ + "\"\n"@,
        None => Seq::<char>::empty(),
    }) + "\n"@
}

/// The first `n` required entries, concatenated.
pub open spec fn required_blocks(s: Seq<BinaryCheck>, n: nat) -> Seq<char>
    decreases n,
{
    if n == 0 {
        Seq::empty()
    } else {
        required_blocks(s, (n - 1) as nat) + required_block(s[n - 1])
    }
}

/// The required binaries table, absent when there is nothing to list.
pub open spec fn required_section(s: Seq<BinaryCheck>) -> Seq<char> {
    if s.len() == 0 {
        Seq::empty()
    } else {
        "# Required binaries (tabular format - very token-efficient)\n"@ + "[[required_bins]]\n"@
            + required_blocks(s, s.len())
    }
}

/// One optional binary's table entry.
pub open spec fn optional_block(b: BinaryCheck) -> Seq<char> {
    "name = \""@ + b.name@ + "\"\n"@ + "found = "@ + bool_str(b.found) + "\n"@ + (if b.found {
        (match b.installed_version {
            Some(v) => "installed_version = \""@ + v@ + "\"\n"@,
            None => Seq::<char>::empty(),
        }) + "meets_requirement = "@ + bool_str(b.meets_requirement) + "\n"@
    } else {
        Seq::<char>::empty()
    }) + (match b.install_hint {
        Some(h) => "install_hint = \""@ + h@ + "\"\n"@,
        None => Seq::<char>::empty(),
    }) + "\n"@
}

/// The first `n` optional entries, concatenated.
pub open spec fn optional_blocks(s: Seq<BinaryCheck>, n: nat) -> Seq<char>
    decreases n,
{
    if n == 0 {
        Seq::empty()
    } else {
        optional_blocks(s, (n - 1) as nat) + optional_block(s[n - 1])
    }
}

/// The optional binaries table, absent when there is nothing to list.
pub open spec fn optional_section(s: Seq<BinaryCheck>) -> Seq<char> {
    if s.len() == 0 {
        Seq::empty()
    } else {
        "# Optional binaries\n"@ + "[[optional_bins]]\n"@ + optional_blocks(s, s.len())
    }
}

/// The first `n` created-directory entries, concatenated.
pub open spec fn created_blocks(s: Seq<String>, n: nat) -> Seq<char>
    decreases n,
{
    if n == 0 {
        Seq::empty()
    } else {
        created_blocks(s, (n - 1) as nat) + "path = \""@ + s[n - 1]@ + "\"\n\n"@
    }
}

/// The first `n` directory-error entries, concatenated.
pub open spec fn error_blocks(s: Seq<(String, String)>, n: nat) -> Seq<char>
    decreases n,
{
    if n == 0 {
        Seq::empty()
    } else {
        error_blocks(s, (n - 1) as nat) + "path = \""@ + s[n - 1].0@ + "\"\n"@ + "error = \""@
            + s[n - 1].1@ + "\"\n\n"@
    }
}

/// The directory sections at the report's tail: what was created and what
/// failed, each section absent when empty, and both absent when no skeleton
/// was processed.
pub open spec fn skeleton_tail(sk: Option<SkeletonResult>) -> Seq<char> {
    match sk {
        Some(s) => (if s.created@.len() == 0 {
            Seq::<char>::empty()
        } else {
            "# Directories created during bootstrap\n"@ + "[[directories_created]]\n"@
                + created_blocks(s.created@, s.created@.len())
        }) + (if s.errors@.len() == 0 {
            Seq::<char>::empty()
        } else {
            "# Directory creation errors\n"@ + "[[directory_errors]]\n"@ + error_blocks(
                s.errors@,
                s.errors@.len(),
            )
        }),
        None => Seq::<char>::empty(),
    }
}

/// The whole TOON report text.
pub open spec fn toon_of(r: BootstrapReport) -> Seq<char> {
    meta_section(r.timestamp@) + summary_section(r.prereq_result) + skeleton_summary(
        r.skeleton_result,
    ) + required_section(r.prereq_result.required@) + optional_section(r.prereq_result.optional@)
        + skeleton_tail(r.skeleton_result)
}

/// Renders one required binary's entry.
fn required_block_str(b: &BinaryCheck) -> (r: String)
    ensures
        r@ == required_block(*b),
{
    let mut out = "name = \"".to_owned();
    out.append(b.name.as_str());
    out.append("\"\n");
    out.append("found = ");
    out.append(bool_to_str(b.found));
    out.append("\n");
    out.append("required_version = \"");
    out.append(b.required_version.as_str());
    out.append("\"\n");
    match &b.installed_version {
        Some(v) => {
            out.append("installed_version = \"");
            out.append(v.as_str());
            out.append("\"\n");
        },
        None => {
            out.append("installed_version = \"not_installed\"\n");
        },
    }
    out.append("meets_requirement = ");
    out.append(bool_to_str(b.meets_requirement));
    out.append("\n");
    match &b.path {
        Some(p) => {
            out.append("path = \"");
            out.append(p.as_str());
            out.append("\"\n");
        },
        None => {},
    }
    out.append("\n");
    proof {
        assert(out@ =~= required_block(*b));
    }
    out
}

/// Renders one optional binary's entry.
fn optional_block_str(b: &BinaryCheck) -> (r: String)
    ensures
        r@ == optional_block(*b),
{
    let mut out = "name = \"".to_owned();
    out.append(b.name.as_str());
    out.append("\"\n");
    out.append("found = ");
    out.append(bool_to_str(b.found));
    out.append("\n");
    if b.found {
        match &b.installed_version {
            Some(v) => {
                out.append("installed_version = \"");
                out.append(v.as_str());
                out.append("\"\n");
            },
            None => {},
        }
        out.append("meets_requirement = ");
        out.append(bool_to_str(b.meets_requirement));
        out.append("\n");
    }
    match &b.install_hint {
        Some(h) => {
            out.append("install_hint = \"");
            out.append(h.as_str());
            out.append("\"\n");
        },
        None => {},
    }
    out.append("\n");
    proof {
        assert(out@ =~= optional_block(*b));
    }
    out
}

/// Renders the meta section.
fn meta_str(ts: &String) -> (r: String)
    ensures
        r@ == meta_section(ts@),
{
    let mut out = "# b00t Bootstrap Report\n".to_owned();
    out.append("# Generated in Toon format (30-60% more token-efficient than JSON)\n\n");
    out.append("[meta]\n");
    out.append("timestamp = \"");
    out.append(ts.as_str());
    out.append("\"\n");
    out.append("format = \"toon\"\n");
    out.append("schema = \"https://b00t.promptexecution.com/schemas/bootstrap-report/v0.1.0\"\n\n");
    proof {
        assert(out@ =~= meta_section(ts@));
    }
    out
}

/// Renders the summary counters.
fn summary_str(pr: &PrereqResult) -> (r: String)
    ensures
        r@ == summary_section(*pr),
{
    let mut out = "[summary]\n".to_owned();
    out.append("all_required_met = ");
    out.append(bool_to_str(pr.all_required_met));
    out.append("\n");
    out.append("required_binaries_count = ");
    out.append(usize_to_dec(pr.required.len()).as_str());
    out.append("\n");
    out.append("optional_binaries_count = ");
    out.append(usize_to_dec(pr.optional.len()).as_str());
    out.append("\n");
    out.append("missing_required = ");
    out.append(usize_to_dec(count_missing_checks(&pr.required)).as_str());
    out.append("\n");
    out.append("missing_optional = ");
    out.append(usize_to_dec(count_missing_checks(&pr.optional)).as_str());
    out.append("\n");
    proof {
        assert(out@ =~= summary_section(*pr));
    }
    out
}

/// Renders the summary's directory counters.
fn skeleton_summary_str(sk: &Option<SkeletonResult>) -> (r: String)
    requires
        *sk matches Some(s) ==> s.created@.len() + s.already_existed@.len() + s.errors@.len()
            <= usize::MAX,
    ensures
        r@ == skeleton_summary(*sk),
{
    match sk {
        Some(s) => {
            let mut out = "directories_created = ".to_owned();
            out.append(usize_to_dec(s.created.len()).as_str());
            out.append("\n");
            out.append("directories_existed = ");
            out.append(usize_to_dec(s.already_existed.len()).as_str());
            out.append("\n");
            out.append("directories_processed = ");
            out.append(usize_to_dec(s.total_count()).as_str());
            out.append("\n");
            out.append("directory_errors = ");
            out.append(usize_to_dec(s.errors.len()).as_str());
            out.append("\n\n");
            proof {
                assert(out@ =~= skeleton_summary(*sk));
            }
            out
        },
        None => {
            let mut out = "directories_created = 0\n".to_owned();
            out.append("directories_existed = 0\n");
            out.append("directories_processed = 0\n");
            out.append("directory_errors = 0\n\n");
            proof {
                assert(out@ =~= skeleton_summary(*sk));
            }
            out
        },
    }
}

/// Renders the required binaries table.
fn required_section_str(s: &Vec<BinaryCheck>) -> (r: String)
    ensures
        r@ == required_section(s@),
{
    if s.len() == 0 {
        let out = String::new();
        proof {
            assert(out@ =~= required_section(s@));
        }
        return out;
    }
    let mut out = "# Required binaries (tabular format - very token-efficient)\n".to_owned();
    out.append("[[required_bins]]\n");
    let ghost header = out@;
    let mut i: usize = 0;
    while i < s.len()
        invariant
            i <= s@.len(),
            out@ == header + required_blocks(s@, i as nat),
            header == "# Required binaries (tabular format - very token-efficient)\n"@
                + "[[required_bins]]\n"@,
        decreases s@.len() - i,
    {
        let block = required_block_str(&s[i]);
        out.append(block.as_str());
        proof {
            assert(out@ =~= header + required_blocks(s@, (i + 1) as nat));
        }
        i += 1;
    }
    proof {
        assert(out@ =~= required_section(s@));
    }
    out
}

/// Renders the optional binaries table.
fn optional_section_str(s: &Vec<BinaryCheck>) -> (r: String)
    ensures
        r@ == optional_section(s@),
{
    if s.len() == 0 {
        let out = String::new();
        proof {
            assert(out@ =~= optional_section(s@));
        }
        return out;
    }
    let mut out = "# Optional binaries\n".to_owned();
    out.append("[[optional_bins]]\n");
    let ghost header = out@;
    let mut i: usize = 0;
    while i < s.len()
        invariant
            i <= s@.len(),
            out@ == header + optional_blocks(s@, i as nat),
            header == "# Optional binaries\n"@ + "[[optional_bins]]\n"@,
        decreases s@.len() - i,
    {
        let block = optional_block_str(&s[i]);
        out.append(block.as_str());
        proof {
            assert(out@ =~= header + optional_blocks(s@, (i + 1) as nat));
        }
        i += 1;
    }
    proof {
        assert(out@ =~= optional_section(s@));
    }
    out
}

/// Renders the directory sections at the report's tail.
fn skeleton_tail_str(sk: &Option<SkeletonResult>) -> (r: String)
    ensures
        r@ == skeleton_tail(*sk),
{
    let mut out = String::new();
    let s = match sk {
        Some(s) => s,
        None => {
            proof {
                assert(out@ =~= skeleton_tail(*sk));
            }
            return out;
        },
    };
    if s.created.len() > 0 {
        out.append("# Directories created during bootstrap\n");
        out.append("[[directories_created]]\n");
        let ghost header = out@;
        let mut i: usize = 0;
        while i < s.created.len()
            invariant
                i <= s.created@.len(),
                out@ == header + created_blocks(s.created@, i as nat),
            decreases s.created@.len() - i,
        {
            out.append("path = \"");
            out.append(s.created[i].as_str());
            out.append("\"\n\n");
            proof {
                assert(out@ =~= header + created_blocks(s.created@, (i + 1) as nat));
            }
            i += 1;
        }
    }
    let ghost done_created = out@;
    if s.errors.len() > 0 {
        out.append("# Directory creation errors\n");
        out.append("[[directory_errors]]\n");
        let ghost header = out@;
        let mut i: usize = 0;
        while i < s.errors.len()
            invariant
                i <= s.errors@.len(),
                out@ == header + error_blocks(s.errors@, i as nat),
                header == done_created + "# Directory creation errors\n"@
                    + "[[directory_errors]]\n"@,
            decreases s.errors@.len() - i,
        {
            out.append("path = \"");
            out.append(s.errors[i].0.as_str());
            out.append("\"\n");
            out.append("error = \"");
            out.append(s.errors[i].1.as_str());
            out.append("\"\n\n");
            proof {
                assert(out@ =~= header + error_blocks(s.errors@, (i + 1) as nat));
            }
            i += 1;
        }
    }
    proof {
        assert(out@ =~= skeleton_tail(*sk));
    }
    out
}

/// One required binary's line in the human-readable report: a status mark,
/// the name, and what is installed against what is required.
pub open spec fn required_line(b: BinaryCheck) -> Seq<char> {
    let status = if b.found && b.meets_requirement {
        "✅"@
    } else if b.found {
        "⚠️"@
    } else {
        "❌"@
    };
    "  "@ + status + " "@ + b.name@ + " "@ + (match b.installed_version {
        Some(v) => "(installed: "@ + v@ + (if b.meets_requirement {
            ", OK)\n"@
        } else {
            ", requires: "@ + b.required_version@ + ") ⚠️\n"@
        }),
        None => "(not installed) - requires: "@ + b.required_version@ + "\n"@,
    })
}

/// The first `n` required lines, concatenated.
pub open spec fn required_lines(s: Seq<BinaryCheck>, n: nat) -> Seq<char>
    decreases n,
{
    if n == 0 {
        Seq::empty()
    } else {
        required_lines(s, (n - 1) as nat) + required_line(s[n - 1])
    }
}

/// One optional binary's line in the human-readable report.
pub open spec fn optional_line(b: BinaryCheck) -> Seq<char> {
    let status = if b.found && b.meets_requirement {
        "✅"@
    } else {
        "  "@
    };
    "  "@ + status + " "@ + b.name@ + " "@ + (match b.installed_version {
        Some(v) => "("@ + v@ + ")\n"@,
        None => match b.install_hint {
            Some(h) => "- "@ + h@ + "\n"@,
            None => "(not installed)\n"@,
        },
    })
}

/// The first `n` optional lines, concatenated.
pub open spec fn optional_lines(s: Seq<BinaryCheck>, n: nat) -> Seq<char>
    decreases n,
{
    if n == 0 {
        Seq::empty()
    } else {
        optional_lines(s, (n - 1) as nat) + optional_line(s[n - 1])
    }
}

/// The first `n` created-directory lines, concatenated.
pub open spec fn created_lines(s: Seq<String>, n: nat) -> Seq<char>
    decreases n,
{
    if n == 0 {
        Seq::empty()
    } else {
        created_lines(s, (n - 1) as nat) + "  ✨ Created: "@ + s[n - 1]@ + "\n"@
    }
}

/// The first `n` already-existing-directory lines, concatenated.
pub open spec fn existed_lines(s: Seq<String>, n: nat) -> Seq<char>
    decreases n,
{
    if n == 0 {
        Seq::empty()
    } else {
        existed_lines(s, (n - 1) as nat) + "  ✅ Exists:  "@ + s[n - 1]@ + "\n"@
    }
}

/// The first `n` directory-error lines, concatenated.
pub open spec fn error_lines(s: Seq<(String, String)>, n: nat) -> Seq<char>
    decreases n,
{
    if n == 0 {
        Seq::empty()
    } else {
        error_lines(s, (n - 1) as nat) + "  "@ + s[n - 1].0@ + ": "@ + s[n - 1].1@ + "\n"@
    }
}

/// The directory paragraphs of the human-readable report.
pub open spec fn text_directories(sk: Option<SkeletonResult>) -> Seq<char> {
    match sk {
        Some(s) => (if s.created@.len() == 0 && s.already_existed@.len() == 0 {
            Seq::<char>::empty()
        } else {
            "\n📁 Directories:\n"@ + created_lines(s.created@, s.created@.len()) + existed_lines(
                s.already_existed@,
                s.already_existed@.len(),
            )
        }) + (if s.errors@.len() == 0 {
            Seq::<char>::empty()
        } else {
            "\n❌ Errors:\n"@ + error_lines(s.errors@, s.errors@.len())
        }),
        None => Seq::<char>::empty(),
    }
}

/// The whole human-readable report: header, required and optional binaries,
/// directories, and the overall verdict.
pub open spec fn text_report_of(r: BootstrapReport) -> Seq<char> {
    "🥾 b00t Bootstrap Report\n"@
        + "━━━━━━━━━━━━━━━━━━━━━━━━━━━━━━━━━━━━━━━\n"@ + "Generated: "@ + r.timestamp@ + "\n\n"@
        + "📦 Required Binaries:\n"@ + required_lines(
        r.prereq_result.required@,
        r.prereq_result.required@.len(),
    ) + (if r.prereq_result.optional@.len() == 0 {
        Seq::<char>::empty()
    } else {
        "\n🔧 Optional Binaries:\n"@ + optional_lines(
            r.prereq_result.optional@,
            r.prereq_result.optional@.len(),
        )
    }) + text_directories(r.skeleton_result) + "\n"@ + (if r.prereq_result.all_required_met {
        "✅ All required prerequisites met!\n"@
    } else {
        "⚠️  Some required prerequisites are missing\n"@
    })
}

/// Renders one required binary's report line.
fn required_line_str(b: &BinaryCheck) -> (r: String)
    ensures
        r@ == required_line(*b),
{
    let mut out = "  ".to_owned();
    if b.found && b.meets_requirement {
        out.append("✅");
    } else if b.found {
        out.append("⚠️");
    } else {
        out.append("❌");
    }
    out.append(" ");
    out.append(b.name.as_str());
    out.append(" ");
    match &b.installed_version {
        Some(v) => {
            out.append("(installed: ");
            out.append(v.as_str());
            if b.meets_requirement {
                out.append(", OK)\n");
            } else {
                out.append(", requires: ");
                out.append(b.required_version.as_str());
                out.append(") ⚠️\n");
            }
        },
        None => {
            out.append("(not installed) - requires: ");
            out.append(b.required_version.as_str());
            out.append("\n");
        },
    }
    proof {
        assert(out@ =~= required_line(*b));
    }
    out
}

/// Renders one optional binary's report line.
fn optional_line_str(b: &BinaryCheck) -> (r: String)
    ensures
        r@ == optional_line(*b),
{
    let mut out = "  ".to_owned();
    if b.found && b.meets_requirement {
        out.append("✅");
    } else {
        out.append("  ");
    }
    out.append(" ");
    out.append(b.name.as_str());
    out.append(" ");
    match &b.installed_version {
        Some(v) => {
            out.append("(");
            out.append(v.as_str());
            out.append(")\n");
        },
        None => match &b.install_hint {
            Some(h) => {
                out.append("- ");
                out.append(h.as_str());
                out.append("\n");
            },
            None => {
                out.append("(not installed)\n");
            },
        },
    }
    proof {
        assert(out@ =~= optional_line(*b));
    }
    out
}

/// Renders the directory paragraphs of the human-readable report.
fn text_directories_str(sk: &Option<SkeletonResult>) -> (r: String)
    ensures
        r@ == text_directories(*sk),
{
    let mut out = String::new();
    let s = match sk {
        Some(s) => s,
        None => {
            proof {
                assert(out@ =~= text_directories(*sk));
            }
            return out;
        },
    };
    if s.created.len() > 0 || s.already_existed.len() > 0 {
        out.append("\n📁 Directories:\n");
        let ghost header = out@;
        let mut i: usize = 0;
        while i < s.created.len()
            invariant
                i <= s.created@.len(),
                out@ == header + created_lines(s.created@, i as nat),
            decreases s.created@.len() - i,
        {
            out.append("  ✨ Created: ");
            out.append(s.created[i].as_str());
            out.append("\n");
            proof {
                assert(out@ =~= header + created_lines(s.created@, (i + 1) as nat));
            }
            i += 1;
        }
        let ghost done_created = out@;
        let mut j: usize = 0;
        while j < s.already_existed.len()
            invariant
                j <= s.already_existed@.len(),
                out@ == done_created + existed_lines(s.already_existed@, j as nat),
            decreases s.already_existed@.len() - j,
        {
            out.append("  ✅ Exists:  ");
            out.append(s.already_existed[j].as_str());
            out.append("\n");
            proof {
                assert(out@ =~= done_created + existed_lines(
                    s.already_existed@,
                    (j + 1) as nat,
                ));
            }
            j += 1;
        }
    }
    let ghost done_dirs = out@;
    if s.errors.len() > 0 {
        out.append("\n❌ Errors:\n");
        let ghost header = out@;
        let mut i: usize = 0;
        while i < s.errors.len()
            invariant
                i <= s.errors@.len(),
                out@ == header + error_lines(s.errors@, i as nat),
                header == done_dirs + "\n❌ Errors:\n"@,
            decreases s.errors@.len() - i,
        {
            out.append("  ");
            out.append(s.errors[i].0.as_str());
            out.append(": ");
            out.append(s.errors[i].1.as_str());
            out.append("\n");
            proof {
                assert(out@ =~= header + error_lines(s.errors@, (i + 1) as nat));
            }
            i += 1;
        }
    }
    proof {
        assert(out@ =~= text_directories(*sk));
    }
    out
}

/// Renders the whole report for people: what the command line prints.
pub fn render_text_report(report: &BootstrapReport) -> (r: String)
    ensures
        r@ == text_report_of(*report),
{
    let mut out = "🥾 b00t Bootstrap Report\n".to_owned();
    out.append("━━━━━━━━━━━━━━━━━━━━━━━━━━━━━━━━━━━━━━━\n");
    out.append("Generated: ");
    out.append(report.timestamp.as_str());
    out.append("\n\n");
    out.append("📦 Required Binaries:\n");
    let ghost done_header = out@;
    let required = &report.prereq_result.required;
    let mut i: usize = 0;
    while i < required.len()
        invariant
            i <= required@.len(),
            out@ == done_header + required_lines(required@, i as nat),
        decreases required@.len() - i,
    {
        out.append(required_line_str(&required[i]).as_str());
        proof {
            assert(out@ =~= done_header + required_lines(required@, (i + 1) as nat));
        }
        i += 1;
    }
    let ghost done_required = out@;
    let optional = &report.prereq_result.optional;
    if optional.len() > 0 {
        out.append("\n🔧 Optional Binaries:\n");
        let ghost header = out@;
        let mut j: usize = 0;
        while j < optional.len()
            invariant
                j <= optional@.len(),
                out@ == header + optional_lines(optional@, j as nat),
                header == done_required + "\n🔧 Optional Binaries:\n"@,
            decreases optional@.len() - j,
        {
            out.append(optional_line_str(&optional[j]).as_str());
            proof {
                assert(out@ =~= header + optional_lines(optional@, (j + 1) as nat));
            }
            j += 1;
        }
    }
    out.append(text_directories_str(&report.skeleton_result).as_str());
    out.append("\n");
    if report.prereq_result.all_required_met {
        out.append("✅ All required prerequisites met!\n");
    } else {
        out.append("⚠️  Some required prerequisites are missing\n");
    }
    proof {
        assert(out@ =~= text_report_of(*report));
    }
    out
}

/// Serializes a bootstrap report to its TOON text.
pub fn serialize_to_toon(report: &BootstrapReport) -> (r: Result<String, ()>)
    requires
        report.skeleton_result matches Some(sk) ==> sk.created@.len()
            + sk.already_existed@.len() + sk.errors@.len() <= usize::MAX,
    ensures
        r matches Ok(s) && s@ == toon_of(*report),
{
    let mut out = meta_str(&report.timestamp);
    out.append(summary_str(&report.prereq_result).as_str());
    out.append(skeleton_summary_str(&report.skeleton_result).as_str());
    out.append(required_section_str(&report.prereq_result.required).as_str());
    out.append(optional_section_str(&report.prereq_result.optional).as_str());
    out.append(skeleton_tail_str(&report.skeleton_result).as_str());
    proof {
        assert(out@ =~= toon_of(*report));
    }
    Ok(out)
}

} // verus!
