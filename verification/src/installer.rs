//! Installation planning: which missing binaries to install, the package
//! manager commands that install each of them, and when the vector-store
//! service needs starting. Running the commands is the caller's job; every
//! decision about what to run is made here.
use vstd::prelude::*;
use crate::prereq::{BinaryCheck, PrereqResult};
use crate::text::{contains_sub, str_contains, str_eq};

verus! {

/// The names, among the first `n` required checks, of binaries that are
/// missing or fail their requirement and should be installed — except a
/// docker requirement that podman already satisfies, which would be redundant
/// to install.
pub open spec fn install_names(checks: Seq<BinaryCheck>, n: nat) -> Seq<String>
    decreases n,
{
    if n == 0 {
        Seq::empty()
    } else {
        let rest = install_names(checks, (n - 1) as nat);
        let c = checks[n - 1];
        if !(c.found && c.meets_requirement) && c.name@ != "podman (docker alternative)"@ {
            rest.push(c.name)
        } else {
            rest
        }
    }
}

/// The names of the required binaries that are missing and should be
/// installed. A requirement that podman already satisfies in docker's stead
/// is skipped: installing docker would be redundant.
pub fn names_to_install(prereq: &PrereqResult) -> (r: Vec<String>)
    ensures
        r@ == install_names(prereq.required@, prereq.required@.len()),
{
    let checks = &prereq.required;
    let mut out: Vec<String> = Vec::new();
    let mut i: usize = 0;
    while i < checks.len()
        invariant
            i <= checks@.len(),
            out@ == install_names(checks@, i as nat),
        decreases checks@.len() - i,
    {
        let c = &checks[i];
        if !(c.found && c.meets_requirement) && !str_eq(
            c.name.as_str(),
            "podman (docker alternative)",
        ) {
            out.push(c.name.clone());
        }
        i += 1;
    }
    out
}

/// The commands match the given table of words exactly.
pub open spec fn plan_matches(r: Seq<Vec<String>>, t: Seq<Seq<Seq<char>>>) -> bool {
    &&& r.len() == t.len()
    &&& forall|i: int|
        0 <= i < t.len() ==> {
            &&& (#[trigger] r[i])@.len() == t[i].len()
            &&& forall|j: int| 0 <= j < t[i].len() ==> (#[trigger] r[i]@[j])@ == t[i][j]
        }
}

/// The command table that installs `name` on Linux, or `None` for a binary
/// the installer does not know.
pub open spec fn linux_plan(name: Seq<char>, user: Seq<char>) -> Option<Seq<Seq<Seq<char>>>> {
    if name == "docker"@ {
        Some(
            seq![
                seq!["sudo"@, "snap"@, "install"@, "docker"@],
                seq!["sudo"@, "addgroup"@, "--system"@, "docker"@],
                seq!["sudo"@, "usermod"@, "-aG"@, "docker"@, user],
            ],
        )
    } else if name == "git"@ {
        Some(
            seq![
                seq!["sudo"@, "apt-get"@, "update"@],
                seq!["sudo"@, "apt-get"@, "install"@, "-y"@, "git"@],
            ],
        )
    } else if name == "just"@ {
        Some(seq![seq!["cargo"@, "install"@, "just"@]])
    } else if name == "fzf"@ {
        Some(seq![seq!["sudo"@, "apt-get"@, "install"@, "-y"@, "fzf"@]])
    } else {
        None
    }
}

/// The command table that installs `name` with Homebrew, or `None` for a
/// binary the installer does not know.
pub open spec fn macos_plan(name: Seq<char>) -> Option<Seq<Seq<Seq<char>>>> {
    if name == "docker"@ {
        Some(seq![seq!["brew"@, "install"@, "--cask"@, "docker"@]])
    } else if name == "git"@ || name == "just"@ || name == "fzf"@ {
        Some(seq![seq!["brew"@, "install"@, name]])
    } else {
        None
    }
}

/// Plans the commands that install `name`: on Linux through snap, apt or
/// cargo (docker also needs its group set up for `user`), elsewhere through
/// Homebrew. `None` means the installer does not know this binary.
pub fn install_plan(name: &str, linux: bool, user: &str) -> (r: Option<Vec<Vec<String>>>)
    ensures
        match (if linux {
            linux_plan(name@, user@)
        } else {
            macos_plan(name@)
        }) {
            Some(t) => r matches Some(cmds) && plan_matches(cmds@, t),
            None => r is None,
        },
{
    let is_docker = str_eq(name, "docker");
    let is_git = str_eq(name, "git");
    let is_just = str_eq(name, "just");
    let is_fzf = str_eq(name, "fzf");
    if linux {
        if is_docker {
            let c1 = make_cmd4("sudo", "snap", "install", "docker");
            let c2 = make_cmd4("sudo", "addgroup", "--system", "docker");
            let mut c3 = make_cmd4("sudo", "usermod", "-aG", "docker");
            c3.push(user.to_owned());
            let mut cmds: Vec<Vec<String>> = Vec::new();
            cmds.push(c1);
            cmds.push(c2);
            cmds.push(c3);
            proof {
                assert(plan_matches(cmds@, linux_plan(name@, user@)->0));
            }
            Some(cmds)
        } else if is_git {
            let mut c1 = make_cmd2("sudo", "apt-get");
            c1.push("update".to_owned());
            let mut c2 = make_cmd4("sudo", "apt-get", "install", "-y");
            c2.push("git".to_owned());
            let mut cmds: Vec<Vec<String>> = Vec::new();
            cmds.push(c1);
            cmds.push(c2);
            proof {
                assert(plan_matches(cmds@, linux_plan(name@, user@)->0));
            }
            Some(cmds)
        } else if is_just {
            let mut c1 = make_cmd2("cargo", "install");
            c1.push("just".to_owned());
            let mut cmds: Vec<Vec<String>> = Vec::new();
            cmds.push(c1);
            proof {
                assert(plan_matches(cmds@, linux_plan(name@, user@)->0));
            }
            Some(cmds)
        } else if is_fzf {
            let mut c1 = make_cmd4("sudo", "apt-get", "install", "-y");
            c1.push("fzf".to_owned());
            let mut cmds: Vec<Vec<String>> = Vec::new();
            cmds.push(c1);
            proof {
                assert(plan_matches(cmds@, linux_plan(name@, user@)->0));
            }
            Some(cmds)
        } else {
            None
        }
    } else {
        if is_docker {
            let c1 = make_cmd4("brew", "install", "--cask", "docker");
            let mut cmds: Vec<Vec<String>> = Vec::new();
            cmds.push(c1);
            proof {
                assert(plan_matches(cmds@, macos_plan(name@)->0));
            }
            Some(cmds)
        } else if is_git || is_just || is_fzf {
            let mut c1 = make_cmd2("brew", "install");
            c1.push(name.to_owned());
            let mut cmds: Vec<Vec<String>> = Vec::new();
            cmds.push(c1);
            proof {
                assert(plan_matches(cmds@, macos_plan(name@)->0));
            }
            Some(cmds)
        } else {
            None
        }
    }
}

/// A command of two words.
fn make_cmd2(a: &str, b: &str) -> (r: Vec<String>)
    ensures
        r@.len() == 2,
        r@[0]@ == a@,
        r@[1]@ == b@,
{
    let mut c: Vec<String> = Vec::new();
    c.push(a.to_owned());
    c.push(b.to_owned());
    c
}

/// A command of four words.
fn make_cmd4(a: &str, b: &str, c: &str, d: &str) -> (r: Vec<String>)
    ensures
        r@.len() == 4,
        r@[0]@ == a@,
        r@[1]@ == b@,
        r@[2]@ == c@,
        r@[3]@ == d@,
{
    let mut out: Vec<String> = Vec::new();
    out.push(a.to_owned());
    out.push(b.to_owned());
    out.push(c.to_owned());
    out.push(d.to_owned());
    out
}

/// The vector store should be started exactly when a container runtime is
/// available and no container whose name mentions `qdrant` shows up in the
/// runtime's listing.
pub fn should_start_qdrant(runtime_available: bool, ps_output: &str) -> (r: bool)
    ensures
        r == (runtime_available && !contains_sub(ps_output@, "qdrant"@)),
{
    runtime_available && !str_contains(ps_output, "qdrant")
}

/// The arguments that create the vector-store container: detached, under its
/// well-known name, with its two ports published and its storage volume
/// mounted.
pub fn qdrant_run_args() -> (r: Vec<String>)
    ensures
        r@.len() == 11,
        r@[0]@ == "run"@,
        r@[1]@ == "-d"@,
        r@[2]@ == "--name"@,
        r@[3]@ == "qdrant"@,
        r@[4]@ == "-p"@,
        r@[5]@ == "6333:6333"@,
        r@[6]@ == "-p"@,
        r@[7]@ == "6334:6334"@,
        r@[8]@ == "-v"@,
        r@[9]@ == "qdrant_storage:/qdrant/storage"@,
        r@[10]@ == "qdrant/qdrant:latest"@,
{
    let mut out: Vec<String> = Vec::new();
    out.push("run".to_owned());
    out.push("-d".to_owned());
    out.push("--name".to_owned());
    out.push("qdrant".to_owned());
    out.push("-p".to_owned());
    out.push("6333:6333".to_owned());
    out.push("-p".to_owned());
    out.push("6334:6334".to_owned());
    out.push("-v".to_owned());
    out.push("qdrant_storage:/qdrant/storage".to_owned());
    out.push("qdrant/qdrant:latest".to_owned());
    out
}

} // verus!
