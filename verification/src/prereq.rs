//! Prerequisite checking: which required and optional binaries are installed,
//! and whether their versions meet the configured requirements.
//!
//! Probing the system — looking a binary up in `PATH`, running it with
//! `--version` — is the caller's job; it hands the raw probe results in as a
//! [`BinaryProbe`] per binary. Everything decided from those results (the
//! docker/podman alternative, version extraction and comparison, priority
//! ordering, the overall verdict) is verified here.
use vstd::prelude::*;
use crate::text::str_eq;
use crate::version::{
    extract_version, extracted_version, requirement_verdict, version_meets_requirement,
};

verus! {

/// Bootstrap configuration, as loaded from the bootstrap file.
#[derive(Debug)]
pub struct BootstrapConfig {
    pub bootstrap: BootstrapSection,
}

/// The binaries the bootstrap needs, required and optional, each with its
/// specification, keyed by binary name.
#[derive(Debug)]
pub struct BootstrapSection {
    pub required_bins: Vec<(String, BinarySpec)>,
    pub optional_bins: Vec<(String, BinarySpec)>,
}

/// What is required of one binary.
#[derive(Clone, Debug)]
pub struct BinarySpec {
    /// A requirement such as `">=1.0.0"`.
    pub version: String,
    /// Lower numbers are checked and reported first.
    pub priority: u8,
    /// A hint on how to install the binary, shown when it is missing.
    pub install_hint: Option<String>,
}

/// Raw probe results for one binary, gathered by the caller.
#[derive(Debug)]
pub struct BinaryProbe {
    /// Where the binary was found in `PATH`, if anywhere.
    pub path: Option<String>,
    /// Whether the `docker` binary is actually podman (a symlink or wrapper).
    pub docker_is_podman: bool,
    /// Where `podman` was found, consulted as an alternative for `docker`.
    pub podman_path: Option<String>,
    /// What the binary printed when asked for its version, when it could be
    /// asked at all.
    pub version_output: Option<String>,
}

/// Result of checking a single binary.
#[derive(Debug)]
pub struct BinaryCheck {
    pub name: String,
    pub found: bool,
    pub installed_version: Option<String>,
    pub required_version: String,
    pub meets_requirement: bool,
    pub path: Option<String>,
    pub install_hint: Option<String>,
}

/// Overall prerequisite check result.
#[derive(Debug)]
pub struct PrereqResult {
    pub required: Vec<BinaryCheck>,
    pub optional: Vec<BinaryCheck>,
    pub all_required_met: bool,
}

/// The probe satisfied the `docker` requirement through podman, either as a
/// disguised docker binary or as the alternative when docker is missing.
pub open spec fn uses_alternative(name: Seq<char>, probe: BinaryProbe) -> bool {
    name == "docker"@ && ((probe.path is Some && probe.docker_is_podman) || (probe.path is None
        && probe.podman_path is Some))
}

/// The name the check reports: the probed name, annotated when podman stands
/// in for docker.
pub open spec fn checked_name(name: Seq<char>, probe: BinaryProbe) -> Seq<char> {
    if name == "docker"@ && probe.path is Some && probe.docker_is_podman {
        "docker (via podman)"@
    } else if name == "docker"@ && probe.path is None && probe.podman_path is Some {
        "podman (docker alternative)"@
    } else {
        name
    }
}

/// The binary counts as found when it is in `PATH`, or when it is `docker`
/// and podman is.
pub open spec fn checked_found(name: Seq<char>, probe: BinaryProbe) -> bool {
    probe.path is Some || (name == "docker"@ && probe.podman_path is Some)
}

/// The path the check reports: the binary's own, or podman's as the docker
/// alternative.
pub open spec fn checked_path(name: Seq<char>, probe: BinaryProbe) -> Option<String> {
    if probe.path is Some {
        probe.path
    } else if name == "docker"@ && probe.podman_path is Some {
        probe.podman_path
    } else {
        None
    }
}

/// The version number scanned out of the probe's version output.
pub open spec fn checked_version(probe: BinaryProbe) -> Option<Seq<char>> {
    match probe.version_output {
        Some(o) => extracted_version(o@),
        None => None,
    }
}

/// Whether the found binary meets the version requirement: an alternative is
/// trusted outright; a binary whose version cannot be determined is assumed
/// fine; otherwise the version is checked against the requirement, and a
/// requirement that cannot be evaluated counts as not met.
pub open spec fn checked_meets(name: Seq<char>, bspec: BinarySpec, probe: BinaryProbe) -> bool {
    if !checked_found(name, probe) {
        false
    } else {
        match checked_version(probe) {
            Some(v) => uses_alternative(name, probe) || requirement_verdict(v, bspec.version@)
                == Ok::<bool, crate::version::VersionError>(true),
            None => true,
        }
    }
}

/// The installed version the check reports: the scanned version, or
/// `"unknown"` for a binary that was found but could not be asked.
pub open spec fn checked_installed(name: Seq<char>, probe: BinaryProbe) -> Option<Seq<char>> {
    if !checked_found(name, probe) {
        None
    } else {
        match checked_version(probe) {
            Some(v) => Some(v),
            None => Some("unknown"@),
        }
    }
}

/// The full relation between one binary's name, specification and probe, and
/// the check record reported for it.
pub open spec fn check_matches(
    name: Seq<char>,
    bspec: BinarySpec,
    probe: BinaryProbe,
    c: BinaryCheck,
) -> bool {
    &&& c.name@ == checked_name(name, probe)
    &&& c.found == checked_found(name, probe)
    &&& match checked_installed(name, probe) {
        Some(v) => c.installed_version matches Some(s) && s@ == v,
        None => c.installed_version is None,
    }
    &&& c.required_version == bspec.version
    &&& c.meets_requirement == checked_meets(name, bspec, probe)
    &&& c.path == checked_path(name, probe)
    &&& c.install_hint == bspec.install_hint
}

/// Checks a single binary against its specification, given its probe
/// results. `docker` may be satisfied by podman.
pub fn check_binary(name: &str, bspec: &BinarySpec, probe: &BinaryProbe) -> (r: BinaryCheck)
    ensures
        check_matches(name@, *bspec, *probe, r),
{
    let is_docker = str_eq(name, "docker");
    let mut actual_name = name.to_owned();
    let mut found = probe.path.is_some();
    let mut path: Option<String> = match &probe.path {
        Some(p) => Some(p.clone()),
        None => None,
    };
    let mut using_alternative = false;
    if is_docker && found && probe.docker_is_podman {
        actual_name = "docker (via podman)".to_owned();
        using_alternative = true;
    }
    if !found && is_docker {
        if let Some(podman) = &probe.podman_path {
            path = Some(podman.clone());
            found = true;
            actual_name = "podman (docker alternative)".to_owned();
            using_alternative = true;
        }
    }
    let version: Option<String> = match &probe.version_output {
        Some(o) => extract_version(o.as_str()),
        None => None,
    };
    let (installed_version, meets_requirement): (Option<String>, bool) = if found {
        match version {
            Some(v) => {
                let meets = if using_alternative {
                    true
                } else {
                    match version_meets_requirement(v.as_str(), bspec.version.as_str()) {
                        Ok(b) => b,
                        Err(_) => false,
                    }
                };
                (Some(v), meets)
            },
            None => (Some("unknown".to_owned()), true),
        }
    } else {
        (None, false)
    };
    BinaryCheck {
        name: actual_name,
        found,
        installed_version,
        required_version: bspec.version.clone(),
        meets_requirement,
        path,
        install_hint: match &bspec.install_hint {
            Some(h) => Some(h.clone()),
            None => None,
        },
    }
}

/// The priority configured for the binary the check reports under this name:
/// the priority of the first matching entry, or `99` when the reported name
/// matches no entry (as happens when podman stands in for docker).
pub open spec fn prio_of(bins: Seq<(String, BinarySpec)>, name: Seq<char>, p: nat) -> int
    decreases bins.len() - p,
{
    if p >= bins.len() {
        99
    } else if bins[p as int].0@ == name {
        bins[p as int].1.priority as int
    } else {
        prio_of(bins, name, p + 1)
    }
}

/// The checks among the first `n` whose priority is exactly `v`, in order.
pub open spec fn checks_with_prio(
    bins: Seq<(String, BinarySpec)>,
    s: Seq<BinaryCheck>,
    v: int,
    n: nat,
) -> Seq<BinaryCheck>
    decreases n,
{
    if n == 0 {
        Seq::empty()
    } else {
        let rest = checks_with_prio(bins, s, v, (n - 1) as nat);
        if prio_of(bins, s[n - 1].name@, 0) == v {
            rest.push(s[n - 1])
        } else {
            rest
        }
    }
}

/// The checks stably ordered by priority, priorities below `v`.
pub open spec fn prio_ordered_upto(
    bins: Seq<(String, BinarySpec)>,
    s: Seq<BinaryCheck>,
    v: int,
) -> Seq<BinaryCheck>
    decreases v,
{
    if v <= 0 {
        Seq::empty()
    } else {
        prio_ordered_upto(bins, s, v - 1) + checks_with_prio(bins, s, v - 1, s.len())
    }
}

/// Finds the configured priority for a reported name.
fn priority_for(bins: &Vec<(String, BinarySpec)>, name: &String) -> (r: u8)
    ensures
        r as int == prio_of(bins@, name@, 0),
{
    let mut p: usize = 0;
    while p < bins.len()
        invariant
            p <= bins@.len(),
            prio_of(bins@, name@, 0) == prio_of(bins@, name@, p as nat),
        decreases bins@.len() - p,
    {
        if str_eq(bins[p].0.as_str(), name.as_str()) {
            return bins[p].1.priority;
        }
        p += 1;
    }
    99
}

/// Stably sorts checks by their configured priority, lowest first.
fn sort_by_priority(bins: &Vec<(String, BinarySpec)>, checks: &Vec<BinaryCheck>) -> (r: Vec<
    BinaryCheck,
>)
    ensures
        r@ == prio_ordered_upto(bins@, checks@, 256),
{
    let mut out: Vec<BinaryCheck> = Vec::new();
    let mut v: u16 = 0;
    while v < 256
        invariant
            v <= 256,
            out@ == prio_ordered_upto(bins@, checks@, v as int),
        decreases 256 - v,
    {
        let mut i: usize = 0;
        while i < checks.len()
            invariant
                i <= checks@.len(),
                v < 256,
                out@ == prio_ordered_upto(bins@, checks@, v as int) + checks_with_prio(
                    bins@,
                    checks@,
                    v as int,
                    i as nat,
                ),
            decreases checks@.len() - i,
        {
            let pr = priority_for(bins, &checks[i].name);
            if pr as u16 == v {
                out.push(clone_check(&checks[i]));
            }
            i += 1;
        }
        v += 1;
    }
    out
}

/// An exact copy of a check record.
fn clone_check(c: &BinaryCheck) -> (r: BinaryCheck)
    ensures
        r == *c,
{
    BinaryCheck {
        name: c.name.clone(),
        found: c.found,
        installed_version: match &c.installed_version {
            Some(v) => Some(v.clone()),
            None => None,
        },
        required_version: c.required_version.clone(),
        meets_requirement: c.meets_requirement,
        path: match &c.path {
            Some(p) => Some(p.clone()),
            None => None,
        },
        install_hint: match &c.install_hint {
            Some(h) => Some(h.clone()),
            None => None,
        },
    }
}

/// The checks each relate to their binary and probe as `check_matches` says.
pub open spec fn checks_match_seq(
    bins: Seq<(String, BinarySpec)>,
    probes: Seq<BinaryProbe>,
    checks: Seq<BinaryCheck>,
) -> bool {
    &&& checks.len() == bins.len()
    &&& forall|i: int|
        0 <= i < bins.len() ==> check_matches(
            bins[i].0@,
            bins[i].1,
            probes[i],
            #[trigger] checks[i],
        )
}

/// The checks among the first `n` that report a missing binary or an unmet
/// requirement, in their original order.
pub open spec fn missing_seq(checks: Seq<BinaryCheck>, n: nat) -> Seq<BinaryCheck>
    decreases n,
{
    if n == 0 {
        Seq::empty()
    } else {
        let rest = missing_seq(checks, (n - 1) as nat);
        if !(checks[n - 1].found && checks[n - 1].meets_requirement) {
            rest.push(checks[n - 1])
        } else {
            rest
        }
    }
}

/// How many of the first `n` checks report a missing binary or an unmet
/// requirement.
pub open spec fn count_missing(checks: Seq<BinaryCheck>, n: nat) -> nat
    decreases n,
{
    if n == 0 {
        0
    } else {
        count_missing(checks, (n - 1) as nat) + if !(checks[n - 1].found
            && checks[n - 1].meets_requirement) {
            1nat
        } else {
            0nat
        }
    }
}

/// Every check in the sequence reports its binary found with its requirement
/// met.
pub open spec fn all_met(checks: Seq<BinaryCheck>) -> bool {
    forall|i: int|
        0 <= i < checks.len() ==> (#[trigger] checks[i]).found && checks[i].meets_requirement
}

impl PrereqResult {
    /// The required binaries that are missing or fail their requirement.
    pub fn missing_required(&self) -> (r: Vec<&BinaryCheck>)
        ensures
            r@.len() == count_missing(self.required@, self.required@.len()),
            forall|i: int|
                0 <= i < r@.len() ==> *(#[trigger] r@[i]) == missing_seq(
                    self.required@,
                    self.required@.len(),
                )[i],
            all_met(self.required@) <==> r@.len() == 0,
    {
        collect_missing(&self.required)
    }

    /// The optional binaries that are missing or fail their requirement.
    pub fn missing_optional(&self) -> (r: Vec<&BinaryCheck>)
        ensures
            r@.len() == count_missing(self.optional@, self.optional@.len()),
            forall|i: int|
                0 <= i < r@.len() ==> *(#[trigger] r@[i]) == missing_seq(
                    self.optional@,
                    self.optional@.len(),
                )[i],
            all_met(self.optional@) <==> r@.len() == 0,
    {
        collect_missing(&self.optional)
    }
}

/// Collects the checks that report a missing binary or an unmet requirement.
fn collect_missing(checks: &Vec<BinaryCheck>) -> (r: Vec<&BinaryCheck>)
    ensures
        r@.len() == count_missing(checks@, checks@.len()),
        forall|i: int|
            0 <= i < r@.len() ==> *(#[trigger] r@[i]) == missing_seq(checks@, checks@.len())[i],
        all_met(checks@) <==> r@.len() == 0,
{
    let mut out: Vec<&BinaryCheck> = Vec::new();
    let mut i: usize = 0;
    while i < checks.len()
        invariant
            i <= checks@.len(),
            out@.len() == count_missing(checks@, i as nat),
            out@.len() <= i,
            forall|p: int|
                0 <= p < out@.len() ==> *(#[trigger] out@[p]) == missing_seq(checks@, i as nat)[p],
            out@.len() == 0 <==> (forall|p: int|
                0 <= p < i ==> (#[trigger] checks@[p]).found && checks@[p].meets_requirement),
        decreases checks@.len() - i,
    {
        let ghost prev = missing_seq(checks@, i as nat);
        proof {
            lemma_count_is_len(checks@, i as nat);
        }
        let c = &checks[i];
        if !(c.found && c.meets_requirement) {
            out.push(c);
        }
        proof {
            assert forall|p: int| 0 <= p < out@.len() implies *(#[trigger] out@[p]) == missing_seq(
                checks@,
                (i + 1) as nat,
            )[p] by {
                if p < prev.len() {
                    assert(missing_seq(checks@, (i + 1) as nat)[p] == prev[p]);
                }
            }
        }
        i += 1;
    }
    proof {
        assert forall|i2: int| 0 <= i2 < checks@.len() implies ((#[trigger] checks@[i2]).found
            && checks@[i2].meets_requirement) == !missing_contrib(checks@, i2) by {}
    }
    out
}

/// The number of missing checks is the length of the missing list.
pub proof fn lemma_count_is_len(checks: Seq<BinaryCheck>, n: nat)
    ensures
        count_missing(checks, n) == missing_seq(checks, n).len(),
    decreases n,
{
    if n > 0 {
        lemma_count_is_len(checks, (n - 1) as nat);
    }
}

/// Counts the checks that report a missing binary or an unmet requirement.
pub fn count_missing_checks(checks: &Vec<BinaryCheck>) -> (r: usize)
    ensures
        r == count_missing(checks@, checks@.len()),
{
    let mut count: usize = 0;
    let mut i: usize = 0;
    while i < checks.len()
        invariant
            i <= checks@.len(),
            count == count_missing(checks@, i as nat),
            count <= i,
        decreases checks@.len() - i,
    {
        if !(checks[i].found && checks[i].meets_requirement) {
            count += 1;
        }
        i += 1;
    }
    count
}

/// The check at `i` contributes to the missing list.
pub open spec fn missing_contrib(checks: Seq<BinaryCheck>, i: int) -> bool {
    !(checks[i].found && checks[i].meets_requirement)
}

/// Checks all prerequisites: every required and optional binary against its
/// probe, with the required checks stably ordered by priority and the overall
/// verdict taken over all required binaries.
pub fn check_prerequisites(
    config: &BootstrapConfig,
    required_probes: &Vec<BinaryProbe>,
    optional_probes: &Vec<BinaryProbe>,
) -> (r: PrereqResult)
    requires
        required_probes@.len() == config.bootstrap.required_bins@.len(),
        optional_probes@.len() == config.bootstrap.optional_bins@.len(),
    ensures
        checks_match_seq(config.bootstrap.optional_bins@, optional_probes@, r.optional@),
        exists|base: Seq<BinaryCheck>|
            #![all_triggers]
            checks_match_seq(config.bootstrap.required_bins@, required_probes@, base)
                && r.required@ == prio_ordered_upto(config.bootstrap.required_bins@, base, 256),
        r.all_required_met == all_met(r.required@),
{
    let bins = &config.bootstrap.required_bins;
    let mut base: Vec<BinaryCheck> = Vec::new();
    let mut i: usize = 0;
    while i < bins.len()
        invariant
            i <= bins@.len(),
            required_probes@.len() == bins@.len(),
            base@.len() == i,
            forall|p: int|
                0 <= p < i ==> check_matches(
                    bins@[p].0@,
                    bins@[p].1,
                    required_probes@[p],
                    #[trigger] base@[p],
                ),
        decreases bins@.len() - i,
    {
        base.push(check_binary(bins[i].0.as_str(), &bins[i].1, &required_probes[i]));
        i += 1;
    }
    let required = sort_by_priority(bins, &base);
    let obins = &config.bootstrap.optional_bins;
    let mut optional: Vec<BinaryCheck> = Vec::new();
    let mut j: usize = 0;
    while j < obins.len()
        invariant
            j <= obins@.len(),
            optional_probes@.len() == obins@.len(),
            optional@.len() == j,
            forall|p: int|
                0 <= p < j ==> check_matches(
                    obins@[p].0@,
                    obins@[p].1,
                    optional_probes@[p],
                    #[trigger] optional@[p],
                ),
        decreases obins@.len() - j,
    {
        optional.push(check_binary(obins[j].0.as_str(), &obins[j].1, &optional_probes[j]));
        j += 1;
    }
    let mut all_required_met = true;
    let mut q: usize = 0;
    while q < required.len()
        invariant
            q <= required@.len(),
            all_required_met <==> (forall|p: int|
                0 <= p < q ==> (#[trigger] required@[p]).found
                    && required@[p].meets_requirement),
        decreases required@.len() - q,
    {
        if !(required[q].found && required[q].meets_requirement) {
            all_required_met = false;
        }
        q += 1;
    }
    PrereqResult { required, optional, all_required_met }
}

} // verus!
