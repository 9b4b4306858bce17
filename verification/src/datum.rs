//! The configuration records the orchestrator works over: a datum is a named,
//! typed description of a tool or service, its explicit dependencies, the
//! capabilities it requires, and the capability it provides.
use vstd::prelude::*;
use crate::text::{is_suffix, str_eq, str_strip_suffix};

verus! {

/// The closed set of datum types. Only `Docker` datums are driven by the
/// container lifecycle; only `Api` datums can provide a capability.
#[derive(Clone, Copy, PartialEq, Eq, Structural, Debug)]
pub enum DatumType {
    Docker,
    Mcp,
    Cli,
    Bash,
    Vscode,
    K8s,
    Apt,
    Ai,
    Api,
    Stack,
}

/// A capability requested by a datum: an abstract capability name, an ordered
/// list of provider key prefixes expressing preference, and the name of a
/// specific provider to fall back on when every candidate fails.
#[derive(Clone, Debug)]
pub struct CapabilityRequirement {
    pub capability: Option<String>,
    pub prefer: Option<Vec<String>>,
    pub fallback: Option<String>,
}

/// A named, typed configuration record.
#[derive(Clone, Debug)]
pub struct BootDatum {
    pub name: String,
    pub datum_type: Option<DatumType>,
    /// Keys of datums that must be running first, in order.
    pub depends_on: Vec<String>,
    /// Named capability requirements, in the order they are resolved.
    pub requires: Vec<(String, CapabilityRequirement)>,
    /// The capability this datum advertises (meaningful for `Api` datums).
    pub provides: Option<String>,
    /// Container image (meaningful for `Docker` datums).
    pub image: Option<String>,
    /// Extra arguments for container creation, appended verbatim.
    pub docker_args: Vec<String>,
    /// Environment entries rendered as `-e KEY=VALUE` pairs on creation.
    pub env: Vec<(String, String)>,
}

/// The lowercase rendering of a datum type, as it appears in datum keys and
/// datum file names.
pub open spec fn type_str(t: DatumType) -> Seq<char> {
    match t {
        DatumType::Docker => "docker"@,
        DatumType::Mcp => "mcp"@,
        DatumType::Cli => "cli"@,
        DatumType::Bash => "bash"@,
        DatumType::Vscode => "vscode"@,
        DatumType::K8s => "k8s"@,
        DatumType::Apt => "apt"@,
        DatumType::Ai => "ai"@,
        DatumType::Api => "api"@,
        DatumType::Stack => "stack"@,
    }
}

/// The key of a datum: its name, a dot, and its lowercase type
/// (`"unknown"` when the type is missing).
pub open spec fn key_of(d: BootDatum) -> Seq<char> {
    match d.datum_type {
        Some(t) => d.name@ + "."@ + type_str(t),
        None => d.name@ + "."@ + "unknown"@,
    }
}

/// The lowercase name of a datum type.
pub fn type_to_str(t: DatumType) -> (r: &'static str)
    ensures
        r@ == type_str(t),
{
    match t {
        DatumType::Docker => "docker",
        DatumType::Mcp => "mcp",
        DatumType::Cli => "cli",
        DatumType::Bash => "bash",
        DatumType::Vscode => "vscode",
        DatumType::K8s => "k8s",
        DatumType::Apt => "apt",
        DatumType::Ai => "ai",
        DatumType::Api => "api",
        DatumType::Stack => "stack",
    }
}

impl BootDatum {
    /// Derives the index key of this datum, `name.type`.
    pub fn make_key(&self) -> (r: String)
        ensures
            r@ == key_of(*self),
    {
        let mut key = self.name.clone();
        key.append(".");
        proof {
            reveal_strlit(".");
        }
        match self.datum_type {
            Some(t) => key.append(type_to_str(t)),
            None => key.append("unknown"),
        }
        proof {
            reveal_strlit("unknown");
            assert(key@ =~= key_of(*self));
        }
        key
    }
}

/// The datum name encoded by a datum file name: `Some(name)` exactly when the
/// file name is `<name>.<type>.toml` for one of the ten datum types.
pub open spec fn datum_name_of(filename: Seq<char>) -> Option<Seq<char>> {
    if !is_suffix(".toml"@, filename) {
        None
    } else {
        let stem = filename.subrange(0, filename.len() - ".toml"@.len());
        if is_suffix(".docker"@, stem) {
            Some(stem.subrange(0, stem.len() - ".docker"@.len()))
        } else if is_suffix(".mcp"@, stem) {
            Some(stem.subrange(0, stem.len() - ".mcp"@.len()))
        } else if is_suffix(".cli"@, stem) {
            Some(stem.subrange(0, stem.len() - ".cli"@.len()))
        } else if is_suffix(".bash"@, stem) {
            Some(stem.subrange(0, stem.len() - ".bash"@.len()))
        } else if is_suffix(".vscode"@, stem) {
            Some(stem.subrange(0, stem.len() - ".vscode"@.len()))
        } else if is_suffix(".k8s"@, stem) {
            Some(stem.subrange(0, stem.len() - ".k8s"@.len()))
        } else if is_suffix(".apt"@, stem) {
            Some(stem.subrange(0, stem.len() - ".apt"@.len()))
        } else if is_suffix(".ai"@, stem) {
            Some(stem.subrange(0, stem.len() - ".ai"@.len()))
        } else if is_suffix(".api"@, stem) {
            Some(stem.subrange(0, stem.len() - ".api"@.len()))
        } else if is_suffix(".stack"@, stem) {
            Some(stem.subrange(0, stem.len() - ".stack"@.len()))
        } else {
            None
        }
    }
}

/// Extracts the datum name from a datum file name
/// (for example `"qdrant.docker.toml"` yields `"qdrant"`).
pub fn extract_datum_name(filename: &str) -> (r: Option<String>)
    ensures
        match r {
            Some(name) => datum_name_of(filename@) == Some(name@),
            None => datum_name_of(filename@) is None,
        },
{
    let stem = match str_strip_suffix(filename, ".toml") {
        Some(s) => s,
        None => {
            return None;
        },
    };
    if let Some(name) = str_strip_suffix(stem, ".docker") {
        Some(name.to_owned())
    } else if let Some(name) = str_strip_suffix(stem, ".mcp") {
        Some(name.to_owned())
    } else if let Some(name) = str_strip_suffix(stem, ".cli") {
        Some(name.to_owned())
    } else if let Some(name) = str_strip_suffix(stem, ".bash") {
        Some(name.to_owned())
    } else if let Some(name) = str_strip_suffix(stem, ".vscode") {
        Some(name.to_owned())
    } else if let Some(name) = str_strip_suffix(stem, ".k8s") {
        Some(name.to_owned())
    } else if let Some(name) = str_strip_suffix(stem, ".apt") {
        Some(name.to_owned())
    } else if let Some(name) = str_strip_suffix(stem, ".ai") {
        Some(name.to_owned())
    } else if let Some(name) = str_strip_suffix(stem, ".api") {
        Some(name.to_owned())
    } else if let Some(name) = str_strip_suffix(stem, ".stack") {
        Some(name.to_owned())
    } else {
        None
    }
}

/// Character-wise equality on owned strings.
pub fn string_eq(a: &String, b: &String) -> (r: bool)
    ensures
        r == (a@ == b@),
{
    str_eq(a.as_str(), b.as_str())
}

} // verus!
