//! Orchestrator backend auto-detection: which deployment backends are
//! available, and which one to prefer. The probes themselves (running
//! `kubectl`, `docker-compose` or `nomad`) are the caller's job; the policy —
//! the priority order and the always-available direct fallback — is decided
//! here.
use vstd::prelude::*;

verus! {

/// A deployment backend the orchestrator can drive.
#[derive(Clone, Copy, PartialEq, Eq, Structural, Debug)]
pub enum Orchestrator {
    Kubernetes,
    DockerCompose,
    Nomad,
    Direct,
}

/// The backend picked from the given availability probes: Kubernetes over
/// Docker Compose over Nomad, and direct execution as the fallback that is
/// always available.
pub open spec fn detected(kubernetes: bool, docker_compose: bool, nomad: bool) -> Orchestrator {
    if kubernetes {
        Orchestrator::Kubernetes
    } else if docker_compose {
        Orchestrator::DockerCompose
    } else if nomad {
        Orchestrator::Nomad
    } else {
        Orchestrator::Direct
    }
}

/// Detects the best available orchestrator backend, given whether each probe
/// succeeded. Never fails: direct execution is always available.
pub fn detect_orchestrator(kubernetes: bool, docker_compose: bool, nomad: bool) -> (r: Result<
    Orchestrator,
    (),
>)
    ensures
        r == Ok::<Orchestrator, ()>(detected(kubernetes, docker_compose, nomad)),
{
    if kubernetes {
        Ok(Orchestrator::Kubernetes)
    } else if docker_compose {
        Ok(Orchestrator::DockerCompose)
    } else if nomad {
        Ok(Orchestrator::Nomad)
    } else {
        Ok(Orchestrator::Direct)
    }
}

/// Lists every backend with its availability, in priority order; direct
/// execution is always available.
pub fn list_available_orchestrators(kubernetes: bool, docker_compose: bool, nomad: bool) -> (r:
    Vec<(Orchestrator, bool)>)
    ensures
        r@ == seq![
            (Orchestrator::Kubernetes, kubernetes),
            (Orchestrator::DockerCompose, docker_compose),
            (Orchestrator::Nomad, nomad),
            (Orchestrator::Direct, true),
        ],
{
    let mut out: Vec<(Orchestrator, bool)> = Vec::new();
    out.push((Orchestrator::Kubernetes, kubernetes));
    out.push((Orchestrator::DockerCompose, docker_compose));
    out.push((Orchestrator::Nomad, nomad));
    out.push((Orchestrator::Direct, true));
    proof {
        assert(out@ =~= seq![
            (Orchestrator::Kubernetes, kubernetes),
            (Orchestrator::DockerCompose, docker_compose),
            (Orchestrator::Nomad, nomad),
            (Orchestrator::Direct, true),
        ]);
    }
    out
}

} // verus!
