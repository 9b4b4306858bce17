use b00t_cli::datum::{BootDatum, CapabilityRequirement, DatumType};
use b00t_cli::orchestrator::{
    Action, ContainerState, Event, OrchError, Orchestrator, Run, Step,
};
use b00t_cli::probe::classify_container;

fn datum(name: &str, t: DatumType) -> BootDatum {
    BootDatum {
        name: name.to_string(),
        datum_type: Some(t),
        depends_on: vec![],
        requires: vec![],
        provides: None,
        image: None,
        docker_args: vec![],
        env: vec![],
    }
}

fn docker_datum(name: &str, image: &str) -> BootDatum {
    let mut d = datum(name, DatumType::Docker);
    d.image = Some(image.to_string());
    d
}

fn api_provider(name: &str, capability: &str, deps: Vec<&str>) -> BootDatum {
    let mut d = datum(name, DatumType::Api);
    d.provides = Some(capability.to_string());
    d.depends_on = deps.iter().map(|s| s.to_string()).collect();
    d
}

fn requirement(capability: &str, prefer: Option<Vec<&str>>, fallback: Option<&str>) -> CapabilityRequirement {
    CapabilityRequirement {
        capability: Some(capability.to_string()),
        prefer: prefer.map(|p| p.iter().map(|s| s.to_string()).collect()),
        fallback: fallback.map(|f| f.to_string()),
    }
}

/// A simulated container runtime: per-container states, with optional
/// misbehaviour (failing creates, containers that never come up).
struct SimRuntime {
    states: Vec<(String, ContainerState)>,
    fail_exec_for: Vec<String>,
    never_up: Vec<String>,
    observes: usize,
    starts: usize,
    creates: usize,
}

impl SimRuntime {
    fn new() -> SimRuntime {
        SimRuntime {
            states: vec![],
            fail_exec_for: vec![],
            never_up: vec![],
            observes: 0,
            starts: 0,
            creates: 0,
        }
    }

    fn with_state(mut self, name: &str, st: ContainerState) -> SimRuntime {
        self.set(name, st);
        self
    }

    fn failing_exec(mut self, name: &str) -> SimRuntime {
        self.fail_exec_for.push(name.to_string());
        self
    }

    fn never_coming_up(mut self, name: &str) -> SimRuntime {
        self.never_up.push(name.to_string());
        self
    }

    fn get(&self, name: &str) -> ContainerState {
        for (n, st) in &self.states {
            if n == name {
                return *st;
            }
        }
        ContainerState::Absent
    }

    fn set(&mut self, name: &str, st: ContainerState) {
        for entry in &mut self.states {
            if entry.0 == name {
                entry.1 = st;
                return;
            }
        }
        self.states.push((name.to_string(), st));
    }

    fn perform(&mut self, action: &Action) -> Event {
        match action {
            Action::Observe { name } => {
                self.observes += 1;
                Event::Observed(self.get(name))
            }
            Action::Start { name } => {
                self.starts += 1;
                if self.fail_exec_for.iter().any(|n| n == name) {
                    Event::ExecFailed("exit status 1".to_string())
                } else {
                    let st = if self.never_up.iter().any(|n| n == name) {
                        ContainerState::Stopped
                    } else {
                        ContainerState::Running
                    };
                    self.set(name, st);
                    Event::ExecOk
                }
            }
            Action::Create { name, .. } => {
                self.creates += 1;
                if self.fail_exec_for.iter().any(|n| n == name) {
                    Event::ExecFailed("exit status 125".to_string())
                } else {
                    let st = if self.never_up.iter().any(|n| n == name) {
                        ContainerState::Stopped
                    } else {
                        ContainerState::Running
                    };
                    self.set(name, st);
                    Event::ExecOk
                }
            }
        }
    }
}

/// Runs one resolution to completion against the simulated runtime,
/// returning the outcome and every action the machine asked for.
fn drive(
    orch: &Orchestrator,
    key: &str,
    sim: &mut SimRuntime,
) -> (Result<Vec<String>, OrchError>, Vec<Action>) {
    let (mut run, first) = orch.ensure_dependencies(key);
    let mut actions: Vec<Action> = vec![];
    let mut step = first;
    let mut budget = 100000;
    loop {
        budget -= 1;
        assert!(budget > 0, "resolution did not finish");
        match step {
            Step::Done(outcome) => return (outcome, actions),
            Step::Again => {
                step = orch.step(&mut run, Event::Tick);
            }
            Step::Do(action) => {
                let ev = sim.perform(&action);
                actions.push(action);
                step = orch.step(&mut run, ev);
            }
        }
    }
}

fn observe_targets(actions: &[Action]) -> Vec<String> {
    actions
        .iter()
        .filter_map(|a| match a {
            Action::Observe { name } => Some(name.clone()),
            _ => None,
        })
        .collect()
}

#[test]
fn test_not_found_is_an_error() {
    let orch = Orchestrator::new(vec![docker_datum("qdrant", "qdrant/qdrant:latest")]);
    let mut sim = SimRuntime::new();
    let (outcome, actions) = drive(&orch, "nothing.docker", &mut sim);
    assert_eq!(outcome, Err(OrchError::NotFound("nothing.docker".to_string())));
    assert!(actions.is_empty());
}

#[test]
fn test_absent_container_is_created_and_observed_running() {
    // End-to-end: an Api datum whose infrastructure is one absent container.
    let mut api = datum("qdrant", DatumType::Api);
    api.depends_on = vec!["qdrant.docker".to_string()];
    let orch = Orchestrator::new(vec![api, docker_datum("qdrant", "qdrant/qdrant:latest")]);
    let mut sim = SimRuntime::new();
    let (outcome, _) = drive(&orch, "qdrant.api", &mut sim);
    assert_eq!(outcome, Ok(vec!["qdrant.docker".to_string()]));
    assert_eq!(sim.creates, 1);
    assert_eq!(sim.starts, 0);
    assert_eq!(sim.get("qdrant"), ContainerState::Running);
}

#[test]
fn test_stopped_container_is_restarted() {
    let mut api = datum("qdrant", DatumType::Api);
    api.depends_on = vec!["qdrant.docker".to_string()];
    let orch = Orchestrator::new(vec![api, docker_datum("qdrant", "qdrant/qdrant:latest")]);
    let mut sim = SimRuntime::new().with_state("qdrant", ContainerState::Stopped);
    let (outcome, _) = drive(&orch, "qdrant.api", &mut sim);
    assert_eq!(outcome, Ok(vec!["qdrant.docker".to_string()]));
    assert_eq!(sim.starts, 1);
    assert_eq!(sim.creates, 0);
    assert_eq!(sim.get("qdrant"), ContainerState::Running);
}

#[test]
fn test_running_container_is_a_noop() {
    let mut api = datum("qdrant", DatumType::Api);
    api.depends_on = vec!["qdrant.docker".to_string()];
    let orch = Orchestrator::new(vec![api, docker_datum("qdrant", "qdrant/qdrant:latest")]);
    let mut sim = SimRuntime::new().with_state("qdrant", ContainerState::Running);
    let (outcome, _) = drive(&orch, "qdrant.api", &mut sim);
    assert_eq!(outcome, Ok(vec![]));
    assert_eq!(sim.starts, 0);
    assert_eq!(sim.creates, 0);
}

#[test]
fn test_second_resolution_is_idempotent() {
    // Once the container runs, a second resolution performs zero creates and
    // zero restarts.
    let mut api = datum("qdrant", DatumType::Api);
    api.depends_on = vec!["qdrant.docker".to_string()];
    let orch = Orchestrator::new(vec![api, docker_datum("qdrant", "qdrant/qdrant:latest")]);
    let mut sim = SimRuntime::new();
    let (first, _) = drive(&orch, "qdrant.api", &mut sim);
    assert_eq!(first, Ok(vec!["qdrant.docker".to_string()]));
    let creates_before = sim.creates;
    let starts_before = sim.starts;
    let (second, _) = drive(&orch, "qdrant.api", &mut sim);
    assert_eq!(second, Ok(vec![]));
    assert_eq!(sim.creates, creates_before);
    assert_eq!(sim.starts, starts_before);
}

#[test]
fn test_readiness_wait_polls_exactly_thirty_times() {
    // A runtime that never reports the container running: the wait fails
    // after exactly 30 polls, never fewer, never more.
    let mut api = datum("qdrant", DatumType::Api);
    api.depends_on = vec!["qdrant.docker".to_string()];
    let orch = Orchestrator::new(vec![api, docker_datum("qdrant", "qdrant/qdrant:latest")]);
    let mut sim = SimRuntime::new().never_coming_up("qdrant");
    let (outcome, actions) = drive(&orch, "qdrant.api", &mut sim);
    assert_eq!(outcome, Err(OrchError::ReadinessTimeout("qdrant".to_string())));
    // probe + existence check + exactly 30 readiness polls
    assert_eq!(observe_targets(&actions).len(), 2 + 30);
    assert_eq!(sim.creates, 1);
}

#[test]
fn test_failed_create_surfaces_runtime_error() {
    let mut api = datum("qdrant", DatumType::Api);
    api.depends_on = vec!["qdrant.docker".to_string()];
    let orch = Orchestrator::new(vec![api, docker_datum("qdrant", "qdrant/qdrant:latest")]);
    let mut sim = SimRuntime::new().failing_exec("qdrant");
    let (outcome, _) = drive(&orch, "qdrant.api", &mut sim);
    assert_eq!(
        outcome,
        Err(OrchError::ExecutionFailure(
            "qdrant".to_string(),
            "exit status 125".to_string()
        ))
    );
}

#[test]
fn test_missing_image_is_an_error() {
    let mut api = datum("store", DatumType::Api);
    api.depends_on = vec!["store.docker".to_string()];
    let orch = Orchestrator::new(vec![api, datum("store", DatumType::Docker)]);
    let mut sim = SimRuntime::new();
    let (outcome, _) = drive(&orch, "store.api", &mut sim);
    assert_eq!(outcome, Err(OrchError::MissingImage("store".to_string())));
}

#[test]
fn test_missing_dependency_is_skipped_silently() {
    let mut api = datum("qdrant", DatumType::Api);
    api.depends_on = vec!["ghost.docker".to_string()];
    let orch = Orchestrator::new(vec![api]);
    let mut sim = SimRuntime::new();
    let (outcome, actions) = drive(&orch, "qdrant.api", &mut sim);
    assert_eq!(outcome, Ok(vec![]));
    assert!(actions.is_empty());
}

#[test]
fn test_runtime_unavailable_is_fatal() {
    let mut api = datum("qdrant", DatumType::Api);
    api.depends_on = vec!["qdrant.docker".to_string()];
    let orch = Orchestrator::new(vec![api, docker_datum("qdrant", "qdrant/qdrant:latest")]);
    let (mut run, first) = orch.ensure_dependencies("qdrant.api");
    let mut step = first;
    loop {
        match step {
            Step::Done(outcome) => {
                assert_eq!(outcome, Err(OrchError::RuntimeUnavailable));
                break;
            }
            Step::Again => step = orch.step(&mut run, Event::Tick),
            Step::Do(_) => step = orch.step(&mut run, Event::RuntimeMissing),
        }
    }
}

#[test]
fn test_preference_order_is_respected() {
    // Candidates {A-svc, B-svc, C-svc} all provide "x"; prefer = ["B"].
    // Every candidate fails, so the order of attempted containers reveals
    // the order of attempts: B-svc first, then A-svc and C-svc in original
    // relative order.
    let mut consumer = datum("agent", DatumType::Cli);
    consumer.requires = vec![(
        "x".to_string(),
        requirement("x", Some(vec!["B"]), None),
    )];
    let orch = Orchestrator::new(vec![
        consumer,
        api_provider("A-svc", "x", vec!["a.docker"]),
        api_provider("B-svc", "x", vec!["b.docker"]),
        api_provider("C-svc", "x", vec!["c.docker"]),
        docker_datum("a", "a:latest"),
        docker_datum("b", "b:latest"),
        docker_datum("c", "c:latest"),
    ]);
    let mut sim = SimRuntime::new()
        .failing_exec("a")
        .failing_exec("b")
        .failing_exec("c");
    let (outcome, actions) = drive(&orch, "agent.cli", &mut sim);
    assert_eq!(outcome, Err(OrchError::CapabilityUnresolved("x".to_string())));
    let mut attempted: Vec<String> = vec![];
    for name in observe_targets(&actions) {
        if !attempted.contains(&name) {
            attempted.push(name);
        }
    }
    assert_eq!(attempted, vec!["b".to_string(), "a".to_string(), "c".to_string()]);
}

#[test]
fn test_fallback_is_used_when_candidates_fail() {
    // All candidates fail; fallback = "Z" names an existing Api datum, so
    // Z's dependencies are the ones started.
    let mut consumer = datum("agent", DatumType::Cli);
    consumer.requires = vec![(
        "x".to_string(),
        requirement("x", Some(vec!["B"]), Some("Z")),
    )];
    let orch = Orchestrator::new(vec![
        consumer,
        api_provider("A-svc", "x", vec!["a.docker"]),
        api_provider("B-svc", "x", vec!["b.docker"]),
        api_provider("Z", "other", vec!["z.docker"]),
        docker_datum("a", "a:latest"),
        docker_datum("b", "b:latest"),
        docker_datum("z", "z:latest"),
    ]);
    let mut sim = SimRuntime::new().failing_exec("a").failing_exec("b");
    let (outcome, _) = drive(&orch, "agent.cli", &mut sim);
    assert_eq!(outcome, Ok(vec!["z.docker".to_string()]));
    assert_eq!(sim.get("z"), ContainerState::Running);
}

#[test]
fn test_fallback_missing_or_not_api_fails_resolution() {
    // A fallback that does not exist fails the capability; so does one that
    // names a datum of another type.
    let mut consumer = datum("agent", DatumType::Cli);
    consumer.requires = vec![(
        "x".to_string(),
        requirement("x", None, Some("Z")),
    )];
    let orch = Orchestrator::new(vec![consumer.clone()]);
    let mut sim = SimRuntime::new();
    let (outcome, _) = drive(&orch, "agent.cli", &mut sim);
    assert_eq!(outcome, Err(OrchError::CapabilityUnresolved("x".to_string())));

    let orch2 = Orchestrator::new(vec![consumer, datum("Z", DatumType::Cli)]);
    let mut sim2 = SimRuntime::new();
    let (outcome2, _) = drive(&orch2, "agent.cli", &mut sim2);
    assert_eq!(outcome2, Err(OrchError::CapabilityUnresolved("x".to_string())));
}

#[test]
fn test_failed_candidate_rolls_back_its_partial_starts() {
    // The first candidate starts one container and then fails on a second;
    // its partial start is not reported, only the winning candidate's chain.
    let mut consumer = datum("agent", DatumType::Cli);
    consumer.requires = vec![(
        "x".to_string(),
        requirement("x", Some(vec!["first"]), None),
    )];
    let orch = Orchestrator::new(vec![
        consumer,
        api_provider("first", "x", vec!["good.docker", "bad.docker"]),
        api_provider("second", "x", vec!["other.docker"]),
        docker_datum("good", "good:latest"),
        docker_datum("bad", "bad:latest"),
        docker_datum("other", "other:latest"),
    ]);
    let mut sim = SimRuntime::new().failing_exec("bad");
    let (outcome, _) = drive(&orch, "agent.cli", &mut sim);
    assert_eq!(outcome, Ok(vec!["other.docker".to_string()]));
}

#[test]
fn test_end_to_end_embeddings_fallback_chain() {
    // Requirement capability = "embeddings", candidates openrouter.api and
    // local.api, prefer = [], fallback = "local"; openrouter's own
    // dependency fails to start, so the started list comes from local.api's
    // dependency chain instead.
    let mut consumer = datum("agent", DatumType::Cli);
    consumer.requires = vec![(
        "embeddings".to_string(),
        requirement("embeddings", Some(vec![]), Some("local")),
    )];
    let orch = Orchestrator::new(vec![
        consumer,
        api_provider("openrouter", "embeddings", vec!["router.docker"]),
        api_provider("local", "embeddings", vec!["local.docker"]),
        docker_datum("router", "router:latest"),
        docker_datum("local", "local:latest"),
    ]);
    let mut sim = SimRuntime::new().failing_exec("router");
    let (outcome, _) = drive(&orch, "agent.cli", &mut sim);
    assert_eq!(outcome, Ok(vec!["local.docker".to_string()]));
}

#[test]
fn test_composite_api_resolves_nested_capability() {
    // A capability's chosen provider itself requires another capability.
    let mut consumer = datum("agent", DatumType::Cli);
    consumer.requires = vec![(
        "outer".to_string(),
        requirement("outer", None, None),
    )];
    let mut outer = api_provider("outer-svc", "outer", vec![]);
    outer.requires = vec![(
        "inner".to_string(),
        requirement("inner", None, None),
    )];
    let orch = Orchestrator::new(vec![
        consumer,
        outer,
        api_provider("inner-svc", "inner", vec!["store.docker"]),
        docker_datum("store", "store:latest"),
    ]);
    let mut sim = SimRuntime::new();
    let (outcome, _) = drive(&orch, "agent.cli", &mut sim);
    assert_eq!(outcome, Ok(vec!["store.docker".to_string()]));
}

#[test]
fn test_cyclic_capability_graph_is_detected() {
    // A provider that requires the very capability it provides.
    let mut consumer = datum("agent", DatumType::Cli);
    consumer.requires = vec![(
        "loop".to_string(),
        requirement("loop", None, None),
    )];
    let mut looped = api_provider("looped", "loop", vec![]);
    looped.requires = vec![(
        "loop".to_string(),
        requirement("loop", None, None),
    )];
    let orch = Orchestrator::new(vec![consumer, looped]);
    let mut sim = SimRuntime::new();
    let (outcome, _) = drive(&orch, "agent.cli", &mut sim);
    assert_eq!(outcome, Err(OrchError::CapabilityUnresolved("loop".to_string())));
}

#[test]
fn test_cycle_through_fallback_escapes_as_cycle_error() {
    // With no candidates, the fallback is tried; a fallback whose own
    // requirement closes the loop fails the run as cyclic, because a
    // fallback's failure is the capability's failure.
    let mut consumer = datum("agent", DatumType::Cli);
    consumer.requires = vec![(
        "loop".to_string(),
        requirement("loop", None, Some("looped")),
    )];
    let mut looped = datum("looped", DatumType::Api);
    looped.provides = Some("other".to_string());
    looped.requires = vec![(
        "loop".to_string(),
        requirement("loop", None, None),
    )];
    let orch = Orchestrator::new(vec![consumer, looped]);
    let mut sim = SimRuntime::new();
    let (outcome, _) = drive(&orch, "agent.cli", &mut sim);
    assert_eq!(outcome, Err(OrchError::CycleDetected("loop".to_string())));
}

#[test]
fn test_make_key_and_lookup() {
    let d = docker_datum("qdrant", "qdrant/qdrant:latest");
    assert_eq!(d.make_key(), "qdrant.docker".to_string());
    let mut untyped = datum("odd", DatumType::Cli);
    untyped.datum_type = None;
    assert_eq!(untyped.make_key(), "odd.unknown".to_string());
    let orch = Orchestrator::new(vec![d, datum("agent", DatumType::Cli)]);
    assert_eq!(orch.lookup("qdrant.docker"), Some(0));
    assert_eq!(orch.lookup("agent.cli"), Some(1));
    assert_eq!(orch.lookup("agent.docker"), None);
}

#[test]
fn test_duplicate_keys_keep_the_last_datum() {
    let first = docker_datum("qdrant", "old:image");
    let second = docker_datum("qdrant", "new:image");
    let orch = Orchestrator::new(vec![first, second]);
    assert_eq!(orch.datums.len(), 1);
    assert_eq!(orch.datums[0].image, Some("new:image".to_string()));
}

#[test]
fn test_get_container_runtime_prefers_docker() {
    let orch = Orchestrator::new(vec![]);
    assert_eq!(orch.get_container_runtime(true, true), Ok("docker".to_string()));
    assert_eq!(orch.get_container_runtime(true, false), Ok("docker".to_string()));
    assert_eq!(orch.get_container_runtime(false, true), Ok("podman".to_string()));
    assert_eq!(
        orch.get_container_runtime(false, false),
        Err(OrchError::RuntimeUnavailable)
    );
}

#[test]
fn test_classify_container_requires_exact_name() {
    // Substring matches on the filter output must be rejected.
    let output = "qdrant-backup|||Up 2 minutes\nqdrant|||Exited (0) 3 hours ago\n";
    assert_eq!(classify_container(output, "qdrant"), ContainerState::Stopped);
    assert_eq!(classify_container(output, "qdrant-backup"), ContainerState::Running);
    assert_eq!(classify_container(output, "qdr"), ContainerState::Absent);
    assert_eq!(classify_container("", "qdrant"), ContainerState::Absent);
    assert_eq!(
        classify_container("qdrant|||Up 10 seconds\n", "qdrant"),
        ContainerState::Running
    );
}

#[test]
fn test_non_docker_dependencies_never_need_starting() {
    let mut api = datum("agent", DatumType::Api);
    api.depends_on = vec!["helper.mcp".to_string(), "tool.cli".to_string()];
    let orch = Orchestrator::new(vec![
        api,
        datum("helper", DatumType::Mcp),
        datum("tool", DatumType::Cli),
    ]);
    let mut sim = SimRuntime::new();
    let (outcome, actions) = drive(&orch, "agent.api", &mut sim);
    assert_eq!(outcome, Ok(vec![]));
    assert!(actions.is_empty());
}
