use b00t_cli::detection::{detect_orchestrator, list_available_orchestrators, Orchestrator};

#[test]
fn test_detect_orchestrator() {
    // Should always return something
    let result = detect_orchestrator(false, false, false);
    assert!(result.is_ok());
}

#[test]
fn test_list_available() {
    let list = list_available_orchestrators(false, false, false);
    assert_eq!(list.len(), 4);

    // Direct should always be available
    let (orch, available) = list.last().unwrap();
    assert_eq!(*orch, Orchestrator::Direct);
    assert!(available);
}

#[test]
fn test_detection_priority_order() {
    assert_eq!(detect_orchestrator(true, true, true), Ok(Orchestrator::Kubernetes));
    assert_eq!(detect_orchestrator(false, true, true), Ok(Orchestrator::DockerCompose));
    assert_eq!(detect_orchestrator(false, false, true), Ok(Orchestrator::Nomad));
    assert_eq!(detect_orchestrator(false, false, false), Ok(Orchestrator::Direct));
    let list = list_available_orchestrators(true, false, true);
    assert_eq!(list[0], (Orchestrator::Kubernetes, true));
    assert_eq!(list[1], (Orchestrator::DockerCompose, false));
    assert_eq!(list[2], (Orchestrator::Nomad, true));
}
