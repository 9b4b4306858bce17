use b00t_cli::datum::extract_datum_name;
use b00t_cli::installer::{install_plan, names_to_install, qdrant_run_args, should_start_qdrant};
use b00t_cli::prereq::{
    check_binary, check_prerequisites, BinaryCheck, BinaryProbe, BinarySpec, BootstrapConfig,
    BootstrapSection, PrereqResult,
};
use b00t_cli::report::{render_text_report, serialize_to_toon, BootstrapReport};
use b00t_cli::skeleton::{expand_path, SkeletonResult};
use b00t_cli::version::{extract_version, parse_version_triple, version_meets_requirement, VersionError};

#[test]
fn test_extract_version() {
    assert_eq!(
        extract_version("git version 2.34.1"),
        Some("2.34.1".to_string())
    );
    assert_eq!(
        extract_version("docker version 20.10.0, build..."),
        Some("20.10.0".to_string())
    );
    assert_eq!(
        extract_version("just 1.5.0"),
        Some("1.5.0".to_string())
    );
    assert_eq!(
        extract_version("v3.2.1"),
        Some("3.2.1".to_string())
    );
}

#[test]
fn test_extract_version_none_and_leftmost() {
    assert_eq!(extract_version("no version here"), None);
    assert_eq!(extract_version(""), None);
    assert_eq!(extract_version("1.2"), None);
    assert_eq!(
        extract_version("tool 1.2.3 and 4.5.6"),
        Some("1.2.3".to_string())
    );
}

#[test]
fn test_version_comparison() {
    assert!(version_meets_requirement("2.34.1", ">=2.30.0").unwrap());
    assert!(!version_meets_requirement("2.29.0", ">=2.30.0").unwrap());
    assert!(version_meets_requirement("1.0.0", "=1.0.0").unwrap());
    assert!(!version_meets_requirement("1.0.1", "=1.0.0").unwrap());
}

#[test]
fn test_version_comparison_operators_and_errors() {
    assert!(version_meets_requirement("1.0.0", "<2.0.0").unwrap());
    assert!(version_meets_requirement("2.0.1", ">2.0.0").unwrap());
    assert!(version_meets_requirement("2.0.0", "<=2.0.0").unwrap());
    assert!(version_meets_requirement("10.0.0", ">9.0.0").unwrap());
    // no operator means exact equality
    assert!(version_meets_requirement("1.2.3", "1.2.3").unwrap());
    assert!(!version_meets_requirement("1.2.4", "1.2.3").unwrap());
    assert_eq!(
        version_meets_requirement("abc", ">=1.0.0").unwrap_err(),
        VersionError::BadInstalled
    );
    assert_eq!(
        version_meets_requirement("1.0.0", ">=banana").unwrap_err(),
        VersionError::BadRequirement
    );
}

#[test]
fn test_parse_version_triple_grammar() {
    assert_eq!(parse_version_triple("1.2.3"), Some((1, 2, 3)));
    assert_eq!(parse_version_triple("0.0.0"), Some((0, 0, 0)));
    assert_eq!(parse_version_triple("10.20.30"), Some((10, 20, 30)));
    assert_eq!(parse_version_triple("01.2.3"), None);
    assert_eq!(parse_version_triple("1.2"), None);
    assert_eq!(parse_version_triple("1.2.3.4"), None);
    assert_eq!(parse_version_triple("1.2.3-alpha"), None);
    assert_eq!(parse_version_triple(""), None);
    assert_eq!(parse_version_triple("99999999999999999999999.0.0"), None);
}

#[test]
fn test_toon_serialization() {
    let report = BootstrapReport {
        timestamp: "2025-11-09T12:00:00Z".to_string(),
        prereq_result: PrereqResult {
            required: vec![],
            optional: vec![],
            all_required_met: true,
        },
        skeleton_result: None,
    };

    let toon = serialize_to_toon(&report).unwrap();
    assert!(toon.contains("[meta]"));
    assert!(toon.contains("format = \"toon\""));
}

#[test]
fn test_toon_report_lists_binaries_and_directories() {
    let probe = BinaryProbe {
        path: Some("/usr/bin/git".to_string()),
        docker_is_podman: false,
        podman_path: None,
        version_output: Some("git version 2.34.1".to_string()),
    };
    let bspec = BinarySpec {
        version: ">=2.30.0".to_string(),
        priority: 1,
        install_hint: None,
    };
    let check = check_binary("git", &bspec, &probe);
    let report = BootstrapReport {
        timestamp: "2025-11-09T12:00:00Z".to_string(),
        prereq_result: PrereqResult {
            required: vec![check],
            optional: vec![],
            all_required_met: true,
        },
        skeleton_result: Some(SkeletonResult {
            created: vec!["/home/tester/.b00t".to_string()],
            already_existed: vec![],
            errors: vec![("/root/нет".to_string(), "permission denied".to_string())],
        }),
    };
    let toon = serialize_to_toon(&report).unwrap();
    assert!(toon.contains("timestamp = \"2025-11-09T12:00:00Z\""));
    assert!(toon.contains("all_required_met = true"));
    assert!(toon.contains("required_binaries_count = 1"));
    assert!(toon.contains("missing_required = 0"));
    assert!(toon.contains("[[required_bins]]"));
    assert!(toon.contains("name = \"git\""));
    assert!(toon.contains("installed_version = \"2.34.1\""));
    assert!(toon.contains("path = \"/usr/bin/git\""));
    assert!(toon.contains("directories_created = 1"));
    assert!(toon.contains("directories_processed = 2"));
    assert!(toon.contains("[[directories_created]]"));
    assert!(toon.contains("[[directory_errors]]"));
    assert!(toon.contains("error = \"permission denied\""));
}

#[test]
fn test_text_report_rendering() {
    let ok = check_binary(
        "git",
        &BinarySpec {
            version: ">=2.30.0".to_string(),
            priority: 1,
            install_hint: None,
        },
        &BinaryProbe {
            path: Some("/usr/bin/git".to_string()),
            docker_is_podman: false,
            podman_path: None,
            version_output: Some("git version 2.34.1".to_string()),
        },
    );
    let missing = check_binary(
        "just",
        &BinarySpec {
            version: ">=1.0.0".to_string(),
            priority: 2,
            install_hint: Some("cargo install just".to_string()),
        },
        &BinaryProbe {
            path: None,
            docker_is_podman: false,
            podman_path: None,
            version_output: None,
        },
    );
    let report = BootstrapReport {
        timestamp: "2025-11-09T12:00:00Z".to_string(),
        prereq_result: PrereqResult {
            required: vec![ok, missing],
            optional: vec![],
            all_required_met: false,
        },
        skeleton_result: Some(SkeletonResult {
            created: vec!["/home/tester/.b00t".to_string()],
            already_existed: vec!["/home/tester/.b00t/old".to_string()],
            errors: vec![],
        }),
    };
    let text = render_text_report(&report);
    assert!(text.contains("Generated: 2025-11-09T12:00:00Z"));
    assert!(text.contains("git (installed: 2.34.1, OK)"));
    assert!(text.contains("just (not installed) - requires: >=1.0.0"));
    assert!(text.contains("Created: /home/tester/.b00t"));
    assert!(text.contains("Exists:  /home/tester/.b00t/old"));
    assert!(text.contains("Some required prerequisites are missing"));
}

#[test]
fn test_check_binary_found_and_meeting() {
    let probe = BinaryProbe {
        path: Some("/usr/bin/git".to_string()),
        docker_is_podman: false,
        podman_path: None,
        version_output: Some("git version 2.34.1".to_string()),
    };
    let bspec = BinarySpec {
        version: ">=2.30.0".to_string(),
        priority: 1,
        install_hint: None,
    };
    let check = check_binary("git", &bspec, &probe);
    assert_eq!(check.name, "git");
    assert!(check.found);
    assert_eq!(check.installed_version, Some("2.34.1".to_string()));
    assert!(check.meets_requirement);
    assert_eq!(check.path, Some("/usr/bin/git".to_string()));
}

#[test]
fn test_check_binary_docker_satisfied_by_podman() {
    let probe = BinaryProbe {
        path: None,
        docker_is_podman: false,
        podman_path: Some("/usr/bin/podman".to_string()),
        version_output: Some("podman version 4.9.3".to_string()),
    };
    let bspec = BinarySpec {
        version: ">=20.0.0".to_string(),
        priority: 1,
        install_hint: None,
    };
    let check = check_binary("docker", &bspec, &probe);
    assert_eq!(check.name, "podman (docker alternative)");
    assert!(check.found);
    // an alternative is trusted regardless of the version requirement
    assert!(check.meets_requirement);
    assert_eq!(check.path, Some("/usr/bin/podman".to_string()));
}

#[test]
fn test_check_binary_missing_and_unknown_version() {
    let missing = check_binary(
        "just",
        &BinarySpec {
            version: ">=1.0.0".to_string(),
            priority: 2,
            install_hint: Some("cargo install just".to_string()),
        },
        &BinaryProbe {
            path: None,
            docker_is_podman: false,
            podman_path: None,
            version_output: None,
        },
    );
    assert!(!missing.found);
    assert!(!missing.meets_requirement);
    assert_eq!(missing.installed_version, None);
    assert_eq!(missing.install_hint, Some("cargo install just".to_string()));

    let unknown = check_binary(
        "fzf",
        &BinarySpec {
            version: ">=0.30.0".to_string(),
            priority: 3,
            install_hint: None,
        },
        &BinaryProbe {
            path: Some("/usr/bin/fzf".to_string()),
            docker_is_podman: false,
            podman_path: None,
            version_output: Some("no number".to_string()),
        },
    );
    assert!(unknown.found);
    assert_eq!(unknown.installed_version, Some("unknown".to_string()));
    // a binary that was found but could not be asked is assumed fine
    assert!(unknown.meets_requirement);
}

fn probe_found(path: &str, version_output: &str) -> BinaryProbe {
    BinaryProbe {
        path: Some(path.to_string()),
        docker_is_podman: false,
        podman_path: None,
        version_output: Some(version_output.to_string()),
    }
}

#[test]
fn test_check_prerequisites_sorts_by_priority_and_reports_verdict() {
    let config = BootstrapConfig {
        bootstrap: BootstrapSection {
            required_bins: vec![
                (
                    "git".to_string(),
                    BinarySpec {
                        version: ">=2.0.0".to_string(),
                        priority: 2,
                        install_hint: None,
                    },
                ),
                (
                    "docker".to_string(),
                    BinarySpec {
                        version: ">=20.0.0".to_string(),
                        priority: 1,
                        install_hint: None,
                    },
                ),
            ],
            optional_bins: vec![(
                "fzf".to_string(),
                BinarySpec {
                    version: ">=0.30.0".to_string(),
                    priority: 9,
                    install_hint: None,
                },
            )],
        },
    };
    let required_probes = vec![
        probe_found("/usr/bin/git", "git version 2.34.1"),
        probe_found("/usr/bin/docker", "docker version 24.0.5, build x"),
    ];
    let optional_probes = vec![BinaryProbe {
        path: None,
        docker_is_podman: false,
        podman_path: None,
        version_output: None,
    }];
    let result = check_prerequisites(&config, &required_probes, &optional_probes);
    assert_eq!(result.required.len(), 2);
    // docker has the lower priority number, so it is reported first
    assert_eq!(result.required[0].name, "docker");
    assert_eq!(result.required[1].name, "git");
    assert!(result.all_required_met);
    assert_eq!(result.optional.len(), 1);
    assert!(!result.optional[0].found);
    assert_eq!(result.missing_required().len(), 0);
    assert_eq!(result.missing_optional().len(), 1);
}

#[test]
fn test_missing_required_lists_failures() {
    let met = check_binary(
        "git",
        &BinarySpec {
            version: ">=2.0.0".to_string(),
            priority: 1,
            install_hint: None,
        },
        &probe_found("/usr/bin/git", "git version 2.34.1"),
    );
    let unmet = check_binary(
        "docker",
        &BinarySpec {
            version: ">=99.0.0".to_string(),
            priority: 2,
            install_hint: None,
        },
        &probe_found("/usr/bin/docker", "docker version 24.0.5"),
    );
    let result = PrereqResult {
        required: vec![met, unmet],
        optional: vec![],
        all_required_met: false,
    };
    let missing = result.missing_required();
    assert_eq!(missing.len(), 1);
    assert_eq!(missing[0].name, "docker");
}

#[test]
fn test_expand_path() {
    let path = expand_path("~/.b00t/config", Some("/home/tester"));
    assert!(path.contains(".b00t/config"));
    assert!(!path.contains('~'));
}

#[test]
fn test_expand_path_non_tilde() {
    let path = expand_path("/tmp/test", Some("/home/tester"));
    assert_eq!(path, "/tmp/test".to_string());
}

#[test]
fn test_expand_path_without_home_or_tilde() {
    assert_eq!(expand_path("~/x", None), "~/x".to_string());
    assert_eq!(
        expand_path("~//nested/dir", Some("/home/tester")),
        "/home/tester/nested/dir".to_string()
    );
    assert_eq!(expand_path("~", Some("/home/tester")), "/home/tester/".to_string());
}

#[test]
fn test_skeleton_result_counts() {
    let sk = SkeletonResult {
        created: vec!["/a".to_string()],
        already_existed: vec!["/b".to_string(), "/c".to_string()],
        errors: vec![],
    };
    assert!(sk.is_success());
    assert_eq!(sk.total_count(), 3);
    let failed = SkeletonResult {
        created: vec![],
        already_existed: vec![],
        errors: vec![("/d".to_string(), "denied".to_string())],
    };
    assert!(!failed.is_success());
    assert_eq!(failed.total_count(), 1);
}

#[test]
fn test_extract_datum_name_from_filenames() {
    assert_eq!(
        extract_datum_name("qdrant.docker.toml"),
        Some("qdrant".to_string())
    );
    assert_eq!(
        extract_datum_name("openrouter.api.toml"),
        Some("openrouter".to_string())
    );
    assert_eq!(
        extract_datum_name("some.tool.cli.toml"),
        Some("some.tool".to_string())
    );
    assert_eq!(extract_datum_name("notes.txt"), None);
    assert_eq!(extract_datum_name("plain.toml"), None);
    assert_eq!(extract_datum_name("model.ai.toml"), Some("model".to_string()));
}

#[test]
fn test_install_planning() {
    let linux_docker = install_plan("docker", true, "tester").unwrap();
    assert_eq!(linux_docker.len(), 3);
    assert_eq!(
        linux_docker[0],
        vec!["sudo", "snap", "install", "docker"]
    );
    assert_eq!(
        linux_docker[2],
        vec!["sudo", "usermod", "-aG", "docker", "tester"]
    );
    let linux_git = install_plan("git", true, "tester").unwrap();
    assert_eq!(linux_git.len(), 2);
    assert_eq!(linux_git[1], vec!["sudo", "apt-get", "install", "-y", "git"]);
    let mac_just = install_plan("just", false, "tester").unwrap();
    assert_eq!(mac_just, vec![vec!["brew", "install", "just"]]);
    assert_eq!(install_plan("unknown-tool", true, "tester"), None);
}

#[test]
fn test_names_to_install_skips_podman_alternative() {
    let podman_alt = BinaryCheck {
        name: "podman (docker alternative)".to_string(),
        found: true,
        installed_version: Some("4.9.3".to_string()),
        required_version: ">=99.0.0".to_string(),
        meets_requirement: false,
        path: Some("/usr/bin/podman".to_string()),
        install_hint: None,
    };
    let missing_git = check_binary(
        "git",
        &BinarySpec {
            version: ">=99.0.0".to_string(),
            priority: 2,
            install_hint: None,
        },
        &probe_found("/usr/bin/git", "git version 2.34.1"),
    );
    let result = PrereqResult {
        required: vec![podman_alt, missing_git],
        optional: vec![],
        all_required_met: false,
    };
    // a docker requirement already satisfied through podman is not
    // installed again, whatever its reported version says
    assert_eq!(names_to_install(&result), vec!["git".to_string()]);
}

#[test]
fn test_qdrant_service_decisions() {
    assert!(should_start_qdrant(true, "other|||Up 2 minutes\n"));
    assert!(!should_start_qdrant(true, "qdrant\n"));
    assert!(!should_start_qdrant(false, ""));
    let args = qdrant_run_args();
    assert_eq!(args[0], "run");
    assert_eq!(args[3], "qdrant");
    assert_eq!(args[10], "qdrant/qdrant:latest");
    assert_eq!(args.len(), 11);
}
