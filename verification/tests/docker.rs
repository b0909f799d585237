use llama_nexus::clock::Elapsed;
use llama_nexus::executor::docker::{
    after_wait, parse_image_tag, script_output, AfterWait, DockerConfig, DockerExecutor, ImageStep,
    ScriptPath, WaitEnd, DEFAULT_NODE_IMAGE, DEFAULT_PYTHON_IMAGE, DEFAULT_RUBY_IMAGE,
    DEFAULT_SHELL_IMAGE,
};
use llama_nexus::executor::types::ResourceLimits;
use llama_nexus::responses::code_interpreter::OutputPiece;
use llama_nexus::text_map::TextMap;

#[test]
fn test_docker_config_default() {
    let config = DockerConfig::default();
    assert_eq!(config.network_mode, "none");
    assert!(config.auto_remove);
    assert!(config.read_only);
    assert!(config.auto_pull);
    assert!(config.images.contains_key("py"));
    assert!(config.images.contains_key("sh"));
}

#[test]
fn test_image_tag_parsing() {
    fn parse(image: &str) -> (String, String) {
        parse_image_tag(image)
    }

    fn pair(name: &str, tag: &str) -> (String, String) {
        (name.to_string(), tag.to_string())
    }

    // Standard image:tag
    assert_eq!(parse("python:3.11-slim"), pair("python", "3.11-slim"));

    // Image without tag
    assert_eq!(parse("python"), pair("python", "latest"));

    // Registry with port
    assert_eq!(
        parse("registry:5000/myimage"),
        pair("registry:5000/myimage", "latest")
    );

    // Registry with port and tag
    assert_eq!(
        parse("registry:5000/myimage:v1"),
        pair("registry:5000/myimage", "v1")
    );
}

#[test]
fn test_get_image() {
    let config = DockerConfig::default();

    // Test image mapping directly from config
    assert_eq!(
        config.images.get("py"),
        Some(&DEFAULT_PYTHON_IMAGE.to_string())
    );
    assert_eq!(
        config.images.get("sh"),
        Some(&DEFAULT_SHELL_IMAGE.to_string())
    );
    assert_eq!(
        config.images.get("rb"),
        Some(&DEFAULT_RUBY_IMAGE.to_string())
    );
    assert_eq!(
        config.images.get("js"),
        Some(&DEFAULT_NODE_IMAGE.to_string())
    );
}

#[test]
fn test_build_command() {
    let executor = DockerExecutor::with_config(DockerConfig::default());
    let build_command = |extension: &str, script_path: &str, args: &[String]| {
        executor.build_command(extension, script_path, &args.to_vec())
    };

    assert_eq!(
        build_command("py", "/scripts/test.py", &["--verbose".to_string()]),
        vec!["python", "/scripts/test.py", "--verbose"]
    );
    assert_eq!(
        build_command("sh", "/scripts/test.sh", &[]),
        vec!["sh", "/scripts/test.sh"]
    );
    assert_eq!(
        build_command("js", "/scripts/test.js", &["arg1".to_string()]),
        vec!["node", "/scripts/test.js", "arg1"]
    );
}

#[test]
fn test_supported_extensions() {
    let extensions = DockerExecutor::with_config(DockerConfig::default()).supported_extensions();
    assert_eq!(extensions, vec!["py", "sh", "bash", "rb"]);
    assert!(extensions.contains(&"py"));
    assert!(extensions.contains(&"sh"));
}

#[test]
fn images_by_extension() {
    let executor = DockerExecutor::with_config(DockerConfig::default());
    assert_eq!(executor.get_image("py"), "python:3.11-slim");
    assert_eq!(executor.get_image("exe"), "alpine:latest");
    assert_eq!(executor.name(), "docker");
}

#[test]
fn missing_images_are_pulled_or_refused() {
    let mut executor = DockerExecutor::with_config(DockerConfig::default());
    assert!(matches!(executor.ensure_image("a:b", true), ImageStep::Ready));
    match executor.ensure_image("reg:5000/a:b", false) {
        ImageStep::Pull(name, tag) => assert_eq!((name.as_str(), tag.as_str()), ("reg:5000/a", "b")),
        other => panic!("{other:?}"),
    }
    executor.config.auto_pull = false;
    match executor.ensure_image("a:b", false) {
        ImageStep::Missing(e) => assert_eq!(
            e.message(),
            "Executor 'docker' failed: image a:b not found locally and auto_pull is disabled"
        ),
        other => panic!("{other:?}"),
    }
}

fn limits(network_access: bool) -> ResourceLimits {
    ResourceLimits { timeout: Elapsed::from_secs(1), max_memory_bytes: 1024, network_access }
}

#[test]
fn containers_are_planned() {
    let executor = DockerExecutor::with_config(DockerConfig::default());
    let path = ScriptPath {
        extension: Some("PY".to_string()),
        file_name: Some("run.PY".to_string()),
        parent: Some("/skills/x/scripts".to_string()),
    };
    let ext = DockerExecutor::extension_of(&path);
    assert_eq!(ext, "py");
    let mut env = TextMap::new();
    env.insert("A".to_string(), "1".to_string());
    let name = executor.generate_container_name();
    assert!(name.starts_with("llama-nexus-exec-"));
    assert_eq!(name.len(), "llama-nexus-exec-".len() + 8);
    let plan = executor
        .plan_container(name.clone(), &ext, &path, &vec!["-v".to_string()], &env, limits(false))
        .unwrap();
    assert_eq!(plan.cmd, vec!["python", "/scripts/run.PY", "-v"]);
    assert_eq!(plan.env, vec!["A=1"]);
    assert_eq!(plan.image, "python:3.11-slim");
    assert_eq!(plan.mount_source, "/skills/x/scripts");
    assert_eq!(plan.network_mode, Some("none".to_string()));
    assert_eq!(plan.memory, 1024);
    assert!(plan.readonly_rootfs);
    let open = executor
        .plan_container(name.clone(), &ext, &path, &vec![], &env, limits(true))
        .unwrap();
    assert_eq!(open.network_mode, None);
    let lost = ScriptPath { extension: None, file_name: None, parent: None };
    assert_eq!(DockerExecutor::extension_of(&lost), "sh");
    assert_eq!(
        executor
            .plan_container(name, "sh", &lost, &vec![], &env, limits(true))
            .unwrap_err()
            .message(),
        "Executor 'docker' failed: invalid script path"
    );
}

#[test]
fn waits_end_in_four_ways() {
    assert!(matches!(after_wait(WaitEnd::Exited(3)), AfterWait::ReadLogs(3)));
    assert!(matches!(after_wait(WaitEnd::Silent), AfterWait::ReadLogs(0)));
    assert!(matches!(after_wait(WaitEnd::TimedOut), AfterWait::KillAndReadLogs));
    match after_wait(WaitEnd::Failed("x".to_string())) {
        AfterWait::RemoveAndFail(e) => {
            assert_eq!(e.message(), "Executor 'docker' failed: container wait error: x")
        }
        other => panic!("{other:?}"),
    }
    let pieces = vec![OutputPiece::StdOut("o".to_string()), OutputPiece::StdErr("e".to_string())];
    let out = script_output(&pieces, Some(2), Elapsed::from_secs(4));
    assert_eq!((out.stdout.as_str(), out.stderr.as_str(), out.exit_code, out.timed_out), ("o", "e", 2, false));
    let out = script_output(&vec![], None, Elapsed::from_secs(4));
    assert_eq!((out.exit_code, out.timed_out), (-1, true));
}
