use std::collections::HashMap;

use stop_nagging::runner::Action;
use stop_nagging::runner::Engine;
use stop_nagging::runner::Event;
use stop_nagging::runner::Note;
use stop_nagging::yaml_config::EcosystemConfig;
use stop_nagging::yaml_config::EcosystemEntry;
use stop_nagging::yaml_config::EnvVar;
use stop_nagging::yaml_config::ToolEntry;
use stop_nagging::yaml_config::YamlToolsConfig;

fn tool(
    name: &str,
    executable: &str,
    env: Vec<(&str, &str)>,
    commands: Vec<&str>,
    skip: bool,
) -> ToolEntry {
    ToolEntry {
        name: name.to_string(),
        executable: executable.to_string(),
        env: env
            .into_iter()
            .map(|(k, v)| EnvVar { key: k.to_string(), value: v.to_string() })
            .collect(),
        commands: commands.into_iter().map(|c| c.to_string()).collect(),
        skip,
        install_for_testing: None,
    }
}

fn ecosystem(name: &str, check: Option<&str>, tools: Vec<ToolEntry>) -> EcosystemEntry {
    EcosystemEntry {
        name: name.to_string(),
        config: EcosystemConfig { check_ecosystem: check.map(|c| c.to_string()), tools },
    }
}

fn strings(xs: Vec<&str>) -> Vec<String> {
    xs.into_iter().map(|s| s.to_string()).collect()
}

/// A simulated outside world: an environment table, a search path, and
/// lists of commands and checks that fail.
struct Sim {
    env: HashMap<String, String>,
    available: Vec<String>,
    failing_commands: Vec<String>,
    failing_checks: Vec<String>,
    trace: Vec<String>,
    notes: Vec<Note>,
}

impl Sim {
    fn new(available: Vec<&str>) -> Sim {
        Sim {
            env: HashMap::new(),
            available: strings(available),
            failing_commands: Vec::new(),
            failing_checks: Vec::new(),
            trace: Vec::new(),
            notes: Vec::new(),
        }
    }

    fn run(&mut self, engine: &mut Engine) {
        let mut step = engine.step(Event::Start);
        loop {
            let (mut notes, action) = step;
            self.notes.append(&mut notes);
            let event = match action {
                Action::CheckEcosystem { command, .. } => {
                    self.trace.push(format!("check {}", command));
                    Event::CheckResult { ok: !self.failing_checks.contains(&command) }
                }
                Action::ProbeExecutable { executable, .. } => {
                    self.trace.push(format!("probe {}", executable));
                    Event::ProbeResult { ok: self.available.contains(&executable) }
                }
                Action::ApplyEnv { key, value, .. } => {
                    self.trace.push(format!("apply {}={}", key, value));
                    let prior = self.env.insert(key, value);
                    Event::EnvApplied { prior }
                }
                Action::RunCommand { command, .. } => {
                    self.trace.push(format!("run {}", command));
                    Event::CmdResult { ok: !self.failing_commands.contains(&command) }
                }
                Action::Finish { restores } => {
                    for r in restores {
                        match r.original_value {
                            Some(v) => {
                                self.env.insert(r.key, v);
                            }
                            None => {
                                self.env.remove(&r.key);
                            }
                        }
                    }
                    self.trace.push("finish".to_string());
                    return;
                }
            };
            step = engine.step(event);
        }
    }
}

#[test]
fn test_basic_tool() {
    let config = YamlToolsConfig {
        ecosystems: vec![ecosystem(
            "test-ecosystem",
            None,
            vec![tool("test-tool", "echo", vec![], vec!["echo test"], false)],
        )],
    };
    let mut engine = Engine::new(config, &vec![], &vec![], &vec![]);
    let mut sim = Sim::new(vec!["echo"]);
    sim.run(&mut engine);
    assert_eq!(sim.trace, vec!["probe echo", "run echo test", "finish"]);
}

#[test]
fn test_env_vars() {
    let config = YamlToolsConfig {
        ecosystems: vec![ecosystem(
            "test-ecosystem",
            None,
            vec![tool("test-tool", "echo", vec![("TEST_VAR", "test_value")], vec![], false)],
        )],
    };
    let mut engine = Engine::new(config, &vec![], &vec![], &vec![]);
    let mut sim = Sim::new(vec!["echo"]);
    sim.run(&mut engine);
    assert_eq!(sim.trace, vec!["probe echo", "apply TEST_VAR=test_value", "finish"]);
    assert!(sim.env.get("TEST_VAR").is_none());
}

#[test]
fn test_ignore_tool() {
    let config = YamlToolsConfig {
        ecosystems: vec![ecosystem(
            "test-ecosystem",
            None,
            vec![tool(
                "test-tool",
                "non-existent-tool-12345",
                vec![],
                vec!["non-existent-command"],
                false,
            )],
        )],
    };
    let mut engine = Engine::new(config, &vec![], &vec![], &strings(vec!["test-tool"]));
    let mut sim = Sim::new(vec!["echo"]);
    sim.run(&mut engine);
    assert_eq!(sim.trace, vec!["finish"]);
}

#[test]
fn test_ecosystem_selection() {
    let config = YamlToolsConfig {
        ecosystems: vec![ecosystem(
            "test-ecosystem",
            None,
            vec![tool(
                "test-tool",
                "non-existent-tool-12345",
                vec![],
                vec!["non-existent-command"],
                false,
            )],
        )],
    };
    let mut engine = Engine::new(config, &strings(vec!["other-ecosystem"]), &vec![], &vec![]);
    let mut sim = Sim::new(vec!["echo"]);
    sim.run(&mut engine);
    assert_eq!(sim.trace, vec!["finish"]);
}

#[test]
fn test_ecosystem_check() {
    let config = YamlToolsConfig {
        ecosystems: vec![ecosystem(
            "test-ecosystem",
            Some("false"),
            vec![tool("test-tool", "echo", vec![], vec!["echo test"], false)],
        )],
    };
    let mut engine = Engine::new(config, &vec![], &vec![], &vec![]);
    let mut sim = Sim::new(vec!["echo"]);
    sim.failing_checks = strings(vec!["false"]);
    sim.run(&mut engine);
    assert_eq!(sim.trace, vec!["check false", "finish"]);
}

#[test]
fn test_tool_installation() {
    let config = YamlToolsConfig {
        ecosystems: vec![ecosystem(
            "test-ecosystem",
            None,
            vec![ToolEntry {
                name: "test-tool".to_string(),
                executable: "echo".to_string(),
                env: vec![],
                commands: vec!["echo test".to_string()],
                skip: false,
                install_for_testing: Some("echo 'Installing test tool'".to_string()),
            }],
        )],
    };
    let mut engine = Engine::new(config, &vec![], &vec![], &vec![]);
    let mut sim = Sim::new(vec!["echo"]);
    sim.run(&mut engine);
    assert_eq!(sim.trace, vec!["probe echo", "run echo test", "finish"]);
}

#[test]
fn echo_tool_run_sets_and_restores_env() {
    let config = YamlToolsConfig {
        ecosystems: vec![ecosystem(
            "test",
            None,
            vec![tool("echo-tool", "echo", vec![("FOO", "bar")], vec!["echo hi"], false)],
        )],
    };
    let mut engine = Engine::new(config, &vec![], &vec![], &vec![]);

    let mut env: HashMap<String, String> = HashMap::new();
    assert!(env.get("FOO").is_none());
    let (_, action) = engine.step(Event::Start);
    let executable = match action {
        Action::ProbeExecutable { executable, .. } => executable,
        other => panic!("expected a probe, got {:?}", describe(&other)),
    };
    assert_eq!(executable, "echo");
    let (_, action) = engine.step(Event::ProbeResult { ok: true });
    let (key, value) = match action {
        Action::ApplyEnv { key, value, .. } => (key, value),
        other => panic!("expected an assignment, got {:?}", describe(&other)),
    };
    assert_eq!(key, "FOO");
    assert_eq!(value, "bar");
    let prior = env.insert(key, value);
    assert_eq!(env.get("FOO").map(|s| s.as_str()), Some("bar"));
    let (_, action) = engine.step(Event::EnvApplied { prior });
    let command = match action {
        Action::RunCommand { command, .. } => command,
        other => panic!("expected a command, got {:?}", describe(&other)),
    };
    assert_eq!(command, "echo hi");
    assert_eq!(env.get("FOO").map(|s| s.as_str()), Some("bar"));
    let (_, action) = engine.step(Event::CmdResult { ok: true });
    let restores = match action {
        Action::Finish { restores } => restores,
        other => panic!("expected the finish, got {:?}", describe(&other)),
    };
    assert_eq!(restores.len(), 1);
    assert_eq!(restores[0].key, "FOO");
    assert!(restores[0].original_value.is_none());
    for r in restores {
        match r.original_value {
            Some(v) => {
                env.insert(r.key, v);
            }
            None => {
                env.remove(&r.key);
            }
        }
    }
    assert!(env.get("FOO").is_none());
}

#[test]
fn ignored_echo_tool_triggers_nothing() {
    let config = YamlToolsConfig {
        ecosystems: vec![ecosystem(
            "test",
            None,
            vec![tool("echo-tool", "echo", vec![("FOO", "bar")], vec!["echo hi"], false)],
        )],
    };
    let mut engine = Engine::new(config, &vec![], &vec![], &strings(vec!["echo-tool"]));
    let (notes, action) = engine.step(Event::Start);
    match action {
        Action::Finish { restores } => assert_eq!(restores.len(), 0),
        other => panic!("expected the finish, got {:?}", describe(&other)),
    }
    assert_eq!(notes.len(), 1);
    match &notes[0] {
        Note::SkippedTool { ecosystem, tool } => {
            assert_eq!(ecosystem.as_str(), "test");
            assert_eq!(tool.as_str(), "echo-tool");
        }
        Note::IgnoredEcosystem { .. } => panic!("expected a skipped tool note"),
    }
}

#[test]
fn skip_flag_suppresses_probe_and_directives() {
    let config = YamlToolsConfig {
        ecosystems: vec![ecosystem(
            "test",
            None,
            vec![
                tool("skipped", "echo", vec![("A", "1")], vec!["echo a"], true),
                tool("kept", "echo", vec![], vec!["echo b"], false),
            ],
        )],
    };
    let mut engine = Engine::new(config, &vec![], &vec![], &vec![]);
    let mut sim = Sim::new(vec!["echo"]);
    sim.run(&mut engine);
    assert_eq!(sim.trace, vec!["probe echo", "run echo b", "finish"]);
    assert_eq!(sim.notes.len(), 1);
    match &sim.notes[0] {
        Note::SkippedTool { tool, .. } => assert_eq!(tool.as_str(), "skipped"),
        Note::IgnoredEcosystem { .. } => panic!("expected a skipped tool note"),
    }
}

#[test]
fn exclusion_wins_over_inclusion() {
    let config = YamlToolsConfig {
        ecosystems: vec![ecosystem(
            "Both",
            None,
            vec![tool("t", "echo", vec![], vec!["echo x"], false)],
        )],
    };
    let mut engine = Engine::new(
        config,
        &strings(vec!["both"]),
        &strings(vec!["BOTH"]),
        &vec![],
    );
    let mut sim = Sim::new(vec!["echo"]);
    sim.run(&mut engine);
    assert_eq!(sim.trace, vec!["finish"]);
    assert_eq!(sim.notes.len(), 1);
    match &sim.notes[0] {
        Note::IgnoredEcosystem { ecosystem } => assert_eq!(ecosystem.as_str(), "Both"),
        Note::SkippedTool { .. } => panic!("expected an ignored ecosystem note"),
    }
}

#[test]
fn failing_command_does_not_stop_later_tools() {
    let config = YamlToolsConfig {
        ecosystems: vec![
            ecosystem(
                "first",
                None,
                vec![tool("a", "echo", vec![], vec!["bad-command", "echo a2"], false)],
            ),
            ecosystem("second", None, vec![tool("b", "echo", vec![], vec!["echo b1"], false)]),
        ],
    };
    let mut engine = Engine::new(config, &vec![], &vec![], &vec![]);
    let mut sim = Sim::new(vec!["echo"]);
    sim.failing_commands = strings(vec!["bad-command"]);
    sim.run(&mut engine);
    assert_eq!(
        sim.trace,
        vec!["probe echo", "run bad-command", "run echo a2", "probe echo", "run echo b1", "finish"]
    );
}

#[test]
fn declared_order_is_execution_order() {
    let config = YamlToolsConfig {
        ecosystems: vec![ecosystem(
            "eco",
            None,
            vec![
                tool("x", "xbin", vec![("X1", "1"), ("X2", "2")], vec!["xc1", "xc2"], false),
                tool("y", "ybin", vec![("Y1", "1"), ("Y2", "2")], vec!["yc1", "yc2"], false),
            ],
        )],
    };
    let mut engine = Engine::new(config, &vec![], &vec![], &vec![]);
    let mut sim = Sim::new(vec!["xbin", "ybin"]);
    sim.run(&mut engine);
    assert_eq!(
        sim.trace,
        vec![
            "probe xbin",
            "apply X1=1",
            "apply X2=2",
            "run xc1",
            "run xc2",
            "probe ybin",
            "apply Y1=1",
            "apply Y2=2",
            "run yc1",
            "run yc2",
            "finish",
        ]
    );
}

#[test]
fn unavailable_executable_mutates_nothing() {
    let config = YamlToolsConfig {
        ecosystems: vec![ecosystem(
            "eco",
            None,
            vec![
                tool("gone", "missing-bin", vec![("G", "1")], vec!["gc"], false),
                tool("there", "echo", vec![], vec!["echo t"], false),
            ],
        )],
    };
    let mut engine = Engine::new(config, &vec![], &vec![], &vec![]);
    let mut sim = Sim::new(vec!["echo"]);
    sim.run(&mut engine);
    assert_eq!(
        sim.trace,
        vec!["probe missing-bin", "probe echo", "run echo t", "finish"]
    );
    assert!(sim.env.is_empty());
}

#[test]
fn overlapping_keys_are_restored_exactly() {
    let config = YamlToolsConfig {
        ecosystems: vec![ecosystem(
            "eco",
            None,
            vec![
                tool("a", "echo", vec![("SHARED", "from-a"), ("ONLY_A", "1")], vec![], false),
                tool("b", "echo", vec![("SHARED", "from-b")], vec![], false),
            ],
        )],
    };
    let mut engine = Engine::new(config, &vec![], &vec![], &vec![]);
    let mut sim = Sim::new(vec!["echo"]);
    sim.env.insert("SHARED".to_string(), "original".to_string());
    sim.run(&mut engine);
    assert_eq!(sim.env.len(), 1);
    assert_eq!(sim.env.get("SHARED").map(|s| s.as_str()), Some("original"));
    assert!(sim.env.get("ONLY_A").is_none());
}

#[test]
fn distinct_keys_restore_in_any_order() {
    let config = YamlToolsConfig {
        ecosystems: vec![ecosystem(
            "eco",
            None,
            vec![tool("a", "echo", vec![("K1", "n1"), ("K2", "n2"), ("K3", "n3")], vec![], false)],
        )],
    };
    let mut engine = Engine::new(config, &vec![], &vec![], &vec![]);
    let mut env: HashMap<String, String> = HashMap::new();
    env.insert("K1".to_string(), "o1".to_string());
    env.insert("K3".to_string(), "o3".to_string());
    let original = env.clone();
    let (_, mut action) = engine.step(Event::Start);
    loop {
        let event = match action {
            Action::ProbeExecutable { .. } => Event::ProbeResult { ok: true },
            Action::ApplyEnv { key, value, .. } => {
                let prior = env.insert(key, value);
                Event::EnvApplied { prior }
            }
            Action::Finish { mut restores } => {
                // restore in application order instead of the handed-out
                // reverse order: with distinct keys both recover the start
                restores.reverse();
                for r in restores {
                    match r.original_value {
                        Some(v) => {
                            env.insert(r.key, v);
                        }
                        None => {
                            env.remove(&r.key);
                        }
                    }
                }
                break;
            }
            _ => panic!("unexpected action"),
        };
        let (_, next) = engine.step(event);
        action = next;
    }
    assert_eq!(env, original);
}

#[test]
fn tool_names_match_case_insensitively() {
    let config = YamlToolsConfig {
        ecosystems: vec![ecosystem(
            "eco",
            None,
            vec![tool("MixedCase", "echo", vec![], vec!["echo m"], false)],
        )],
    };
    let mut engine = Engine::new(config, &vec![], &vec![], &strings(vec!["mixedcase"]));
    let mut sim = Sim::new(vec!["echo"]);
    sim.run(&mut engine);
    assert_eq!(sim.trace, vec!["finish"]);
}

#[test]
fn failing_check_skips_whole_ecosystem_only() {
    let config = YamlToolsConfig {
        ecosystems: vec![
            ecosystem(
                "gated",
                Some("exit 1"),
                vec![tool("g", "echo", vec![("GV", "1")], vec!["echo g"], false)],
            ),
            ecosystem("open", None, vec![tool("o", "echo", vec![], vec!["echo o"], false)]),
        ],
    };
    let mut engine = Engine::new(config, &vec![], &vec![], &vec![]);
    let mut sim = Sim::new(vec!["echo"]);
    sim.failing_checks = strings(vec!["exit 1"]);
    sim.run(&mut engine);
    assert_eq!(sim.trace, vec!["check exit 1", "probe echo", "run echo o", "finish"]);
    assert!(sim.env.is_empty());
}

fn describe(action: &Action) -> &'static str {
    match action {
        Action::CheckEcosystem { .. } => "a check",
        Action::ProbeExecutable { .. } => "a probe",
        Action::ApplyEnv { .. } => "an assignment",
        Action::RunCommand { .. } => "a command",
        Action::Finish { .. } => "the finish",
    }
}
