use std::path::PathBuf;

use stop_nagging::cli::StopNaggingArgs;
use stop_nagging::config::Config;
use stop_nagging::platform::local_bin_path;

#[test]
fn local_bin_path_prefixes_node_modules() {
    assert_eq!(local_bin_path("eslint"), "./node_modules/.bin/eslint");
    assert_eq!(local_bin_path(""), "./node_modules/.bin/");
}

#[test]
fn config_keeps_its_path() {
    let config = Config::new(PathBuf::from("tools.yaml"));
    assert_eq!(config.yaml_path, PathBuf::from("tools.yaml"));
}

#[test]
fn args_hold_the_selections() {
    let args = StopNaggingArgs {
        yaml: Some("custom.yaml".to_string()),
        ignore_tools: vec!["npm".to_string()],
        ecosystems: vec![],
        ignore_ecosystems: vec!["python".to_string()],
        verbose: true,
    };
    assert_eq!(args.yaml.as_deref(), Some("custom.yaml"));
    assert_eq!(args.ignore_tools.len(), 1);
    assert!(args.ecosystems.is_empty());
    assert_eq!(args.ignore_ecosystems[0], "python");
    assert!(args.verbose);
}
