use launcher::config::{
    env_insert, override_config_with_args, split_env_entry, CliArgs, Config,
};
use launcher::launch::build_launch_plan;
use launcher::rules::EnvRule;

fn cli(command: Option<&str>, args: &[&str], env: &[&str], detach: bool) -> CliArgs {
    CliArgs {
        command: command.map(|s| s.to_string()),
        args: args.iter().map(|s| s.to_string()).collect(),
        env_overrides: env.iter().map(|s| s.to_string()).collect(),
        detach,
    }
}

fn resolved_env(config: &Config, inherited: &[(&str, &str)]) -> Vec<(String, String)> {
    let inherited: Vec<(String, String)> = inherited
        .iter()
        .map(|(n, v)| (n.to_string(), v.to_string()))
        .collect();
    build_launch_plan(config, &inherited).expect("plan").env
}

#[test]
fn split_entry_at_first_equals() {
    assert_eq!(
        split_env_entry("A=B"),
        Some(("A".to_string(), "B".to_string()))
    );
    assert_eq!(
        split_env_entry("A="),
        Some(("A".to_string(), "".to_string()))
    );
    assert_eq!(
        split_env_entry("=B"),
        Some(("".to_string(), "B".to_string()))
    );
    assert_eq!(
        split_env_entry("A=B=C"),
        Some(("A".to_string(), "B=C".to_string()))
    );
    assert_eq!(split_env_entry("AB"), None);
    assert_eq!(split_env_entry(""), None);
}

#[test]
fn cli_env_override_discards_detailed_rule() {
    let mut config = Config::default();
    config.command = "/bin/cmd".to_string();
    env_insert(
        &mut config.env,
        "PATH".to_string(),
        EnvRule::Detailed {
            prepend: vec!["/custom/bin".to_string()],
            append: Vec::new(),
            sep: ":".to_string(),
        },
    );
    override_config_with_args(&mut config, &cli(None, &[], &["PATH=plain"], false));
    let env = resolved_env(&config, &[("PATH", "/usr/bin")]);
    assert_eq!(env, vec![("PATH".to_string(), "plain".to_string())]);
}

#[test]
fn later_cli_entry_wins() {
    let mut config = Config::default();
    config.command = "/bin/cmd".to_string();
    override_config_with_args(&mut config, &cli(None, &[], &["N=1", "N=2"], false));
    let env = resolved_env(&config, &[]);
    assert_eq!(env, vec![("N".to_string(), "2".to_string())]);
}

#[test]
fn malformed_cli_entry_is_ignored() {
    let mut config = Config::default();
    config.command = "/bin/cmd".to_string();
    env_insert(
        &mut config.env,
        "KEEP".to_string(),
        EnvRule::Simple("kept".to_string()),
    );
    override_config_with_args(&mut config, &cli(None, &[], &["NOEQUALS"], false));
    let env = resolved_env(&config, &[]);
    assert_eq!(env, vec![("KEEP".to_string(), "kept".to_string())]);
}

#[test]
fn untouched_variable_keeps_file_rule() {
    let mut config = Config::default();
    config.command = "/bin/cmd".to_string();
    env_insert(
        &mut config.env,
        "KEEP".to_string(),
        EnvRule::Detailed {
            prepend: vec!["pre".to_string()],
            append: Vec::new(),
            sep: ":".to_string(),
        },
    );
    override_config_with_args(&mut config, &cli(None, &[], &["OTHER=x"], false));
    let env = resolved_env(&config, &[("KEEP", "old")]);
    assert_eq!(
        env,
        vec![
            ("KEEP".to_string(), "pre:old".to_string()),
            ("OTHER".to_string(), "x".to_string()),
        ]
    );
}

#[test]
fn cli_command_replaces_command_and_args() {
    let mut config = Config::default();
    config.command = "/bin/old".to_string();
    config.args = vec!["file-arg".to_string()];
    override_config_with_args(&mut config, &cli(Some("/bin/new"), &["x", "y"], &[], false));
    assert_eq!(config.command, "/bin/new");
    assert_eq!(config.args, vec!["x".to_string(), "y".to_string()]);
}

#[test]
fn cli_command_with_no_args_discards_configured_args() {
    let mut config = Config::default();
    config.command = "/bin/old".to_string();
    config.args = vec!["file-arg".to_string()];
    override_config_with_args(&mut config, &cli(Some("/bin/new"), &[], &[], false));
    assert_eq!(config.command, "/bin/new");
    assert!(config.args.is_empty());
}

#[test]
fn no_cli_command_keeps_configured_command_and_args() {
    let mut config = Config::default();
    config.command = "/bin/keep".to_string();
    config.args = vec!["kept-arg".to_string()];
    override_config_with_args(&mut config, &cli(None, &[], &[], false));
    assert_eq!(config.command, "/bin/keep");
    assert_eq!(config.args, vec!["kept-arg".to_string()]);
}

#[test]
fn detach_flag_only_switches_on() {
    let mut config = Config::default();
    override_config_with_args(&mut config, &cli(None, &[], &[], false));
    assert!(!config.detach);
    override_config_with_args(&mut config, &cli(None, &[], &[], true));
    assert!(config.detach);
    override_config_with_args(&mut config, &cli(None, &[], &[], false));
    assert!(config.detach);
}

#[test]
fn env_insert_overwrites_existing_name() {
    let mut config = Config::default();
    config.command = "/bin/cmd".to_string();
    env_insert(
        &mut config.env,
        "A".to_string(),
        EnvRule::Simple("first".to_string()),
    );
    env_insert(
        &mut config.env,
        "B".to_string(),
        EnvRule::Simple("other".to_string()),
    );
    env_insert(
        &mut config.env,
        "A".to_string(),
        EnvRule::Simple("second".to_string()),
    );
    let env = resolved_env(&config, &[]);
    assert_eq!(
        env,
        vec![
            ("A".to_string(), "second".to_string()),
            ("B".to_string(), "other".to_string()),
        ]
    );
}
