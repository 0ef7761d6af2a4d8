use launcher::config::{env_insert, override_config_with_args, CliArgs, Config};
use launcher::launch::{build_launch_plan, exit_code_after_wait, lookup_inherited, LaunchError};
use launcher::rules::EnvRule;

fn snapshot(pairs: &[(&str, &str)]) -> Vec<(String, String)> {
    pairs
        .iter()
        .map(|(n, v)| (n.to_string(), v.to_string()))
        .collect()
}

#[test]
fn missing_command_fails_before_any_spawn_work() {
    let config = Config::default();
    let r = build_launch_plan(&config, &snapshot(&[]));
    assert!(matches!(r, Err(LaunchError::MissingCommand)));
}

#[test]
fn default_config_with_cli_command_and_detach() {
    let mut config = Config::default();
    let cli = CliArgs {
        command: Some("/bin/true".to_string()),
        args: Vec::new(),
        env_overrides: Vec::new(),
        detach: true,
    };
    override_config_with_args(&mut config, &cli);
    let plan = build_launch_plan(&config, &snapshot(&[])).expect("plan");
    assert_eq!(plan.command, "/bin/true");
    assert!(plan.args.is_empty());
    assert!(plan.env.is_empty());
    assert!(plan.detach);
}

#[test]
fn plan_resolves_each_rule_against_inherited() {
    let mut config = Config::default();
    config.command = "/bin/cmd".to_string();
    config.args = vec!["a".to_string()];
    env_insert(
        &mut config.env,
        "PATH".to_string(),
        EnvRule::Detailed {
            prepend: vec!["/custom/bin".to_string()],
            append: Vec::new(),
            sep: ":".to_string(),
        },
    );
    env_insert(
        &mut config.env,
        "MODE".to_string(),
        EnvRule::Simple("fast".to_string()),
    );
    let plan = build_launch_plan(&config, &snapshot(&[("PATH", "/usr/bin"), ("MODE", "slow")]))
        .expect("plan");
    assert_eq!(plan.command, "/bin/cmd");
    assert_eq!(plan.args, vec!["a".to_string()]);
    assert!(!plan.detach);
    assert_eq!(
        plan.env,
        vec![
            ("PATH".to_string(), "/custom/bin:/usr/bin".to_string()),
            ("MODE".to_string(), "fast".to_string()),
        ]
    );
}

#[test]
fn unset_variable_resolves_like_empty() {
    let mut config = Config::default();
    config.command = "/bin/cmd".to_string();
    env_insert(
        &mut config.env,
        "FRESH".to_string(),
        EnvRule::Detailed {
            prepend: vec!["p".to_string()],
            append: vec!["q".to_string()],
            sep: ":".to_string(),
        },
    );
    let plan = build_launch_plan(&config, &snapshot(&[("OTHER", "x")])).expect("plan");
    assert_eq!(plan.env, vec![("FRESH".to_string(), "p:q".to_string())]);
}

#[test]
fn lookup_inherited_takes_first_match_or_empty() {
    let envs = snapshot(&[("A", "1"), ("B", "2"), ("A", "3")]);
    assert_eq!(lookup_inherited(&envs, &"A".to_string()), "1");
    assert_eq!(lookup_inherited(&envs, &"B".to_string()), "2");
    assert_eq!(lookup_inherited(&envs, &"C".to_string()), "");
}

#[test]
fn exit_code_propagation() {
    assert_eq!(exit_code_after_wait(true, Some(0)), 0);
    assert_eq!(exit_code_after_wait(true, None), 0);
    assert_eq!(exit_code_after_wait(false, Some(3)), 3);
    assert_eq!(exit_code_after_wait(false, None), -1);
}
