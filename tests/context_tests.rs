use retention::{Args, Config, ExecutionContext, FileSource, RetentionFilePattern, RetentionPath, RetentionPolicy, SubCommand};

#[test]
fn simulation_wins_over_dry_run() {
    let args = Args {
        config: None,
        command: Some(SubCommand::Simulate { path: "/backups".to_string(), input: None }),
        dry_run: true,
    };
    let context = ExecutionContext::new(args);
    assert!(matches!(context, ExecutionContext::Simulate { .. }));
    assert!(!context.deletes_files());
}

#[test]
fn dry_run_and_default() {
    let dry = ExecutionContext::new(Args { config: None, command: None, dry_run: true });
    assert!(matches!(dry, ExecutionContext::DryRun));
    assert!(!dry.deletes_files());
    let real = ExecutionContext::new(Args { config: None, command: None, dry_run: false });
    assert!(matches!(real, ExecutionContext::Default));
    assert!(real.deletes_files());
}

#[test]
fn file_sources() {
    let sim = ExecutionContext::Simulate { path: "/b".to_string(), input: Some("list.txt".to_string()) };
    assert!(matches!(sim.file_source(&"/b".to_string()), FileSource::InputFile(f) if f == "list.txt"));
    assert!(matches!(sim.file_source(&"/c".to_string()), FileSource::Nothing));
    assert!(matches!(sim.file_source(&"/b/".to_string()), FileSource::InputFile(_)));
    assert!(matches!(sim.file_source(&"//b/./".to_string()), FileSource::InputFile(_)));
    assert!(matches!(sim.file_source(&"b".to_string()), FileSource::Nothing));
    let sim_dir = ExecutionContext::Simulate { path: "/b".to_string(), input: None };
    assert!(matches!(sim_dir.file_source(&"/b".to_string()), FileSource::Directory));
    assert!(matches!(ExecutionContext::DryRun.file_source(&"/b".to_string()), FileSource::Directory));
}

#[test]
fn config_file_defaults() {
    assert_eq!("config.toml", Args { config: None, command: None, dry_run: false }.config_file());
    assert_eq!("x.toml", Args { config: Some("x.toml".to_string()), command: None, dry_run: false }.config_file());
}

#[test]
fn path_policy_overrides_default() {
    let global = RetentionPolicy { keep_last: Some(3), ..RetentionPolicy::default() };
    let own = RetentionPolicy { keep_daily: Some(7), ..RetentionPolicy::default() };
    let config = Config {
        retention: global,
        paths: vec![
            RetentionPath { path: "/a".to_string(), file_pattern: RetentionFilePattern("{year}".to_string()), retention: None },
            RetentionPath { path: "/b".to_string(), file_pattern: RetentionFilePattern("{year}".to_string()), retention: Some(own) },
        ],
    };
    assert_eq!(global, config.policy_for(0));
    assert_eq!(own, config.policy_for(1));
}
