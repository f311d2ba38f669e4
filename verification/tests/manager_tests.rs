use sherlock::config::{ConfigManager, StrorageType};
use sherlock::manager::{
    build_engine, CommandDescriptor, EngineDescriptor, EnginesManager, Error,
};

fn facebook_manager() -> EnginesManager {
    let mut manager = EnginesManager::init();
    manager
        .add_engine(
            "facebook",
            "./engines/facebook/engine.py",
            Some("python3"),
            Some("Search stuff on Facebook."),
        )
        .unwrap();
    let descriptor = EngineDescriptor {
        name: "facebook".to_owned(),
        path: String::new(),
        prefix: None,
        description: None,
        commands: vec![CommandDescriptor {
            name: "user".to_owned(),
            args: "-search_user=$query".to_owned(),
            description: None,
        }],
    };
    // the engine already exists, so only its command is added here
    let built = build_engine(&descriptor).unwrap();
    assert!(matches!(
        manager.add_engine_from_descriptor(built),
        Err(Error::EngineExists)
    ));
    manager.remove_engine("facebook");
    let descriptor = EngineDescriptor {
        name: "facebook".to_owned(),
        path: "./engines/facebook/engine.py".to_owned(),
        prefix: Some("python3".to_owned()),
        description: Some("Search stuff on Facebook.".to_owned()),
        commands: vec![CommandDescriptor {
            name: "user".to_owned(),
            args: "-search_user=$query".to_owned(),
            description: Some("search a user".to_owned()),
        }],
    };
    manager
        .add_engine_from_descriptor(build_engine(&descriptor).unwrap())
        .unwrap();
    manager
}

#[test]
fn execute_resolves_the_engines_invocation() {
    let manager = facebook_manager();
    let invocation = manager.execute("facebook", "user", "user123").unwrap();
    assert_eq!(invocation.program, "python3");
    assert_eq!(
        invocation.args,
        vec![
            "./engines/facebook/engine.py".to_owned(),
            "-search_user=user123".to_owned()
        ]
    );
}

#[test]
fn execute_unknown_command_is_collapsed() {
    let manager = facebook_manager();
    let err = manager.execute("facebook", "search", "user123").unwrap_err();
    assert_eq!(err, Error::UnkownCommand);
}

#[test]
fn execute_unknown_engine() {
    let manager = facebook_manager();
    let err = manager.execute("ghost", "user", "user123").unwrap_err();
    assert_eq!(err, Error::UnknownEngine);
}

#[test]
fn list_engine_commands_unknown_engine() {
    let manager = facebook_manager();
    let err = manager.list_engine_commands("ghost").unwrap_err();
    assert_eq!(err, Error::UnknownEngine);
}

#[test]
fn list_engine_commands_snapshots() {
    let manager = facebook_manager();
    let commands = manager.list_engine_commands("facebook").unwrap();
    assert_eq!(commands.len(), 1);
    assert_eq!(commands[0].0, "user");
    assert_eq!(commands[0].1.as_deref(), Some("search a user"));
}

#[test]
fn duplicate_engine_leaves_registry_unmodified() {
    let mut manager = EnginesManager::init();
    manager.add_engine("e", "./first", None, Some("first")).unwrap();
    let err = manager
        .add_engine("e", "./second", None, Some("second"))
        .unwrap_err();
    assert_eq!(err, Error::EngineExists);
    // the prior entry is unmodified
    assert_eq!(manager.list_engines(), vec!["e".to_owned()]);
    assert_eq!(
        manager.get_engine_description("e").unwrap().as_deref(),
        Some("first")
    );
}

#[test]
fn remove_engine_is_noop_when_absent() {
    let mut manager = EnginesManager::init();
    manager.add_engine("a", "./a", None, None).unwrap();
    manager.add_engine("b", "./b", None, None).unwrap();
    manager.remove_engine("ghost");
    assert_eq!(manager.list_engines(), vec!["a".to_owned(), "b".to_owned()]);
    manager.remove_engine("a");
    assert_eq!(manager.list_engines(), vec!["b".to_owned()]);
    // once removed, the name can be registered again
    manager.add_engine("a", "./a2", None, None).unwrap();
    assert_eq!(manager.list_engines(), vec!["b".to_owned(), "a".to_owned()]);
}

#[test]
fn descriptions_of_engine_and_command() {
    let manager = facebook_manager();
    assert_eq!(
        manager.get_engine_description("facebook").unwrap().as_deref(),
        Some("Search stuff on Facebook.")
    );
    assert_eq!(
        manager
            .get_command_description("facebook", "user")
            .unwrap()
            .as_deref(),
        Some("search a user")
    );
    assert_eq!(
        manager.get_command_description("ghost", "user").unwrap_err(),
        Error::UnknownEngine
    );
    assert_eq!(
        manager
            .get_command_description("facebook", "ghost")
            .unwrap_err(),
        Error::UnkownCommand
    );
}

#[test]
fn build_engine_rejects_bad_templates() {
    let descriptor = EngineDescriptor {
        name: "e".to_owned(),
        path: "./e".to_owned(),
        prefix: None,
        description: None,
        commands: vec![CommandDescriptor {
            name: "user".to_owned(),
            args: "-search_user=$q".to_owned(),
            description: None,
        }],
    };
    match build_engine(&descriptor).unwrap_err() {
        Error::InvalidConfig(detail) => {
            assert_eq!(detail, "Invalid arguments has provided");
        }
        other => panic!("unexpected error {:?}", other),
    }
}

#[test]
fn build_engine_rejects_duplicate_command_names() {
    let command = |args: &str| CommandDescriptor {
        name: "user".to_owned(),
        args: args.to_owned(),
        description: None,
    };
    let descriptor = EngineDescriptor {
        name: "e".to_owned(),
        path: "./e".to_owned(),
        prefix: None,
        description: None,
        commands: vec![command("-a=$query"), command("-b=$query")],
    };
    match build_engine(&descriptor).unwrap_err() {
        Error::InvalidConfig(detail) => {
            assert_eq!(detail, "Command exists already");
        }
        other => panic!("unexpected error {:?}", other),
    }
}

#[test]
fn config_holds_resolved_values() {
    let config = ConfigManager::new(
        "./mock_files/engines".to_owned(),
        StrorageType::Local { path: "./store".to_owned(), encrypted: false },
    );
    assert_eq!(config.get_engines_location(), "./mock_files/engines");
    let config = ConfigManager::new("/opt/engines".to_owned(), StrorageType::Remote);
    assert_eq!(config.get_engines_location(), "/opt/engines");
}
