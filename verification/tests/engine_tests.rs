use sherlock::engine::{Command, Engine, EngineError};

#[test]
fn tests_create_with_new() {
    //valid command
    let _command = Command::new("u", "-u $query", None).unwrap();

    //invalid command
    let command = Command::new("u", "-u query", None);
    assert!(command.is_err());
}

#[test]
fn create_from_json() {
    //valid json deserialization
    let valid_json_command = r#"
        {
            "args":"-search_user=$query",
            "description":"search a user"
        }"#;
    let v: serde_json::Value = serde_json::from_str(valid_json_command).unwrap();
    let _command = Command::new(
        "user",
        v.get("args").unwrap().as_str().unwrap(),
        v.get("description").and_then(|d| d.as_str()),
    )
    .unwrap();

    //invalid json deserialization
    let invalid_json_command = r#"
    {
        "args":"-search_user=$q",
        "description":"search a user"
    }"#;
    let v: serde_json::Value = serde_json::from_str(invalid_json_command).unwrap();
    let command = Command::new(
        "user",
        v.get("args").unwrap().as_str().unwrap(),
        v.get("description").and_then(|d| d.as_str()),
    );
    assert!(command.is_err());
}

#[test]
fn check_description() {
    let command = Command::new("cmd", "$query", Some("test description")).unwrap();
    assert_eq!(command.get_description().unwrap(), "test description");
}

#[test]
fn parse_args() {
    let command = Command::new("search", "-searchuser=$query", None).unwrap();
    assert_eq!(command.parse_args("user123"), "-searchuser=user123");
}

#[test]
fn create_with_new() {
    let mut _engine: Engine = Engine::new(
        "google",
        "./engines/google_engine",
        None,
        Some("google search engine"),
    );
}

#[test]
fn check_add_command() {
    let mut engine = Engine::new(
        "Engine",
        "../config_manager/mock_files/engines/test_engine/engine",
        None,
        None,
    );
    engine
        .new_command("search", "-search=$query", None)
        .unwrap();
    assert!(engine.execute("search", "test123").is_ok());
}

#[test]
fn command_new_fails_exactly_without_placeholder() {
    // the placeholder may stand anywhere, also more than once
    assert!(Command::new("a", "$query", None).is_ok());
    assert!(Command::new("a", "x $query y", None).is_ok());
    assert!(Command::new("a", "$query$query", None).is_ok());
    // near misses are rejected with InvalidArgs
    assert_eq!(
        Command::new("a", "", None).unwrap_err(),
        EngineError::InvalidArgs
    );
    assert_eq!(
        Command::new("a", "$quer", None).unwrap_err(),
        EngineError::InvalidArgs
    );
    assert_eq!(
        Command::new("a", "query", None).unwrap_err(),
        EngineError::InvalidArgs
    );
}

#[test]
fn parse_args_replaces_every_occurrence() {
    let command = Command::new("a", "-a=$query -b=$query", None).unwrap();
    assert_eq!(command.parse_args("u"), "-a=u -b=u");
    let command = Command::new("a", "$query$query", None).unwrap();
    assert_eq!(command.parse_args("ab"), "abab");
    // the query is inserted verbatim, without escaping
    let command = Command::new("a", "-s=$query", None).unwrap();
    assert_eq!(command.parse_args("a b\"c"), "-s=a b\"c");
}

#[test]
fn render_changes_nothing_without_placeholder() {
    assert_eq!(sherlock::template::render("abc", "x"), "abc");
    assert_eq!(sherlock::template::render("", "x"), "");
    assert_eq!(sherlock::template::render("$quer y", "x"), "$quer y");
}

#[test]
fn duplicate_command_leaves_engine_unmodified() {
    let mut engine = Engine::new("e", "./e", None, None);
    engine.new_command("search", "-a=$query", Some("first")).unwrap();
    let err = engine
        .new_command("search", "-b=$query", Some("second"))
        .unwrap_err();
    assert_eq!(err, EngineError::CommandExists);
    // the prior entry is unmodified
    let commands = engine.list_commands();
    assert_eq!(commands.len(), 1);
    assert_eq!(commands[0].0, "search");
    assert_eq!(commands[0].1.as_deref(), Some("first"));

    // the same holds for a prebuilt command
    let dup = Command::new("search", "-c=$query", None).unwrap();
    assert_eq!(engine.add_command(dup).unwrap_err(), EngineError::CommandExists);
    assert_eq!(engine.list_commands().len(), 1);
}

#[test]
fn execute_resolves_prefixed_invocation() {
    // an engine with a prefix runs the prefix as the program, with the path
    // first and the rendered, space-split tokens after it
    let mut engine = Engine::new(
        "facebook",
        "./engines/facebook/engine.py",
        Some("python3"),
        Some("Search stuff on Facebook."),
    );
    engine
        .new_command("user", "-search_user=$query", None)
        .unwrap();
    let invocation = engine.execute("user", "user123").unwrap();
    assert_eq!(invocation.program, "python3");
    assert_eq!(
        invocation.args,
        vec![
            "./engines/facebook/engine.py".to_owned(),
            "-search_user=user123".to_owned()
        ]
    );
}

#[test]
fn execute_resolves_plain_invocation() {
    // without a prefix the path is the program and the tokens stand alone
    let mut engine = Engine::new("e", "./bin/engine", None, None);
    engine.new_command("s", "-a $query -b", None).unwrap();
    let invocation = engine.execute("s", "q1").unwrap();
    assert_eq!(invocation.program, "./bin/engine");
    assert_eq!(
        invocation.args,
        vec!["-a".to_owned(), "q1".to_owned(), "-b".to_owned()]
    );
}

#[test]
fn execute_splits_on_every_single_space() {
    // split on single spaces keeps empty tokens; no quoting support
    let mut engine = Engine::new("e", "./e", None, None);
    engine.new_command("s", "a  $query", None).unwrap();
    let invocation = engine.execute("s", "x y").unwrap();
    assert_eq!(
        invocation.args,
        vec!["a".to_owned(), "".to_owned(), "x".to_owned(), "y".to_owned()]
    );
}

#[test]
fn execute_unknown_command() {
    let engine = Engine::new("e", "./e", None, None);
    assert_eq!(
        engine.execute("missing", "q").unwrap_err(),
        EngineError::UnknownCommand
    );
}

#[test]
fn engine_getters() {
    let engine = Engine::new("google", "./g", Some("bash"), Some("a search engine"));
    assert_eq!(engine.get_name(), "google");
    assert_eq!(engine.get_description().unwrap(), "a search engine");
    let command = Command::new("user", "-u $query", Some("find a user")).unwrap();
    assert_eq!(command.get_name(), "user");
    assert_eq!(command.get_description().unwrap(), "find a user");
}

#[test]
fn interpret_output_decodes_or_fails() {
    // captured standard output comes back unchanged, trailing newline kept
    let out = sherlock::engine::interpret_output(Some(b"test output\n".to_vec()));
    assert_eq!(out.unwrap(), "test output\n");
    // non-ASCII text survives the decoding
    let out = sherlock::engine::interpret_output(Some("héllo\n".as_bytes().to_vec()));
    assert_eq!(out.unwrap(), "héllo\n");
    // a process that could not run is ExecutionFailed
    assert_eq!(
        sherlock::engine::interpret_output(None).unwrap_err(),
        EngineError::ExecutionFailed
    );
    // output that is not text is UnknownError
    assert_eq!(
        sherlock::engine::interpret_output(Some(vec![0xff, 0xfe, 0x80])).unwrap_err(),
        EngineError::UnknownError
    );
}

#[test]
fn engine_error_texts() {
    assert_eq!(EngineError::CommandExists.describe(), "Command exists already");
    assert_eq!(EngineError::InvalidArgs.describe(), "Invalid arguments has provided");
    assert_eq!(EngineError::InvalidEnginePath.describe(), "Invalid engine path has provided");
    assert_eq!(EngineError::ExecutionFailed.describe(), "Failed to execute command");
    assert_eq!(EngineError::UnknownCommand.describe(), "Unknown command has given");
    assert_eq!(EngineError::UnknownError.describe(), "Unknown error");
}
