use tiger::change::Direction;
use tiger::command::{Command, Operation};
use tiger::config::config_file;
use tiger::error::{Error, UsageError};
use tiger::project::Timing;

fn args(words: &[&str]) -> Vec<String> {
    words.iter().map(|w| w.to_string()).collect()
}

fn project_command(words: &[&str]) -> (String, Operation, Vec<String>) {
    match Command::parse("demo", &args(words)) {
        Ok(Command::Project { name, operation, args }) => (name, operation, args),
        other => panic!("{:?}", other),
    }
}

#[test]
fn init_takes_a_name() {
    assert!(matches!(
        Command::parse("init", &args(&["demo"])),
        Ok(Command::Init { name }) if name == "demo"
    ));
    assert!(matches!(
        Command::parse("init", &args(&["demo", "more"])),
        Ok(Command::Init { name }) if name == "demo"
    ));
    assert_eq!(
        Command::parse("init", &args(&[])).err(),
        Some(Error::Usage(UsageError::MissingProjectName))
    );
}

#[test]
fn up_and_down_start_a_run() {
    assert!(matches!(
        Command::parse("up", &args(&["pre", "projectA"])),
        Ok(Command::Run { direction: Direction::Up, args }) if args == ["pre", "projectA"]
    ));
    assert!(matches!(
        Command::parse("down", &args(&[])),
        Ok(Command::Run { direction: Direction::Down, args }) if args.is_empty()
    ));
}

#[test]
fn a_project_takes_an_operation() {
    assert_eq!(
        project_command(&["pre", "sql"]),
        ("demo".to_string(), Operation::Add(Timing::Pre), args(&["sql"]))
    );
    assert_eq!(
        project_command(&["post", "sql"]),
        ("demo".to_string(), Operation::Add(Timing::Post), args(&["sql"]))
    );
    assert_eq!(project_command(&["rm", "abc"]), ("demo".to_string(), Operation::Remove, args(&["abc"])));
    assert_eq!(project_command(&["ls"]), ("demo".to_string(), Operation::List, args(&[])));
    assert_eq!(project_command(&["clear"]), ("demo".to_string(), Operation::Clear, args(&[])));
    assert_eq!(project_command(&["edit", "abc"]), ("demo".to_string(), Operation::Edit, args(&["abc"])));
    assert_eq!(
        project_command(&["simulate", "up"]),
        ("demo".to_string(), Operation::Simulate, args(&["up"]))
    );
    assert_eq!(
        project_command(&["package", "%-1"]),
        ("demo".to_string(), Operation::Package, args(&["%-1"]))
    );
}

#[test]
fn a_project_without_operation_is_refused() {
    assert_eq!(
        Command::parse("demo", &args(&[])).err(),
        Some(Error::Usage(UsageError::MissingCommand))
    );
}

#[test]
fn an_unknown_operation_is_refused() {
    assert_eq!(
        Command::parse("demo", &args(&["destroy"])).err(),
        Some(Error::Usage(UsageError::UnknownCommand))
    );
    assert_eq!(
        Command::parse("demo", &args(&["LS"])).err(),
        Some(Error::Usage(UsageError::UnknownCommand))
    );
    assert_eq!(Operation::from_str("up"), Err(Error::Usage(UsageError::UnknownCommand)));
}

#[test]
fn operation_reads_its_names() {
    assert_eq!(Operation::from_str("pre"), Ok(Operation::Add(Timing::Pre)));
    assert_eq!(Operation::from_str("post"), Ok(Operation::Add(Timing::Post)));
    assert_eq!(Operation::from_str("rm"), Ok(Operation::Remove));
    assert_eq!(Operation::from_str("ls"), Ok(Operation::List));
    assert_eq!(Operation::from_str("clear"), Ok(Operation::Clear));
    assert_eq!(Operation::from_str("edit"), Ok(Operation::Edit));
    assert_eq!(Operation::from_str("simulate"), Ok(Operation::Simulate));
    assert_eq!(Operation::from_str("package"), Ok(Operation::Package));
}

#[test]
fn config_file_is_required() {
    assert_eq!(config_file(Some("tiger.yml".to_string())), Ok("tiger.yml".to_string()));
    assert_eq!(config_file(None), Err(Error::Usage(UsageError::MissingConfig)));
}

#[test]
fn errors_have_messages() {
    assert_eq!(Error::NotFound.message(), "No change with that hash found");
    assert_eq!(
        Error::AmbiguousMatch.message(),
        "The hash provided matched more than one change - please reduce the scope of your hash"
    );
    assert_eq!(Error::AlreadyExists.message(), "That name already exists");
    assert_eq!(
        Error::Usage(UsageError::MissingChangeType).message(),
        "You must provide a change type"
    );
    assert_eq!(UsageError::InvalidTiming.message(), "Invalid timing value");
    assert_eq!(UsageError::InvalidChangeType.message(), "Invalid change type value");
    assert_eq!(UsageError::MissingHashToRemove.message(), "You must provide a hash to remove");
    assert_eq!(UsageError::MissingHashToEdit.message(), "You must provide a hash to edit");
    assert_eq!(UsageError::MissingDirection.message(), "You must provide an up or down parameter");
    assert_eq!(UsageError::MissingPackageName.message(), "You must provide a package file name");
    assert_eq!(
        UsageError::MissingRunArguments.message(),
        "You must provide a timing and at least one project to run"
    );
    assert_eq!(UsageError::MissingCommand.message(), "You must provide at least one parameter");
    assert_eq!(UsageError::MissingProjectName.message(), "You must provide a project name");
    assert_eq!(UsageError::UnknownCommand.message(), "Unknown command");
    assert_eq!(UsageError::InvalidDirection.message(), "Invalid direction");
    assert_eq!(
        UsageError::MissingConfig.message(),
        "You must provide a configuration file via the -c flag"
    );
}

#[test]
fn only_add_remove_and_clear_persist() {
    assert!(Operation::Add(Timing::Pre).persists());
    assert!(Operation::Add(Timing::Post).persists());
    assert!(Operation::Remove.persists());
    assert!(Operation::Clear.persists());
    assert!(!Operation::List.persists());
    assert!(!Operation::Edit.persists());
    assert!(!Operation::Simulate.persists());
    assert!(!Operation::Package.persists());
}
