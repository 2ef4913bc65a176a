use tiger::change::{
    add, add_with_identity, edit, rm, Change, ChangeType, Direction,
};
use tiger::error::{Error, UsageError};
use tiger::project::{Project, Timing};

fn args(words: &[&str]) -> Vec<String> {
    words.iter().map(|w| w.to_string()).collect()
}

fn hashes(project: &Project) -> Vec<String> {
    project.changes.iter().map(|c| c.hash.clone()).collect()
}

fn three_changes() -> Project {
    let mut project = Project::new("demo");
    for (timing, hash) in [(Timing::Pre, "abc123"), (Timing::Post, "abd456"), (Timing::Pre, "ffe")] {
        project.add_change(Change { timing, change_type: ChangeType::Sql, hash: hash.to_string() });
    }
    project
}

#[test]
fn change_type_round_trips_through_its_name() {
    assert_eq!(ChangeType::from_str("sql"), Ok(ChangeType::Sql));
    assert_eq!(ChangeType::Sql.to_string(), "sql");
    assert_eq!(ChangeType::Sql.as_str(), "sql");
    assert_eq!(ChangeType::default(), ChangeType::Sql);
}

#[test]
fn change_type_refuses_other_strings() {
    let refused = Err(Error::Usage(UsageError::InvalidChangeType));
    assert_eq!(ChangeType::from_str(""), refused);
    assert_eq!(ChangeType::from_str("SQL"), refused);
    assert_eq!(ChangeType::from_str("shell"), refused);
}

#[test]
fn direction_round_trips_through_its_name() {
    for name in ["up", "down"] {
        assert_eq!(Direction::from_str(name).unwrap().to_string(), name);
    }
    assert_eq!(Direction::from_str("up"), Ok(Direction::Up));
    assert_eq!(Direction::from_str("down"), Ok(Direction::Down));
}

#[test]
fn direction_refuses_other_strings() {
    let refused = Err(Error::Usage(UsageError::InvalidDirection));
    assert_eq!(Direction::from_str(""), refused);
    assert_eq!(Direction::from_str("sideways"), refused);
    assert_eq!(Direction::from_str("Up"), refused);
}

#[test]
fn change_defaults_to_pre_sql_without_hash() {
    let change = Change::default();
    assert_eq!(change.timing, Timing::Pre);
    assert_eq!(change.change_type, ChangeType::Sql);
    assert_eq!(change.hash, "");
}

#[test]
fn change_clone_is_equal() {
    let change = Change { timing: Timing::Post, change_type: ChangeType::Sql, hash: "abc".to_string() };
    let copy = change.clone();
    assert_eq!(copy.timing, Timing::Post);
    assert_eq!(copy.change_type, ChangeType::Sql);
    assert_eq!(copy.hash, "abc");
}

#[test]
fn change_row_has_fixed_columns() {
    let change = Change {
        timing: Timing::Pre,
        change_type: ChangeType::Sql,
        hash: "cfcd208495d565ef66e7dff9f98764da".to_string(),
    };
    assert_eq!(
        change.to_string(),
        "| pre        | sql        | cfcd208495d565ef66e7dff9f98764da |"
    );
    let short = Change { timing: Timing::Post, change_type: ChangeType::Sql, hash: "ab".to_string() };
    assert_eq!(
        short.to_string(),
        "| post       | sql        | ab                               |"
    );
}

#[test]
fn change_paths_follow_the_layout() {
    let change = Change { timing: Timing::Pre, change_type: ChangeType::Sql, hash: "abc123".to_string() };
    assert_eq!(change.directory("/work/tiger/demo"), "/work/tiger/demo/abc123");
    assert_eq!(change.script_path("/work/tiger/demo", Direction::Up), "/work/tiger/demo/abc123/up.sql");
    assert_eq!(
        change.script_path("/work/tiger/demo", Direction::Down),
        "/work/tiger/demo/abc123/down.sql"
    );
    let files = change.script_paths("/work/tiger/demo");
    assert_eq!(files.up, "/work/tiger/demo/abc123/up.sql");
    assert_eq!(files.down, "/work/tiger/demo/abc123/down.sql");
}

#[test]
fn add_with_identity_appends_the_change() {
    let mut project = three_changes();
    let added =
        add_with_identity(&mut project, "post", &args(&["sql"]), "/work", "0123".to_string())
            .unwrap();
    assert_eq!(added.change.timing, Timing::Post);
    assert_eq!(added.change.change_type, ChangeType::Sql);
    assert_eq!(added.change.hash, "0123");
    assert_eq!(added.directory, "/work/tiger/demo/0123");
    assert_eq!(added.files.up, "/work/tiger/demo/0123/up.sql");
    assert_eq!(added.files.down, "/work/tiger/demo/0123/down.sql");
    assert_eq!(hashes(&project), ["abc123", "abd456", "ffe", "0123"]);
    assert_eq!(project.changes[3].timing, Timing::Post);
    assert_eq!(project.name, "demo");
}

#[test]
fn add_makes_a_fresh_identity() {
    let mut project = Project::new("demo");
    let first = add(&mut project, "pre", &args(&["sql"]), "/work").unwrap();
    let second = add(&mut project, "post", &args(&["sql"]), "/work").unwrap();
    for added in [&first, &second] {
        assert_eq!(added.change.hash.len(), 32);
        assert!(added.change.hash.chars().all(|c| matches!(c, '0'..='9' | 'a'..='f')));
        assert_eq!(added.directory, format!("/work/tiger/demo/{}", added.change.hash));
        assert_eq!(added.files.up, format!("{}/up.sql", added.directory));
        assert_eq!(added.files.down, format!("{}/down.sql", added.directory));
    }
    assert_eq!(hashes(&project), [first.change.hash.clone(), second.change.hash.clone()]);
    assert_eq!(project.changes[0].timing, Timing::Pre);
    assert_eq!(project.changes[1].timing, Timing::Post);
}

#[test]
fn add_refuses_a_missing_change_type() {
    let mut project = three_changes();
    let refused = Some(Error::Usage(UsageError::MissingChangeType));
    assert_eq!(add(&mut project, "pre", &args(&[]), "/work").err(), refused);
    assert_eq!(add(&mut project, "pre", &args(&["sql", "sql"]), "/work").err(), refused);
    assert_eq!(add(&mut project, "never", &args(&[]), "/work").err(), refused);
    assert_eq!(hashes(&project), ["abc123", "abd456", "ffe"]);
}

#[test]
fn add_refuses_an_unknown_timing() {
    let mut project = three_changes();
    let refused = Some(Error::Usage(UsageError::InvalidTiming));
    assert_eq!(add(&mut project, "never", &args(&["sql"]), "/work").err(), refused);
    assert_eq!(add(&mut project, "never", &args(&["shell"]), "/work").err(), refused);
    assert_eq!(hashes(&project), ["abc123", "abd456", "ffe"]);
}

#[test]
fn add_refuses_an_unknown_change_type() {
    let mut project = three_changes();
    let refused = Some(Error::Usage(UsageError::InvalidChangeType));
    assert_eq!(add(&mut project, "pre", &args(&["shell"]), "/work").err(), refused);
    assert_eq!(hashes(&project), ["abc123", "abd456", "ffe"]);
}

#[test]
fn rm_removes_exactly_the_matched_change() {
    let mut project = three_changes();
    let removed = rm(&mut project, &args(&["abd"]), "/work").unwrap();
    assert_eq!(removed.index, 1);
    assert_eq!(removed.change.hash, "abd456");
    assert_eq!(removed.change.timing, Timing::Post);
    assert_eq!(removed.directory, "/work/tiger/demo/abd456");
    assert_eq!(hashes(&project), ["abc123", "ffe"]);
    assert_eq!(project.changes[0].timing, Timing::Pre);
    assert_eq!(project.changes[1].timing, Timing::Pre);
    assert_eq!(project.name, "demo");
}

#[test]
fn rm_of_the_last_change_leaves_an_empty_list() {
    let mut project = Project::new("demo");
    project.add_change(Change { timing: Timing::Pre, change_type: ChangeType::Sql, hash: "abc".to_string() });
    let removed = rm(&mut project, &args(&[""]), "/work").unwrap();
    assert_eq!(removed.index, 0);
    assert!(project.changes.is_empty());
}

#[test]
fn rm_refuses_what_it_cannot_resolve() {
    let mut project = three_changes();
    assert_eq!(rm(&mut project, &args(&["ab"]), "/work").err(), Some(Error::AmbiguousMatch));
    assert_eq!(rm(&mut project, &args(&["zzz"]), "/work").err(), Some(Error::NotFound));
    assert_eq!(
        rm(&mut project, &args(&[]), "/work").err(),
        Some(Error::Usage(UsageError::MissingHashToRemove))
    );
    assert_eq!(
        rm(&mut project, &args(&["abc", "ffe"]), "/work").err(),
        Some(Error::Usage(UsageError::MissingHashToRemove))
    );
    assert_eq!(hashes(&project), ["abc123", "abd456", "ffe"]);
}

#[test]
fn edit_names_the_two_script_files() {
    let project = three_changes();
    let files = edit(&project, &args(&["ff"]), "/work").unwrap();
    assert_eq!(files.up, "/work/tiger/demo/ffe/up.sql");
    assert_eq!(files.down, "/work/tiger/demo/ffe/down.sql");
}

#[test]
fn edit_refuses_what_it_cannot_resolve() {
    let project = three_changes();
    assert_eq!(edit(&project, &args(&["ab"]), "/work").err(), Some(Error::AmbiguousMatch));
    assert_eq!(edit(&project, &args(&["zzz"]), "/work").err(), Some(Error::NotFound));
    assert_eq!(
        edit(&project, &args(&[]), "/work").err(),
        Some(Error::Usage(UsageError::MissingHashToEdit))
    );
}
