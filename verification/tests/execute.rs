use tiger::change::{Change, ChangeType, Direction};
use tiger::error::{Error, UsageError};
use tiger::execute::{report, run, simulate, statements, Action, Event, Execution, Phase};
use tiger::package::{PackagedChange, PackagedProject};
use tiger::project::{Project, Timing};

fn args(words: &[&str]) -> Vec<String> {
    words.iter().map(|w| w.to_string()).collect()
}

fn strings(words: &[&str]) -> Vec<String> {
    args(words)
}

fn live(changes: &[(Timing, &str)]) -> Project {
    let mut project = Project::new("demo");
    for (timing, hash) in changes {
        project.add_change(Change {
            timing: *timing,
            change_type: ChangeType::Sql,
            hash: hash.to_string(),
        });
    }
    project
}

fn packaged(changes: &[(Timing, &str)]) -> PackagedProject {
    PackagedProject {
        name: "projectA".to_string(),
        changes: changes
            .iter()
            .map(|(timing, hash)| PackagedChange {
                timing: *timing,
                change_type: ChangeType::Sql,
                hash: hash.to_string(),
                up_content: format!("up {};", hash),
                down_content: format!("down {};", hash),
            })
            .collect(),
    }
}

fn drive(execution: &mut Execution, fail_at: Option<usize>) -> (Vec<String>, Vec<String>, Vec<String>) {
    let mut shown = Vec::new();
    let mut executed = Vec::new();
    let mut notes = Vec::new();
    let mut event = Event::Begin;
    loop {
        match execution.step(event) {
            Action::NoChanges => {
                notes.push("no changes".to_string());
                break;
            }
            Action::Show(script) => {
                shown.push(script);
                event = Event::Succeeded;
            }
            Action::Execute(script) => {
                event = if fail_at == Some(executed.len()) { Event::Failed } else { Event::Succeeded };
                executed.push(script);
            }
            Action::Complete => {
                notes.push("complete".to_string());
                break;
            }
            Action::Halt => {
                notes.push("halt".to_string());
                break;
            }
        }
    }
    (shown, executed, notes)
}

#[test]
fn simulate_partitions_by_timing_in_list_order() {
    let project = live(&[
        (Timing::Post, "p1"),
        (Timing::Pre, "a1"),
        (Timing::Post, "p2"),
        (Timing::Pre, "a2"),
        (Timing::Pre, "a3"),
    ]);
    let plan = simulate(&project, &args(&["up"]), "/work").unwrap();
    assert_eq!(plan.direction, Direction::Up);
    assert_eq!(
        plan.pre,
        [
            "/work/tiger/demo/a1/up.sql",
            "/work/tiger/demo/a2/up.sql",
            "/work/tiger/demo/a3/up.sql"
        ]
    );
    assert_eq!(plan.post, ["/work/tiger/demo/p1/up.sql", "/work/tiger/demo/p2/up.sql"]);
}

#[test]
fn simulate_down_reads_the_down_scripts() {
    let project = live(&[(Timing::Pre, "a1"), (Timing::Post, "p1")]);
    let plan = simulate(&project, &args(&["down"]), "/work").unwrap();
    assert_eq!(plan.direction, Direction::Down);
    assert_eq!(plan.pre, ["/work/tiger/demo/a1/down.sql"]);
    assert_eq!(plan.post, ["/work/tiger/demo/p1/down.sql"]);
}

#[test]
fn simulate_of_an_empty_project_reads_nothing() {
    let project = live(&[]);
    let plan = simulate(&project, &args(&["up"]), "/work").unwrap();
    assert!(plan.pre.is_empty());
    assert!(plan.post.is_empty());
    assert_eq!(
        report(&plan.pre, &plan.post),
        "> Pre-deploy changes: 0\n> Post-deploy changes: 0\n> Deployment complete\n\n"
    );
}

#[test]
fn simulate_refuses_its_arguments() {
    let project = live(&[(Timing::Pre, "a1")]);
    assert_eq!(
        simulate(&project, &args(&[]), "/work").err(),
        Some(Error::Usage(UsageError::MissingDirection))
    );
    assert_eq!(
        simulate(&project, &args(&["up", "down"]), "/work").err(),
        Some(Error::Usage(UsageError::MissingDirection))
    );
    assert_eq!(
        simulate(&project, &args(&["sideways"]), "/work").err(),
        Some(Error::Usage(UsageError::InvalidDirection))
    );
}

#[test]
fn report_shows_counts_and_scripts() {
    let pre = strings(&["create table a;", "create table b;"]);
    let post = strings(&["drop table c;"]);
    let rule = "-".repeat(100);
    let expected = format!(
        "> Pre-deploy changes: 2\n> Post-deploy changes: 1\n\
         \n> PRE SCRIPTS\n{rule}\ncreate table a;\ncreate table b;\n{rule}\n\
         \n> POST SCRIPTS\n{rule}\ndrop table c;\n{rule}\n\
         > Deployment complete\n\n",
        rule = rule
    );
    assert_eq!(report(&pre, &post), expected);
}

#[test]
fn report_leaves_out_an_empty_phase() {
    let rule = "-".repeat(100);
    let only_post = report(&strings(&[]), &strings(&["drop table c;"]));
    assert_eq!(
        only_post,
        format!(
            "> Pre-deploy changes: 0\n> Post-deploy changes: 1\n\
             \n> POST SCRIPTS\n{rule}\ndrop table c;\n{rule}\n\
             > Deployment complete\n\n",
            rule = rule
        )
    );
    let only_pre = report(&strings(&["a;"]), &strings(&[]));
    assert_eq!(
        only_pre,
        format!(
            "> Pre-deploy changes: 1\n> Post-deploy changes: 0\n\
             \n> PRE SCRIPTS\n{rule}\na;\n{rule}\n\
             > Deployment complete\n\n",
            rule = rule
        )
    );
}

#[test]
fn report_counts_in_decimal() {
    let many: Vec<String> = (0..12).map(|i| format!("s{};", i)).collect();
    let text = report(&many, &strings(&[]));
    assert!(text.starts_with("> Pre-deploy changes: 12\n> Post-deploy changes: 0\n"));
}

#[test]
fn run_reads_timing_and_projects() {
    let request = run("up", &args(&["pre", "projectA", "projectB"]), true).unwrap();
    assert_eq!(request.direction, Direction::Up);
    assert_eq!(request.timing, Timing::Pre);
    assert_eq!(request.projects, ["projectA", "projectB"]);
    assert!(request.commit);
    let request = run("down", &args(&["post", "projectA"]), false).unwrap();
    assert_eq!(request.direction, Direction::Down);
    assert_eq!(request.timing, Timing::Post);
    assert_eq!(request.projects, ["projectA"]);
    assert!(!request.commit);
}

#[test]
fn run_refuses_its_arguments() {
    assert_eq!(
        run("up", &args(&["pre"]), false).err(),
        Some(Error::Usage(UsageError::MissingRunArguments))
    );
    assert_eq!(
        run("up", &args(&[]), false).err(),
        Some(Error::Usage(UsageError::MissingRunArguments))
    );
    assert_eq!(
        run("up", &args(&["never", "projectA"]), false).err(),
        Some(Error::Usage(UsageError::InvalidTiming))
    );
    assert_eq!(
        run("sideways", &args(&["pre", "projectA"]), false).err(),
        Some(Error::Usage(UsageError::InvalidDirection))
    );
    assert_eq!(
        run("sideways", &args(&[]), false).err(),
        Some(Error::Usage(UsageError::InvalidDirection))
    );
}

#[test]
fn statements_selects_timing_and_direction() {
    let project = packaged(&[(Timing::Pre, "a1"), (Timing::Post, "p1"), (Timing::Pre, "a2")]);
    assert_eq!(statements(&project, Timing::Pre, Direction::Up), ["up a1;", "up a2;"]);
    assert_eq!(statements(&project, Timing::Pre, Direction::Down), ["down a1;", "down a2;"]);
    assert_eq!(statements(&project, Timing::Post, Direction::Up), ["up p1;"]);
    assert_eq!(statements(&project, Timing::Post, Direction::Down), ["down p1;"]);
}

#[test]
fn statements_of_no_matching_change_are_none() {
    let project = packaged(&[(Timing::Pre, "a1")]);
    assert!(statements(&project, Timing::Post, Direction::Up).is_empty());
    assert!(statements(&packaged(&[]), Timing::Pre, Direction::Up).is_empty());
}

#[test]
fn run_up_pre_in_commit_mode_executes_the_two_pre_changes() {
    let project = packaged(&[(Timing::Pre, "a1"), (Timing::Post, "p1"), (Timing::Pre, "a2")]);
    let request = run("up", &args(&["pre", "projectA"]), true).unwrap();
    let scripts = statements(&project, request.timing, request.direction);
    let mut execution = Execution::new(scripts, request.commit);
    let (shown, executed, notes) = drive(&mut execution, None);
    assert_eq!(executed, ["up a1;", "up a2;"]);
    assert!(shown.is_empty());
    assert_eq!(notes, ["complete"]);
    assert_eq!(execution.phase, Phase::Done);
}

#[test]
fn run_up_pre_without_commit_executes_nothing() {
    let project = packaged(&[(Timing::Pre, "a1"), (Timing::Post, "p1"), (Timing::Pre, "a2")]);
    let request = run("up", &args(&["pre", "projectA"]), false).unwrap();
    let scripts = statements(&project, request.timing, request.direction);
    let mut execution = Execution::new(scripts, request.commit);
    let (shown, executed, notes) = drive(&mut execution, None);
    assert_eq!(shown, ["up a1;", "up a2;"]);
    assert!(executed.is_empty());
    assert_eq!(notes, ["complete"]);
}

#[test]
fn run_without_matching_changes_reports_no_changes() {
    let project = packaged(&[(Timing::Post, "p1")]);
    let mut execution = Execution::new(statements(&project, Timing::Pre, Direction::Up), true);
    let (shown, executed, notes) = drive(&mut execution, None);
    assert!(shown.is_empty());
    assert!(executed.is_empty());
    assert_eq!(notes, ["no changes"]);
    assert_eq!(execution.phase, Phase::Done);
}

#[test]
fn run_stops_at_the_first_failure() {
    let mut execution = Execution::new(strings(&["one;", "two;", "three;"]), true);
    let (_, executed, notes) = drive(&mut execution, Some(1));
    assert_eq!(executed, ["one;", "two;"]);
    assert_eq!(notes, ["halt"]);
    assert_eq!(execution.phase, Phase::Failed);
    assert!(matches!(execution.step(Event::Succeeded), Action::Halt));
    assert!(matches!(execution.step(Event::Begin), Action::Halt));
    assert_eq!(execution.phase, Phase::Failed);
}

#[test]
fn step_walks_the_scripts_one_by_one() {
    let mut execution = Execution::new(strings(&["one;", "two;"]), true);
    assert_eq!(execution.phase, Phase::Loaded);
    assert!(matches!(execution.step(Event::Begin), Action::Execute(s) if s == "one;"));
    assert_eq!((execution.phase, execution.cursor), (Phase::Running, 0));
    assert!(matches!(execution.step(Event::Succeeded), Action::Execute(s) if s == "two;"));
    assert_eq!((execution.phase, execution.cursor), (Phase::Running, 1));
    assert!(matches!(execution.step(Event::Succeeded), Action::Complete));
    assert_eq!(execution.phase, Phase::Done);
    assert!(matches!(execution.step(Event::Succeeded), Action::Halt));
    assert_eq!(execution.phase, Phase::Done);
}

#[test]
fn step_halts_on_an_event_out_of_turn() {
    let mut execution = Execution::new(strings(&["one;"]), false);
    assert!(matches!(execution.step(Event::Succeeded), Action::Halt));
    assert_eq!(execution.phase, Phase::Failed);
    let mut execution = Execution::new(strings(&["one;"]), false);
    assert!(matches!(execution.step(Event::Begin), Action::Show(s) if s == "one;"));
    assert!(matches!(execution.step(Event::Begin), Action::Halt));
    assert_eq!(execution.phase, Phase::Failed);
}

#[test]
fn simulate_packaged_shows_the_inline_scripts() {
    let project = packaged(&[(Timing::Pre, "a1"), (Timing::Post, "p1"), (Timing::Pre, "a2")]);
    let rule = "-".repeat(100);
    assert_eq!(
        tiger::execute::simulate_packaged(&project, &args(&["down"])),
        Ok(format!(
            "> Pre-deploy changes: 2\n> Post-deploy changes: 1\n\
             \n> PRE SCRIPTS\n{rule}\ndown a1;\ndown a2;\n{rule}\n\
             \n> POST SCRIPTS\n{rule}\ndown p1;\n{rule}\n\
             > Deployment complete\n\n",
            rule = rule
        ))
    );
    assert_eq!(
        tiger::execute::simulate_packaged(&project, &args(&[])),
        Err(Error::Usage(UsageError::MissingDirection))
    );
    assert_eq!(
        tiger::execute::simulate_packaged(&project, &args(&["left"])),
        Err(Error::Usage(UsageError::InvalidDirection))
    );
}
