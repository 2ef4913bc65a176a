//! The execution engine: which scripts run, in what order, and what is done
//! with each.

use vstd::prelude::*;

use crate::change::{script_file, Direction};
use crate::error::{Error, UsageError};
use crate::package::{PackagedProject, PackagedProjectView};
use crate::project::{project_dir, Project, ProjectView, Timing};
use crate::text::{dashes, decimal, decimal_string, fill, strings_from};

verus! {

/// The indices at which `timings` holds `timing`, in rising order.
pub open spec fn positions(timings: Seq<Timing>, timing: Timing) -> Seq<int>
    decreases timings.len(),
{
    if timings.len() == 0 {
        Seq::empty()
    } else {
        let before = positions(timings.drop_last(), timing);
        if timings.last() == timing {
            before.push(timings.len() - 1)
        } else {
            before
        }
    }
}

/// Selecting one timing keeps the order of the list: the positions are
/// indices of the list, each holds the timing asked for, they rise strictly,
/// and no index that holds the timing is left out.
pub proof fn lemma_positions_keep_order(timings: Seq<Timing>, timing: Timing)
    ensures
        forall|k: int|
            0 <= k < positions(timings, timing).len() ==> {
                let at = #[trigger] positions(timings, timing)[k];
                0 <= at < timings.len() && timings[at] == timing
            },
        forall|k: int, l: int|
            0 <= k < l < positions(timings, timing).len() ==> positions(timings, timing)[k]
                < positions(timings, timing)[l],
        forall|i: int|
            0 <= i < timings.len() && timings[i] == timing ==> positions(timings, timing).contains(
                i,
            ),
    decreases timings.len(),
{
    if timings.len() > 0 {
        let shorter = timings.drop_last();
        let before = positions(shorter, timing);
        let all = positions(timings, timing);
        lemma_positions_keep_order(shorter, timing);
        assert forall|i: int| 0 <= i < timings.len() && timings[i] == timing implies all.contains(
            i,
        ) by {
            if i < shorter.len() {
                assert(shorter[i] == timing);
                let k = choose|k: int| 0 <= k < before.len() && before[k] == i;
                assert(all[k] == i);
            } else {
                assert(all[all.len() - 1] == i);
            }
        }
    }
}

/// The positions of the two timings are together as many as the list is
/// long.
pub proof fn lemma_positions_cover(timings: Seq<Timing>)
    ensures
        positions(timings, Timing::Pre).len() + positions(timings, Timing::Post).len()
            == timings.len(),
    decreases timings.len(),
{
    if timings.len() > 0 {
        lemma_positions_cover(timings.drop_last());
    }
}

/// One more element adds its index to the positions if it holds the timing,
/// and nothing otherwise.
pub proof fn lemma_positions_step(timings: Seq<Timing>, timing: Timing, i: int)
    requires
        0 <= i < timings.len(),
    ensures
        positions(timings.take(i + 1), timing) == if timings[i] == timing {
            positions(timings.take(i), timing).push(i)
        } else {
            positions(timings.take(i), timing)
        },
        forall|k: int|
            0 <= k < positions(timings.take(i), timing).len() ==> 0 <= #[trigger] positions(
                timings.take(i),
                timing,
            )[k] < i,
{
    assert(timings.take(i + 1).drop_last() =~= timings.take(i));
    lemma_positions_keep_order(timings.take(i), timing);
}

impl ProjectView {
    /// The script files for `direction` of the changes with `timing`, in the
    /// order of the changes; `dir` is the project's directory.
    pub open spec fn phase_files(
        self,
        dir: Seq<char>,
        timing: Timing,
        direction: Direction,
    ) -> Seq<Seq<char>> {
        let at = positions(self.timings(), timing);
        Seq::new(at.len(), |k: int| script_file(dir, self.changes[at[k]].hash, direction))
    }
}

impl PackagedProjectView {
    /// The scripts for `direction` of the changes with `timing`, in the
    /// order of the changes.
    pub open spec fn statements(self, timing: Timing, direction: Direction) -> Seq<Seq<char>> {
        let at = positions(self.timings(), timing);
        Seq::new(at.len(), |k: int| self.changes[at[k]].content(direction))
    }
}

/// What a simulation reads: the script files of the `Pre` changes and those
/// of the `Post` changes, each in the order of the changes.
#[derive(Debug, PartialEq, Eq)]
pub struct Simulation {
    pub direction: Direction,
    pub pre: Vec<String>,
    pub post: Vec<String>,
}

/// Why `simulate` refuses its arguments, if it does.
pub open spec fn simulate_refusal(args: Seq<Seq<char>>) -> Option<Error> {
    if args.len() != 1 {
        Some(Error::Usage(UsageError::MissingDirection))
    } else if Direction::parse(args[0]) is None {
        Some(Error::Usage(UsageError::InvalidDirection))
    } else {
        None
    }
}

/// Plans the simulation of `project`, whose directory lies under `base`. The
/// one argument is the direction. Nothing is read or run here: the plan names
/// the script files to show, `Pre` changes first.
pub fn simulate(project: &Project, args: &[String], base: &str) -> (out: Result<Simulation, Error>)
    ensures
        match out {
            Ok(plan) => {
                let dir = project_dir(base@, project@.name);
                &&& simulate_refusal(args.deep_view()) is None
                &&& Direction::parse(args[0]@) == Some(plan.direction)
                &&& plan.pre.deep_view() == project@.phase_files(dir, Timing::Pre, plan.direction)
                &&& plan.post.deep_view() == project@.phase_files(
                    dir,
                    Timing::Post,
                    plan.direction,
                )
            },
            Err(error) => simulate_refusal(args.deep_view()) == Some(error),
        },
{
    if args.len() != 1 {
        return Err(Error::Usage(UsageError::MissingDirection));
    }
    let direction = match Direction::from_str(args[0].as_str()) {
        Ok(direction) => direction,
        Err(error) => {
            return Err(error);
        },
    };
    let dir = project.get_path(base);
    let mut pre: Vec<String> = Vec::new();
    let mut post: Vec<String> = Vec::new();
    let mut i: usize = 0;
    while i < project.changes.len()
        invariant
            i <= project.changes.len(),
            dir@ == project_dir(base@, project@.name),
            pre.deep_view() == project@.first(i as int).phase_files(dir@, Timing::Pre, direction),
            post.deep_view() == project@.first(i as int).phase_files(
                dir@,
                Timing::Post,
                direction,
            ),
        decreases project.changes.len() - i,
    {
        let change = &project.changes[i];
        let file = change.script_path(dir.as_str(), direction);
        proof {
            let now = project@.first(i as int);
            let next = project@.first(i + 1);
            assert(now.timings() =~= project@.timings().take(i as int));
            assert(next.timings() =~= project@.timings().take(i + 1));
            lemma_positions_step(project@.timings(), Timing::Pre, i as int);
            lemma_positions_step(project@.timings(), Timing::Post, i as int);
            assert(next.phase_files(dir@, Timing::Pre, direction) =~= if change.timing
                == Timing::Pre {
                now.phase_files(dir@, Timing::Pre, direction).push(file@)
            } else {
                now.phase_files(dir@, Timing::Pre, direction)
            });
            assert(next.phase_files(dir@, Timing::Post, direction) =~= if change.timing
                == Timing::Post {
                now.phase_files(dir@, Timing::Post, direction).push(file@)
            } else {
                now.phase_files(dir@, Timing::Post, direction)
            });
        }
        match change.timing {
            Timing::Pre => {
                let ghost before = pre.deep_view();
                pre.push(file);
                assert(pre.deep_view() =~= before.push(file@));
            },
            Timing::Post => {
                let ghost before = post.deep_view();
                post.push(file);
                assert(post.deep_view() =~= before.push(file@));
            },
        }
        i += 1;
    }
    assert(project@.first(i as int).changes =~= project@.changes);
    Ok(Simulation { direction, pre, post })
}

/// Each body followed by a line break, one after the other.
pub open spec fn lines(bodies: Seq<Seq<char>>) -> Seq<char>
    decreases bodies.len(),
{
    if bodies.len() == 0 {
        Seq::empty()
    } else {
        lines(bodies.drop_last()) + bodies.last() + "\n"@
    }
}

/// The part of a simulation's report for one phase: nothing when the phase
/// has no script, else the phase's title, a rule, the scripts and a rule.
pub open spec fn section(title: Seq<char>, bodies: Seq<Seq<char>>) -> Seq<char> {
    if bodies.len() == 0 {
        Seq::empty()
    } else {
        "\n> "@ + title + " SCRIPTS\n"@ + fill('-', 100) + "\n"@ + lines(bodies) + fill('-', 100)
            + "\n"@
    }
}

/// A simulation's report: how many scripts each phase has, then the scripts
/// of the `Pre` phase, then those of the `Post` phase.
pub open spec fn simulation_report(pre: Seq<Seq<char>>, post: Seq<Seq<char>>) -> Seq<char> {
    "> Pre-deploy changes: "@ + decimal(pre.len()) + "\n> Post-deploy changes: "@ + decimal(
        post.len(),
    ) + "\n"@ + section("PRE"@, pre) + section("POST"@, post) + "> Deployment complete\n\n"@
}

/// Appends the section of one phase to `out`.
fn append_section(out: &mut String, title: &str, bodies: &Vec<String>)
    ensures
        final(out)@ == old(out)@ + section(title@, bodies.deep_view()),
{
    if bodies.len() == 0 {
        assert(out@ =~= old(out)@ + section(title@, bodies.deep_view()));
        return ;
    }
    let rule = dashes(100);
    out.append("\n> ");
    out.append(title);
    out.append(" SCRIPTS\n");
    out.append(rule.as_str());
    out.append("\n");
    let ghost head = out@;
    let mut i: usize = 0;
    while i < bodies.len()
        invariant
            i <= bodies.len(),
            out@ == head + lines(bodies.deep_view().take(i as int)),
        decreases bodies.len() - i,
    {
        out.append(bodies[i].as_str());
        out.append("\n");
        proof {
            let all = bodies.deep_view();
            assert(all.take(i + 1).drop_last() =~= all.take(i as int));
            assert(all.take(i + 1).last() == bodies[i as int]@);
            assert(out@ =~= head + lines(all.take(i + 1)));
        }
        i += 1;
    }
    assert(bodies.deep_view().take(i as int) =~= bodies.deep_view());
    out.append(rule.as_str());
    out.append("\n");
    assert(out@ =~= old(out)@ + section(title@, bodies.deep_view()));
}

/// The report of a simulation, given the bodies of the scripts that the plan
/// named, in the plan's order.
pub fn report(pre: &Vec<String>, post: &Vec<String>) -> (out: String)
    ensures
        out@ == simulation_report(pre.deep_view(), post.deep_view()),
{
    let mut out = "> Pre-deploy changes: ".to_owned();
    out.append(decimal_string(pre.len() as u64).as_str());
    out.append("\n> Post-deploy changes: ");
    out.append(decimal_string(post.len() as u64).as_str());
    out.append("\n");
    append_section(&mut out, "PRE", pre);
    append_section(&mut out, "POST", post);
    out.append("> Deployment complete\n\n");
    out
}

/// The report of a simulation of a packaged project. The one argument is
/// the direction. The scripts are those that the changes carry: nothing is
/// read.
pub fn simulate_packaged(project: &PackagedProject, args: &[String]) -> (out: Result<
    String,
    Error,
>)
    ensures
        match out {
            Ok(text) => {
                &&& simulate_refusal(args.deep_view()) is None
                &&& text@ == simulation_report(
                    project@.statements(Timing::Pre, Direction::parse(args[0]@)->0),
                    project@.statements(Timing::Post, Direction::parse(args[0]@)->0),
                )
            },
            Err(error) => simulate_refusal(args.deep_view()) == Some(error),
        },
{
    if args.len() != 1 {
        return Err(Error::Usage(UsageError::MissingDirection));
    }
    let direction = match Direction::from_str(args[0].as_str()) {
        Ok(direction) => direction,
        Err(error) => {
            return Err(error);
        },
    };
    let pre = statements(project, Timing::Pre, direction);
    let post = statements(project, Timing::Post, direction);
    Ok(report(&pre, &post))
}

/// What a run was asked to do.
#[derive(Debug, PartialEq, Eq)]
pub struct RunRequest {
    pub direction: Direction,
    pub timing: Timing,
    /// The names of the artifacts to run, in the order given.
    pub projects: Vec<String>,
    /// Whether the scripts are sent to the database, or only shown.
    pub commit: bool,
}

/// Why `run` refuses its arguments, if it does.
pub open spec fn run_refusal(direction: Seq<char>, args: Seq<Seq<char>>) -> Option<Error> {
    if Direction::parse(direction) is None {
        Some(Error::Usage(UsageError::InvalidDirection))
    } else if args.len() < 2 {
        Some(Error::Usage(UsageError::MissingRunArguments))
    } else if Timing::parse(args[0]) is None {
        Some(Error::Usage(UsageError::InvalidTiming))
    } else {
        None
    }
}

/// Reads the arguments of a run: the timing, then the names of one artifact
/// or more.
pub fn run(direction: &str, args: &[String], commit: bool) -> (out: Result<RunRequest, Error>)
    ensures
        match out {
            Ok(request) => {
                &&& run_refusal(direction@, args.deep_view()) is None
                &&& Direction::parse(direction@) == Some(request.direction)
                &&& Timing::parse(args[0]@) == Some(request.timing)
                &&& request.projects.deep_view() == args.deep_view().skip(1)
                &&& request.commit == commit
            },
            Err(error) => run_refusal(direction@, args.deep_view()) == Some(error),
        },
{
    let direction = match Direction::from_str(direction) {
        Ok(direction) => direction,
        Err(error) => {
            return Err(error);
        },
    };
    if args.len() < 2 {
        return Err(Error::Usage(UsageError::MissingRunArguments));
    }
    let timing = match Timing::from_str(args[0].as_str()) {
        Ok(timing) => timing,
        Err(error) => {
            return Err(error);
        },
    };
    let projects = strings_from(args, 1);
    Ok(RunRequest { direction, timing, projects, commit })
}

/// The scripts that a run of `project` executes: those for `direction` of
/// the changes with `timing`, in the order of the changes.
pub fn statements(project: &PackagedProject, timing: Timing, direction: Direction) -> (out: Vec<
    String,
>)
    ensures
        out.deep_view() == project@.statements(timing, direction),
{
    let mut out: Vec<String> = Vec::new();
    let mut i: usize = 0;
    while i < project.changes.len()
        invariant
            i <= project.changes.len(),
            out.deep_view() == project@.first(i as int).statements(timing, direction),
        decreases project.changes.len() - i,
    {
        let change = &project.changes[i];
        proof {
            let now = project@.first(i as int);
            let next = project@.first(i + 1);
            assert(now.timings() =~= project@.timings().take(i as int));
            assert(next.timings() =~= project@.timings().take(i + 1));
            lemma_positions_step(project@.timings(), timing, i as int);
            assert(next.statements(timing, direction) =~= if change.timing == timing {
                now.statements(timing, direction).push(change@.content(direction))
            } else {
                now.statements(timing, direction)
            });
        }
        if change.timing == timing {
            let ghost before = out.deep_view();
            out.push(change.content(direction).clone());
            assert(out.deep_view() =~= before.push(change@.content(direction)));
        }
        i += 1;
    }
    assert(project@.first(i as int).changes =~= project@.changes);
    out
}

/// Where the run of one project stands.
#[derive(Clone, Copy, Debug, PartialEq, Eq, Structural)]
pub enum Phase {
    /// The scripts are selected; nothing was done yet.
    Loaded,
    /// The script at the cursor was handed out and its outcome is awaited.
    Running,
    /// Every script went through, or there was none.
    Done,
    /// A script failed, or an event came out of turn. Nothing more is done.
    Failed,
}

/// What happened to the last action.
#[derive(Clone, Copy, Debug, PartialEq, Eq, Structural)]
pub enum Event {
    /// The run starts.
    Begin,
    /// The script that was handed out went through.
    Succeeded,
    /// The script that was handed out failed.
    Failed,
}

/// What to do next.
#[derive(Debug, PartialEq, Eq)]
pub enum Action {
    /// Report that there is nothing to run, and leave the project.
    NoChanges,
    /// Show the script, and do not send it to the database.
    Show(String),
    /// Show the script and send it to the database, as one batch.
    Execute(String),
    /// Report that the run is complete.
    Complete,
    /// Stop: nothing more is run.
    Halt,
}

/// What to do next, the script as a sequence of characters.
pub enum ActionView {
    NoChanges,
    Show(Seq<char>),
    Execute(Seq<char>),
    Complete,
    Halt,
}

impl View for Action {
    type V = ActionView;

    open spec fn view(&self) -> ActionView {
        match self {
            Action::NoChanges => ActionView::NoChanges,
            Action::Show(script) => ActionView::Show(script@),
            Action::Execute(script) => ActionView::Execute(script@),
            Action::Complete => ActionView::Complete,
            Action::Halt => ActionView::Halt,
        }
    }
}

/// The run of one project: its scripts, in order, and how far it has come.
#[derive(Debug, PartialEq, Eq)]
pub struct Execution {
    pub statements: Vec<String>,
    pub commit: bool,
    pub cursor: usize,
    pub phase: Phase,
}

/// What the run of one project is.
pub struct ExecutionView {
    pub statements: Seq<Seq<char>>,
    pub commit: bool,
    pub cursor: int,
    pub phase: Phase,
}

impl View for Execution {
    type V = ExecutionView;

    open spec fn view(&self) -> ExecutionView {
        ExecutionView {
            statements: self.statements.deep_view(),
            commit: self.commit,
            cursor: self.cursor as int,
            phase: self.phase,
        }
    }
}

impl ExecutionView {
    /// Whether the cursor fits the phase: at the start before the run, on a
    /// script during it.
    pub open spec fn wf(self) -> bool {
        &&& self.phase == Phase::Loaded ==> self.cursor == 0
        &&& self.phase == Phase::Running ==> 0 <= self.cursor < self.statements.len()
    }

    /// The run as it is before anything was done.
    pub open spec fn start(statements: Seq<Seq<char>>, commit: bool) -> ExecutionView {
        ExecutionView { statements, commit, cursor: 0, phase: Phase::Loaded }
    }

    /// What is done with the script at `i`: it is executed in commit mode,
    /// and only shown otherwise.
    pub open spec fn emit(self, i: int) -> ActionView {
        if self.commit {
            ActionView::Execute(self.statements[i])
        } else {
            ActionView::Show(self.statements[i])
        }
    }

    /// The run in another phase, at another script.
    pub open spec fn at(self, phase: Phase, cursor: int) -> ExecutionView {
        ExecutionView { phase, cursor, ..self }
    }

    /// One step: the run after `event`, and what to do next.
    ///
    /// The first script is handed out at the start, the next one each time
    /// the last went through; a failure ends the run. An event that does not
    /// fit the phase halts: a run that is done stays done, any other has
    /// failed.
    pub open spec fn step(self, event: Event) -> (ExecutionView, ActionView) {
        if self.phase == Phase::Loaded && event == Event::Begin {
            if self.statements.len() == 0 {
                (self.at(Phase::Done, self.cursor), ActionView::NoChanges)
            } else {
                (self.at(Phase::Running, 0), self.emit(0))
            }
        } else if self.phase == Phase::Running && event == Event::Succeeded && 0 <= self.cursor
            < self.statements.len() {
            if self.cursor + 1 < self.statements.len() {
                (self.at(Phase::Running, self.cursor + 1), self.emit(self.cursor + 1))
            } else {
                (self.at(Phase::Done, self.cursor), ActionView::Complete)
            }
        } else if self.phase == Phase::Done {
            (self, ActionView::Halt)
        } else {
            (self.at(Phase::Failed, self.cursor), ActionView::Halt)
        }
    }

    /// The events of a run in which the first `n` scripts all go through.
    pub open spec fn smooth(n: nat) -> Seq<Event> {
        Seq::new(
            n + 1,
            |i: int|
                if i == 0 {
                    Event::Begin
                } else {
                    Event::Succeeded
                },
        )
    }

    /// The run after each of `events` in turn, and the actions that the
    /// steps gave.
    pub open spec fn replay(self, events: Seq<Event>) -> (ExecutionView, Seq<ActionView>)
        decreases events.len(),
    {
        if events.len() == 0 {
            (self, Seq::empty())
        } else {
            let (before, actions) = self.replay(events.drop_last());
            let (after, action) = before.step(events.last());
            (after, actions.push(action))
        }
    }
}

impl Execution {
    /// The run of `statements`, before anything was done.
    pub fn new(statements: Vec<String>, commit: bool) -> (out: Execution)
        ensures
            out@ == ExecutionView::start(statements.deep_view(), commit),
            out@.wf(),
    {
        Execution { statements, commit, cursor: 0, phase: Phase::Loaded }
    }

    /// What is done with the script at `i`.
    fn emit(&self, i: usize) -> (out: Action)
        requires
            i < self.statements.len(),
        ensures
            out@ == self@.emit(i as int),
    {
        let script = self.statements[i].clone();
        if self.commit {
            Action::Execute(script)
        } else {
            Action::Show(script)
        }
    }

    /// Takes one step: notes `event` and says what to do next.
    pub fn step(&mut self, event: Event) -> (out: Action)
        ensures
            (final(self)@, out@) == old(self)@.step(event),
            old(self)@.wf() ==> final(self)@.wf(),
            !old(self).commit ==> !(out is Execute),
    {
        match (self.phase, event) {
            (Phase::Loaded, Event::Begin) => {
                if self.statements.len() == 0 {
                    self.phase = Phase::Done;
                    Action::NoChanges
                } else {
                    self.phase = Phase::Running;
                    self.cursor = 0;
                    self.emit(0)
                }
            },
            (Phase::Running, Event::Succeeded) => {
                if self.cursor < self.statements.len() {
                    if self.cursor + 1 < self.statements.len() {
                        self.cursor = self.cursor + 1;
                        self.emit(self.cursor)
                    } else {
                        self.phase = Phase::Done;
                        Action::Complete
                    }
                } else {
                    self.phase = Phase::Failed;
                    Action::Halt
                }
            },
            (Phase::Done, _) => Action::Halt,
            _ => {
                self.phase = Phase::Failed;
                Action::Halt
            },
        }
    }
}

/// A step keeps the run well-formed and never changes its scripts or its
/// mode.
pub proof fn lemma_step_keeps_run(run: ExecutionView, event: Event)
    ensures
        run.wf() ==> run.step(event).0.wf(),
        run.step(event).0.statements == run.statements,
        run.step(event).0.commit == run.commit,
{
}

/// Without commit mode no step ever asks for a script to be executed, and in
/// commit mode none asks for a script to be only shown.
pub proof fn lemma_commit_decides(run: ExecutionView, event: Event)
    ensures
        !run.commit ==> !(run.step(event).1 is Execute),
        run.commit ==> !(run.step(event).1 is Show),
{
}

/// Once a run is done or has failed, every further step halts and leaves it
/// as it is.
pub proof fn lemma_ended_run_halts(run: ExecutionView, event: Event)
    requires
        run.phase == Phase::Done || run.phase == Phase::Failed,
    ensures
        run.step(event) == (run, ActionView::Halt),
{
}

/// A failure of the script in flight ends the run: the step halts, and the
/// run has failed.
pub proof fn lemma_failure_halts(run: ExecutionView)
    requires
        run.phase == Phase::Running,
    ensures
        run.step(Event::Failed) == (run.at(Phase::Failed, run.cursor), ActionView::Halt),
{
}

/// While every script goes through, a run hands out its scripts one by one
/// in their order: after the start and `n` successes, with `n` below the
/// number of scripts, the actions so far were the first `n + 1` scripts, and
/// the script at `n` is in flight.
pub proof fn lemma_smooth_run_in_order(statements: Seq<Seq<char>>, commit: bool, n: nat)
    requires
        n < statements.len(),
    ensures
        ({
            let start = ExecutionView::start(statements, commit);
            let (after, actions) = start.replay(ExecutionView::smooth(n));
            &&& after == start.at(Phase::Running, n as int)
            &&& actions == Seq::new(n + 1, |i: int| start.emit(i))
        }),
    decreases n,
{
    let start = ExecutionView::start(statements, commit);
    let events = ExecutionView::smooth(n);
    if n == 0 {
        assert(events.drop_last() =~= Seq::<Event>::empty());
        assert(start.replay(events.drop_last()) == (start, Seq::<ActionView>::empty()));
        assert(start.replay(events).1 =~= Seq::new(1, |i: int| start.emit(i)));
    } else {
        let fewer = (n - 1) as nat;
        lemma_smooth_run_in_order(statements, commit, fewer);
        assert(events.drop_last() =~= ExecutionView::smooth(fewer));
        assert(events.last() == Event::Succeeded);
        assert(start.replay(events).1 =~= Seq::new(n + 1, |i: int| start.emit(i)));
    }
}

/// When the last script has gone through too, the run is complete: every
/// script was handed out once, in order, and the last action says so.
pub proof fn lemma_smooth_run_completes(statements: Seq<Seq<char>>, commit: bool)
    requires
        statements.len() > 0,
    ensures
        ({
            let start = ExecutionView::start(statements, commit);
            let (after, actions) = start.replay(ExecutionView::smooth(statements.len()));
            &&& after.phase == Phase::Done
            &&& actions == Seq::new(statements.len(), |i: int| start.emit(i)).push(
                ActionView::Complete,
            )
        }),
{
    let start = ExecutionView::start(statements, commit);
    let n = statements.len();
    let events = ExecutionView::smooth(n);
    lemma_smooth_run_in_order(statements, commit, (n - 1) as nat);
    assert(events.drop_last() =~= ExecutionView::smooth((n - 1) as nat));
    assert(events.last() == Event::Succeeded);
    assert(start.replay(events).1 =~= Seq::new(n, |i: int| start.emit(i)).push(
        ActionView::Complete,
    ));
}

/// A run without scripts reports that there is nothing to run, and is done.
pub proof fn lemma_empty_run(commit: bool)
    ensures
        ({
            let start = ExecutionView::start(Seq::empty(), commit);
            start.step(Event::Begin) == (start.at(Phase::Done, 0), ActionView::NoChanges)
        }),
{
}

} // verus!
