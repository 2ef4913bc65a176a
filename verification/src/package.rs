//! Packaging: a project with its script bodies inline, ready to be published
//! under a name of its own.

use vstd::prelude::*;

use crate::change::{ChangeType, ChangeView, Direction, Scripts, ScriptsView};
use crate::error::{Error, UsageError};
use crate::execute::{lemma_positions_keep_order, positions};
use crate::project::{project_dir, Project, ProjectView, Timing};
use crate::text::{substitute_percent, substituted};

verus! {

/// A change with both of its scripts inline.
#[derive(Debug, PartialEq, Eq)]
pub struct PackagedChange {
    pub timing: Timing,
    pub change_type: ChangeType,
    pub hash: String,
    pub up_content: String,
    pub down_content: String,
}

/// What a packaged change is.
pub struct PackagedChangeView {
    pub timing: Timing,
    pub change_type: ChangeType,
    pub hash: Seq<char>,
    pub up_content: Seq<char>,
    pub down_content: Seq<char>,
}

impl View for PackagedChange {
    type V = PackagedChangeView;

    open spec fn view(&self) -> PackagedChangeView {
        PackagedChangeView {
            timing: self.timing,
            change_type: self.change_type,
            hash: self.hash@,
            up_content: self.up_content@,
            down_content: self.down_content@,
        }
    }
}

impl DeepView for PackagedChange {
    type V = PackagedChangeView;

    open spec fn deep_view(&self) -> PackagedChangeView {
        self@
    }
}

impl Clone for PackagedChange {
    fn clone(&self) -> (out: PackagedChange)
        ensures
            out == *self,
    {
        PackagedChange {
            timing: self.timing,
            change_type: self.change_type,
            hash: self.hash.clone(),
            up_content: self.up_content.clone(),
            down_content: self.down_content.clone(),
        }
    }
}

impl PackagedChangeView {
    /// The script for `direction`.
    pub open spec fn content(self, direction: Direction) -> Seq<char> {
        match direction {
            Direction::Up => self.up_content,
            Direction::Down => self.down_content,
        }
    }

    /// The change as the project document keeps it, without its scripts.
    pub open spec fn live(self) -> ChangeView {
        ChangeView { timing: self.timing, change_type: self.change_type, hash: self.hash }
    }
}

impl PackagedChange {
    /// The script for `direction`.
    pub fn content(&self, direction: Direction) -> (out: &String)
        ensures
            out@ == self@.content(direction),
    {
        match direction {
            Direction::Up => &self.up_content,
            Direction::Down => &self.down_content,
        }
    }
}

/// A project whose changes all carry their scripts: the form in which a
/// project is published and run.
#[derive(Debug, PartialEq, Eq)]
pub struct PackagedProject {
    pub name: String,
    pub changes: Vec<PackagedChange>,
}

/// What a packaged project is.
pub struct PackagedProjectView {
    pub name: Seq<char>,
    pub changes: Seq<PackagedChangeView>,
}

impl View for PackagedProject {
    type V = PackagedProjectView;

    open spec fn view(&self) -> PackagedProjectView {
        PackagedProjectView { name: self.name@, changes: self.changes.deep_view() }
    }
}

impl PackagedProjectView {
    /// The project with only its first `n` changes.
    pub open spec fn first(self, n: int) -> PackagedProjectView {
        PackagedProjectView { name: self.name, changes: self.changes.take(n) }
    }

    /// The timings of the changes, in order.
    pub open spec fn timings(self) -> Seq<Timing> {
        Seq::new(self.changes.len(), |i: int| self.changes[i].timing)
    }
}

/// The change `change` with the script bodies `scripts` inline.
pub open spec fn packaged_change(change: ChangeView, scripts: ScriptsView) -> PackagedChangeView {
    PackagedChangeView {
        timing: change.timing,
        change_type: change.change_type,
        hash: change.hash,
        up_content: scripts.up,
        down_content: scripts.down,
    }
}

/// The project `project` with the script bodies `scripts` inline, one pair
/// for each change, in the order of the changes.
pub open spec fn packaged(project: ProjectView, scripts: Seq<ScriptsView>) -> PackagedProjectView
    recommends
        scripts.len() == project.changes.len(),
{
    PackagedProjectView {
        name: project.name,
        changes: Seq::new(
            project.changes.len(),
            |i: int| packaged_change(project.changes[i], scripts[i]),
        ),
    }
}

/// The name of the artifact that `pattern` asks for: every `%` in it stands
/// for the project's name.
pub open spec fn artifact_name(pattern: Seq<char>, project: Seq<char>) -> Seq<char> {
    substituted(pattern, '%', project)
}

/// The key under which the artifact `name` is stored.
pub open spec fn object_key(name: Seq<char>) -> Seq<char> {
    name + ".bin"@
}

/// The files of the scripts in the project directory `dir`, one pair for
/// each change, in the order of the changes.
pub open spec fn script_files(project: ProjectView, dir: Seq<char>) -> Seq<ScriptsView> {
    Seq::new(project.changes.len(), |i: int| project.changes[i].files(dir))
}

/// What packaging a project asks of its surroundings: the files to read,
/// and the key under which the result is to be stored.
#[derive(Debug, PartialEq, Eq)]
pub struct PackagePlan {
    /// The key of the artifact in the store.
    pub key: String,
    /// The script files of each change, in the order of the changes.
    pub files: Vec<Scripts>,
}

/// The key under which the artifact `name` is stored.
pub fn key(name: &str) -> (out: String)
    ensures
        out@ == object_key(name@),
{
    let mut out = name.to_owned();
    out.append(".bin");
    out
}

/// Prepares the packaging of `project`, whose directory lies under `base`.
/// The one argument is the artifact's name, in which `%` stands for the
/// project's name.
pub fn run(project: &Project, args: &[String], base: &str) -> (out: Result<PackagePlan, Error>)
    ensures
        match out {
            Ok(plan) => {
                &&& args.len() == 1
                &&& plan.key@ == object_key(artifact_name(args[0]@, project@.name))
                &&& plan.files.deep_view() == script_files(
                    project@,
                    project_dir(base@, project@.name),
                )
            },
            Err(error) => args.len() != 1 && error == Error::Usage(UsageError::MissingPackageName),
        },
{
    if args.len() != 1 {
        return Err(Error::Usage(UsageError::MissingPackageName));
    }
    let name = substitute_percent(args[0].as_str(), project.name.as_str());
    let key = key(name.as_str());
    let dir = project.get_path(base);
    let mut files: Vec<Scripts> = Vec::new();
    let mut i: usize = 0;
    while i < project.changes.len()
        invariant
            i <= project.changes.len(),
            dir@ == project_dir(base@, project@.name),
            files.len() == i,
            forall|k: int|
                0 <= k < i ==> (#[trigger] files@[k])@ == script_files(project@, dir@)[k],
        decreases project.changes.len() - i,
    {
        files.push(project.changes[i].script_paths(dir.as_str()));
        i += 1;
    }
    assert(files.deep_view() =~= script_files(project@, dir@));
    Ok(PackagePlan { key, files })
}

/// The packaged form of `project`, given the bodies of its scripts: one
/// pair for each change, in the order of the changes. There is none when the
/// pairs are not as many as the changes.
pub fn package(project: &Project, scripts: &Vec<Scripts>) -> (out: Option<PackagedProject>)
    ensures
        out is Some <==> scripts.len() == project.changes.len(),
        out is Some ==> out->0@ == packaged(project@, scripts.deep_view()),
{
    if scripts.len() != project.changes.len() {
        return None;
    }
    let mut changes: Vec<PackagedChange> = Vec::new();
    let mut i: usize = 0;
    while i < project.changes.len()
        invariant
            scripts.len() == project.changes.len(),
            i <= project.changes.len(),
            changes.len() == i,
            forall|k: int|
                0 <= k < i ==> (#[trigger] changes@[k])@ == packaged_change(
                    project@.changes[k],
                    scripts.deep_view()[k],
                ),
        decreases project.changes.len() - i,
    {
        let change = &project.changes[i];
        let bodies = &scripts[i];
        changes.push(
            PackagedChange {
                timing: change.timing,
                change_type: change.change_type,
                hash: change.hash.clone(),
                up_content: bodies.up.clone(),
                down_content: bodies.down.clone(),
            },
        );
        i += 1;
    }
    let out = PackagedProject { name: project.name.clone(), changes };
    assert(out@.changes =~= packaged(project@, scripts.deep_view()).changes);
    Some(out)
}

/// Whether the artifact may be uploaded. `present` says whether the store
/// already holds an object under the artifact's key: a published artifact is
/// never written over.
pub fn publish(present: bool) -> (out: Result<(), Error>)
    ensures
        present ==> out == Err::<(), Error>(Error::AlreadyExists),
        !present ==> out == Ok::<(), Error>(()),
{
    if present {
        Err(Error::AlreadyExists)
    } else {
        Ok(())
    }
}

/// Packaging keeps the project's name, the number and the order of its
/// changes, each change's timing, type and hash, and takes each script body
/// as it was given.
pub proof fn lemma_packaged_keeps_changes(project: ProjectView, scripts: Seq<ScriptsView>)
    requires
        scripts.len() == project.changes.len(),
    ensures
        packaged(project, scripts).name == project.name,
        packaged(project, scripts).changes.len() == project.changes.len(),
        forall|i: int|
            0 <= i < project.changes.len() ==> {
                let change = #[trigger] packaged(project, scripts).changes[i];
                &&& change.live() == project.changes[i]
                &&& change.up_content == scripts[i].up
                &&& change.down_content == scripts[i].down
            },
{
}

/// A packaged project runs its scripts in the order of the project it was
/// made of: the scripts that a run executes for a timing are the bodies that
/// were given for the changes with that timing, in the order of the changes.
pub proof fn lemma_packaged_runs_in_order(
    project: ProjectView,
    scripts: Seq<ScriptsView>,
    timing: Timing,
    direction: Direction,
)
    requires
        scripts.len() == project.changes.len(),
    ensures
        packaged(project, scripts).timings() == project.timings(),
        packaged(project, scripts).statements(timing, direction) == Seq::new(
            positions(project.timings(), timing).len(),
            |k: int| scripts[positions(project.timings(), timing)[k]].content(direction),
        ),
{
    let artifact = packaged(project, scripts);
    let at = positions(project.timings(), timing);
    assert(artifact.timings() =~= project.timings());
    lemma_positions_keep_order(project.timings(), timing);
    assert(artifact.statements(timing, direction) =~= Seq::new(
        at.len(),
        |k: int| scripts[at[k]].content(direction),
    ));
}

} // verus!
