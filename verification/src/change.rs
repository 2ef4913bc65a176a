//! Changes: one up/down script pair each, with a timing and an identity hash.

use vstd::prelude::*;

use crate::error::{Error, UsageError};
use crate::identity::{new_identity, identity_of, is_identity};
use crate::project::{
    change_dir, change_path, lemma_remove_keeps_others, project_dir, Project, Resolution, Timing,
};
use crate::text::{pad_right, padded, str_eq};

verus! {

/// The kind of script that a change holds.
#[derive(Clone, Copy, Debug, PartialEq, Eq, Structural)]
pub enum ChangeType {
    Sql,
}

impl ChangeType {
    /// The canonical lowercase name.
    pub open spec fn name(self) -> Seq<char> {
        match self {
            ChangeType::Sql => "sql"@,
        }
    }

    /// The change type that `s` names, if it names one.
    pub open spec fn parse(s: Seq<char>) -> Option<ChangeType> {
        if s == "sql"@ {
            Some(ChangeType::Sql)
        } else {
            None
        }
    }

    /// The canonical lowercase name.
    pub fn as_str(&self) -> (out: &'static str)
        ensures
            out@ == self.name(),
    {
        match self {
            ChangeType::Sql => "sql",
        }
    }

    /// The canonical lowercase name, as an owned string.
    pub fn to_string(&self) -> (out: String)
        ensures
            out@ == self.name(),
    {
        self.as_str().to_owned()
    }

    /// Reads a change type from its name. Any other string is refused.
    pub fn from_str(s: &str) -> (out: Result<ChangeType, Error>)
        ensures
            out == match ChangeType::parse(s@) {
                Some(change_type) => Ok::<ChangeType, Error>(change_type),
                None => Err(Error::Usage(UsageError::InvalidChangeType)),
            },
    {
        if str_eq(s, "sql") {
            Ok(ChangeType::Sql)
        } else {
            Err(Error::Usage(UsageError::InvalidChangeType))
        }
    }
}

impl Default for ChangeType {
    fn default() -> (out: ChangeType)
        ensures
            out == ChangeType::Sql,
    {
        ChangeType::Sql
    }
}

/// A change type's name parses to that change type, and nothing but its name
/// parses to it.
pub proof fn lemma_change_type_round_trip(change_type: ChangeType, s: Seq<char>)
    ensures
        ChangeType::parse(change_type.name()) == Some(change_type),
        ChangeType::parse(s) == Some(change_type) <==> s == change_type.name(),
{
}

/// Which of a change's two scripts is meant.
#[derive(Clone, Copy, Debug, PartialEq, Eq, Structural)]
pub enum Direction {
    Up,
    Down,
}

impl Direction {
    /// The canonical lowercase name.
    pub open spec fn name(self) -> Seq<char> {
        match self {
            Direction::Up => "up"@,
            Direction::Down => "down"@,
        }
    }

    /// The direction that `s` names, if it names one.
    pub open spec fn parse(s: Seq<char>) -> Option<Direction> {
        if s == "up"@ {
            Some(Direction::Up)
        } else if s == "down"@ {
            Some(Direction::Down)
        } else {
            None
        }
    }

    /// The canonical lowercase name.
    pub fn as_str(&self) -> (out: &'static str)
        ensures
            out@ == self.name(),
    {
        match self {
            Direction::Up => "up",
            Direction::Down => "down",
        }
    }

    /// The canonical lowercase name, as an owned string.
    pub fn to_string(&self) -> (out: String)
        ensures
            out@ == self.name(),
    {
        self.as_str().to_owned()
    }

    /// Reads a direction from its name. Any other string is refused.
    pub fn from_str(s: &str) -> (out: Result<Direction, Error>)
        ensures
            out == match Direction::parse(s@) {
                Some(direction) => Ok::<Direction, Error>(direction),
                None => Err(Error::Usage(UsageError::InvalidDirection)),
            },
    {
        if str_eq(s, "up") {
            Ok(Direction::Up)
        } else if str_eq(s, "down") {
            Ok(Direction::Down)
        } else {
            Err(Error::Usage(UsageError::InvalidDirection))
        }
    }
}

/// A direction's name parses to that direction, and nothing but a direction's
/// name parses to it.
pub proof fn lemma_direction_round_trip(direction: Direction, s: Seq<char>)
    ensures
        Direction::parse(direction.name()) == Some(direction),
        Direction::parse(s) == Some(direction) <==> s == direction.name(),
{
    reveal_strlit("up");
    reveal_strlit("down");
    assert("up"@.len() == 2 && "down"@.len() == 4);
}

/// One string for each of a change's two scripts: the bodies, or the files
/// that hold them.
#[derive(Debug, PartialEq, Eq)]
pub struct Scripts {
    pub up: String,
    pub down: String,
}

/// One sequence of characters for each of a change's two scripts.
pub struct ScriptsView {
    pub up: Seq<char>,
    pub down: Seq<char>,
}

impl ScriptsView {
    /// The string for `direction`.
    pub open spec fn content(self, direction: Direction) -> Seq<char> {
        match direction {
            Direction::Up => self.up,
            Direction::Down => self.down,
        }
    }
}

impl View for Scripts {
    type V = ScriptsView;

    open spec fn view(&self) -> ScriptsView {
        ScriptsView { up: self.up@, down: self.down@ }
    }
}

impl DeepView for Scripts {
    type V = ScriptsView;

    open spec fn deep_view(&self) -> ScriptsView {
        self@
    }
}

/// A change as the project document keeps it. Its scripts are on disk, in
/// the directory that its hash names.
#[derive(Debug, PartialEq, Eq)]
pub struct Change {
    pub timing: Timing,
    pub change_type: ChangeType,
    pub hash: String,
}

/// What a change is: its fields, the hash as a sequence of characters.
pub struct ChangeView {
    pub timing: Timing,
    pub change_type: ChangeType,
    pub hash: Seq<char>,
}

impl View for Change {
    type V = ChangeView;

    open spec fn view(&self) -> ChangeView {
        ChangeView { timing: self.timing, change_type: self.change_type, hash: self.hash@ }
    }
}

impl DeepView for Change {
    type V = ChangeView;

    open spec fn deep_view(&self) -> ChangeView {
        self@
    }
}

impl Clone for Change {
    fn clone(&self) -> (out: Change)
        ensures
            out == *self,
    {
        Change { timing: self.timing, change_type: self.change_type, hash: self.hash.clone() }
    }
}

impl Default for Change {
    fn default() -> (out: Change)
        ensures
            out@ == (ChangeView {
                timing: Timing::Pre,
                change_type: ChangeType::Sql,
                hash: Seq::empty(),
            }),
    {
        Change { timing: Timing::Pre, change_type: ChangeType::Sql, hash: String::new() }
    }
}

/// The file of the script for `direction`, for the change `hash` in the
/// project directory `dir`.
pub open spec fn script_file(dir: Seq<char>, hash: Seq<char>, direction: Direction) -> Seq<char> {
    change_dir(dir, hash) + "/"@ + direction.name() + ".sql"@
}

impl ChangeView {
    /// The change's line in a listing: timing, type and hash in columns of
    /// 10, 10 and 32 characters.
    pub open spec fn row(self) -> Seq<char> {
        "| "@ + padded(self.timing.name(), 10) + " | "@ + padded(self.change_type.name(), 10)
            + " | "@ + padded(self.hash, 32) + " |"@
    }

    /// The change's two script files in the project directory `dir`.
    pub open spec fn files(self, dir: Seq<char>) -> ScriptsView {
        ScriptsView {
            up: script_file(dir, self.hash, Direction::Up),
            down: script_file(dir, self.hash, Direction::Down),
        }
    }
}

impl Change {
    /// The change's directory in the project directory `dir`.
    pub fn directory(&self, dir: &str) -> (out: String)
        ensures
            out@ == change_dir(dir@, self@.hash),
    {
        change_path(dir, self.hash.as_str())
    }

    /// The file of the change's script for `direction`, in the project
    /// directory `dir`.
    pub fn script_path(&self, dir: &str, direction: Direction) -> (out: String)
        ensures
            out@ == script_file(dir@, self@.hash, direction),
    {
        let mut out = self.directory(dir);
        out.append("/");
        out.append(direction.as_str());
        out.append(".sql");
        out
    }

    /// The change's two script files in the project directory `dir`.
    pub fn script_paths(&self, dir: &str) -> (out: Scripts)
        ensures
            out@ == self@.files(dir@),
    {
        Scripts {
            up: self.script_path(dir, Direction::Up),
            down: self.script_path(dir, Direction::Down),
        }
    }

    /// The change's line in a listing.
    pub fn to_string(&self) -> (out: String)
        ensures
            out@ == self@.row(),
    {
        let mut out = "| ".to_owned();
        out.append(pad_right(self.timing.as_str(), 10).as_str());
        out.append(" | ");
        out.append(pad_right(self.change_type.as_str(), 10).as_str());
        out.append(" | ");
        out.append(pad_right(self.hash.as_str(), 32).as_str());
        out.append(" |");
        out
    }
}

/// A change that was added to a project, and what is to be created on disk
/// for it: its directory, and in it the two script files, empty.
#[derive(Debug, PartialEq, Eq)]
pub struct Added {
    pub change: Change,
    pub directory: String,
    pub files: Scripts,
}

/// A change that was removed from a project, the index at which it stood,
/// and the directory to delete with it.
#[derive(Debug, PartialEq, Eq)]
pub struct Removed {
    pub change: Change,
    pub index: usize,
    pub directory: String,
}

/// Why `add` refuses its arguments, if it does.
pub open spec fn add_refusal(timing: Seq<char>, args: Seq<Seq<char>>) -> Option<Error> {
    if args.len() != 1 {
        Some(Error::Usage(UsageError::MissingChangeType))
    } else if Timing::parse(timing) is None {
        Some(Error::Usage(UsageError::InvalidTiming))
    } else if ChangeType::parse(args[0]) is None {
        Some(Error::Usage(UsageError::InvalidChangeType))
    } else {
        None
    }
}

/// The change that `add` makes of its arguments and of the hash `hash`.
pub open spec fn added_change(
    timing: Seq<char>,
    args: Seq<Seq<char>>,
    hash: Seq<char>,
) -> ChangeView
    recommends
        add_refusal(timing, args) is None,
{
    ChangeView {
        timing: Timing::parse(timing)->0,
        change_type: ChangeType::parse(args[0])->0,
        hash,
    }
}

/// Adds a change with the identity hash `hash` at the end of `project`,
/// whose directory lies under `base`. The one argument is the change type.
/// Nothing is added when the timing or the arguments are refused.
pub fn add_with_identity(
    project: &mut Project,
    timing: &str,
    args: &[String],
    base: &str,
    hash: String,
) -> (out: Result<Added, Error>)
    ensures
        match out {
            Ok(added) => {
                let dir = project_dir(base@, old(project)@.name);
                &&& add_refusal(timing@, args.deep_view()) is None
                &&& added.change@ == added_change(timing@, args.deep_view(), hash@)
                &&& final(project)@ == old(project)@.with(added.change@)
                &&& final(project)@.hashes_unique() <==> old(project)@.hashes_unique() && !old(
                    project,
                )@.hashes().contains(hash@)
                &&& added.directory@ == change_dir(dir, hash@)
                &&& added.files@ == added.change@.files(dir)
            },
            Err(error) => {
                &&& add_refusal(timing@, args.deep_view()) == Some(error)
                &&& *final(project) == *old(project)
            },
        },
{
    if args.len() != 1 {
        return Err(Error::Usage(UsageError::MissingChangeType));
    }
    let timing = match Timing::from_str(timing) {
        Ok(timing) => timing,
        Err(error) => {
            return Err(error);
        },
    };
    let change_type = match ChangeType::from_str(args[0].as_str()) {
        Ok(change_type) => change_type,
        Err(error) => {
            return Err(error);
        },
    };
    let change = Change { timing, change_type, hash };
    let dir = project.get_path(base);
    let directory = change.directory(dir.as_str());
    let files = change.script_paths(dir.as_str());
    project.add_change(change.clone());
    Ok(Added { change, directory, files })
}

/// Adds a new change at the end of `project`, whose directory lies under
/// `base`, under a fresh identity hash. The one argument is the change type.
/// Nothing is added when the timing or the arguments are refused.
pub fn add(project: &mut Project, timing: &str, args: &[String], base: &str) -> (out: Result<
    Added,
    Error,
>)
    ensures
        match out {
            Ok(added) => {
                let dir = project_dir(base@, old(project)@.name);
                let hash = added.change@.hash;
                &&& add_refusal(timing@, args.deep_view()) is None
                &&& is_identity(hash)
                &&& exists|seed: u32| hash == #[trigger] identity_of(seed)
                &&& added.change@ == added_change(timing@, args.deep_view(), hash)
                &&& final(project)@ == old(project)@.with(added.change@)
                &&& final(project)@.hashes_unique() <==> old(project)@.hashes_unique() && !old(
                    project,
                )@.hashes().contains(hash)
                &&& added.directory@ == change_dir(dir, hash)
                &&& added.files@ == added.change@.files(dir)
            },
            Err(error) => {
                &&& add_refusal(timing@, args.deep_view()) == Some(error)
                &&& *final(project) == *old(project)
            },
        },
{
    let hash = new_identity();
    add_with_identity(project, timing, args, base, hash)
}

/// Removes from `project`, whose directory lies under `base`, the one change
/// whose hash starts with the one argument. Nothing is removed when there is
/// no such change, or more than one.
pub fn rm(project: &mut Project, args: &[String], base: &str) -> (out: Result<Removed, Error>)
    ensures
        match out {
            Ok(removed) => {
                let at = removed.index as int;
                &&& args.len() == 1
                &&& old(project)@.resolves(args[0]@, Resolution::Unique(removed.index))
                &&& removed.change == old(project).changes@[at]
                &&& removed.directory@ == change_dir(
                    project_dir(base@, old(project)@.name),
                    removed.change@.hash,
                )
                &&& final(project).name == old(project).name
                &&& final(project).changes@ == old(project).changes@.remove(at)
                &&& final(project)@ == old(project)@.without(at)
                &&& final(project)@.changes.len() == old(project)@.changes.len() - 1
                &&& old(project)@.hashes_unique() ==> final(project)@.hashes_unique()
            },
            Err(error) => {
                &&& *final(project) == *old(project)
                &&& args.len() != 1 ==> error == Error::Usage(UsageError::MissingHashToRemove)
                &&& args.len() == 1 ==> {
                    ||| error == Error::NotFound && old(project)@.resolves(
                        args[0]@,
                        Resolution::NotFound,
                    )
                    ||| error == Error::AmbiguousMatch && old(project)@.resolves(
                        args[0]@,
                        Resolution::Ambiguous,
                    )
                }
            },
        },
{
    if args.len() != 1 {
        return Err(Error::Usage(UsageError::MissingHashToRemove));
    }
    let found = match project.find_change_by_hash(args[0].as_str()) {
        Ok(found) => found,
        Err(error) => {
            return Err(error);
        },
    };
    let dir = project.get_path(base);
    let directory = found.change.directory(dir.as_str());
    project.changes.remove(found.index);
    proof {
        assert(project@.changes =~= old(project)@.changes.remove(found.index as int));
        lemma_remove_keeps_others(old(project)@, found.index as int, base@);
    }
    Ok(Removed { change: found.change, index: found.index, directory })
}

/// The two script files of the one change in `project` whose hash starts
/// with the one argument: the files to open for editing.
pub fn edit(project: &Project, args: &[String], base: &str) -> (out: Result<Scripts, Error>)
    ensures
        match out {
            Ok(files) => {
                &&& args.len() == 1
                &&& exists|index: usize|
                    {
                        &&& project@.resolves(args[0]@, Resolution::Unique(index))
                        &&& files@ == (#[trigger] project@.changes[index as int]).files(
                            project_dir(base@, project@.name),
                        )
                    }
            },
            Err(error) => {
                &&& args.len() != 1 ==> error == Error::Usage(UsageError::MissingHashToEdit)
                &&& args.len() == 1 ==> {
                    ||| error == Error::NotFound && project@.resolves(
                        args[0]@,
                        Resolution::NotFound,
                    )
                    ||| error == Error::AmbiguousMatch && project@.resolves(
                        args[0]@,
                        Resolution::Ambiguous,
                    )
                }
            },
        },
{
    if args.len() != 1 {
        return Err(Error::Usage(UsageError::MissingHashToEdit));
    }
    let found = match project.find_change_by_hash(args[0].as_str()) {
        Ok(found) => found,
        Err(error) => {
            return Err(error);
        },
    };
    let dir = project.get_path(base);
    let files = found.change.script_paths(dir.as_str());
    assert(found.change@ == project@.changes[found.index as int]);
    Ok(files)
}

} // verus!
