//! Projects: named, ordered collections of changes.

use vstd::prelude::*;

use crate::change::{Change, ChangeView};
use crate::error::{Error, UsageError};
use crate::identity::is_identity;
use crate::text::{dashes, fill, pad_right, padded, starts_with, str_eq};

verus! {

/// The phase in which a change runs: every `Pre` change runs before any
/// `Post` change.
#[derive(Clone, Copy, Debug, PartialEq, Eq, Structural)]
pub enum Timing {
    Pre,
    Post,
}

impl Timing {
    /// The canonical lowercase name.
    pub open spec fn name(self) -> Seq<char> {
        match self {
            Timing::Pre => "pre"@,
            Timing::Post => "post"@,
        }
    }

    /// The timing that `s` names, if it names one.
    pub open spec fn parse(s: Seq<char>) -> Option<Timing> {
        if s == "pre"@ {
            Some(Timing::Pre)
        } else if s == "post"@ {
            Some(Timing::Post)
        } else {
            None
        }
    }

    /// The canonical lowercase name.
    pub fn as_str(&self) -> (out: &'static str)
        ensures
            out@ == self.name(),
    {
        match self {
            Timing::Pre => "pre",
            Timing::Post => "post",
        }
    }

    /// The canonical lowercase name, as an owned string.
    pub fn to_string(&self) -> (out: String)
        ensures
            out@ == self.name(),
    {
        self.as_str().to_owned()
    }

    /// Reads a timing from its name. Any other string is refused.
    pub fn from_str(s: &str) -> (out: Result<Timing, Error>)
        ensures
            out == match Timing::parse(s@) {
                Some(timing) => Ok::<Timing, Error>(timing),
                None => Err(Error::Usage(UsageError::InvalidTiming)),
            },
    {
        if str_eq(s, "pre") {
            Ok(Timing::Pre)
        } else if str_eq(s, "post") {
            Ok(Timing::Post)
        } else {
            Err(Error::Usage(UsageError::InvalidTiming))
        }
    }
}

impl Default for Timing {
    fn default() -> (out: Timing)
        ensures
            out == Timing::Pre,
    {
        Timing::Pre
    }
}

/// A timing's name parses to that timing, and nothing but a timing's name
/// parses to it.
pub proof fn lemma_timing_round_trip(timing: Timing, s: Seq<char>)
    ensures
        Timing::parse(timing.name()) == Some(timing),
        Timing::parse(s) == Some(timing) <==> s == timing.name(),
        Timing::parse(s) is Some <==> s == "pre"@ || s == "post"@,
{
    reveal_strlit("pre");
    reveal_strlit("post");
    assert("pre"@.len() == 3 && "post"@.len() == 4);
}

/// A named collection of changes, in the order in which they were added.
#[derive(Debug, PartialEq, Eq)]
pub struct Project {
    pub name: String,
    pub changes: Vec<Change>,
}

/// What a project is: its name and its changes, in order.
pub struct ProjectView {
    pub name: Seq<char>,
    pub changes: Seq<ChangeView>,
}

impl View for Project {
    type V = ProjectView;

    open spec fn view(&self) -> ProjectView {
        ProjectView { name: self.name@, changes: self.changes.deep_view() }
    }
}

/// A change that a hash prefix singled out, and its place in the list.
#[derive(Debug, PartialEq, Eq)]
pub struct SearchResult {
    pub change: Change,
    pub index: usize,
}

/// What a hash prefix stands for in a project.
#[derive(Clone, Copy, Debug, PartialEq, Eq, Structural)]
pub enum Resolution {
    /// Exactly one change has the prefix: the one at this index.
    Unique(usize),
    /// Two changes or more have the prefix.
    Ambiguous,
    /// No change has the prefix.
    NotFound,
}

/// The directory of the project `name` under `base`.
pub open spec fn project_dir(base: Seq<char>, name: Seq<char>) -> Seq<char> {
    base + "/tiger/"@ + name
}

/// The file that holds the document of the project `name` under `base`.
pub open spec fn document_file(base: Seq<char>, name: Seq<char>) -> Seq<char> {
    project_dir(base, name) + "/project.json"@
}

/// The directory of the change `hash` in the project directory `dir`.
pub open spec fn change_dir(dir: Seq<char>, hash: Seq<char>) -> Seq<char> {
    dir + "/"@ + hash
}

impl ProjectView {
    /// Whether the change at `i` has a hash that starts with `prefix`.
    pub open spec fn is_match(self, i: int, prefix: Seq<char>) -> bool {
        0 <= i < self.changes.len() && prefix.is_prefix_of(self.changes[i].hash)
    }

    /// What `prefix` stands for: the one change whose hash starts with it,
    /// or that there is none, or more than one.
    pub open spec fn resolves(self, prefix: Seq<char>, to: Resolution) -> bool {
        match to {
            Resolution::Unique(index) => {
                &&& self.is_match(index as int, prefix)
                &&& forall|j: int| self.is_match(j, prefix) ==> j == index
            },
            Resolution::Ambiguous => exists|i: int, j: int|
                i != j && self.is_match(i, prefix) && self.is_match(j, prefix),
            Resolution::NotFound => forall|j: int| !self.is_match(j, prefix),
        }
    }

    /// The project with `change` added at the end.
    pub open spec fn with(self, change: ChangeView) -> ProjectView {
        ProjectView { name: self.name, changes: self.changes.push(change) }
    }

    /// The project with each of `changes` added at the end, one after the
    /// other.
    pub open spec fn with_all(self, changes: Seq<ChangeView>) -> ProjectView
        decreases changes.len(),
    {
        if changes.len() == 0 {
            self
        } else {
            self.with_all(changes.drop_last()).with(changes.last())
        }
    }

    /// The project without the change at `index`.
    pub open spec fn without(self, index: int) -> ProjectView {
        ProjectView { name: self.name, changes: self.changes.remove(index) }
    }

    /// The project without any change.
    pub open spec fn emptied(self) -> ProjectView {
        ProjectView { name: self.name, changes: Seq::empty() }
    }

    /// The hashes of the changes, in order.
    pub open spec fn hashes(self) -> Seq<Seq<char>> {
        Seq::new(self.changes.len(), |i: int| self.changes[i].hash)
    }

    /// Whether no two changes share a hash.
    pub open spec fn hashes_unique(self) -> bool {
        self.hashes().no_duplicates()
    }

    /// The project with only its first `n` changes.
    pub open spec fn first(self, n: int) -> ProjectView {
        ProjectView { name: self.name, changes: self.changes.take(n) }
    }

    /// The timings of the changes, in order.
    pub open spec fn timings(self) -> Seq<Timing> {
        Seq::new(self.changes.len(), |i: int| self.changes[i].timing)
    }

    /// The listing of the project: a heading between two rules, then one
    /// line for each change, in order, then a rule.
    pub open spec fn listing(self) -> Seq<char> {
        "> Current changes in project:\n\n"@ + rule() + "\n"@ + heading() + "\n"@ + rule()
            + "\n"@ + rows(self.changes) + rule() + "\n\n"@
    }

    /// The directories of the changes under `base`, in order.
    pub open spec fn change_dirs(self, base: Seq<char>) -> Seq<Seq<char>> {
        Seq::new(
            self.changes.len(),
            |i: int| change_dir(project_dir(base, self.name), self.changes[i].hash),
        )
    }
}

/// The lines of `changes` in a listing, in order, each with its line break.
pub open spec fn rows(changes: Seq<ChangeView>) -> Seq<char>
    decreases changes.len(),
{
    if changes.len() == 0 {
        Seq::empty()
    } else {
        rows(changes.drop_last()) + changes.last().row() + "\n"@
    }
}

/// The rule that frames a listing.
pub open spec fn rule() -> Seq<char> {
    "|-"@ + fill('-', 10) + "-|-"@ + fill('-', 10) + "-|-"@ + fill('-', 32) + "-|"@
}

/// The heading of a listing.
pub open spec fn heading() -> Seq<char> {
    "| "@ + padded("Timing"@, 10) + " | "@ + padded("Type"@, 10) + " | "@ + padded("Hash"@, 32)
        + " |"@
}

/// The rule that frames a listing.
fn rule_line() -> (out: String)
    ensures
        out@ == rule(),
{
    let mut out = "|-".to_owned();
    out.append(dashes(10).as_str());
    out.append("-|-");
    out.append(dashes(10).as_str());
    out.append("-|-");
    out.append(dashes(32).as_str());
    out.append("-|");
    out
}

/// The heading of a listing.
fn heading_line() -> (out: String)
    ensures
        out@ == heading(),
{
    let mut out = "| ".to_owned();
    out.append(pad_right("Timing", 10).as_str());
    out.append(" | ");
    out.append(pad_right("Type", 10).as_str());
    out.append(" | ");
    out.append(pad_right("Hash", 32).as_str());
    out.append(" |");
    out
}

/// The directory of the project `name` under `base`.
pub fn project_path(base: &str, name: &str) -> (out: String)
    ensures
        out@ == project_dir(base@, name@),
{
    let mut out = base.to_owned();
    out.append("/tiger/");
    out.append(name);
    out
}

/// The file that holds the document of the project `name` under `base`.
pub fn document_path(base: &str, name: &str) -> (out: String)
    ensures
        out@ == document_file(base@, name@),
{
    let mut out = project_path(base, name);
    out.append("/project.json");
    out
}

/// The directory of the change `hash` in the project directory `dir`.
pub fn change_path(dir: &str, hash: &str) -> (out: String)
    ensures
        out@ == change_dir(dir@, hash@),
{
    let mut out = dir.to_owned();
    out.append("/");
    out.append(hash);
    out
}

impl Project {
    /// An empty project.
    pub fn new(name: &str) -> (out: Project)
        ensures
            out@.name == name@,
            out@.changes == Seq::<ChangeView>::empty(),
            out@.hashes_unique(),
    {
        let out = Project { name: name.to_owned(), changes: Vec::new() };
        assert(out@.changes =~= Seq::<ChangeView>::empty());
        out
    }

    /// The project that `init` sets up. `present` says whether the project's
    /// directory is already there, in which case nothing is set up.
    pub fn create(name: &str, present: bool) -> (out: Result<Project, Error>)
        ensures
            present ==> out == Err::<Project, Error>(Error::AlreadyExists),
            !present ==> {
                &&& out is Ok
                &&& out->Ok_0@.name == name@
                &&& out->Ok_0@.changes == Seq::<ChangeView>::empty()
                &&& out->Ok_0@.hashes_unique()
            },
    {
        if present {
            Err(Error::AlreadyExists)
        } else {
            Ok(Project::new(name))
        }
    }

    /// Puts `change` at the end of the list.
    pub fn add_change(&mut self, change: Change)
        ensures
            final(self)@ == old(self)@.with(change@),
            final(self).name == old(self).name,
            final(self).changes@ == old(self).changes@.push(change),
            final(self)@.hashes_unique() <==> old(self)@.hashes_unique() && !old(
                self,
            )@.hashes().contains(change@.hash),
    {
        self.changes.push(change);
        proof {
            let before = old(self)@;
            let after = self@;
            assert(after.changes =~= before.changes.push(change@));
            assert(after.hashes() =~= before.hashes().push(change@.hash));
            lemma_push_no_duplicates(before.hashes(), change@.hash);
        }
    }

    /// The project's directory under `base`.
    pub fn get_path(&self, base: &str) -> (out: String)
        ensures
            out@ == project_dir(base@, self@.name),
    {
        project_path(base, self.name.as_str())
    }

    /// Empties the project, whose directory lies under `base`, and gives the
    /// directories of the changes it held, in their order: the directories
    /// to delete.
    pub fn clear(&mut self, base: &str) -> (out: Vec<String>)
        ensures
            final(self)@ == old(self)@.emptied(),
            final(self).name == old(self).name,
            final(self)@.hashes_unique(),
            out.deep_view() == old(self)@.change_dirs(base@),
    {
        let dir = self.get_path(base);
        let mut out: Vec<String> = Vec::new();
        let mut i: usize = 0;
        while i < self.changes.len()
            invariant
                *self == *old(self),
                i <= self.changes.len(),
                dir@ == project_dir(base@, self@.name),
                out.len() == i,
                forall|k: int|
                    0 <= k < i ==> (#[trigger] out@[k])@ == self@.change_dirs(base@)[k],
            decreases self.changes.len() - i,
        {
            out.push(self.changes[i].directory(dir.as_str()));
            i += 1;
        }
        assert(out.deep_view() =~= self@.change_dirs(base@));
        self.changes.clear();
        assert(self@.changes =~= Seq::<ChangeView>::empty());
        out
    }

    /// The listing of the project: its changes in their order, in columns
    /// for timing, type and hash.
    pub fn ls(&self) -> (out: String)
        ensures
            out@ == self@.listing(),
    {
        let rule = rule_line();
        let mut out = "> Current changes in project:\n\n".to_owned();
        out.append(rule.as_str());
        out.append("\n");
        out.append(heading_line().as_str());
        out.append("\n");
        out.append(rule.as_str());
        out.append("\n");
        let ghost head = out@;
        let mut i: usize = 0;
        while i < self.changes.len()
            invariant
                i <= self.changes.len(),
                out@ == head + rows(self@.changes.take(i as int)),
            decreases self.changes.len() - i,
        {
            out.append(self.changes[i].to_string().as_str());
            out.append("\n");
            proof {
                let next = self@.changes.take(i + 1);
                assert(next.drop_last() =~= self@.changes.take(i as int));
                assert(next.last() == self@.changes[i as int]);
                assert(out@ =~= head + rows(next));
            }
            i += 1;
        }
        assert(self@.changes.take(i as int) =~= self@.changes);
        out.append(rule.as_str());
        out.append("\n\n");
        out
    }

    /// What the hash prefix `prefix` stands for in this project.
    pub fn resolve(&self, prefix: &str) -> (out: Resolution)
        ensures
            self@.resolves(prefix@, out),
    {
        let mut found: Option<usize> = None;
        let mut i: usize = 0;
        while i < self.changes.len()
            invariant
                i <= self.changes.len(),
                match found {
                    None => forall|j: int| 0 <= j < i ==> !self@.is_match(j, prefix@),
                    Some(k) => {
                        &&& k < i
                        &&& self@.is_match(k as int, prefix@)
                        &&& forall|j: int| 0 <= j < i && self@.is_match(j, prefix@) ==> j == k
                    },
                },
            decreases self.changes.len() - i,
        {
            if starts_with(self.changes[i].hash.as_str(), prefix) {
                assert(self@.is_match(i as int, prefix@));
                match found {
                    Some(_) => {
                        return Resolution::Ambiguous;
                    },
                    None => {
                        found = Some(i);
                    },
                }
            } else {
                assert(!self@.is_match(i as int, prefix@));
            }
            i += 1;
        }
        match found {
            Some(k) => Resolution::Unique(k),
            None => Resolution::NotFound,
        }
    }

    /// The one change whose hash starts with `hash`, with its index. It is an
    /// error if no change has such a hash, and another if several have.
    pub fn find_change_by_hash(&self, hash: &str) -> (out: Result<SearchResult, Error>)
        ensures
            match out {
                Ok(found) => {
                    &&& self@.resolves(hash@, Resolution::Unique(found.index))
                    &&& found.change == self.changes@[found.index as int]
                },
                Err(error) => {
                    &&& error == Error::NotFound || error == Error::AmbiguousMatch
                    &&& error == Error::NotFound ==> self@.resolves(hash@, Resolution::NotFound)
                    &&& error == Error::AmbiguousMatch ==> self@.resolves(
                        hash@,
                        Resolution::Ambiguous,
                    )
                },
            },
    {
        match self.resolve(hash) {
            Resolution::Unique(index) => Ok(
                SearchResult { change: self.changes[index].clone(), index },
            ),
            Resolution::Ambiguous => Err(Error::AmbiguousMatch),
            Resolution::NotFound => Err(Error::NotFound),
        }
    }
}

/// A sequence without duplicates stays so when something is added at its end
/// exactly if that was not in it.
pub proof fn lemma_push_no_duplicates<A>(s: Seq<A>, x: A)
    ensures
        s.push(x).no_duplicates() <==> s.no_duplicates() && !s.contains(x),
{
    let t = s.push(x);
    if s.no_duplicates() && !s.contains(x) {
        assert forall|i: int, j: int| 0 <= i < t.len() && 0 <= j < t.len() && i != j implies t[i]
            != t[j] by {
            if i < s.len() && j < s.len() {
                assert(t[i] == s[i] && t[j] == s[j]);
            } else if i < s.len() {
                assert(s.contains(s[i]));
            } else {
                assert(s.contains(s[j]));
            }
        }
    }
    if t.no_duplicates() {
        assert forall|i: int, j: int| 0 <= i < s.len() && 0 <= j < s.len() && i != j implies s[i]
            != s[j] by {
            assert(t[i] == s[i] && t[j] == s[j]);
        }
        if s.contains(x) {
            let i = choose|i: int| 0 <= i < s.len() && s[i] == x;
            assert(t[i] == t[s.len() as int]);
        }
    }
}

/// Where every hash is an identity hash and no two changes share one, a
/// change's whole hash stands for that change and no other.
pub proof fn lemma_whole_hash_resolves(project: ProjectView, index: usize)
    requires
        index < project.changes.len(),
        project.hashes_unique(),
        forall|i: int| 0 <= i < project.changes.len() ==> is_identity(project.changes[i].hash),
    ensures
        project.resolves(project.changes[index as int].hash, Resolution::Unique(index)),
{
    let hash = project.changes[index as int].hash;
    assert(hash =~= hash.subrange(0, hash.len() as int));
    assert forall|j: int| project.is_match(j, hash) implies j == index by {
        let other = project.changes[j].hash;
        assert(other =~= other.subrange(0, hash.len() as int));
        assert(project.hashes()[j] == project.hashes()[index as int]);
    }
}

/// Changes stand in the order in which they were added: adding a sequence
/// of changes one by one leaves what was there in place and puts the new
/// ones behind it, in their order. The listing grows by their lines, in that
/// order.
pub proof fn lemma_adds_keep_order(project: ProjectView, changes: Seq<ChangeView>)
    ensures
        project.with_all(changes).name == project.name,
        project.with_all(changes).changes == project.changes + changes,
        rows(project.with_all(changes).changes) == rows(project.changes) + rows(changes),
    decreases changes.len(),
{
    if changes.len() == 0 {
        assert(project.changes + changes =~= project.changes);
        assert(rows(project.changes) + rows(changes) =~= rows(project.changes));
    } else {
        let fewer = changes.drop_last();
        let after = project.with_all(changes);
        lemma_adds_keep_order(project, fewer);
        assert(after.changes =~= project.changes + changes);
        assert(after.changes.drop_last() =~= project.changes + fewer);
        assert(rows(after.changes) =~= rows(project.changes) + rows(changes));
    }
}

/// Removing a change takes exactly that one out: the list is one shorter,
/// the changes before it stay where they were, those behind it move up by
/// one, and the directories of the changes that stay are those that were
/// there but for the one of the change removed.
pub proof fn lemma_remove_keeps_others(project: ProjectView, index: int, base: Seq<char>)
    requires
        0 <= index < project.changes.len(),
    ensures
        project.without(index).name == project.name,
        project.without(index).changes.len() == project.changes.len() - 1,
        forall|j: int|
            0 <= j < index ==> #[trigger] project.without(index).changes[j] == project.changes[j],
        forall|j: int|
            index <= j < project.changes.len() - 1 ==> #[trigger] project.without(
                index,
            ).changes[j] == project.changes[j + 1],
        project.without(index).change_dirs(base) == project.change_dirs(base).remove(index),
        project.hashes_unique() ==> project.without(index).hashes_unique(),
{
    let after = project.without(index);
    assert(after.change_dirs(base) =~= project.change_dirs(base).remove(index));
    if project.hashes_unique() {
        let kept = after.hashes();
        assert forall|i: int, j: int|
            0 <= i < kept.len() && 0 <= j < kept.len() && i != j implies kept[i] != kept[j] by {
            let a = if i < index {
                i
            } else {
                i + 1
            };
            let b = if j < index {
                j
            } else {
                j + 1
            };
            assert(kept[i] == project.hashes()[a]);
            assert(kept[j] == project.hashes()[b]);
        }
    }
}

} // verus!
