//! The operations that change the file system: rename, delete, move and
//! create-directory.
//!
//! Starting an operation gives the first [`Turn`]. While the turn asks for
//! something, the host carries the request out and hands the reply to
//! [`Mutation::advance`], which gives the next turn:
//!
//! ```text
//! let mut turn = Mutation::delete_file(root, relative_path);
//! loop {
//!     match turn {
//!         Turn::Finished { result } => return result,
//!         Turn::Ask { machine, request } => turn = machine.advance(perform(&request)),
//!     }
//! }
//! ```
//!
//! The turns taken are those of [`crate::plan`].

use crate::error::{failure, ErrorKind, FsError};
use crate::path::Route;
use crate::plan::{
    advance_spec, commit_kind, commit_lead, commit_rename, create_lead, create_spec, delete_spec,
    first_probe, fresh, move_spec, move_target, not_a_file, on_ancestor, on_ancestor_canon,
    on_commit, on_create, on_created, on_destination, on_destination_canon, on_root, on_source,
    on_source_kind, open_with, refuse, rename_spec, rename_target, root_lead, seek, Job,
    MutationView, Stage, TurnView,
};
use crate::protocol::{Reply, Request};
use crate::resolve::{canonical_root, within_root};
use crate::text::trimmed;
use vstd::prelude::*;

verus! {

/// The value of a text that may be missing.
pub open spec fn text_view(text: Option<String>) -> Option<Seq<char>> {
    match text {
        Some(t) => Some(t@),
        None => None,
    }
}

/// An operation under way: what it was asked to do and what it has learnt
/// from the replies so far.
#[derive(Debug)]
pub struct Mutation {
    job: Job,
    stage: Stage,
    name: String,
    create_dir: bool,
    base: Route,
    source: Route,
    dest: Route,
    probe: Route,
    left: Option<String>,
}

impl View for Mutation {
    type V = MutationView;

    closed spec fn view(&self) -> MutationView {
        MutationView {
            job: self.job,
            stage: self.stage,
            name: self.name@,
            create_dir: self.create_dir,
            base: self.base@,
            source: self.source@,
            dest: self.dest@,
            probe: self.probe@,
            left: text_view(self.left),
        }
    }
}

/// What an operation does next: it asks the host for something, or it is
/// over.
#[derive(Debug)]
pub enum Turn {
    /// The host is to carry out `request` and hand the reply to `machine`.
    Ask { machine: Mutation, request: Request },
    /// The operation is over. An error says in `left_behind` whether the
    /// operation had already changed something.
    Finished { result: Result<(), FsError> },
}

impl View for Turn {
    type V = TurnView;

    open spec fn view(&self) -> TurnView {
        match self {
            Turn::Ask { machine, request } => TurnView::Ask {
                machine: machine@,
                request: request@,
            },
            Turn::Finished { result } => TurnView::Finished {
                result: match result {
                    Ok(_) => Ok(()),
                    Err(error) => Err(error@),
                },
            },
        }
    }
}

fn root_lead_text(job: Job) -> (text: &'static str)
    ensures
        text@ == root_lead(job),
{
    match job {
        Job::Move => "Invalid root: ",
        _ => "Failed to canonicalize root: ",
    }
}

fn not_a_file_text(job: Job) -> (text: &'static str)
    ensures
        text@ == not_a_file(job),
{
    match job {
        Job::Rename => "Target is not a file",
        Job::Delete => "Only files can be deleted with this action",
        _ => "Source is not a file",
    }
}

fn create_lead_text(job: Job) -> (text: &'static str)
    ensures
        text@ == create_lead(job),
{
    match job {
        Job::Move => "Failed to create dir: ",
        _ => "Create folder failed: ",
    }
}

fn commit_kind_of(job: Job) -> (kind: ErrorKind)
    ensures
        kind == commit_kind(job),
{
    match job {
        Job::Rename => ErrorKind::RenameFailed,
        Job::Delete => ErrorKind::DeleteFailed,
        _ => ErrorKind::MoveFailed,
    }
}

fn commit_lead_text(job: Job) -> (text: &'static str)
    ensures
        text@ == commit_lead(job),
{
    match job {
        Job::Rename => "Rename failed: ",
        Job::Delete => "Delete failed: ",
        _ => "Move failed: ",
    }
}

/// The error of kind `kind` with the message `text`, raised before anything
/// was changed.
fn plain_error(kind: ErrorKind, text: &str) -> (error: FsError)
    ensures
        error@ == failure(kind, text@, Seq::empty()),
{
    proof {
        reveal_strlit("");
        assert(""@ == Seq::<char>::empty());
    }
    FsError::new(kind, text, "")
}

fn refuse_with(kind: ErrorKind, text: &str) -> (turn: Turn)
    ensures
        turn@ == refuse(kind, text@),
{
    Turn::Finished { result: Err(plain_error(kind, text)) }
}

fn copy_text(text: &Option<String>) -> (copy: Option<String>)
    ensures
        text_view(copy) == text_view(*text),
{
    match text {
        Some(t) => Some(t.clone()),
        None => None,
    }
}

fn first_probe_of(dest: &Route) -> (probe: Route)
    ensures
        probe@ == first_probe(dest@),
{
    match dest.parent() {
        Some(up) => up,
        None => dest.clone(),
    }
}

impl Mutation {
    fn fresh(job: Job) -> (machine: Mutation)
        ensures
            machine@ == fresh(job),
    {
        Mutation {
            job,
            stage: Stage::Root,
            name: String::new(),
            create_dir: false,
            base: Route::empty(),
            source: Route::empty(),
            dest: Route::empty(),
            probe: Route::empty(),
            left: None,
        }
    }

    fn open_with(self, root: &str) -> (turn: Turn)
        ensures
            turn@ == open_with(self@, root@),
    {
        Turn::Ask { machine: self, request: Request::Canonicalize { path: root.to_owned() } }
    }

    /// Starts renaming the file `relative_path` under `root` to `new_name`.
    /// The file stays in its directory.
    pub fn rename_file(root: &str, relative_path: &str, new_name: &str) -> (turn: Turn)
        ensures
            turn@ == rename_spec(root@, relative_path@, new_name@),
    {
        let source = Route::parse(root).join(&Route::parse(relative_path));
        let machine = Mutation { source, name: new_name.to_owned(), ..Mutation::fresh(Job::Rename) };
        machine.open_with(root)
    }

    /// Starts deleting the file `relative_path` under `root`.
    pub fn delete_file(root: &str, relative_path: &str) -> (turn: Turn)
        ensures
            turn@ == delete_spec(root@, relative_path@),
    {
        let source = Route::parse(root).join(&Route::parse(relative_path));
        let machine = Mutation { source, ..Mutation::fresh(Job::Delete) };
        machine.open_with(root)
    }

    /// Starts moving the file `from_relative` under `root` into the
    /// directory `to_relative_dir` under `root`; the file keeps its name.
    /// With `create_dir`, a missing directory is created first.
    pub fn move_file(root: &str, from_relative: &str, to_relative_dir: &str, create_dir: bool) -> (turn:
        Turn)
        ensures
            turn@ == move_spec(root@, from_relative@, to_relative_dir@, create_dir),
    {
        let base = Route::parse(root);
        let source = base.join(&Route::parse(from_relative));
        let dest = base.extend(&Route::parse(trimmed(to_relative_dir).as_str()));
        let machine = Mutation { source, dest, create_dir, ..Mutation::fresh(Job::Move) };
        machine.open_with(root)
    }

    /// Starts creating the directory `relative_dir` under `root`, with every
    /// directory above it that is missing.
    pub fn create_folder(root: &str, relative_dir: &str) -> (turn: Turn)
        ensures
            turn@ == create_spec(root@, relative_dir@),
    {
        let dest = Route::parse(root).join(&Route::parse(relative_dir));
        let machine = Mutation { dest, ..Mutation::fresh(Job::CreateFolder) };
        machine.open_with(root)
    }

    fn seek(self, probe: Route) -> (turn: Turn)
        ensures
            turn@ == seek(self@, probe@),
    {
        let path = probe.render();
        Turn::Ask {
            machine: Mutation { stage: Stage::Ancestor, probe, ..self },
            request: Request::Exists { path },
        }
    }

    fn commit_rename(self, target: Route) -> (turn: Turn)
        ensures
            turn@ == commit_rename(self@, target@),
    {
        let from = self.source.render();
        let to = target.render();
        Turn::Ask {
            machine: Mutation { stage: Stage::Commit, ..self },
            request: Request::Rename { from, to },
        }
    }

    fn on_root(self, reply: Reply) -> (turn: Turn)
        ensures
            turn@ == on_root(self@, reply@),
    {
        let outcome = reply.into_canonical();
        match canonical_root(root_lead_text(self.job), &outcome) {
            Err(error) => Turn::Finished { result: Err(error) },
            Ok(base) => {
                let s = Mutation { base, ..self };
                match s.job {
                    Job::CreateFolder => {
                        let probe = first_probe_of(&s.dest);
                        s.seek(probe)
                    },
                    _ => {
                        let path = s.source.render();
                        Turn::Ask {
                            machine: Mutation { stage: Stage::Source, ..s },
                            request: Request::Canonicalize { path },
                        }
                    },
                }
            },
        }
    }

    fn on_source(self, reply: Reply) -> (turn: Turn)
        ensures
            turn@ == on_source(self@, reply@),
    {
        let outcome = reply.into_canonical();
        match within_root(&self.base, &outcome) {
            Err(error) => Turn::Finished { result: Err(error) },
            Ok(source) => {
                let path = source.render();
                Turn::Ask {
                    machine: Mutation { stage: Stage::SourceKind, source, ..self },
                    request: Request::IsFile { path },
                }
            },
        }
    }

    fn rename_target(self) -> (turn: Turn)
        ensures
            turn@ == rename_target(self@),
    {
        match self.source.parent() {
            None => refuse_with(ErrorKind::NotAFile, "File has no parent directory"),
            Some(dir) => {
                if !dir.starts_with(&self.base) {
                    return refuse_with(ErrorKind::Escape, "Destination escapes root");
                }
                match Route::entry_name(self.name.as_str()) {
                    None => refuse_with(ErrorKind::Escape, "Destination escapes root"),
                    Some(name) => {
                        let target = dir.child(name.as_str());
                        self.commit_rename(target)
                    },
                }
            },
        }
    }

    fn on_source_kind(self, reply: Reply) -> (turn: Turn)
        ensures
            turn@ == on_source_kind(self@, reply@),
    {
        if !reply.flag() {
            return refuse_with(ErrorKind::NotAFile, not_a_file_text(self.job));
        }
        match self.job {
            Job::Delete => {
                let path = self.source.render();
                Turn::Ask {
                    machine: Mutation { stage: Stage::Commit, ..self },
                    request: Request::RemoveFile { path },
                }
            },
            Job::Rename => self.rename_target(),
            _ => {
                let path = self.dest.render();
                Turn::Ask {
                    machine: Mutation { stage: Stage::Destination, ..self },
                    request: Request::Exists { path },
                }
            },
        }
    }

    fn on_destination(self, reply: Reply) -> (turn: Turn)
        ensures
            turn@ == on_destination(self@, reply@),
    {
        if reply.flag() {
            let path = self.dest.render();
            Turn::Ask {
                machine: Mutation { stage: Stage::DestinationCanon, ..self },
                request: Request::Canonicalize { path },
            }
        } else if self.create_dir {
            let probe = first_probe_of(&self.dest);
            self.seek(probe)
        } else {
            refuse_with(ErrorKind::DestinationMissing, "Destination directory does not exist")
        }
    }

    fn move_target(self, dir: Route) -> (turn: Turn)
        ensures
            turn@ == move_target(self@, dir@),
    {
        match self.source.file_name() {
            None => {
                let error = plain_error(ErrorKind::NotAFile, "Source file has no name");
                Turn::Finished { result: Err(error.after(copy_text(&self.left))) }
            },
            Some(name) => {
                let target = dir.child(name.as_str());
                self.commit_rename(target)
            },
        }
    }

    fn on_destination_canon(self, reply: Reply) -> (turn: Turn)
        ensures
            turn@ == on_destination_canon(self@, reply@),
    {
        let outcome = reply.into_canonical();
        match within_root(&self.base, &outcome) {
            Err(error) => Turn::Finished { result: Err(error) },
            Ok(dir) => self.move_target(dir),
        }
    }

    fn on_ancestor(self, reply: Reply) -> (turn: Turn)
        ensures
            turn@ == on_ancestor(self@, reply@),
    {
        if reply.flag() {
            let path = self.probe.render();
            Turn::Ask {
                machine: Mutation { stage: Stage::AncestorCanon, ..self },
                request: Request::Canonicalize { path },
            }
        } else {
            match self.probe.parent() {
                Some(up) => self.seek(up),
                None => refuse_with(
                    ErrorKind::InvalidPath,
                    "No existing directory above the destination",
                ),
            }
        }
    }

    fn on_ancestor_canon(self, reply: Reply) -> (turn: Turn)
        ensures
            turn@ == on_ancestor_canon(self@, reply@),
    {
        let outcome = reply.into_canonical();
        match within_root(&self.base, &outcome) {
            Err(error) => Turn::Finished { result: Err(error) },
            Ok(_) => {
                if self.dest.climbs_from(self.probe.depth()) {
                    refuse_with(ErrorKind::Escape, "Destination escapes root")
                } else {
                    let path = self.dest.render();
                    Turn::Ask {
                        machine: Mutation { stage: Stage::Create, ..self },
                        request: Request::CreateDirAll { path },
                    }
                }
            },
        }
    }

    fn on_create(self, reply: Reply) -> (turn: Turn)
        ensures
            turn@ == on_create(self@, reply@),
    {
        match reply.into_done() {
            Err(reason) => Turn::Finished {
                result: Err(
                    FsError::new(
                        ErrorKind::CreateFailed,
                        create_lead_text(self.job),
                        reason.as_str(),
                    ),
                ),
            },
            Ok(_) => match self.job {
                Job::Move => {
                    let path = self.dest.render();
                    let left = Some(path.clone());
                    Turn::Ask {
                        machine: Mutation { stage: Stage::Created, left, ..self },
                        request: Request::Canonicalize { path },
                    }
                },
                _ => Turn::Finished { result: Ok(()) },
            },
        }
    }

    fn on_created(self, reply: Reply) -> (turn: Turn)
        ensures
            turn@ == on_created(self@, reply@),
    {
        match reply.into_canonical() {
            Err(reason) => {
                let error = FsError::new(
                    ErrorKind::InvalidPath,
                    "Failed to validate created dir: ",
                    reason.as_str(),
                );
                Turn::Finished { result: Err(error.after(copy_text(&self.left))) }
            },
            Ok(text) => {
                let dir = Route::parse(text.as_str());
                if dir.starts_with(&self.base) {
                    self.move_target(dir)
                } else {
                    let error = plain_error(ErrorKind::Escape, "Path escapes selected root");
                    Turn::Finished { result: Err(error.after(copy_text(&self.left))) }
                }
            },
        }
    }

    fn on_commit(self, reply: Reply) -> (turn: Turn)
        ensures
            turn@ == on_commit(self@, reply@),
    {
        match reply.into_done() {
            Err(reason) => {
                let error = FsError::new(
                    commit_kind_of(self.job),
                    commit_lead_text(self.job),
                    reason.as_str(),
                );
                Turn::Finished { result: Err(error.after(copy_text(&self.left))) }
            },
            Ok(_) => Turn::Finished { result: Ok(()) },
        }
    }

    /// Takes the host's reply to the last request and gives the next turn.
    pub fn advance(self, reply: Reply) -> (turn: Turn)
        ensures
            turn@ == advance_spec(self@, reply@),
    {
        match self.stage {
            Stage::Root => self.on_root(reply),
            Stage::Source => self.on_source(reply),
            Stage::SourceKind => self.on_source_kind(reply),
            Stage::Destination => self.on_destination(reply),
            Stage::DestinationCanon => self.on_destination_canon(reply),
            Stage::Ancestor => self.on_ancestor(reply),
            Stage::AncestorCanon => self.on_ancestor_canon(reply),
            Stage::Create => self.on_create(reply),
            Stage::Created => self.on_created(reply),
            Stage::Commit => self.on_commit(reply),
        }
    }
}

} // verus!
