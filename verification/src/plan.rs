//! What the operations that change the file system do, as mathematics.
//!
//! An operation is a dialogue with the host: it asks for one thing at a
//! time and decides on the reply what to ask next. This module says, for
//! every state and every reply, which turn follows. The executable dialogue
//! in [`crate::mutation`] is proved to take exactly these turns, and
//! [`crate::confinement`] proves what holds of all of them.
//!
//! How the operations go:
//!
//! - Each first resolves the root, as it was given.
//! - Rename, delete and move then resolve the file to act on, which must lie
//!   within the canonical root and be a regular file.
//! - Rename keeps the file in its directory. The new name must name one
//!   entry: a name that holds a separator, or is `.` or `..`, is refused,
//!   since it would put the file somewhere else.
//! - Move keeps the file's name. A directory to move into that exists is
//!   resolved and must lie within the root.
//! - A directory that is to be created (by create-directory, or by a move
//!   that may create its destination) is vouched for by the nearest
//!   directory above it that exists: that one is resolved and must lie
//!   within the root, and no part below it may be `..`. After a move has
//!   created its directory, the directory is resolved and checked once more.
//! - An operation is not undone when a later step fails. An error that
//!   comes after a directory was created names the directory in
//!   `left_behind`.
//! - Whether a rename replaces an existing file, and whether it can leave
//!   its file system, is up to the platform; a refusal is reported as it
//!   comes.

use crate::error::{failure, ErrorKind, FsErrorView};
use crate::path::{names_entry, render, route_of, segments, RouteView};
use crate::protocol::{ReplyView, RequestView};
use crate::resolve::{root_spec, within_spec};
use crate::text::trim;
use vstd::prelude::*;

verus! {

/// Which operation a dialogue carries out.
#[derive(Clone, Copy, Debug, PartialEq, Eq, Structural)]
pub enum Job {
    Rename,
    Delete,
    Move,
    CreateFolder,
}

/// Which reply a dialogue is waiting for.
#[derive(Clone, Copy, Debug, PartialEq, Eq, Structural)]
pub enum Stage {
    /// The canonical form of the root.
    Root,
    /// The canonical form of the file to act on.
    Source,
    /// Whether that file is a regular file.
    SourceKind,
    /// Whether the directory to move into exists.
    Destination,
    /// The canonical form of the directory to move into.
    DestinationCanon,
    /// Whether the directory `probe`, above the one to create, exists.
    Ancestor,
    /// The canonical form of `probe`, the nearest existing directory above
    /// the one to create.
    AncestorCanon,
    /// That the directory was created.
    Create,
    /// The canonical form of the directory just created.
    Created,
    /// That the file was renamed, moved or removed.
    Commit,
}

/// The mathematical value of a [`Mutation`].
pub struct MutationView {
    pub job: Job,
    pub stage: Stage,
    /// Rename: the new name, as it was given.
    pub name: Seq<char>,
    /// Move: whether a missing destination directory is to be created.
    pub create_dir: bool,
    /// The canonical root, once it is known.
    pub base: RouteView,
    /// The file to act on: as addressed at first, in canonical form once
    /// that is known.
    pub source: RouteView,
    /// Move: the directory to move into. Create-directory: the directory to
    /// create.
    pub dest: RouteView,
    /// The directory above `dest` whose existence is in question.
    pub probe: RouteView,
    /// The directory that this dialogue has created, if it has created one.
    pub left: Option<Seq<char>>,
}

/// The mathematical value of a [`Turn`].
pub enum TurnView {
    Ask { machine: MutationView, request: RequestView },
    Finished { result: Result<(), FsErrorView> },
}

/// The relative route without parts.
pub open spec fn blank() -> RouteView {
    RouteView { absolute: false, parts: Seq::empty() }
}

/// How the message starts where the root cannot be resolved.
pub open spec fn root_lead(job: Job) -> Seq<char> {
    match job {
        Job::Move => "Invalid root: "@,
        _ => "Failed to canonicalize root: "@,
    }
}

/// The message where the file to act on is no regular file.
pub open spec fn not_a_file(job: Job) -> Seq<char> {
    match job {
        Job::Rename => "Target is not a file"@,
        Job::Delete => "Only files can be deleted with this action"@,
        _ => "Source is not a file"@,
    }
}

/// How the message starts where a directory cannot be created.
pub open spec fn create_lead(job: Job) -> Seq<char> {
    match job {
        Job::Move => "Failed to create dir: "@,
        _ => "Create folder failed: "@,
    }
}

/// The kind of error where the last step of an operation fails.
pub open spec fn commit_kind(job: Job) -> ErrorKind {
    match job {
        Job::Rename => ErrorKind::RenameFailed,
        Job::Delete => ErrorKind::DeleteFailed,
        _ => ErrorKind::MoveFailed,
    }
}

/// How the message starts where the last step of an operation fails.
pub open spec fn commit_lead(job: Job) -> Seq<char> {
    match job {
        Job::Rename => "Rename failed: "@,
        Job::Delete => "Delete failed: "@,
        _ => "Move failed: "@,
    }
}

/// The dialogue ends with `error`.
pub open spec fn fail(error: FsErrorView) -> TurnView {
    TurnView::Finished { result: Err(error) }
}

/// The dialogue ends with an error of kind `kind` and the message `text`.
pub open spec fn refuse(kind: ErrorKind, text: Seq<char>) -> TurnView {
    fail(failure(kind, text, Seq::empty()))
}

/// The state in which every dialogue starts, but for what it was asked.
pub open spec fn fresh(job: Job) -> MutationView {
    MutationView {
        job,
        stage: Stage::Root,
        name: Seq::empty(),
        create_dir: false,
        base: blank(),
        source: blank(),
        dest: blank(),
        probe: blank(),
        left: None,
    }
}

/// The first turn of every dialogue: resolve the root, as it was given.
pub open spec fn open_with(machine: MutationView, root: Seq<char>) -> TurnView {
    TurnView::Ask { machine, request: RequestView::Canonicalize { path: root } }
}

/// The first turn of renaming the file `relative_path` under `root` to
/// `new_name`.
pub open spec fn rename_spec(root: Seq<char>, relative_path: Seq<char>, new_name: Seq<char>) -> TurnView {
    open_with(
        MutationView {
            source: route_of(root).join(route_of(relative_path)),
            name: new_name,
            ..fresh(Job::Rename)
        },
        root,
    )
}

/// The first turn of deleting the file `relative_path` under `root`.
pub open spec fn delete_spec(root: Seq<char>, relative_path: Seq<char>) -> TurnView {
    open_with(
        MutationView {
            source: route_of(root).join(route_of(relative_path)),
            ..fresh(Job::Delete)
        },
        root,
    )
}

/// The directory that `to_relative_dir` names under `root`: white space at
/// its ends does not count, and it is read as relative to `root` whether or
/// not it starts with a separator. The empty text, `/` and `.` name `root`.
pub open spec fn destination(root: Seq<char>, to_relative_dir: Seq<char>) -> RouteView {
    route_of(root).extend(route_of(trim(to_relative_dir)))
}

/// The first turn of moving the file `from_relative` under `root` into the
/// directory `to_relative_dir` under `root`.
pub open spec fn move_spec(
    root: Seq<char>,
    from_relative: Seq<char>,
    to_relative_dir: Seq<char>,
    create_dir: bool,
) -> TurnView {
    open_with(
        MutationView {
            source: route_of(root).join(route_of(from_relative)),
            dest: destination(root, to_relative_dir),
            create_dir,
            ..fresh(Job::Move)
        },
        root,
    )
}

/// The first turn of creating the directory `relative_dir` under `root`.
pub open spec fn create_spec(root: Seq<char>, relative_dir: Seq<char>) -> TurnView {
    open_with(
        MutationView {
            dest: route_of(root).join(route_of(relative_dir)),
            ..fresh(Job::CreateFolder)
        },
        root,
    )
}

/// Where the search for an existing directory above `dest` starts: at the
/// parent of `dest`, or at `dest` itself where it has no parent.
pub open spec fn first_probe(dest: RouteView) -> RouteView {
    match dest.parent() {
        Some(up) => up,
        None => dest,
    }
}

/// Ask whether `probe` exists.
pub open spec fn seek(s: MutationView, probe: RouteView) -> TurnView {
    TurnView::Ask {
        machine: MutationView { stage: Stage::Ancestor, probe, ..s },
        request: RequestView::Exists { path: render(probe) },
    }
}

/// Ask for the file to be renamed to `target`.
pub open spec fn commit_rename(s: MutationView, target: RouteView) -> TurnView {
    TurnView::Ask {
        machine: MutationView { stage: Stage::Commit, ..s },
        request: RequestView::Rename { from: render(s.source), to: render(target) },
    }
}

/// The reply to resolving the root.
pub open spec fn on_root(s: MutationView, reply: ReplyView) -> TurnView {
    match root_spec(root_lead(s.job), reply.canonical()) {
        Err(error) => fail(error),
        Ok(base) => {
            let s = MutationView { base, ..s };
            match s.job {
                Job::CreateFolder => seek(s, first_probe(s.dest)),
                _ => TurnView::Ask {
                    machine: MutationView { stage: Stage::Source, ..s },
                    request: RequestView::Canonicalize { path: render(s.source) },
                },
            }
        },
    }
}

/// The reply to resolving the file to act on.
pub open spec fn on_source(s: MutationView, reply: ReplyView) -> TurnView {
    match within_spec(s.base, reply.canonical()) {
        Err(error) => fail(error),
        Ok(source) => TurnView::Ask {
            machine: MutationView { stage: Stage::SourceKind, source, ..s },
            request: RequestView::IsFile { path: render(source) },
        },
    }
}

/// Rename: the file stays in its directory, which must lie within the root,
/// and gets the new name, which must name one entry.
pub open spec fn rename_target(s: MutationView) -> TurnView {
    match s.source.parent() {
        None => refuse(ErrorKind::NotAFile, "File has no parent directory"@),
        Some(dir) => if dir.within(s.base) && names_entry(s.name) {
            commit_rename(s, dir.child(segments(s.name)[0]))
        } else {
            refuse(ErrorKind::Escape, "Destination escapes root"@)
        },
    }
}

/// The reply to whether the file to act on is a regular file.
pub open spec fn on_source_kind(s: MutationView, reply: ReplyView) -> TurnView {
    if !reply.flag() {
        refuse(ErrorKind::NotAFile, not_a_file(s.job))
    } else {
        match s.job {
            Job::Delete => TurnView::Ask {
                machine: MutationView { stage: Stage::Commit, ..s },
                request: RequestView::RemoveFile { path: render(s.source) },
            },
            Job::Rename => rename_target(s),
            _ => TurnView::Ask {
                machine: MutationView { stage: Stage::Destination, ..s },
                request: RequestView::Exists { path: render(s.dest) },
            },
        }
    }
}

/// The reply to whether the directory to move into exists.
pub open spec fn on_destination(s: MutationView, reply: ReplyView) -> TurnView {
    if reply.flag() {
        TurnView::Ask {
            machine: MutationView { stage: Stage::DestinationCanon, ..s },
            request: RequestView::Canonicalize { path: render(s.dest) },
        }
    } else if s.create_dir {
        seek(s, first_probe(s.dest))
    } else {
        refuse(ErrorKind::DestinationMissing, "Destination directory does not exist"@)
    }
}

/// Move: the file keeps its name and goes into the canonical directory
/// `dir`.
pub open spec fn move_target(s: MutationView, dir: RouteView) -> TurnView {
    match s.source.file_name() {
        None => fail(
            failure(ErrorKind::NotAFile, "Source file has no name"@, Seq::empty()).after(s.left),
        ),
        Some(name) => commit_rename(s, dir.child(name)),
    }
}

/// The reply to resolving the existing directory to move into.
pub open spec fn on_destination_canon(s: MutationView, reply: ReplyView) -> TurnView {
    match within_spec(s.base, reply.canonical()) {
        Err(error) => fail(error),
        Ok(dir) => move_target(s, dir),
    }
}

/// The reply to whether `probe` exists: if not, look one directory higher.
pub open spec fn on_ancestor(s: MutationView, reply: ReplyView) -> TurnView {
    if reply.flag() {
        TurnView::Ask {
            machine: MutationView { stage: Stage::AncestorCanon, ..s },
            request: RequestView::Canonicalize { path: render(s.probe) },
        }
    } else {
        match s.probe.parent() {
            Some(up) => seek(s, up),
            None => refuse(ErrorKind::InvalidPath, "No existing directory above the destination"@),
        }
    }
}

/// The reply to resolving `probe`, the nearest existing directory above the
/// one to create: it must lie within the root, and no part below it may be
/// `..`.
pub open spec fn on_ancestor_canon(s: MutationView, reply: ReplyView) -> TurnView {
    match within_spec(s.base, reply.canonical()) {
        Err(error) => fail(error),
        Ok(_) => if s.dest.climbs_from(s.probe.parts.len() as int) {
            refuse(ErrorKind::Escape, "Destination escapes root"@)
        } else {
            TurnView::Ask {
                machine: MutationView { stage: Stage::Create, ..s },
                request: RequestView::CreateDirAll { path: render(s.dest) },
            }
        },
    }
}

/// The reply to creating the directory.
pub open spec fn on_create(s: MutationView, reply: ReplyView) -> TurnView {
    match reply.done() {
        Err(reason) => fail(failure(ErrorKind::CreateFailed, create_lead(s.job), reason)),
        Ok(_) => match s.job {
            Job::Move => TurnView::Ask {
                machine: MutationView { stage: Stage::Created, left: Some(render(s.dest)), ..s },
                request: RequestView::Canonicalize { path: render(s.dest) },
            },
            _ => TurnView::Finished { result: Ok(()) },
        },
    }
}

/// The reply to resolving the directory just created, which is checked
/// against the root once more.
pub open spec fn on_created(s: MutationView, reply: ReplyView) -> TurnView {
    match reply.canonical() {
        Err(reason) => fail(
            failure(ErrorKind::InvalidPath, "Failed to validate created dir: "@, reason).after(
                s.left,
            ),
        ),
        Ok(text) => if route_of(text).within(s.base) {
            move_target(s, route_of(text))
        } else {
            fail(
                failure(ErrorKind::Escape, "Path escapes selected root"@, Seq::empty()).after(
                    s.left,
                ),
            )
        },
    }
}

/// The reply to the last step.
pub open spec fn on_commit(s: MutationView, reply: ReplyView) -> TurnView {
    match reply.done() {
        Err(reason) => fail(failure(commit_kind(s.job), commit_lead(s.job), reason).after(s.left)),
        Ok(_) => TurnView::Finished { result: Ok(()) },
    }
}

/// The turn that follows when a dialogue in state `s` gets `reply`.
pub open spec fn advance_spec(s: MutationView, reply: ReplyView) -> TurnView {
    match s.stage {
        Stage::Root => on_root(s, reply),
        Stage::Source => on_source(s, reply),
        Stage::SourceKind => on_source_kind(s, reply),
        Stage::Destination => on_destination(s, reply),
        Stage::DestinationCanon => on_destination_canon(s, reply),
        Stage::Ancestor => on_ancestor(s, reply),
        Stage::AncestorCanon => on_ancestor_canon(s, reply),
        Stage::Create => on_create(s, reply),
        Stage::Created => on_created(s, reply),
        Stage::Commit => on_commit(s, reply),
    }
}

} // verus!
