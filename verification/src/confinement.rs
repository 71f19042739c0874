//! What holds of every dialogue of an operation that changes the file
//! system, whatever the host replies.

use crate::error::{failure, ErrorKind};
use crate::plan::{
    advance_spec, create_spec, delete_spec, destination, move_spec, not_a_file, refuse,
    rename_spec, Job, MutationView, Stage, TurnView,
};
use crate::path::{
    is_dotdot, is_plain, lemma_child_within, lemma_render_then_read, lemma_valid_routes,
    lemma_within_chain, lemma_within_parent, lemma_within_self, render, route_of, segments,
    RouteView,
};
use crate::protocol::{ReplyView, RequestView};
use crate::text::trim;
use vstd::prelude::*;

verus! {

/// The stages that an operation of kind `job` goes through.
pub open spec fn on_course(job: Job, stage: Stage) -> bool {
    match job {
        Job::Rename | Job::Delete => stage == Stage::Root || stage == Stage::Source || stage
            == Stage::SourceKind || stage == Stage::Commit,
        Job::Move => true,
        Job::CreateFolder => stage == Stage::Root || stage == Stage::Ancestor || stage
            == Stage::AncestorCanon || stage == Stage::Create,
    }
}

/// Whether the file to act on has been resolved and checked against the
/// root.
pub open spec fn source_checked(s: MutationView) -> bool {
    s.job != Job::CreateFolder && s.stage != Stage::Root && s.stage != Stage::Source
}

/// What holds of the state of a dialogue at every turn.
pub open spec fn inv(s: MutationView) -> bool {
    &&& on_course(s.job, s.stage)
    &&& s.base.valid() && s.source.valid() && s.dest.valid() && s.probe.valid()
    &&& source_checked(s) ==> s.source.within(s.base)
    &&& (s.stage == Stage::Ancestor || s.stage == Stage::AncestorCanon) ==> s.dest.within(s.probe)
    &&& s.left is Some ==> s.job == Job::Move && (s.stage == Stage::Created || s.stage
        == Stage::Commit)
}

/// Whether a dialogue in state `s` is waiting for a change to be made.
pub open spec fn awaits_change(s: MutationView) -> bool {
    s.stage == Stage::Create || s.stage == Stage::Commit
}

/// Whether `turn` is one that a dialogue can be in: its state is as it
/// should be, and it asks for a change exactly when the state waits for one.
pub open spec fn well_formed(turn: TurnView) -> bool {
    turn matches TurnView::Ask { machine, request } ==> inv(machine) && request.changes()
        == awaits_change(machine)
}

/// A dialogue that has ended with an error that names nothing left behind.
pub open spec fn clean_failure(turn: TurnView) -> bool {
    turn matches TurnView::Finished { result: Err(error) } && error.left_behind is None
}

/// Every operation starts with a turn that a dialogue can be in.
pub proof fn lemma_start(root: Seq<char>, path: Seq<char>, other: Seq<char>, create_dir: bool)
    ensures
        well_formed(rename_spec(root, path, other)),
        well_formed(delete_spec(root, path)),
        well_formed(move_spec(root, path, other, create_dir)),
        well_formed(create_spec(root, path)),
{
    let blank = RouteView { absolute: false, parts: Seq::empty() };
    assert(blank.valid());
    lemma_valid_routes(route_of(root), route_of(path), Seq::empty(), root);
    lemma_valid_routes(route_of(root), route_of(path), Seq::empty(), path);
    lemma_valid_routes(route_of(root), route_of(trim(other)), Seq::empty(), trim(other));
}

/// Whatever the host replies, the turn that follows is one that a dialogue
/// can be in.
pub proof fn lemma_advance(s: MutationView, reply: ReplyView)
    requires
        inv(s),
    ensures
        well_formed(advance_spec(s, reply)),
{
    let blank = Seq::<char>::empty();
    match reply.canonical() {
        Ok(text) => {
            lemma_valid_routes(s.base, s.base, blank, text);
        },
        Err(_) => {},
    }
    lemma_valid_routes(s.dest, s.dest, blank, blank);
    lemma_valid_routes(s.probe, s.probe, blank, blank);
    match s.stage {
        Stage::Root => {
            if s.dest.parent().is_some() {
                lemma_within_parent(s.dest);
            } else {
                lemma_within_self(s.dest);
            }
        },
        Stage::Destination => {
            if s.dest.parent().is_some() {
                lemma_within_parent(s.dest);
            } else {
                lemma_within_self(s.dest);
            }
        },
        Stage::Ancestor => {
            if s.probe.parent().is_some() {
                lemma_within_parent(s.probe);
                lemma_within_chain(s.dest, s.probe, s.probe.parent().unwrap());
            }
        },
        _ => {},
    }
}

/// Whether the request that follows `reply` in state `s`, if it changes the
/// file system, names only paths that the replies place within the
/// canonical root:
///
/// - a file is removed only where its canonical form lies within the root;
/// - a file is renamed or moved only from a canonical form within the root
///   to an entry of a directory whose canonical form lies within the root,
///   under a name that is a single part and not `..`;
/// - a directory is created only below a directory that exists and whose
///   canonical form, in the reply just given, lies within the root, and no
///   part below that directory is `..`.
pub open spec fn confined(s: MutationView, reply: ReplyView) -> bool {
    match advance_spec(s, reply) {
        TurnView::Ask { request: RequestView::RemoveFile { path }, .. } => {
            &&& route_of(path) == s.source
            &&& s.source.within(s.base)
        },
        TurnView::Ask { request: RequestView::Rename { from, to }, .. } => {
            &&& route_of(from) == s.source
            &&& s.source.within(s.base)
            &&& route_of(to).within(s.base)
            &&& route_of(to).parent() matches Some(dir) && dir.within(s.base)
            &&& is_plain(route_of(to).parts.last())
        },
        TurnView::Ask { request: RequestView::CreateDirAll { path }, .. } => {
            &&& route_of(path) == s.dest
            &&& s.dest.within(s.probe)
            &&& !s.dest.climbs_from(s.probe.parts.len() as int)
            &&& reply.canonical() matches Ok(found) && route_of(found).within(s.base)
        },
        _ => true,
    }
}

/// Confinement, step by step: whatever the host replies, the request that
/// follows is confined.
pub proof fn lemma_changes_stay_within_root(s: MutationView, reply: ReplyView)
    requires
        inv(s),
    ensures
        confined(s, reply),
{
    lemma_render_then_read(s.source);
    lemma_render_then_read(s.dest);
    lemma_render_then_read(s.probe);
    let blank = Seq::<char>::empty();
    match advance_spec(s, reply) {
        TurnView::Ask { request: RequestView::Rename { from, to }, .. } => {
            if s.stage == Stage::SourceKind {
                let dir = s.source.parent().unwrap();
                let name = segments(s.name)[0];
                lemma_valid_routes(s.source, s.source, blank, s.name);
                lemma_valid_routes(dir, dir, name, blank);
                lemma_child_within(dir, name, s.base);
                lemma_render_then_read(dir.child(name));
            } else {
                let text = reply.canonical()->Ok_0;
                let dir = route_of(text);
                let name = s.source.file_name().unwrap();
                lemma_valid_routes(s.source, s.source, blank, text);
                lemma_valid_routes(dir, dir, name, blank);
                lemma_child_within(dir, name, s.base);
                lemma_render_then_read(dir.child(name));
            }
        },
        _ => {},
    }
}

/// A path that escapes the root is refused before anything is asked for
/// that could change the file system. Whatever is renamed, deleted or moved:
/// the root is resolved, then the file to act on; where the canonical form
/// of the file is not the canonical root `base_text` or below it, the
/// dialogue ends there with `Escape`.
pub proof fn lemma_escape_refused(start: MutationView, base_text: Seq<char>, found: Seq<char>)
    requires
        inv(start),
        start.stage == Stage::Root,
        start.job != Job::CreateFolder,
        !route_of(found).within(route_of(base_text)),
    ensures
        ({
            &&& advance_spec(start, ReplyView::Canonical { path: base_text })
                matches TurnView::Ask { machine, request }
            &&& request == (RequestView::Canonicalize { path: render(start.source) })
            &&& advance_spec(machine, ReplyView::Canonical { path: found }) == refuse(
                ErrorKind::Escape,
                "Path escapes selected root"@,
            )
        }),
        failure(ErrorKind::Escape, "Path escapes selected root"@, Seq::empty()).left_behind
            is None,
{
}

/// Only regular files are renamed, deleted or moved. Where the host says
/// that the resolved path is no regular file, the dialogue ends with
/// `NotAFile`; all it has asked for by then is to resolve the root and the
/// path and whether the path is a file, none of which changes anything.
pub proof fn lemma_not_a_file_refused(
    start: MutationView,
    base_text: Seq<char>,
    found: Seq<char>,
    answer: ReplyView,
)
    requires
        inv(start),
        start.stage == Stage::Root,
        start.job != Job::CreateFolder,
        route_of(found).within(route_of(base_text)),
        !answer.flag(),
    ensures
        ({
            &&& advance_spec(start, ReplyView::Canonical { path: base_text })
                matches TurnView::Ask { machine: first, request: ask_source }
            &&& ask_source == (RequestView::Canonicalize { path: render(start.source) })
            &&& advance_spec(first, ReplyView::Canonical { path: found })
                matches TurnView::Ask { machine: second, request: ask_kind }
            &&& ask_kind == (RequestView::IsFile { path: render(route_of(found)) })
            &&& advance_spec(second, answer) == refuse(ErrorKind::NotAFile, not_a_file(start.job))
        }),
        failure(ErrorKind::NotAFile, not_a_file(start.job), Seq::empty()).left_behind is None,
{
}

/// A move into a directory that does not exist, and is not to be created,
/// ends with `DestinationMissing`; all it has asked for by then is to resolve
/// the root and the file, whether the file is a file and whether the
/// directory exists, none of which changes anything.
pub proof fn lemma_missing_destination_refused(
    start: MutationView,
    base_text: Seq<char>,
    found: Seq<char>,
    is_file: ReplyView,
    exists: ReplyView,
)
    requires
        inv(start),
        start.stage == Stage::Root,
        start.job == Job::Move,
        !start.create_dir,
        route_of(found).within(route_of(base_text)),
        is_file.flag(),
        !exists.flag(),
    ensures
        ({
            &&& advance_spec(start, ReplyView::Canonical { path: base_text })
                matches TurnView::Ask { machine: first, request: ask_source }
            &&& ask_source == (RequestView::Canonicalize { path: render(start.source) })
            &&& advance_spec(first, ReplyView::Canonical { path: found })
                matches TurnView::Ask { machine: second, request: ask_kind }
            &&& ask_kind == (RequestView::IsFile { path: render(route_of(found)) })
            &&& advance_spec(second, is_file)
                matches TurnView::Ask { machine: third, request: ask_dest }
            &&& ask_dest == (RequestView::Exists { path: render(start.dest) })
            &&& advance_spec(third, exists) == refuse(
                ErrorKind::DestinationMissing,
                "Destination directory does not exist"@,
            )
        }),
        failure(
            ErrorKind::DestinationMissing,
            "Destination directory does not exist"@,
            Seq::empty(),
        ).left_behind is None,
{
}

/// The empty text, `.` and `/` all name the root as the directory to move
/// into, so a move into any of them is the same dialogue.
pub proof fn lemma_root_destinations(root: Seq<char>, from_relative: Seq<char>, create_dir: bool)
    ensures
        destination(root, ""@) == route_of(root),
        destination(root, "."@) == route_of(root),
        destination(root, "/"@) == route_of(root),
        move_spec(root, from_relative, "."@, create_dir) == move_spec(
            root,
            from_relative,
            ""@,
            create_dir,
        ),
        move_spec(root, from_relative, "/"@, create_dir) == move_spec(
            root,
            from_relative,
            ""@,
            create_dir,
        ),
{
    reveal_strlit("");
    reveal_strlit(".");
    reveal_strlit("/");
    let empty = Seq::<char>::empty();
    let dot = seq!['.'];
    let sep = seq!['/'];
    assert(""@ == empty);
    assert("."@ == dot);
    assert("/"@ == sep);
    assert(trim(empty) == empty);
    assert(trim(dot) == dot);
    assert(trim(sep) == sep);
    assert(dot.drop_last() == empty);
    assert(sep.drop_last() == empty);
    assert(segments(empty) == Seq::<Seq<char>>::empty());
    assert(segments(dot) == Seq::<Seq<char>>::empty());
    assert(segments(sep) == Seq::<Seq<char>>::empty());
    assert(route_of(root).parts + Seq::<Seq<char>>::empty() == route_of(root).parts);
}

/// Creating a directory does not depend on whether the directory is there
/// already: once the root is resolved, the directory above is found to exist
/// and to lie within the root, and no part below it climbs, the dialogue
/// asks for the chain to be created and succeeds when the host says it is
/// done.
pub proof fn lemma_create_folder_course(
    start: MutationView,
    base_text: Seq<char>,
    above_text: Seq<char>,
)
    requires
        inv(start),
        start.stage == Stage::Root,
        start.job == Job::CreateFolder,
        start.dest.parts.len() > 0,
        !is_dotdot(start.dest.parts.last()),
        route_of(above_text).within(route_of(base_text)),
    ensures
        ({
            &&& advance_spec(start, ReplyView::Canonical { path: base_text })
                matches TurnView::Ask { machine: first, request: ask_above }
            &&& ask_above == (RequestView::Exists { path: render(start.dest.parent().unwrap()) })
            &&& advance_spec(first, ReplyView::Flag { value: true })
                matches TurnView::Ask { machine: second, request: ask_canon }
            &&& ask_canon == (RequestView::Canonicalize {
                path: render(start.dest.parent().unwrap()),
            })
            &&& advance_spec(second, ReplyView::Canonical { path: above_text })
                matches TurnView::Ask { machine: third, request: ask_create }
            &&& ask_create == (RequestView::CreateDirAll { path: render(start.dest) })
            &&& advance_spec(third, ReplyView::Done) == (TurnView::Finished { result: Ok(()) })
        }),
{
    let probe = start.dest.parent().unwrap();
    assert forall|i: int|
        probe.parts.len() <= i < start.dest.parts.len() implies !is_dotdot(
        #[trigger] start.dest.parts[i],
    ) by {
        assert(i == start.dest.parts.len() - 1);
    }
}

/// The turn that a dialogue has reached from `turn` after `replies`. Once it
/// is over, further replies are not looked at.
pub open spec fn run(turn: TurnView, replies: Seq<ReplyView>) -> TurnView
    decreases replies.len(),
{
    if replies.len() == 0 {
        turn
    } else {
        match turn {
            TurnView::Finished { .. } => turn,
            TurnView::Ask { machine, .. } => run(
                advance_spec(machine, replies[0]),
                replies.drop_first(),
            ),
        }
    }
}

/// How many changes the host has made, by its own replies, on the way from
/// `turn` through `replies`.
pub open spec fn changes_made(turn: TurnView, replies: Seq<ReplyView>) -> nat
    decreases replies.len(),
{
    if replies.len() == 0 {
        0
    } else {
        match turn {
            TurnView::Finished { .. } => 0,
            TurnView::Ask { machine, request } => {
                let now: nat = if request.changes() && replies[0] is Done {
                    1
                } else {
                    0
                };
                now + changes_made(advance_spec(machine, replies[0]), replies.drop_first())
            },
        }
    }
}

/// Every turn that a dialogue reaches is one that a dialogue can be in, so
/// what holds of one step holds at every step.
pub proof fn lemma_run_well_formed(turn: TurnView, replies: Seq<ReplyView>)
    requires
        well_formed(turn),
    ensures
        well_formed(run(turn, replies)),
    decreases replies.len(),
{
    if replies.len() > 0 {
        match turn {
            TurnView::Finished { .. } => {},
            TurnView::Ask { machine, .. } => {
                lemma_advance(machine, replies[0]);
                lemma_run_well_formed(advance_spec(machine, replies[0]), replies.drop_first());
            },
        }
    }
}

/// A run is the run up to its last reply, followed by one more step.
pub proof fn lemma_run_last(turn: TurnView, replies: Seq<ReplyView>)
    requires
        replies.len() > 0,
    ensures
        run(turn, replies) == match run(turn, replies.drop_last()) {
            TurnView::Finished { result } => TurnView::Finished { result },
            TurnView::Ask { machine, .. } => advance_spec(machine, replies.last()),
        },
    decreases replies.len(),
{
    match turn {
        TurnView::Finished { .. } => {},
        TurnView::Ask { machine, .. } => {
            if replies.len() == 1 {
                assert(replies.drop_last().len() == 0);
                assert(replies.drop_first().len() == 0);
            } else {
                assert(replies.drop_last().drop_first() == replies.drop_first().drop_last());
                lemma_run_last(advance_spec(machine, replies[0]), replies.drop_first());
            }
        },
    }
}

/// Confinement, throughout: at every step of every dialogue, whatever the
/// host has replied so far, the request that follows is confined.
pub proof fn lemma_confined_throughout(turn: TurnView, replies: Seq<ReplyView>)
    requires
        well_formed(turn),
        replies.len() > 0,
    ensures
        run(turn, replies.drop_last()) matches TurnView::Ask { machine, .. } ==> inv(machine)
            && run(turn, replies) == advance_spec(machine, replies.last()) && confined(
            machine,
            replies.last(),
        ),
{
    lemma_run_well_formed(turn, replies.drop_last());
    lemma_run_last(turn, replies);
    match run(turn, replies.drop_last()) {
        TurnView::Ask { machine, .. } => {
            lemma_changes_stay_within_root(machine, replies.last());
        },
        TurnView::Finished { .. } => {},
    }
}

/// The number of changes that the state of a dialogue accounts for.
pub open spec fn on_record(turn: TurnView) -> nat {
    match turn {
        TurnView::Ask { machine, .. } => if machine.left is Some {
            1
        } else {
            0
        },
        TurnView::Finished { .. } => 0,
    }
}

/// The result of a dialogue tells what was changed. Counting the changes
/// that the host says it has made:
///
/// - an error without `left_behind` means that none was made;
/// - an error with `left_behind` means that one was made, the creation of
///   that directory;
/// - success means that one was made, or two where a move created its
///   directory first.
pub proof fn lemma_result_tells_changes(turn: TurnView, replies: Seq<ReplyView>)
    requires
        well_formed(turn),
        turn is Ask,
    ensures
        match run(turn, replies) {
            TurnView::Finished { result: Err(error) } => changes_made(turn, replies) + on_record(
                turn,
            ) == (if error.left_behind is Some {
                1nat
            } else {
                0nat
            }),
            TurnView::Finished { result: Ok(_) } => 1 <= changes_made(turn, replies) + on_record(
                turn,
            ) <= 2,
            TurnView::Ask { .. } => true,
        },
    decreases replies.len(),
{
    if replies.len() > 0 {
        let machine = turn->Ask_machine;
        let next = advance_spec(machine, replies[0]);
        let rest = replies.drop_first();
        lemma_advance(machine, replies[0]);
        match next {
            TurnView::Ask { .. } => {
                lemma_result_tells_changes(next, rest);
            },
            TurnView::Finished { .. } => {
                assert(run(next, rest) == next);
                assert(changes_made(next, rest) == 0);
            },
        }
    }
}

/// Seen from the start of an operation: if it ends with an error that names
/// nothing left behind, the host has made no change at all.
pub proof fn lemma_clean_failure_changed_nothing(
    root: Seq<char>,
    path: Seq<char>,
    other: Seq<char>,
    create_dir: bool,
    replies: Seq<ReplyView>,
)
    ensures
        clean_failure(run(rename_spec(root, path, other), replies)) ==> changes_made(
            rename_spec(root, path, other),
            replies,
        ) == 0,
        clean_failure(run(delete_spec(root, path), replies)) ==> changes_made(
            delete_spec(root, path),
            replies,
        ) == 0,
        clean_failure(run(move_spec(root, path, other, create_dir), replies)) ==> changes_made(
            move_spec(root, path, other, create_dir),
            replies,
        ) == 0,
        clean_failure(run(create_spec(root, path), replies)) ==> changes_made(
            create_spec(root, path),
            replies,
        ) == 0,
{
    lemma_start(root, path, other, create_dir);
    lemma_result_tells_changes(rename_spec(root, path, other), replies);
    lemma_result_tells_changes(delete_spec(root, path), replies);
    lemma_result_tells_changes(move_spec(root, path, other, create_dir), replies);
    lemma_result_tells_changes(create_spec(root, path), replies);
}

} // verus!
