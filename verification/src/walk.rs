//! Listing the files below a root.
//!
//! A listing runs as a dialogue, like the operations that change the file
//! system: it asks the host to resolve the root, then to read one directory
//! after the other, and ends with the files in order of relative path. It
//! never asks for anything that changes the file system, and it never
//! descends into a directory that is a symbolic link.

use crate::error::{failure, ErrorKind, FsError, FsErrorView};
use crate::listing::{entry_views, is_listing_of, sort_entries, FileEntry, FileEntryView};
use crate::path::{glue, route_of, texts, Route, RouteView};
use crate::protocol::{
    item_views, DirItem, DirItemView, Reply, ReplyView, Request, RequestView,
};
use crate::resolve::root_spec;
use vstd::prelude::*;

verus! {

/// Which reply a listing is waiting for.
#[derive(Clone, Copy, Debug, PartialEq, Eq, Structural)]
pub enum WalkStage {
    /// The canonical form of the root.
    Root,
    /// The entries of the directory `current`.
    Reading,
}

/// The mathematical value of a [`Walker`].
pub struct WalkerView {
    pub stage: WalkStage,
    /// The canonical root.
    pub base: RouteView,
    /// The directory that is being read.
    pub current: Seq<char>,
    /// The directories still to be read; the last one is read next.
    pub pending: Seq<Seq<char>>,
    /// The files found so far, in the order they were found.
    pub found: Seq<FileEntryView>,
}

/// What a listing does next.
pub enum WalkPlan {
    /// Ask the host for something.
    Ask { machine: WalkerView, request: RequestView },
    /// End with the files `found`, put in order.
    Collected { found: Seq<FileEntryView> },
    /// End with an error.
    Failed { error: FsErrorView },
}

/// The first turn of listing the files below `root`.
pub open spec fn list_spec(root: Seq<char>) -> WalkPlan {
    WalkPlan::Ask {
        machine: WalkerView {
            stage: WalkStage::Root,
            base: RouteView { absolute: false, parts: Seq::empty() },
            current: Seq::empty(),
            pending: Seq::empty(),
            found: Seq::empty(),
        },
        request: RequestView::Canonicalize { path: root },
    }
}

/// The path of an entry below the root `base`. Where the entry does not lie
/// within the root, which a sound host never reports, its whole path stands
/// in.
pub open spec fn relative_of(base: RouteView, path: Seq<char>) -> Seq<char> {
    match route_of(path).below(base) {
        Some(rest) => glue(rest.parts),
        None => path,
    }
}

/// The size to list for an entry: what the host read, or 0.
pub open spec fn size_of(item: DirItemView) -> u64 {
    match item.size {
        Some(n) => n,
        None => 0,
    }
}

/// Takes note of one entry: a directory that is no symbolic link is to be
/// read later, a regular file is listed, anything else is passed over.
pub open spec fn absorb(w: WalkerView, item: DirItemView) -> WalkerView {
    if item.is_dir {
        if item.is_symlink {
            w
        } else {
            WalkerView { pending: w.pending.push(item.path), ..w }
        }
    } else if item.is_file {
        WalkerView {
            found: w.found.push(
                FileEntryView {
                    path: item.path,
                    relative_path: relative_of(w.base, item.path),
                    size: size_of(item),
                },
            ),
            ..w
        }
    } else {
        w
    }
}

/// Takes note of the entries of one directory, in the order given.
pub open spec fn absorb_all(w: WalkerView, items: Seq<DirItemView>) -> WalkerView
    decreases items.len(),
{
    if items.len() == 0 {
        w
    } else {
        absorb(absorb_all(w, items.drop_last()), items.last())
    }
}

/// Goes on with the directory noted last, or ends where none is left.
pub open spec fn next_dir(w: WalkerView) -> WalkPlan {
    if w.pending.len() == 0 {
        WalkPlan::Collected { found: w.found }
    } else {
        WalkPlan::Ask {
            machine: WalkerView { current: w.pending.last(), pending: w.pending.drop_last(), ..w },
            request: RequestView::ReadDir { path: w.pending.last() },
        }
    }
}

/// What follows when a listing in state `w` gets `reply`.
pub open spec fn walk_spec(w: WalkerView, reply: ReplyView) -> WalkPlan {
    match w.stage {
        WalkStage::Root => match root_spec("Invalid root: "@, reply.canonical()) {
            Err(error) => WalkPlan::Failed { error },
            Ok(base) => WalkPlan::Ask {
                machine: WalkerView {
                    stage: WalkStage::Reading,
                    base,
                    current: reply.canonical()->Ok_0,
                    ..w
                },
                request: RequestView::ReadDir { path: reply.canonical()->Ok_0 },
            },
        },
        WalkStage::Reading => match reply.entries() {
            Err(reason) => WalkPlan::Failed {
                error: failure(
                    ErrorKind::InvalidPath,
                    "Failed to read dir "@ + w.current + ": "@,
                    reason,
                ),
            },
            Ok(items) => next_dir(absorb_all(w, items)),
        },
    }
}

/// A listing asks only for what changes nothing.
pub proof fn lemma_listing_changes_nothing(w: WalkerView, reply: ReplyView, root: Seq<char>)
    ensures
        list_spec(root) matches WalkPlan::Ask { request, .. } && !request.changes(),
        walk_spec(w, reply) matches WalkPlan::Ask { request, .. } ==> !request.changes(),
{
}

/// A listing never reads a directory that a reply gave as a symbolic link,
/// and lists a regular file of each reply as often as the reply holds it:
/// taking note of an entry adds at most that entry, to one of the two lists.
pub proof fn lemma_absorb(w: WalkerView, item: DirItemView)
    ensures
        item.is_dir && item.is_symlink ==> absorb(w, item) == w,
        item.is_dir && !item.is_symlink ==> absorb(w, item).pending == w.pending.push(item.path)
            && absorb(w, item).found == w.found,
        !item.is_dir && item.is_file ==> absorb(w, item).found.len() == w.found.len() + 1
            && absorb(w, item).found.last().path == item.path && absorb(w, item).pending
            == w.pending,
        !item.is_dir && !item.is_file ==> absorb(w, item) == w,
{
}

/// A listing under way.
#[derive(Debug)]
pub struct Walker {
    stage: WalkStage,
    base: Route,
    current: String,
    pending: Vec<String>,
    found: Vec<FileEntry>,
}

impl View for Walker {
    type V = WalkerView;

    closed spec fn view(&self) -> WalkerView {
        WalkerView {
            stage: self.stage,
            base: self.base@,
            current: self.current@,
            pending: texts(self.pending@),
            found: entry_views(self.found@),
        }
    }
}

/// What a listing does next: it asks the host for something, or it is over.
#[derive(Debug)]
pub enum WalkTurn {
    /// The host is to carry out `request` and hand the reply to `machine`.
    Ask { machine: Walker, request: Request },
    /// The listing is over.
    Finished { result: Result<Vec<FileEntry>, FsError> },
}

/// Whether `turn` is what `plan` says: the same request in the same state,
/// the same error, or the files found, each once, in order of relative path.
pub open spec fn follows(turn: WalkTurn, plan: WalkPlan) -> bool {
    match plan {
        WalkPlan::Ask { machine, request } => turn matches WalkTurn::Ask {
            machine: m,
            request: r,
        } && m@ == machine && r@ == request,
        WalkPlan::Collected { found } => turn matches WalkTurn::Finished { result: Ok(listing) }
            && is_listing_of(entry_views(listing@), found),
        WalkPlan::Failed { error } => turn matches WalkTurn::Finished { result: Err(e) } && e@
            == error,
    }
}

impl Walker {
    /// Starts listing the files below `root`.
    pub fn list_files(root: &str) -> (turn: WalkTurn)
        ensures
            follows(turn, list_spec(root@)),
    {
        let pending: Vec<String> = Vec::new();
        let found: Vec<FileEntry> = Vec::new();
        proof {
            assert(texts(pending@) == Seq::<Seq<char>>::empty());
            assert(entry_views(found@) == Seq::<FileEntryView>::empty());
        }
        WalkTurn::Ask {
            machine: Walker {
                stage: WalkStage::Root,
                base: Route::empty(),
                current: String::new(),
                pending,
                found,
            },
            request: Request::Canonicalize { path: root.to_owned() },
        }
    }

    fn relative_text(&self, path: &str) -> (text: String)
        ensures
            text@ == relative_of(self@.base, path@),
    {
        match Route::parse(path).strip_prefix(&self.base) {
            Some(rest) => rest.relative_text(),
            None => path.to_owned(),
        }
    }

    fn absorb(&mut self, item: &DirItem)
        ensures
            final(self)@ == absorb(old(self)@, item@),
    {
        if item.is_dir {
            if !item.is_symlink {
                let path = item.path.clone();
                proof {
                    assert(texts(self.pending@.push(path)) == texts(self.pending@).push(path@));
                }
                self.pending.push(path);
            }
        } else if item.is_file {
            let entry = FileEntry {
                path: item.path.clone(),
                relative_path: self.relative_text(item.path.as_str()),
                size: match item.size {
                    Some(n) => n,
                    None => 0,
                },
            };
            proof {
                assert(entry_views(self.found@.push(entry)) == entry_views(self.found@).push(
                    entry@,
                ));
            }
            self.found.push(entry);
        }
    }

    fn next_dir(self) -> (turn: WalkTurn)
        ensures
            follows(turn, next_dir(self@)),
    {
        let mut machine = self;
        let ghost before = machine@;
        match machine.pending.pop() {
            None => {
                let listing = sort_entries(machine.found);
                WalkTurn::Finished { result: Ok(listing) }
            },
            Some(path) => {
                proof {
                    assert(texts(machine.pending@) == before.pending.drop_last());
                    assert(path@ == before.pending.last());
                }
                let request = Request::ReadDir { path: path.clone() };
                WalkTurn::Ask { machine: Walker { current: path, ..machine }, request }
            },
        }
    }

    /// Takes the host's reply to the last request and gives the next turn.
    pub fn advance(self, reply: Reply) -> (turn: WalkTurn)
        ensures
            follows(turn, walk_spec(self@, reply@)),
    {
        match self.stage {
            WalkStage::Root => match reply.into_canonical() {
                Err(reason) => WalkTurn::Finished {
                    result: Err(
                        FsError::new(ErrorKind::InvalidRoot, "Invalid root: ", reason.as_str()),
                    ),
                },
                Ok(text) => {
                    let base = Route::parse(text.as_str());
                    let request = Request::ReadDir { path: text.clone() };
                    WalkTurn::Ask {
                        machine: Walker { stage: WalkStage::Reading, base, current: text, ..self },
                        request,
                    }
                },
            },
            WalkStage::Reading => {
                match reply.into_entries() {
                    Err(reason) => {
                        let lead = String::from_str("Failed to read dir ").concat(
                            self.current.as_str(),
                        ).concat(": ");
                        WalkTurn::Finished {
                            result: Err(
                                FsError::new(
                                    ErrorKind::InvalidPath,
                                    lead.as_str(),
                                    reason.as_str(),
                                ),
                            ),
                        }
                    },
                    Ok(items) => {
                        let mut machine = self;
                        let ghost start = machine@;
                        let n: usize = items.len();
                        let mut i: usize = 0;
                        proof {
                            assert(item_views(items@).take(0) == Seq::<DirItemView>::empty());
                        }
                        while i < n
                            invariant
                                n == items@.len(),
                                i <= n,
                                machine@ == absorb_all(start, item_views(items@).take(i as int)),
                            decreases n - i,
                        {
                            proof {
                                let upto = item_views(items@).take(i as int + 1);
                                assert(upto.drop_last() == item_views(items@).take(i as int));
                                assert(upto.last() == items@[i as int]@);
                            }
                            machine.absorb(&items[i]);
                            i = i + 1;
                        }
                        proof {
                            assert(item_views(items@).take(n as int) == item_views(items@));
                        }
                        machine.next_dir()
                    },
                }
            },
        }
    }
}

} // verus!
