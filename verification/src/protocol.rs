//! What passes between an operation and the host that runs it.
//!
//! An operation never touches the file system. It hands the host one
//! [`Request`] at a time, the host carries it out and hands back a [`Reply`],
//! and the operation decides what comes next. A reply that does not answer
//! the request counts as a failure of that request.

use vstd::prelude::*;

verus! {

/// One thing for the host to do.
#[derive(Clone, Debug, PartialEq, Eq)]
pub enum Request {
    /// Resolve `path` to its canonical form, following links.
    Canonicalize { path: String },
    /// Tell whether `path`, links followed, is a regular file.
    IsFile { path: String },
    /// Tell whether `path`, links followed, exists.
    Exists { path: String },
    /// List the entries of the directory `path`.
    ReadDir { path: String },
    /// Create the directory `path` and every directory above it that is
    /// missing.
    CreateDirAll { path: String },
    /// Rename `from` to `to`, in one step and on one file system.
    Rename { from: String, to: String },
    /// Remove the file `path`.
    RemoveFile { path: String },
}

/// The mathematical value of a [`Request`].
pub enum RequestView {
    Canonicalize { path: Seq<char> },
    IsFile { path: Seq<char> },
    Exists { path: Seq<char> },
    ReadDir { path: Seq<char> },
    CreateDirAll { path: Seq<char> },
    Rename { from: Seq<char>, to: Seq<char> },
    RemoveFile { path: Seq<char> },
}

impl View for Request {
    type V = RequestView;

    open spec fn view(&self) -> RequestView {
        match self {
            Request::Canonicalize { path } => RequestView::Canonicalize { path: path@ },
            Request::IsFile { path } => RequestView::IsFile { path: path@ },
            Request::Exists { path } => RequestView::Exists { path: path@ },
            Request::ReadDir { path } => RequestView::ReadDir { path: path@ },
            Request::CreateDirAll { path } => RequestView::CreateDirAll { path: path@ },
            Request::Rename { from, to } => RequestView::Rename { from: from@, to: to@ },
            Request::RemoveFile { path } => RequestView::RemoveFile { path: path@ },
        }
    }
}

impl RequestView {
    /// Whether carrying the request out can change the file system.
    pub open spec fn changes(self) -> bool {
        self is CreateDirAll || self is Rename || self is RemoveFile
    }
}

impl Request {
    /// Whether carrying the request out can change the file system.
    pub fn changes(&self) -> (yes: bool)
        ensures
            yes == self@.changes(),
    {
        match self {
            Request::CreateDirAll { .. } => true,
            Request::Rename { .. } => true,
            Request::RemoveFile { .. } => true,
            _ => false,
        }
    }
}

/// One entry of a directory, as the host found it.
#[derive(Clone, Debug, PartialEq, Eq)]
pub struct DirItem {
    /// The entry's path: the directory's path and the entry's name.
    pub path: String,
    /// Whether the entry, links followed, is a directory.
    pub is_dir: bool,
    /// Whether the entry, links followed, is a regular file.
    pub is_file: bool,
    /// Whether the entry itself is a symbolic link.
    pub is_symlink: bool,
    /// The entry's size in bytes, where its metadata could be read.
    pub size: Option<u64>,
}

/// The mathematical value of a [`DirItem`].
pub struct DirItemView {
    pub path: Seq<char>,
    pub is_dir: bool,
    pub is_file: bool,
    pub is_symlink: bool,
    pub size: Option<u64>,
}

impl View for DirItem {
    type V = DirItemView;

    open spec fn view(&self) -> DirItemView {
        DirItemView {
            path: self.path@,
            is_dir: self.is_dir,
            is_file: self.is_file,
            is_symlink: self.is_symlink,
            size: self.size,
        }
    }
}

/// The values of a list of entries.
pub open spec fn item_views(items: Seq<DirItem>) -> Seq<DirItemView> {
    Seq::new(items.len(), |i: int| items[i]@)
}

/// What the host found or did.
#[derive(Clone, Debug, PartialEq, Eq)]
pub enum Reply {
    /// The canonical form of the path.
    Canonical { path: String },
    /// The answer to a yes-or-no question.
    Flag { value: bool },
    /// The entries of the directory, in the order the host found them.
    Entries { items: Vec<DirItem> },
    /// The change was made.
    Done,
    /// The request failed; `reason` is the platform's message.
    Failed { reason: String },
}

/// The mathematical value of a [`Reply`].
pub enum ReplyView {
    Canonical { path: Seq<char> },
    Flag { value: bool },
    Entries { items: Seq<DirItemView> },
    Done,
    Failed { reason: Seq<char> },
}

impl View for Reply {
    type V = ReplyView;

    open spec fn view(&self) -> ReplyView {
        match self {
            Reply::Canonical { path } => ReplyView::Canonical { path: path@ },
            Reply::Flag { value } => ReplyView::Flag { value: *value },
            Reply::Entries { items } => ReplyView::Entries { items: item_views(items@) },
            Reply::Done => ReplyView::Done,
            Reply::Failed { reason } => ReplyView::Failed { reason: reason@ },
        }
    }
}

/// The reason given where a reply does not answer the request.
pub open spec fn unexpected() -> Seq<char> {
    "unexpected reply"@
}

impl ReplyView {
    /// Read as the answer to `Canonicalize`: the canonical text, or why
    /// there is none.
    pub open spec fn canonical(self) -> Result<Seq<char>, Seq<char>> {
        match self {
            ReplyView::Canonical { path } => Ok(path),
            ReplyView::Failed { reason } => Err(reason),
            _ => Err(unexpected()),
        }
    }

    /// Read as the answer to a yes-or-no question; anything but a plain yes
    /// is a no.
    pub open spec fn flag(self) -> bool {
        self matches ReplyView::Flag { value } && value
    }

    /// Read as the answer to a change: made, or why not.
    pub open spec fn done(self) -> Result<(), Seq<char>> {
        match self {
            ReplyView::Done => Ok(()),
            ReplyView::Failed { reason } => Err(reason),
            _ => Err(unexpected()),
        }
    }

    /// Read as the answer to `ReadDir`: the entries, or why there are none.
    pub open spec fn entries(self) -> Result<Seq<DirItemView>, Seq<char>> {
        match self {
            ReplyView::Entries { items } => Ok(items),
            ReplyView::Failed { reason } => Err(reason),
            _ => Err(unexpected()),
        }
    }
}

impl Reply {
    /// Reads the reply as the answer to `Canonicalize`.
    pub fn into_canonical(self) -> (outcome: Result<String, String>)
        ensures
            match outcome {
                Ok(text) => self@.canonical() == Ok::<Seq<char>, Seq<char>>(text@),
                Err(reason) => self@.canonical() == Err::<Seq<char>, Seq<char>>(reason@),
            },
    {
        match self {
            Reply::Canonical { path } => Ok(path),
            Reply::Failed { reason } => Err(reason),
            _ => Err(String::from_str("unexpected reply")),
        }
    }

    /// Reads the reply as the answer to a yes-or-no question.
    pub fn flag(&self) -> (yes: bool)
        ensures
            yes == self@.flag(),
    {
        match self {
            Reply::Flag { value } => *value,
            _ => false,
        }
    }

    /// Reads the reply as the answer to a change.
    pub fn into_done(self) -> (outcome: Result<(), String>)
        ensures
            match outcome {
                Ok(_) => self@.done() == Ok::<(), Seq<char>>(()),
                Err(reason) => self@.done() == Err::<(), Seq<char>>(reason@),
            },
    {
        match self {
            Reply::Done => Ok(()),
            Reply::Failed { reason } => Err(reason),
            _ => Err(String::from_str("unexpected reply")),
        }
    }

    /// Reads the reply as the answer to `ReadDir`.
    pub fn into_entries(self) -> (outcome: Result<Vec<DirItem>, String>)
        ensures
            match outcome {
                Ok(items) => self@.entries() == Ok::<Seq<DirItemView>, Seq<char>>(
                    item_views(items@),
                ),
                Err(reason) => self@.entries() == Err::<Seq<DirItemView>, Seq<char>>(reason@),
            },
    {
        match self {
            Reply::Entries { items } => Ok(items),
            Reply::Failed { reason } => Err(reason),
            _ => Err(String::from_str("unexpected reply")),
        }
    }
}

} // verus!
