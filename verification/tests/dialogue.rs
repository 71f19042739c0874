use std::collections::BTreeMap;

use confined_fs::error::{ErrorKind, FsError};
use confined_fs::listing::FileEntry;
use confined_fs::mutation::{Mutation, Turn};
use confined_fs::protocol::{DirItem, Reply, Request};
use confined_fs::walk::{WalkTurn, Walker};

#[derive(Clone, Debug, PartialEq, Eq)]
enum Node {
    Dir,
    File(u64),
    Link(String),
}

/// A file system in memory, which answers requests as a real one would and
/// keeps a record of them.
#[derive(Clone, Debug)]
struct Disk {
    nodes: BTreeMap<String, Node>,
    log: Vec<Request>,
    newest_first: bool,
    refuse_changes: bool,
    refuse_rename: bool,
    unreadable: Vec<String>,
    no_metadata: Vec<String>,
}

fn text_of(parts: &[String]) -> String {
    format!("/{}", parts.join("/"))
}

fn parts_of(path: &str) -> Vec<String> {
    path.split('/').filter(|p| !p.is_empty()).map(|p| p.to_string()).collect()
}

impl Disk {
    fn new() -> Disk {
        let mut nodes = BTreeMap::new();
        nodes.insert("/".to_string(), Node::Dir);
        Disk {
            nodes,
            log: Vec::new(),
            newest_first: false,
            refuse_changes: false,
            refuse_rename: false,
            unreadable: Vec::new(),
            no_metadata: Vec::new(),
        }
    }

    fn dir(mut self, path: &str) -> Disk {
        let mut at: Vec<String> = Vec::new();
        for part in parts_of(path) {
            at.push(part);
            self.nodes.entry(text_of(&at)).or_insert(Node::Dir);
        }
        self
    }

    fn file(mut self, path: &str, size: u64) -> Disk {
        let mut up = parts_of(path);
        up.pop();
        self = self.dir(&text_of(&up));
        self.nodes.insert(path.to_string(), Node::File(size));
        self
    }

    fn link(mut self, path: &str, target: &str) -> Disk {
        let mut up = parts_of(path);
        up.pop();
        self = self.dir(&text_of(&up));
        self.nodes.insert(path.to_string(), Node::Link(target.to_string()));
        self
    }

    fn resolve(&self, path: &str) -> Result<String, String> {
        self.resolve_from(path, 0)
    }

    fn resolve_from(&self, path: &str, depth: usize) -> Result<String, String> {
        if depth > 8 {
            return Err("Too many levels of symbolic links".to_string());
        }
        if path.is_empty() {
            return Err("No such file or directory".to_string());
        }
        let mut at: Vec<String> = if path.starts_with('/') {
            Vec::new()
        } else {
            vec!["cwd".to_string()]
        };
        for part in path.split('/') {
            if part.is_empty() || part == "." {
                continue;
            }
            if part == ".." {
                at.pop();
                continue;
            }
            at.push(part.to_string());
            match self.nodes.get(&text_of(&at)) {
                None => return Err("No such file or directory".to_string()),
                Some(Node::Link(target)) => {
                    let target = target.clone();
                    at = parts_of(&self.resolve_from(&target, depth + 1)?);
                },
                Some(_) => {},
            }
        }
        Ok(text_of(&at))
    }

    fn node(&self, path: &str) -> Option<Node> {
        match self.resolve(path) {
            Ok(found) => self.nodes.get(&found).cloned(),
            Err(_) => None,
        }
    }

    /// Where the entry `path` itself is kept, its last part not followed.
    fn slot(&self, path: &str) -> Result<String, String> {
        let mut parts = parts_of(path);
        let name = match parts.pop() {
            Some(name) => name,
            None => return Err("Invalid argument".to_string()),
        };
        let up = self.resolve(&text_of(&parts))?;
        if self.nodes.get(&up) != Some(&Node::Dir) {
            return Err("Not a directory".to_string());
        }
        let mut at = parts_of(&up);
        at.push(name);
        Ok(text_of(&at))
    }

    fn read_dir(&self, path: &str) -> Result<Vec<DirItem>, String> {
        if self.unreadable.iter().any(|p| p == path) {
            return Err("Permission denied".to_string());
        }
        let dir = self.resolve(path)?;
        if self.nodes.get(&dir) != Some(&Node::Dir) {
            return Err("Not a directory".to_string());
        }
        let depth = parts_of(&dir).len();
        let mut items = Vec::new();
        for (key, node) in self.nodes.iter() {
            let parts = parts_of(key);
            if parts.len() != depth + 1 || parts[..depth] != parts_of(&dir)[..] {
                continue;
            }
            let shown = format!("{}/{}", path.trim_end_matches('/'), parts[depth]);
            let behind = self.node(key);
            let size = match node {
                Node::File(n) => *n,
                Node::Link(target) => target.len() as u64,
                Node::Dir => 0,
            };
            items.push(DirItem {
                path: shown,
                is_dir: behind == Some(Node::Dir),
                is_file: matches!(behind, Some(Node::File(_))),
                is_symlink: matches!(node, Node::Link(_)),
                size: if self.no_metadata.iter().any(|p| p == key) { None } else { Some(size) },
            });
        }
        if self.newest_first {
            items.reverse();
        }
        Ok(items)
    }

    fn create_dir_all(&mut self, path: &str) -> Result<(), String> {
        let mut at: Vec<String> = if path.starts_with('/') {
            Vec::new()
        } else {
            vec!["cwd".to_string()]
        };
        for part in path.split('/') {
            if part.is_empty() || part == "." {
                continue;
            }
            if part == ".." {
                at.pop();
                continue;
            }
            at.push(part.to_string());
            match self.nodes.get(&text_of(&at)).cloned() {
                None => {
                    self.nodes.insert(text_of(&at), Node::Dir);
                },
                Some(Node::Dir) => {},
                Some(Node::File(_)) => return Err("File exists".to_string()),
                Some(Node::Link(target)) => {
                    at = parts_of(&self.resolve(&target)?);
                    if self.nodes.get(&text_of(&at)) != Some(&Node::Dir) {
                        return Err("Not a directory".to_string());
                    }
                },
            }
        }
        Ok(())
    }

    fn rename(&mut self, from: &str, to: &str) -> Result<(), String> {
        if self.refuse_rename {
            return Err("Invalid cross-device link".to_string());
        }
        let from = self.slot(from)?;
        let to = self.slot(to)?;
        let node = match self.nodes.get(&from) {
            Some(node) => node.clone(),
            None => return Err("No such file or directory".to_string()),
        };
        if self.nodes.get(&to) == Some(&Node::Dir) {
            return Err("Is a directory".to_string());
        }
        self.nodes.remove(&from);
        self.nodes.insert(to, node);
        Ok(())
    }

    fn remove_file(&mut self, path: &str) -> Result<(), String> {
        let at = self.slot(path)?;
        match self.nodes.get(&at) {
            None => Err("No such file or directory".to_string()),
            Some(Node::Dir) => Err("Is a directory".to_string()),
            Some(_) => {
                self.nodes.remove(&at);
                Ok(())
            },
        }
    }

    fn perform(&mut self, request: &Request) -> Reply {
        self.log.push(request.clone());
        if request.changes() && self.refuse_changes {
            return Reply::Failed { reason: "Permission denied".to_string() };
        }
        let done = |outcome: Result<(), String>| match outcome {
            Ok(()) => Reply::Done,
            Err(reason) => Reply::Failed { reason },
        };
        match request {
            Request::Canonicalize { path } => match self.resolve(path) {
                Ok(path) => Reply::Canonical { path },
                Err(reason) => Reply::Failed { reason },
            },
            Request::IsFile { path } => Reply::Flag {
                value: matches!(self.node(path), Some(Node::File(_))),
            },
            Request::Exists { path } => Reply::Flag { value: self.node(path).is_some() },
            Request::ReadDir { path } => match self.read_dir(path) {
                Ok(items) => Reply::Entries { items },
                Err(reason) => Reply::Failed { reason },
            },
            Request::CreateDirAll { path } => done(self.create_dir_all(path)),
            Request::Rename { from, to } => done(self.rename(from, to)),
            Request::RemoveFile { path } => done(self.remove_file(path)),
        }
    }

    fn run(&mut self, first: Turn) -> Result<(), FsError> {
        let mut turn = first;
        loop {
            match turn {
                Turn::Finished { result } => return result,
                Turn::Ask { machine, request } => {
                    let reply = self.perform(&request);
                    turn = machine.advance(reply);
                },
            }
        }
    }

    fn list(&mut self, root: &str) -> Result<Vec<FileEntry>, FsError> {
        let mut turn = Walker::list_files(root);
        loop {
            match turn {
                WalkTurn::Finished { result } => return result,
                WalkTurn::Ask { machine, request } => {
                    let reply = self.perform(&request);
                    turn = machine.advance(reply);
                },
            }
        }
    }

    fn rename_file(&mut self, root: &str, path: &str, name: &str) -> Result<(), FsError> {
        self.run(Mutation::rename_file(root, path, name))
    }

    fn delete_file(&mut self, root: &str, path: &str) -> Result<(), FsError> {
        self.run(Mutation::delete_file(root, path))
    }

    fn move_file(&mut self, root: &str, from: &str, to: &str, create: bool) -> Result<(), FsError> {
        self.run(Mutation::move_file(root, from, to, create))
    }

    fn create_folder(&mut self, root: &str, dir: &str) -> Result<(), FsError> {
        self.run(Mutation::create_folder(root, dir))
    }

    /// The requests made so far that could have changed something.
    fn changes(&self) -> Vec<Request> {
        self.log.iter().filter(|r| r.changes()).cloned().collect()
    }

    fn has(&self, path: &str) -> bool {
        self.nodes.contains_key(path)
    }
}

fn sample() -> Disk {
    Disk::new()
        .file("/root/a/x.txt", 10)
        .file("/root/b.txt", 0)
        .dir("/root/empty")
        .file("/etc/passwd", 99)
        .dir("/outside")
}

fn entry(path: &str, relative_path: &str, size: u64) -> FileEntry {
    FileEntry { path: path.to_string(), relative_path: relative_path.to_string(), size }
}

fn canonicalize(path: &str) -> Request {
    Request::Canonicalize { path: path.to_string() }
}

// ---- listing ----

#[test]
fn list_files_gives_files_in_order_of_relative_path() {
    let mut disk = Disk::new().file("/root/a/x.txt", 10).file("/root/b.txt", 0);
    let got = disk.list("/root").unwrap();
    assert_eq!(got, vec![entry("/root/a/x.txt", "a/x.txt", 10), entry("/root/b.txt", "b.txt", 0)]);
}

#[test]
fn list_files_order_does_not_depend_on_enumeration_order() {
    let mut disk = Disk::new().file("/root/a/x.txt", 10).file("/root/b.txt", 0);
    disk.newest_first = true;
    let got = disk.list("/root").unwrap();
    assert_eq!(got, vec![entry("/root/a/x.txt", "a/x.txt", 10), entry("/root/b.txt", "b.txt", 0)]);
}

#[test]
fn list_files_descends_into_every_directory() {
    let mut disk = Disk::new()
        .file("/root/z.txt", 1)
        .file("/root/d/e/f/deep.txt", 2)
        .file("/root/d/top.txt", 3)
        .dir("/root/d/void")
        .file("/elsewhere/no.txt", 4);
    let got = disk.list("/root").unwrap();
    assert_eq!(
        got,
        vec![
            entry("/root/d/e/f/deep.txt", "d/e/f/deep.txt", 2),
            entry("/root/d/top.txt", "d/top.txt", 3),
            entry("/root/z.txt", "z.txt", 1),
        ]
    );
}

#[test]
fn list_files_of_an_empty_root_is_empty() {
    let mut disk = Disk::new().dir("/root");
    assert_eq!(disk.list("/root").unwrap(), Vec::<FileEntry>::new());
}

#[test]
fn list_files_changes_nothing() {
    let mut disk = sample();
    let before = disk.nodes.clone();
    disk.list("/root").unwrap();
    assert_eq!(disk.nodes, before);
    assert!(disk.changes().is_empty());
}

#[test]
fn list_files_resolves_the_root_first() {
    let mut disk = sample().link("/shortcut", "/root");
    let got = disk.list("/shortcut").unwrap();
    assert_eq!(disk.log[0], canonicalize("/shortcut"));
    assert_eq!(disk.log[1], Request::ReadDir { path: "/root".to_string() });
    assert_eq!(got, vec![entry("/root/a/x.txt", "a/x.txt", 10), entry("/root/b.txt", "b.txt", 0)]);
}

#[test]
fn list_files_on_a_missing_root_is_invalid_root() {
    let mut disk = sample();
    let err = disk.list("/nowhere").unwrap_err();
    assert_eq!(err.kind, ErrorKind::InvalidRoot);
    assert_eq!(err.message, "Invalid root: No such file or directory");
    assert_eq!(disk.log.len(), 1);
}

#[test]
fn list_files_does_not_follow_a_linked_directory() {
    let mut disk = sample().link("/root/jump", "/outside").file("/outside/secret.txt", 5);
    let got = disk.list("/root").unwrap();
    assert_eq!(got, vec![entry("/root/a/x.txt", "a/x.txt", 10), entry("/root/b.txt", "b.txt", 0)]);
    assert!(!disk.log.contains(&Request::ReadDir { path: "/root/jump".to_string() }));
}

#[test]
fn list_files_does_not_loop_on_a_link_to_an_ancestor() {
    let mut disk = sample().link("/root/a/back", "/root");
    let got = disk.list("/root").unwrap();
    assert_eq!(got.len(), 2);
}

#[test]
fn list_files_lists_a_linked_file_with_the_size_of_the_link() {
    let mut disk = Disk::new().file("/root/real.txt", 7).link("/root/alias", "/root/real.txt");
    let got = disk.list("/root").unwrap();
    assert_eq!(got, vec![entry("/root/alias", "alias", 14), entry("/root/real.txt", "real.txt", 7)]);
}

#[test]
fn list_files_passes_over_a_dangling_link() {
    let mut disk = Disk::new().file("/root/real.txt", 7).link("/root/lost", "/gone");
    let got = disk.list("/root").unwrap();
    assert_eq!(got, vec![entry("/root/real.txt", "real.txt", 7)]);
}

#[test]
fn list_files_gives_size_zero_where_metadata_cannot_be_read() {
    let mut disk = Disk::new().file("/root/a.txt", 7).file("/root/b.txt", 8);
    disk.no_metadata.push("/root/a.txt".to_string());
    let got = disk.list("/root").unwrap();
    assert_eq!(got, vec![entry("/root/a.txt", "a.txt", 0), entry("/root/b.txt", "b.txt", 8)]);
}

#[test]
fn list_files_fails_where_a_directory_cannot_be_read() {
    let mut disk = sample();
    disk.unreadable.push("/root/a".to_string());
    let err = disk.list("/root").unwrap_err();
    assert_eq!(err.kind, ErrorKind::InvalidPath);
    assert_eq!(err.message, "Failed to read dir /root/a: Permission denied");
    assert!(err.changed_nothing());
}

#[test]
fn walker_uses_the_whole_path_where_an_entry_is_not_below_the_root() {
    let turn = Walker::list_files("/root");
    let machine = match turn {
        WalkTurn::Ask { machine, request } => {
            assert_eq!(request, canonicalize("/root"));
            machine
        },
        WalkTurn::Finished { .. } => panic!("finished too early"),
    };
    let machine = match machine.advance(Reply::Canonical { path: "/root".to_string() }) {
        WalkTurn::Ask { machine, request } => {
            assert_eq!(request, Request::ReadDir { path: "/root".to_string() });
            machine
        },
        WalkTurn::Finished { .. } => panic!("finished too early"),
    };
    let stray = DirItem {
        path: "/elsewhere/f".to_string(),
        is_dir: false,
        is_file: true,
        is_symlink: false,
        size: Some(3),
    };
    match machine.advance(Reply::Entries { items: vec![stray] }) {
        WalkTurn::Finished { result } => {
            assert_eq!(result.unwrap(), vec![entry("/elsewhere/f", "/elsewhere/f", 3)]);
        },
        WalkTurn::Ask { .. } => panic!("asked for more"),
    }
}

#[test]
fn walker_reads_the_directory_noted_last_first() {
    let dir = |path: &str| DirItem {
        path: path.to_string(),
        is_dir: true,
        is_file: false,
        is_symlink: false,
        size: Some(0),
    };
    let machine = match Walker::list_files("/r") {
        WalkTurn::Ask { machine, .. } => machine,
        WalkTurn::Finished { .. } => panic!("finished too early"),
    };
    let machine = match machine.advance(Reply::Canonical { path: "/r".to_string() }) {
        WalkTurn::Ask { machine, .. } => machine,
        WalkTurn::Finished { .. } => panic!("finished too early"),
    };
    let machine = match machine.advance(Reply::Entries { items: vec![dir("/r/a"), dir("/r/b")] }) {
        WalkTurn::Ask { machine, request } => {
            assert_eq!(request, Request::ReadDir { path: "/r/b".to_string() });
            machine
        },
        WalkTurn::Finished { .. } => panic!("finished too early"),
    };
    let machine = match machine.advance(Reply::Entries { items: vec![] }) {
        WalkTurn::Ask { machine, request } => {
            assert_eq!(request, Request::ReadDir { path: "/r/a".to_string() });
            machine
        },
        WalkTurn::Finished { .. } => panic!("finished too early"),
    };
    match machine.advance(Reply::Entries { items: vec![] }) {
        WalkTurn::Finished { result } => assert_eq!(result.unwrap(), Vec::<FileEntry>::new()),
        WalkTurn::Ask { .. } => panic!("asked for more"),
    }
}

#[test]
fn walker_takes_a_reply_of_the_wrong_kind_as_a_failure() {
    let machine = match Walker::list_files("/r") {
        WalkTurn::Ask { machine, .. } => machine,
        WalkTurn::Finished { .. } => panic!("finished too early"),
    };
    match machine.advance(Reply::Done) {
        WalkTurn::Finished { result } => {
            let err = result.unwrap_err();
            assert_eq!(err.kind, ErrorKind::InvalidRoot);
            assert_eq!(err.message, "Invalid root: unexpected reply");
        },
        WalkTurn::Ask { .. } => panic!("went on"),
    }
}

// ---- rename ----

#[test]
fn rename_gives_the_file_a_new_name_in_its_directory() {
    let mut disk = sample();
    disk.rename_file("/root", "a/x.txt", "y.txt").unwrap();
    assert!(!disk.has("/root/a/x.txt"));
    assert_eq!(disk.nodes.get("/root/a/y.txt"), Some(&Node::File(10)));
    assert_eq!(
        disk.log,
        vec![
            canonicalize("/root"),
            canonicalize("/root/a/x.txt"),
            Request::IsFile { path: "/root/a/x.txt".to_string() },
            Request::Rename { from: "/root/a/x.txt".to_string(), to: "/root/a/y.txt".to_string() },
        ]
    );
}

#[test]
fn rename_on_a_directory_fails_and_leaves_it_untouched() {
    let mut disk = sample();
    let before = disk.nodes.clone();
    let err = disk.rename_file("/root", "a", "c").unwrap_err();
    assert_eq!(err.kind, ErrorKind::NotAFile);
    assert_eq!(err.message, "Target is not a file");
    assert!(err.changed_nothing());
    assert_eq!(disk.nodes, before);
    assert!(disk.changes().is_empty());
}

#[test]
fn rename_of_a_missing_file_is_invalid_path() {
    let mut disk = sample();
    let err = disk.rename_file("/root", "nope.txt", "c").unwrap_err();
    assert_eq!(err.kind, ErrorKind::InvalidPath);
    assert_eq!(err.message, "Failed to canonicalize path: No such file or directory");
    assert!(disk.changes().is_empty());
}

#[test]
fn rename_under_a_missing_root_is_invalid_root() {
    let mut disk = sample();
    let err = disk.rename_file("/nowhere", "a/x.txt", "c").unwrap_err();
    assert_eq!(err.kind, ErrorKind::InvalidRoot);
    assert_eq!(err.message, "Failed to canonicalize root: No such file or directory");
    assert_eq!(disk.log, vec![canonicalize("/nowhere")]);
}

#[test]
fn rename_of_a_path_that_escapes_is_refused_untouched() {
    let mut disk = sample();
    let before = disk.nodes.clone();
    let err = disk.rename_file("/root", "../../etc/passwd", "x").unwrap_err();
    assert_eq!(err.kind, ErrorKind::Escape);
    assert_eq!(err.message, "Path escapes selected root");
    assert!(err.changed_nothing());
    assert_eq!(disk.nodes, before);
    assert_eq!(disk.log, vec![canonicalize("/root"), canonicalize("/root/../../etc/passwd")]);
}

#[test]
fn rename_through_a_link_that_leaves_the_root_is_refused() {
    let mut disk = sample().link("/root/jump", "/etc");
    let before = disk.nodes.clone();
    let err = disk.rename_file("/root", "jump/passwd", "x").unwrap_err();
    assert_eq!(err.kind, ErrorKind::Escape);
    assert_eq!(disk.nodes, before);
    assert!(disk.changes().is_empty());
}

#[test]
fn rename_under_a_root_reached_through_a_link_works_on_the_real_path() {
    let mut disk = sample().link("/shortcut", "/root");
    disk.rename_file("/shortcut", "b.txt", "c.txt").unwrap();
    assert!(disk.has("/root/c.txt"));
    assert!(!disk.has("/root/b.txt"));
}

#[test]
fn rename_to_a_name_with_a_separator_or_dotdot_is_refused() {
    for name in ["../x", "..", "sub/x", "/etc/x", "", ".", "a/../../x"] {
        let mut disk = sample();
        let before = disk.nodes.clone();
        let err = disk.rename_file("/root", "b.txt", name).unwrap_err();
        assert_eq!(err.kind, ErrorKind::Escape);
        assert_eq!(err.message, "Destination escapes root");
        assert!(err.changed_nothing());
        assert_eq!(disk.nodes, before);
        assert!(disk.changes().is_empty());
    }
}

#[test]
fn rename_of_a_root_that_is_a_file_is_refused() {
    let mut disk = sample();
    let err = disk.rename_file("/root/b.txt", "", "c.txt").unwrap_err();
    assert_eq!(err.kind, ErrorKind::Escape);
    assert_eq!(err.message, "Destination escapes root");
    assert!(disk.changes().is_empty());
}

#[test]
fn rename_that_the_platform_refuses_is_rename_failed() {
    let mut disk = sample();
    disk.refuse_changes = true;
    let err = disk.rename_file("/root", "b.txt", "c.txt").unwrap_err();
    assert_eq!(err.kind, ErrorKind::RenameFailed);
    assert_eq!(err.message, "Rename failed: Permission denied");
    assert!(err.changed_nothing());
    assert!(disk.has("/root/b.txt"));
}

#[test]
fn rename_onto_a_directory_is_rename_failed() {
    let mut disk = sample();
    let err = disk.rename_file("/root", "b.txt", "a").unwrap_err();
    assert_eq!(err.kind, ErrorKind::RenameFailed);
    assert_eq!(err.message, "Rename failed: Is a directory");
}

// ---- delete ----

#[test]
fn delete_removes_the_file() {
    let mut disk = sample();
    disk.delete_file("/root", "a/x.txt").unwrap();
    assert!(!disk.has("/root/a/x.txt"));
    assert!(disk.has("/root/a"));
    assert_eq!(disk.changes(), vec![Request::RemoveFile { path: "/root/a/x.txt".to_string() }]);
}

#[test]
fn delete_on_a_directory_fails_and_leaves_it_untouched() {
    let mut disk = sample();
    let before = disk.nodes.clone();
    let err = disk.delete_file("/root", "a").unwrap_err();
    assert_eq!(err.kind, ErrorKind::NotAFile);
    assert_eq!(err.message, "Only files can be deleted with this action");
    assert_eq!(disk.nodes, before);
    assert!(disk.changes().is_empty());
}

#[test]
fn delete_of_a_path_that_escapes_is_refused_untouched() {
    let mut disk = sample();
    let before = disk.nodes.clone();
    let err = disk.delete_file("/root", "../../etc/passwd").unwrap_err();
    assert_eq!(err.kind, ErrorKind::Escape);
    assert!(err.changed_nothing());
    assert_eq!(disk.nodes, before);
    assert!(disk.changes().is_empty());
}

#[test]
fn delete_of_an_absolute_path_outside_the_root_is_refused() {
    let mut disk = sample();
    let err = disk.delete_file("/root", "/etc/passwd").unwrap_err();
    assert_eq!(err.kind, ErrorKind::Escape);
    assert!(disk.has("/etc/passwd"));
}

#[test]
fn a_link_outside_the_root_that_points_inside_is_judged_by_its_target() {
    let mut disk = sample().link("/outside/alias", "/root/b.txt");
    disk.delete_file("/root", "/outside/alias").unwrap();
    assert!(!disk.has("/root/b.txt"));
    assert_eq!(disk.changes(), vec![Request::RemoveFile { path: "/root/b.txt".to_string() }]);
}

#[test]
fn a_link_inside_the_root_that_points_outside_is_judged_by_its_target() {
    let mut disk = sample().link("/root/alias", "/etc/passwd");
    let before = disk.nodes.clone();
    let err = disk.delete_file("/root", "alias").unwrap_err();
    assert_eq!(err.kind, ErrorKind::Escape);
    assert_eq!(disk.nodes, before);
    assert!(disk.changes().is_empty());
}

#[test]
fn delete_of_a_link_acts_on_what_it_points_to() {
    let mut disk = sample().link("/root/alias", "/root/b.txt");
    disk.delete_file("/root", "alias").unwrap();
    assert!(!disk.has("/root/b.txt"));
    assert!(disk.has("/root/alias"));
}

#[test]
fn delete_that_the_platform_refuses_is_delete_failed() {
    let mut disk = sample();
    disk.refuse_changes = true;
    let err = disk.delete_file("/root", "b.txt").unwrap_err();
    assert_eq!(err.kind, ErrorKind::DeleteFailed);
    assert_eq!(err.message, "Delete failed: Permission denied");
    assert!(disk.has("/root/b.txt"));
}

#[test]
fn delete_of_a_missing_file_is_invalid_path() {
    let mut disk = sample();
    let err = disk.delete_file("/root", "nope").unwrap_err();
    assert_eq!(err.kind, ErrorKind::InvalidPath);
}

// ---- move ----

#[test]
fn move_puts_the_file_into_the_directory_under_its_own_name() {
    let mut disk = sample();
    disk.move_file("/root", "b.txt", "a", false).unwrap();
    assert!(!disk.has("/root/b.txt"));
    assert_eq!(disk.nodes.get("/root/a/b.txt"), Some(&Node::File(0)));
    assert_eq!(
        disk.log,
        vec![
            canonicalize("/root"),
            canonicalize("/root/b.txt"),
            Request::IsFile { path: "/root/b.txt".to_string() },
            Request::Exists { path: "/root/a".to_string() },
            canonicalize("/root/a"),
            Request::Rename { from: "/root/b.txt".to_string(), to: "/root/a/b.txt".to_string() },
        ]
    );
}

#[test]
fn move_to_the_root_is_the_same_for_empty_dot_and_slash() {
    let mut results = Vec::new();
    for to in ["", ".", "/", "  ", " . ", "//", "./"] {
        let mut disk = sample();
        disk.move_file("/root", "a/x.txt", to, false).unwrap();
        assert_eq!(disk.nodes.get("/root/x.txt"), Some(&Node::File(10)));
        assert!(!disk.has("/root/a/x.txt"));
        results.push((disk.nodes, disk.log));
    }
    for other in &results[1..] {
        assert_eq!(other, &results[0]);
    }
}

#[test]
fn move_reads_a_leading_separator_as_relative_to_the_root() {
    let mut disk = sample();
    disk.move_file("/root", "b.txt", "/empty", false).unwrap();
    assert!(disk.has("/root/empty/b.txt"));
    let mut disk = sample();
    disk.move_file("/root", "b.txt", "/etc", true).unwrap();
    assert!(disk.has("/root/etc/b.txt"));
    assert!(!disk.has("/etc/b.txt"));
}

#[test]
fn move_to_a_missing_directory_without_create_changes_nothing() {
    let mut disk = sample();
    let before = disk.nodes.clone();
    let err = disk.move_file("/root", "b.txt", "new/place", false).unwrap_err();
    assert_eq!(err.kind, ErrorKind::DestinationMissing);
    assert_eq!(err.message, "Destination directory does not exist");
    assert!(err.changed_nothing());
    assert_eq!(disk.nodes, before);
    assert!(disk.changes().is_empty());
}

#[test]
fn move_with_create_makes_the_directory_chain_first() {
    let mut disk = sample();
    disk.move_file("/root", "b.txt", "new/place", true).unwrap();
    assert!(disk.has("/root/new"));
    assert!(disk.has("/root/new/place"));
    assert_eq!(disk.nodes.get("/root/new/place/b.txt"), Some(&Node::File(0)));
    assert!(!disk.has("/root/b.txt"));
    assert_eq!(
        disk.log,
        vec![
            canonicalize("/root"),
            canonicalize("/root/b.txt"),
            Request::IsFile { path: "/root/b.txt".to_string() },
            Request::Exists { path: "/root/new/place".to_string() },
            Request::Exists { path: "/root/new".to_string() },
            Request::Exists { path: "/root".to_string() },
            canonicalize("/root"),
            Request::CreateDirAll { path: "/root/new/place".to_string() },
            canonicalize("/root/new/place"),
            Request::Rename {
                from: "/root/b.txt".to_string(),
                to: "/root/new/place/b.txt".to_string(),
            },
        ]
    );
}

#[test]
fn move_of_a_source_that_escapes_is_refused_untouched() {
    let mut disk = sample();
    let before = disk.nodes.clone();
    let err = disk.move_file("/root", "../../etc/passwd", "a", true).unwrap_err();
    assert_eq!(err.kind, ErrorKind::Escape);
    assert!(err.changed_nothing());
    assert_eq!(disk.nodes, before);
    assert!(disk.changes().is_empty());
}

#[test]
fn move_into_an_existing_directory_outside_the_root_is_refused() {
    let mut disk = sample();
    let before = disk.nodes.clone();
    let err = disk.move_file("/root", "b.txt", "../outside", true).unwrap_err();
    assert_eq!(err.kind, ErrorKind::Escape);
    assert_eq!(disk.nodes, before);
    assert!(disk.changes().is_empty());
}

#[test]
fn move_into_a_linked_directory_outside_the_root_is_refused() {
    let mut disk = sample().link("/root/jump", "/outside");
    let before = disk.nodes.clone();
    let err = disk.move_file("/root", "b.txt", "jump", false).unwrap_err();
    assert_eq!(err.kind, ErrorKind::Escape);
    assert_eq!(disk.nodes, before);
}

#[test]
fn move_does_not_create_directories_outside_the_root() {
    let mut disk = sample();
    let before = disk.nodes.clone();
    let err = disk.move_file("/root", "b.txt", "../outside/new", true).unwrap_err();
    assert_eq!(err.kind, ErrorKind::Escape);
    assert!(err.changed_nothing());
    assert_eq!(disk.nodes, before);
    assert!(disk.changes().is_empty());
}

#[test]
fn move_does_not_create_directories_behind_a_link_that_leaves_the_root() {
    let mut disk = sample().link("/root/jump", "/outside");
    let before = disk.nodes.clone();
    let err = disk.move_file("/root", "b.txt", "jump/new/deep", true).unwrap_err();
    assert_eq!(err.kind, ErrorKind::Escape);
    assert_eq!(err.message, "Path escapes selected root");
    assert_eq!(disk.nodes, before);
    assert!(disk.changes().is_empty());
}

#[test]
fn move_does_not_create_a_chain_that_climbs() {
    let mut disk = sample();
    let before = disk.nodes.clone();
    let err = disk.move_file("/root", "b.txt", "new/../../outside/deep", true).unwrap_err();
    assert_eq!(err.kind, ErrorKind::Escape);
    assert_eq!(err.message, "Destination escapes root");
    assert_eq!(disk.nodes, before);
    assert!(disk.changes().is_empty());
}

#[test]
fn move_on_a_directory_is_not_a_file() {
    let mut disk = sample();
    let err = disk.move_file("/root", "a", "empty", false).unwrap_err();
    assert_eq!(err.kind, ErrorKind::NotAFile);
    assert_eq!(err.message, "Source is not a file");
    assert!(disk.changes().is_empty());
}

#[test]
fn move_under_a_missing_root_is_invalid_root() {
    let mut disk = sample();
    let err = disk.move_file("/nowhere", "b.txt", "a", false).unwrap_err();
    assert_eq!(err.kind, ErrorKind::InvalidRoot);
    assert_eq!(err.message, "Invalid root: No such file or directory");
}

#[test]
fn move_where_creating_fails_is_create_failed() {
    let mut disk = sample();
    let err = disk.move_file("/root", "b.txt", "a/x.txt/sub", true).unwrap_err();
    assert_eq!(err.kind, ErrorKind::CreateFailed);
    assert_eq!(err.message, "Failed to create dir: File exists");
    assert!(err.changed_nothing());
    assert!(disk.has("/root/b.txt"));
}

#[test]
fn move_that_fails_after_creating_says_what_it_left_behind() {
    let mut disk = sample();
    disk.refuse_rename = true;
    let err = disk.move_file("/root", "b.txt", "new/place", true).unwrap_err();
    assert_eq!(err.kind, ErrorKind::MoveFailed);
    assert_eq!(err.message, "Move failed: Invalid cross-device link");
    assert_eq!(err.left_behind, Some("/root/new/place".to_string()));
    assert!(!err.changed_nothing());
    assert!(disk.has("/root/new/place"));
    assert!(disk.has("/root/b.txt"));
}

#[test]
fn move_that_the_platform_refuses_is_move_failed() {
    let mut disk = sample();
    disk.refuse_rename = true;
    let err = disk.move_file("/root", "b.txt", "a", false).unwrap_err();
    assert_eq!(err.kind, ErrorKind::MoveFailed);
    assert_eq!(err.left_behind, None);
    assert!(disk.has("/root/b.txt"));
}

// ---- create folder ----

#[test]
fn create_folder_makes_the_directory() {
    let mut disk = sample();
    disk.create_folder("/root", "fresh").unwrap();
    assert_eq!(disk.nodes.get("/root/fresh"), Some(&Node::Dir));
    assert_eq!(
        disk.log,
        vec![
            canonicalize("/root"),
            Request::Exists { path: "/root".to_string() },
            canonicalize("/root"),
            Request::CreateDirAll { path: "/root/fresh".to_string() },
        ]
    );
}

#[test]
fn create_folder_twice_succeeds_and_leaves_the_same_tree() {
    let mut disk = sample();
    disk.create_folder("/root", "fresh/deep").unwrap();
    let after_first = disk.nodes.clone();
    disk.create_folder("/root", "fresh/deep").unwrap();
    assert_eq!(disk.nodes, after_first);
    assert!(disk.has("/root/fresh/deep"));
}

#[test]
fn create_folder_makes_the_whole_chain() {
    let mut disk = sample();
    disk.create_folder("/root", "p/q/r").unwrap();
    assert!(disk.has("/root/p"));
    assert!(disk.has("/root/p/q"));
    assert!(disk.has("/root/p/q/r"));
}

#[test]
fn create_folder_outside_the_root_is_refused() {
    for dir in ["../sneak", "../outside/sneak", "/outside/sneak", "a/../../sneak", "x/../../y"] {
        let mut disk = sample();
        let before = disk.nodes.clone();
        let err = disk.create_folder("/root", dir).unwrap_err();
        assert_eq!(err.kind, ErrorKind::Escape);
        assert!(err.changed_nothing());
        assert_eq!(disk.nodes, before);
        assert!(disk.changes().is_empty());
    }
}

#[test]
fn create_folder_behind_a_link_that_leaves_the_root_is_refused() {
    let mut disk = sample().link("/root/jump", "/outside");
    let before = disk.nodes.clone();
    let err = disk.create_folder("/root", "jump/new").unwrap_err();
    assert_eq!(err.kind, ErrorKind::Escape);
    assert_eq!(disk.nodes, before);
    let err = disk.create_folder("/root", "jump/new/deeper").unwrap_err();
    assert_eq!(err.kind, ErrorKind::Escape);
    assert_eq!(disk.nodes, before);
}

#[test]
fn create_folder_behind_a_link_that_stays_in_the_root_is_made() {
    let mut disk = sample().link("/root/near", "/root/a");
    disk.create_folder("/root", "near/new").unwrap();
    assert!(disk.has("/root/a/new"));
}

#[test]
fn create_folder_under_a_missing_root_is_invalid_root() {
    let mut disk = sample();
    let err = disk.create_folder("/nowhere", "x").unwrap_err();
    assert_eq!(err.kind, ErrorKind::InvalidRoot);
    assert_eq!(err.message, "Failed to canonicalize root: No such file or directory");
}

#[test]
fn create_folder_that_the_platform_refuses_is_create_failed() {
    let mut disk = sample();
    disk.refuse_changes = true;
    let err = disk.create_folder("/root", "fresh").unwrap_err();
    assert_eq!(err.kind, ErrorKind::CreateFailed);
    assert_eq!(err.message, "Create folder failed: Permission denied");
}

#[test]
fn create_folder_where_a_file_is_in_the_way_is_create_failed() {
    let mut disk = sample();
    let err = disk.create_folder("/root", "b.txt").unwrap_err();
    assert_eq!(err.kind, ErrorKind::CreateFailed);
    assert_eq!(err.message, "Create folder failed: File exists");
}

// ---- the dialogue itself ----

fn machine_of(turn: Turn) -> Mutation {
    match turn {
        Turn::Ask { machine, .. } => machine,
        Turn::Finished { result } => panic!("finished with {:?}", result),
    }
}

fn request_of(turn: &Turn) -> Request {
    match turn {
        Turn::Ask { request, .. } => request.clone(),
        Turn::Finished { result } => panic!("finished with {:?}", result),
    }
}

fn error_of(turn: Turn) -> FsError {
    match turn {
        Turn::Finished { result: Err(error) } => error,
        other => panic!("expected an error, got {:?}", other),
    }
}

#[test]
fn every_operation_starts_by_resolving_the_root_as_given() {
    assert_eq!(request_of(&Mutation::rename_file("/r/./", "a", "b")), canonicalize("/r/./"));
    assert_eq!(request_of(&Mutation::delete_file("", "a")), canonicalize(""));
    assert_eq!(request_of(&Mutation::move_file("r", "a", "b", true)), canonicalize("r"));
    assert_eq!(request_of(&Mutation::create_folder("/r", "a")), canonicalize("/r"));
}

#[test]
fn a_reply_of_the_wrong_kind_counts_as_a_failure() {
    let machine = machine_of(Mutation::delete_file("/r", "a"));
    let err = error_of(machine.advance(Reply::Flag { value: true }));
    assert_eq!(err.kind, ErrorKind::InvalidRoot);
    assert_eq!(err.message, "Failed to canonicalize root: unexpected reply");

    let machine = machine_of(Mutation::delete_file("/r", "a"));
    let machine = machine_of(machine.advance(Reply::Canonical { path: "/r".to_string() }));
    let machine = machine_of(machine.advance(Reply::Canonical { path: "/r/a".to_string() }));
    let err = error_of(machine.advance(Reply::Done));
    assert_eq!(err.kind, ErrorKind::NotAFile);

    let machine = machine_of(Mutation::delete_file("/r", "a"));
    let machine = machine_of(machine.advance(Reply::Canonical { path: "/r".to_string() }));
    let machine = machine_of(machine.advance(Reply::Canonical { path: "/r/a".to_string() }));
    let machine = machine_of(machine.advance(Reply::Flag { value: true }));
    let err = error_of(machine.advance(Reply::Flag { value: true }));
    assert_eq!(err.kind, ErrorKind::DeleteFailed);
    assert_eq!(err.message, "Delete failed: unexpected reply");
}

#[test]
fn the_search_for_an_existing_directory_ends_at_the_top() {
    let machine = machine_of(Mutation::create_folder("/r", "a/b"));
    let turn = machine.advance(Reply::Canonical { path: "/r".to_string() });
    assert_eq!(request_of(&turn), Request::Exists { path: "/r/a".to_string() });
    let turn = machine_of(turn).advance(Reply::Flag { value: false });
    assert_eq!(request_of(&turn), Request::Exists { path: "/r".to_string() });
    let turn = machine_of(turn).advance(Reply::Flag { value: false });
    assert_eq!(request_of(&turn), Request::Exists { path: "/".to_string() });
    let err = error_of(machine_of(turn).advance(Reply::Flag { value: false }));
    assert_eq!(err.kind, ErrorKind::InvalidPath);
    assert_eq!(err.message, "No existing directory above the destination");
}

#[test]
fn a_created_directory_that_turns_out_to_lie_outside_is_reported() {
    let mut turn = Mutation::move_file("/r", "f", "new", true);
    for reply in [
        Reply::Canonical { path: "/r".to_string() },
        Reply::Canonical { path: "/r/f".to_string() },
        Reply::Flag { value: true },
        Reply::Flag { value: false },
        Reply::Flag { value: true },
        Reply::Canonical { path: "/r".to_string() },
        Reply::Done,
    ] {
        turn = machine_of(turn).advance(reply);
    }
    assert_eq!(request_of(&turn), canonicalize("/r/new"));
    let err = error_of(machine_of(turn).advance(Reply::Canonical { path: "/x/new".to_string() }));
    assert_eq!(err.kind, ErrorKind::Escape);
    assert_eq!(err.left_behind, Some("/r/new".to_string()));
}

#[test]
fn a_created_directory_that_cannot_be_resolved_is_reported() {
    let mut turn = Mutation::move_file("/r", "f", "new", true);
    for reply in [
        Reply::Canonical { path: "/r".to_string() },
        Reply::Canonical { path: "/r/f".to_string() },
        Reply::Flag { value: true },
        Reply::Flag { value: false },
        Reply::Flag { value: true },
        Reply::Canonical { path: "/r".to_string() },
        Reply::Done,
    ] {
        turn = machine_of(turn).advance(reply);
    }
    let err = error_of(machine_of(turn).advance(Reply::Failed { reason: "gone".to_string() }));
    assert_eq!(err.kind, ErrorKind::InvalidPath);
    assert_eq!(err.message, "Failed to validate created dir: gone");
    assert_eq!(err.left_behind, Some("/r/new".to_string()));
}

#[test]
fn a_source_without_a_name_cannot_be_moved() {
    let mut turn = Mutation::move_file("/", "", "d", false);
    for reply in [
        Reply::Canonical { path: "/".to_string() },
        Reply::Canonical { path: "/".to_string() },
        Reply::Flag { value: true },
        Reply::Flag { value: true },
    ] {
        turn = machine_of(turn).advance(reply);
    }
    assert_eq!(request_of(&turn), canonicalize("/d"));
    let err = error_of(machine_of(turn).advance(Reply::Canonical { path: "/d".to_string() }));
    assert_eq!(err.kind, ErrorKind::NotAFile);
    assert_eq!(err.message, "Source file has no name");
}

#[test]
fn a_file_without_a_directory_cannot_be_renamed() {
    let mut turn = Mutation::rename_file("/", "", "x");
    for reply in [
        Reply::Canonical { path: "/".to_string() },
        Reply::Canonical { path: "/".to_string() },
    ] {
        turn = machine_of(turn).advance(reply);
    }
    let err = error_of(machine_of(turn).advance(Reply::Flag { value: true }));
    assert_eq!(err.kind, ErrorKind::NotAFile);
    assert_eq!(err.message, "File has no parent directory");
}
