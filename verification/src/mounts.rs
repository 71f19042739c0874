//! Where removable storage is looked for, and how what is found is labelled.

use crate::path::{render, route_of, texts, Route};
use crate::protocol::{item_views, DirItem, DirItemView};
use vstd::prelude::*;

verus! {

/// A place where storage is mounted.
#[derive(Clone, Debug, PartialEq, Eq)]
pub struct MountPoint {
    pub path: String,
    pub label: String,
}

/// The mathematical value of a [`MountPoint`].
pub struct MountPointView {
    pub path: Seq<char>,
    pub label: Seq<char>,
}

impl View for MountPoint {
    type V = MountPointView;

    open spec fn view(&self) -> MountPointView {
        MountPointView { path: self.path@, label: self.label@ }
    }
}

/// The values of a list of mount points.
pub open spec fn mount_views(mounts: Seq<MountPoint>) -> Seq<MountPointView> {
    Seq::new(mounts.len(), |i: int| mounts[i]@)
}

/// The directories whose entries are candidates: `/media`, the directory of
/// `user` under `/run/media` (or `/run/media` itself for the empty name),
/// and `/mnt`.
pub open spec fn scan_dirs_spec(user: Seq<char>) -> Seq<Seq<char>> {
    seq!["/media"@, render(route_of("/run/media"@).join(route_of(user))), "/mnt"@]
}

/// The mount point at `path`, labelled with the last name of `path`, or with
/// `path` itself where it ends in no name.
pub open spec fn mount_of(path: Seq<char>) -> MountPointView {
    MountPointView {
        path,
        label: match route_of(path).file_name() {
            Some(name) => name,
            None => path,
        },
    }
}

/// The mount points among `items`: one for each directory, in order.
pub open spec fn mounts_of(items: Seq<DirItemView>) -> Seq<MountPointView>
    decreases items.len(),
{
    if items.len() == 0 {
        Seq::empty()
    } else if items.last().is_dir {
        mounts_of(items.drop_last()).push(mount_of(items.last().path))
    } else {
        mounts_of(items.drop_last())
    }
}

/// The directories to look into for the mounts of `user`.
pub fn scan_dirs(user: &str) -> (dirs: Vec<String>)
    ensures
        texts(dirs@) == scan_dirs_spec(user@),
{
    let mut dirs: Vec<String> = Vec::new();
    dirs.push(String::from_str("/media"));
    dirs.push(Route::parse("/run/media").join(&Route::parse(user)).render());
    dirs.push(String::from_str("/mnt"));
    proof {
        assert(texts(dirs@) == scan_dirs_spec(user@));
    }
    dirs
}

/// Labels the mount point at `path`.
pub fn mount_point(path: &str) -> (mount: MountPoint)
    ensures
        mount@ == mount_of(path@),
{
    let label = match Route::parse(path).file_name() {
        Some(name) => name,
        None => path.to_owned(),
    };
    MountPoint { path: path.to_owned(), label }
}

/// Picks the mount points out of the entries of a directory.
pub fn mounts_in(items: &Vec<DirItem>) -> (mounts: Vec<MountPoint>)
    ensures
        mount_views(mounts@) == mounts_of(item_views(items@)),
{
    let mut mounts: Vec<MountPoint> = Vec::new();
    let n: usize = items.len();
    let mut i: usize = 0;
    proof {
        assert(item_views(items@).take(0) == Seq::<DirItemView>::empty());
        assert(mount_views(mounts@) == Seq::<MountPointView>::empty());
    }
    while i < n
        invariant
            n == items@.len(),
            i <= n,
            mount_views(mounts@) == mounts_of(item_views(items@).take(i as int)),
        decreases n - i,
    {
        proof {
            let upto = item_views(items@).take(i as int + 1);
            assert(upto.drop_last() == item_views(items@).take(i as int));
            assert(upto.last() == items@[i as int]@);
        }
        if items[i].is_dir {
            let mount = mount_point(items[i].path.as_str());
            proof {
                assert(mount_views(mounts@.push(mount)) == mount_views(mounts@).push(mount@));
            }
            mounts.push(mount);
        }
        i = i + 1;
    }
    proof {
        assert(item_views(items@).take(n as int) == item_views(items@));
    }
    mounts
}

} // verus!
