//! File operations confined to a root directory.
//!
//! Every operation takes the root it must stay in, and acts on nothing
//! whose canonical form, with links and `..` resolved, lies outside the
//! canonical form of that root. The library decides; it does not touch the
//! file system itself. An operation hands its host one [`protocol::Request`]
//! at a time and decides on the [`protocol::Reply`] what comes next, so what
//! it does is a function of the replies and can be stated and proved.
//!
//! - [`path`]: paths as lists of parts, and what "within" means.
//! - [`resolve`]: the check of a canonical path against a canonical root.
//! - [`plan`], [`mutation`]: rename, delete, move and create-directory.
//! - [`confinement`]: what holds of every one of their dialogues.
//! - [`walk`], [`listing`], [`order`]: the ordered listing of the files
//!   below a root.
//! - [`mounts`]: where removable storage is looked for.

pub mod confinement;
pub mod error;
pub mod listing;
pub mod mounts;
pub mod mutation;
pub mod order;
pub mod path;
pub mod plan;
pub mod protocol;
pub mod resolve;
pub mod text;
pub mod walk;
