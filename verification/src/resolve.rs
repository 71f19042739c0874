//! The confinement check: a path is accepted only if its canonical form is
//! the canonical root or lies below it.
//!
//! Canonical forms come from the file system. Each is handed in as the
//! outcome of resolving one path: `Ok` with the canonical text, or `Err` with
//! the reason why the path could not be resolved.

use crate::error::{failure, ErrorKind, FsError, FsErrorView};
use crate::path::{route_of, Route, RouteView};
use vstd::prelude::*;

verus! {

/// The mathematical value of the outcome of resolving one path.
pub open spec fn outcome_view(outcome: Result<String, String>) -> Result<Seq<char>, Seq<char>> {
    match outcome {
        Ok(text) => Ok(text@),
        Err(reason) => Err(reason@),
    }
}

/// A result of the library agrees with its mathematical value.
pub open spec fn agrees(result: Result<Route, FsError>, model: Result<RouteView, FsErrorView>) -> bool {
    match (result, model) {
        (Ok(route), Ok(view)) => route@ == view,
        (Err(error), Err(view)) => error@ == view,
        _ => false,
    }
}

/// The canonical root as a route, or the error for a root that could not be
/// resolved, whose message starts with `lead`.
pub open spec fn root_spec(lead: Seq<char>, root: Result<Seq<char>, Seq<char>>) -> Result<
    RouteView,
    FsErrorView,
> {
    match root {
        Ok(text) => Ok(route_of(text)),
        Err(reason) => Err(failure(ErrorKind::InvalidRoot, lead, reason)),
    }
}

/// The canonical candidate as a route if it is `base` or lies below it;
/// else the error that says why not.
pub open spec fn within_spec(base: RouteView, candidate: Result<Seq<char>, Seq<char>>) -> Result<
    RouteView,
    FsErrorView,
> {
    match candidate {
        Err(reason) => Err(failure(ErrorKind::InvalidPath, "Failed to canonicalize path: "@, reason)),
        Ok(text) => if route_of(text).within(base) {
            Ok(route_of(text))
        } else {
            Err(failure(ErrorKind::Escape, "Path escapes selected root"@, Seq::empty()))
        },
    }
}

/// What [`canonical_within`] returns: the root is looked at first, then the
/// candidate, then whether the candidate lies within the root.
pub open spec fn canonical_within_spec(
    root: Result<Seq<char>, Seq<char>>,
    candidate: Result<Seq<char>, Seq<char>>,
) -> Result<RouteView, FsErrorView> {
    match root_spec("Failed to canonicalize root: "@, root) {
        Err(error) => Err(error),
        Ok(base) => within_spec(base, candidate),
    }
}

/// Reads the outcome of resolving the root.
pub fn canonical_root(lead: &str, root: &Result<String, String>) -> (result: Result<Route, FsError>)
    ensures
        agrees(result, root_spec(lead@, outcome_view(*root))),
{
    match root {
        Ok(text) => Ok(Route::parse(text.as_str())),
        Err(reason) => Err(FsError::new(ErrorKind::InvalidRoot, lead, reason.as_str())),
    }
}

/// Checks the outcome of resolving a candidate against the canonical root
/// `base`.
pub fn within_root(base: &Route, candidate: &Result<String, String>) -> (result: Result<
    Route,
    FsError,
>)
    ensures
        agrees(result, within_spec(base@, outcome_view(*candidate))),
{
    match candidate {
        Err(reason) => Err(
            FsError::new(ErrorKind::InvalidPath, "Failed to canonicalize path: ", reason.as_str()),
        ),
        Ok(text) => {
            let route = Route::parse(text.as_str());
            if route.starts_with(base) {
                Ok(route)
            } else {
                proof {
                    reveal_strlit("");
                    assert(""@ == Seq::<char>::empty());
                }
                Err(FsError::new(ErrorKind::Escape, "Path escapes selected root", ""))
            }
        },
    }
}

/// Decides whether a candidate path lies within a root, given the outcome of
/// resolving each of them.
///
/// Succeeds, with the canonical candidate, exactly when both were resolved
/// and the canonical candidate is the canonical root or lies below it. The
/// comparison goes part by part, so `/root-evil` is not within `/root`.
pub fn canonical_within(root: &Result<String, String>, candidate: &Result<String, String>) -> (result:
    Result<Route, FsError>)
    ensures
        agrees(result, canonical_within_spec(outcome_view(*root), outcome_view(*candidate))),
        result is Ok <==> (root is Ok && candidate is Ok && route_of(candidate->Ok_0@).within(
            route_of(root->Ok_0@),
        )),
        result matches Ok(route) ==> route@ == route_of(candidate->Ok_0@),
        result matches Err(error) ==> (error@.kind == ErrorKind::InvalidRoot <==> root is Err),
        result matches Err(error) ==> (error@.kind == ErrorKind::InvalidPath <==> root is Ok
            && candidate is Err),
        result matches Err(error) ==> (error@.kind == ErrorKind::Escape <==> root is Ok
            && candidate is Ok),
        result matches Err(error) ==> error@.left_behind.is_none(),
{
    match canonical_root("Failed to canonicalize root: ", root) {
        Err(error) => Err(error),
        Ok(base) => within_root(&base, candidate),
    }
}

} // verus!
