//! The configuration of one commit, and the check that its source root
//! lies within the workspace.

use vstd::prelude::*;

use crate::error::CommitError;
use crate::paths::{opt_view, starts_with, RelPath};
use crate::plan::PathRules;

verus! {

/// glob's compiled pattern, carried through the options unread; only the
/// file-system expansion looks inside it.
#[verifier::external_type_specification]
#[verifier::external_body]
pub struct ExPattern(glob::Pattern);

/// The options of one commit. `source` and `target` are relative to the
/// workspace; the patterns are expanded against the file system.
pub struct CommitOptions {
    pub message: String,
    pub always: Option<bool>,
    pub source: Option<RelPath>,
    pub target: Option<RelPath>,
    pub included: Option<Vec<glob::Pattern>>,
    pub excluded: Option<Vec<glob::Pattern>>,
    pub flatten: Option<bool>,
    pub force: Option<bool>,
}

impl CommitOptions {
    /// Options with `message` and nothing else set; `always` is off. The
    /// message is required: an empty one is refused.
    pub fn new(message: &str) -> (r: Result<CommitOptions, CommitError>)
        ensures
            message@.len() == 0 <==> r is Err,
            r is Err ==> r->Err_0 is MissingConfiguration,
            r is Ok ==> {
                let o = r->Ok_0;
                &&& o.message@ == message@
                &&& o.always == Some(false)
                &&& o.source is None && o.target is None
                &&& o.included is None && o.excluded is None
                &&& o.flatten is None && o.force is None
            },
    {
        if message.is_empty() {
            return Err(CommitError::MissingConfiguration { name: "message".to_string() });
        }
        Ok(CommitOptions {
            message: message.to_owned(),
            always: Some(false),
            source: None,
            target: None,
            included: None,
            excluded: None,
            flatten: None,
            force: None,
        })
    }

    /// Sets whether a commit is made even when nothing changed.
    pub fn with_always_commit(self, always: Option<bool>) -> (r: CommitOptions)
        ensures
            r == (CommitOptions { always, ..self }),
    {
        CommitOptions { always, ..self }
    }

    /// Sets the directory that destinations are placed under.
    pub fn with_target_directory(self, target: Option<RelPath>) -> (r: CommitOptions)
        ensures
            r == (CommitOptions { target, ..self }),
    {
        CommitOptions { target, ..self }
    }

    /// Sets the directory that candidates are taken from and stripped of.
    pub fn with_source_directory(self, source: Option<RelPath>) -> (r: CommitOptions)
        ensures
            r == (CommitOptions { source, ..self }),
    {
        CommitOptions { source, ..self }
    }

    /// Sets whether parent directories are dropped from destinations.
    pub fn with_flattening(self, flatten: Option<bool>) -> (r: CommitOptions)
        ensures
            r == (CommitOptions { flatten, ..self }),
    {
        CommitOptions { flatten, ..self }
    }

    /// Sets whether the reference may move to a commit that does not
    /// descend from its current one.
    pub fn with_force(self, force: Option<bool>) -> (r: CommitOptions)
        ensures
            r == (CommitOptions { force, ..self }),
    {
        CommitOptions { force, ..self }
    }

    /// Sets the patterns whose matches are candidates.
    pub fn with_include(self, included: Option<Vec<glob::Pattern>>) -> (r: CommitOptions)
        ensures
            r == (CommitOptions { included, ..self }),
    {
        CommitOptions { included, ..self }
    }

    /// Sets the patterns whose matches are never candidates.
    pub fn with_exclude(self, excluded: Option<Vec<glob::Pattern>>) -> (r: CommitOptions)
        ensures
            r == (CommitOptions { excluded, ..self }),
    {
        CommitOptions { excluded, ..self }
    }

    /// The rules by which candidates get their destinations.
    pub fn path_rules(&self) -> (r: PathRules)
        ensures
            opt_view(r.source) == opt_view(self.source),
            opt_view(r.target) == opt_view(self.target),
            r.flatten == (self.flatten == Some(true)),
    {
        let source = match &self.source {
            Some(s) => Some(s.duplicate()),
            None => None,
        };
        let target = match &self.target {
            Some(t) => Some(t.duplicate()),
            None => None,
        };
        let flatten = match self.flatten {
            Some(true) => true,
            _ => false,
        };
        PathRules { source, flatten, target }
    }
}

/// Checks that the resolved source root lies within the workspace; both are
/// absolute paths, as components.
pub fn check_source_root(workspace: &RelPath, resolved: &RelPath) -> (r: Result<(), CommitError>)
    ensures
        r is Ok <==> starts_with(resolved@, workspace@),
        r matches Err(e) ==> (e matches CommitError::WorkspaceBoundaryViolation { source } && source@ == resolved@),
{
    if resolved.starts_with(workspace) {
        Ok(())
    } else {
        Err(CommitError::WorkspaceBoundaryViolation { source: resolved.duplicate() })
    }
}

} // verus!
