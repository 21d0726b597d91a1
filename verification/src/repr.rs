//! Diagnostic output: the per-tick trace and the build-time shape snapshot.
//!
//! Both types are read-only output for external tooling; the tick algorithm
//! never reads them back.

use vstd::prelude::*;
use crate::types::Status;

verus! {

/// Where a trace node points: a leaf, or the index of the child that was
/// active when the tick ended, together with that child's own trace.
pub enum Cursor {
    Leaf,
    Index(usize, Box<DebugRepr>),
}

impl Cursor {
    /// The recorded child index; a leaf reports index zero.
    pub fn index(&self) -> (r: usize)
        ensures
            r == (match *self {
                Cursor::Leaf => 0usize,
                Cursor::Index(i, _) => i,
            }),
    {
        match self {
            Cursor::Leaf => 0,
            Cursor::Index(i, _) => *i,
        }
    }
}

/// One tick's structured record of the path that was taken: a name, the
/// resulting status, an optional free-text parameter blob, an optional
/// boolean override (a condition's outcome), and the cursor into the child
/// trace.
pub struct DebugRepr {
    pub name: String,
    pub status: Status,
    pub params: Option<String>,
    pub overridden: Option<bool>,
    pub cursor: Cursor,
}

impl DebugRepr {
    pub fn new(name: &str, cursor: Cursor, status: Status) -> (r: DebugRepr)
        ensures
            r.name@ == name@,
            r.status == status,
            r.params is None,
            r.overridden is None,
            r.cursor == cursor,
    {
        DebugRepr { name: name.to_owned(), status, params: None, overridden: None, cursor }
    }

    /// Record a condition outcome on the trace.
    pub fn with_override(self, value: bool) -> (r: DebugRepr)
        ensures
            r.name == self.name,
            r.status == self.status,
            r.params == self.params,
            r.overridden == Some(value),
            r.cursor == self.cursor,
    {
        DebugRepr { overridden: Some(value), ..self }
    }
}

/// Shape-only snapshot of a tree, produced once at construction time:
/// a label, an optional detail string, and the children in order.
pub struct TreeRepr {
    pub name: String,
    pub detail: Option<String>,
    pub children: Vec<TreeRepr>,
}

impl TreeRepr {
    pub fn new(name: &str, children: Vec<TreeRepr>) -> (r: TreeRepr)
        ensures
            r.name@ == name@,
            r.detail is None,
            r.children == children,
    {
        TreeRepr { name: name.to_owned(), detail: None, children }
    }

    /// Attach a detail string to the snapshot node.
    pub fn with_detail(self, detail: String) -> (r: TreeRepr)
        ensures
            r.name == self.name,
            r.detail == Some(detail),
            r.children == self.children,
    {
        TreeRepr { detail: Some(detail), ..self }
    }
}

} // verus!
