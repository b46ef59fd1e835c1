//! Structured errors for construction, registration, encoding and decoding.

use vstd::prelude::*;

verus! {

/// The error taxonomy of the library.  Every fallible operation reports one
/// of these kinds; callers can branch on the kind.
#[derive(Clone, Copy, Debug, PartialEq, Eq, Structural)]
pub enum ErrorKind {
    /// A numeric field violates its invariant (negative or non-finite).
    ValidationError,
    /// A tag was registered twice.
    DuplicateTag,
    /// A discriminator names no registered variant.
    UnknownVariant,
    /// An envelope carries no usable discriminator.
    MissingTag,
    /// A discriminator resolved, but a required field is absent or of the
    /// wrong shape.
    SchemaViolation,
    /// A composite is nested deeper than the configured maximum.
    DepthExceeded,
}

/// An error together with the path of composite item indices that leads to
/// the node at which it arose.  An empty path names the root.
#[derive(Debug, PartialEq)]
pub struct ShapeError {
    pub kind: ErrorKind,
    pub path: Vec<usize>,
}

/// The model of an error: its kind and the composite path to its node.
pub ghost struct ErrModel {
    pub kind: ErrorKind,
    pub path: Seq<usize>,
}

/// An error located at the root.
pub open spec fn err_at_root(kind: ErrorKind) -> ErrModel {
    ErrModel { kind, path: Seq::empty() }
}

impl View for ShapeError {
    type V = ErrModel;

    open spec fn view(&self) -> ErrModel {
        ErrModel { kind: self.kind, path: self.path@ }
    }
}

impl ShapeError {
    /// An error at the root, with an empty path.
    pub fn at_root(kind: ErrorKind) -> (r: ShapeError)
        ensures
            r.kind == kind,
            r.path@ == Seq::<usize>::empty(),
    {
        ShapeError { kind, path: Vec::new() }
    }

    /// The same error, located one composite level deeper, under item `idx`.
    pub fn under_item(self, idx: usize) -> (r: ShapeError)
        ensures
            r.kind == self.kind,
            r.path@ == seq![idx] + self.path@,
    {
        let ghost orig: Seq<usize> = self.path@;
        let kind = self.kind;
        let mut path = self.path;
        path.insert(0, idx);
        proof {
            assert(path@ =~= seq![idx] + orig);
        }
        ShapeError { kind, path }
    }
}

} // verus!
