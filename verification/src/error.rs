//! Structured validation failures.
//!
//! Every rejection anywhere in the crate is a [`ValidationError`]: a kind
//! (missing field, invalid field, or anything else), a human-readable
//! message, and the path of the offending field inside the request document.

use vstd::prelude::*;

verus! {

/// One segment of a field path: either a named field of a mapping or a
/// position inside a sequence.
#[derive(Debug, PartialEq, Eq)]
pub enum PathSegment {
    Field(String),
    Item(usize),
}

/// Classifies a validation failure.
#[derive(Clone, Copy, Debug, PartialEq, Eq, Structural)]
pub enum ValidationErrorKind {
    /// A required field is absent.
    MissingField,
    /// A field is present but has the wrong shape or is semantically
    /// contradictory.
    InvalidField,
    /// Any other rejection: disallowed status construction, an out-of-order
    /// step update, an ambiguous aggregation state.
    CustomError,
}

/// A structured validation failure, carrying enough context to render a
/// machine-checkable error object.
#[derive(Debug)]
pub struct ValidationError {
    pub kind: ValidationErrorKind,
    pub message: String,
    pub path: Vec<PathSegment>,
}

/// The mathematical form of a path segment.
pub ghost enum SegView {
    Field(Seq<char>),
    Item(int),
}

impl View for PathSegment {
    type V = SegView;

    open spec fn view(&self) -> SegView {
        match self {
            PathSegment::Field(f) => SegView::Field(f@),
            PathSegment::Item(i) => SegView::Item(*i as int),
        }
    }
}

/// The views of the segments of a path.
pub open spec fn segs_view(path: Seq<PathSegment>) -> Seq<SegView> {
    path.map_values(|s: PathSegment| s@)
}

/// The mathematical form of a validation failure: its kind and the path it
/// points at.  The human-readable message is presentation and carries no
/// meaning of its own.
pub ghost struct ErrView {
    pub kind: ValidationErrorKind,
    pub path: Seq<SegView>,
}

impl View for ValidationError {
    type V = ErrView;

    open spec fn view(&self) -> ErrView {
        ErrView { kind: self.kind, path: segs_view(self.path@) }
    }
}

/// Holds when `s` is a named-field segment for the field `name`.
pub open spec fn seg_is_field(s: PathSegment, name: Seq<char>) -> bool {
    s matches PathSegment::Field(f) && f@ == name
}

/// Holds when `e` points at exactly the single field `name`.
pub open spec fn names_field(e: ValidationError, name: Seq<char>) -> bool {
    e.path@.len() == 1 && seg_is_field(e.path@[0], name)
}

/// The error `e` reported one level deeper, under the segment `seg`.
pub open spec fn prefix_err(e: ErrView, seg: SegView) -> ErrView {
    ErrView { kind: e.kind, path: seq![seg] + e.path }
}

impl ValidationError {
    /// Prepends a named-field segment to the error's path.
    pub fn prefixed_field(self, name: &str) -> (r: ValidationError)
        ensures
            r@ == prefix_err(self@, SegView::Field(name@)),
    {
        let ghost orig = self.path@;
        let mut e = self;
        e.path.insert(0, PathSegment::Field(name.to_owned()));
        proof {
            assert(segs_view(e.path@) =~= seq![SegView::Field(name@)] + segs_view(orig));
        }
        e
    }

    /// Prepends a positional segment to the error's path.
    pub fn prefixed_item(self, index: usize) -> (r: ValidationError)
        ensures
            r@ == prefix_err(self@, SegView::Item(index as int)),
    {
        let ghost orig = self.path@;
        let mut e = self;
        e.path.insert(0, PathSegment::Item(index));
        proof {
            assert(segs_view(e.path@) =~= seq![SegView::Item(index as int)] + segs_view(orig));
        }
        e
    }

    /// Builds a missing-field error for the named field.
    pub fn missing_field(name: &str, message: &str) -> (e: ValidationError)
        ensures
            e.kind == ValidationErrorKind::MissingField,
            names_field(e, name@),
            e.message@ == message@,
    {
        ValidationError {
            kind: ValidationErrorKind::MissingField,
            message: message.to_owned(),
            path: vec![PathSegment::Field(name.to_owned())],
        }
    }
}

/// Rejects an empty evaluation id, as every stored evaluation is keyed by a
/// non-empty opaque identifier.
pub fn validate_id(id: &str) -> (r: Result<(), ValidationError>)
    ensures
        r is Ok <==> id@.len() > 0,
        r matches Err(e) ==> {
            &&& e.kind == ValidationErrorKind::MissingField
            &&& names_field(e, "id"@)
        },
{
    if id.is_empty() {
        Err(ValidationError::missing_field("id", "id is required and cannot be empty."))
    } else {
        Ok(())
    }
}

} // verus!
