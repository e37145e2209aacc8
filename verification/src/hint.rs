//! Positions, identifiers and the hint records that a provider returns.

use vstd::prelude::*;

use crate::settings::InlayHintKind;

verus! {

/// Identity of a document.
#[derive(Clone, Copy, Debug, PartialEq, Eq, Hash, Structural)]
pub struct BufferId(pub u64);

/// Identity of a region of a document that is mapped into the view.
#[derive(Clone, Copy, Debug, PartialEq, Eq, Hash, Structural)]
pub struct ExcerptId(pub usize);

/// Identity of a hint provider.
#[derive(Clone, Copy, Debug, PartialEq, Eq, Hash, Structural)]
pub struct LanguageServerId(pub usize);

/// Identity of a language.
#[derive(Clone, Copy, Debug, PartialEq, Eq, Hash, Structural)]
pub struct LanguageId(pub usize);

/// A position in a document: a row and a column in it.
#[derive(Clone, Copy, Debug, PartialEq, Eq, Hash, Structural)]
pub struct Point {
    pub row: u32,
    pub column: u32,
}

impl Point {
    /// Positions are ordered by row, then by column.
    pub open spec fn spec_le(self, other: Point) -> bool {
        self.row < other.row || (self.row == other.row && self.column <= other.column)
    }

    #[verifier::when_used_as_spec(spec_le)]
    pub fn le(self, other: Point) -> (r: bool)
        ensures
            r == self.spec_le(other),
    {
        self.row < other.row || (self.row == other.row && self.column <= other.column)
    }
}

/// The rows that a fetch covers: the key under which it is registered.
#[derive(Clone, Copy, Debug, PartialEq, Eq, Hash, Structural)]
pub struct RowRange {
    pub start: u32,
    pub end: u32,
}

/// A span of a document, both ends included.
#[derive(Clone, Copy, Debug, PartialEq, Eq, Hash, Structural)]
pub struct PointRange {
    pub start: Point,
    pub end: Point,
}

impl PointRange {
    /// Whether `point` lies in the span, the two ends included.
    pub open spec fn spec_contains(self, point: Point) -> bool {
        self.start.le(point) && point.le(self.end)
    }

    #[verifier::when_used_as_spec(spec_contains)]
    pub fn contains(self, point: Point) -> (r: bool)
        ensures
            r == self.spec_contains(point),
    {
        self.start.le(point) && point.le(self.end)
    }

    /// The rows from the row of the start to the row of the end.
    pub open spec fn spec_row_range(self) -> RowRange {
        RowRange { start: self.start.row, end: self.end.row }
    }

    #[verifier::when_used_as_spec(spec_row_range)]
    pub fn row_range(self) -> (r: RowRange)
        ensures
            r == self.spec_row_range(),
    {
        RowRange { start: self.start.row, end: self.end.row }
    }
}

/// How far the extra detail of a hint has been fetched.
#[derive(Debug)]
pub enum ResolveState {
    Unresolved,
    /// The provider named can resolve the hint from the data it attached.
    CanResolve(LanguageServerId, String),
    Resolving,
    Resolved,
}

/// What a `ResolveState` holds.
pub enum ResolveStateView {
    Unresolved,
    CanResolve(LanguageServerId, Seq<char>),
    Resolving,
    Resolved,
}

impl View for ResolveState {
    type V = ResolveStateView;

    open spec fn view(&self) -> ResolveStateView {
        match self {
            ResolveState::Unresolved => ResolveStateView::Unresolved,
            ResolveState::CanResolve(server, data) => ResolveStateView::CanResolve(*server, data@),
            ResolveState::Resolving => ResolveStateView::Resolving,
            ResolveState::Resolved => ResolveStateView::Resolved,
        }
    }
}

impl Clone for ResolveState {
    fn clone(&self) -> (r: Self)
        ensures
            r == *self,
    {
        match self {
            ResolveState::Unresolved => ResolveState::Unresolved,
            ResolveState::CanResolve(server, data) => ResolveState::CanResolve(
                *server,
                data.clone(),
            ),
            ResolveState::Resolving => ResolveState::Resolving,
            ResolveState::Resolved => ResolveState::Resolved,
        }
    }
}

impl PartialEq for ResolveState {
    fn eq(&self, other: &Self) -> (r: bool) {
        match (self, other) {
            (ResolveState::Unresolved, ResolveState::Unresolved) => true,
            (ResolveState::CanResolve(a, x), ResolveState::CanResolve(b, y)) => a.0 == b.0 && *x
                == *y,
            (ResolveState::Resolving, ResolveState::Resolving) => true,
            (ResolveState::Resolved, ResolveState::Resolved) => true,
            _ => false,
        }
    }
}

impl vstd::std_specs::cmp::PartialEqSpecImpl for ResolveState {
    open spec fn obeys_eq_spec() -> bool {
        true
    }

    open spec fn eq_spec(&self, other: &Self) -> bool {
        self@ == other@
    }
}

/// One hint as a provider reports it, and as the cache keeps it.
#[derive(Debug)]
pub struct InlayHint {
    pub position: Point,
    pub label: String,
    /// `None` stands for a hint of no particular kind.
    pub kind: Option<InlayHintKind>,
    pub padding_left: bool,
    pub padding_right: bool,
    pub resolve_state: ResolveState,
}

/// What an `InlayHint` holds.
pub struct InlayHintView {
    pub position: Point,
    pub label: Seq<char>,
    pub kind: Option<InlayHintKind>,
    pub padding_left: bool,
    pub padding_right: bool,
    pub resolve_state: ResolveStateView,
}

impl View for InlayHint {
    type V = InlayHintView;

    open spec fn view(&self) -> InlayHintView {
        InlayHintView {
            position: self.position,
            label: self.label@,
            kind: self.kind,
            padding_left: self.padding_left,
            padding_right: self.padding_right,
            resolve_state: self.resolve_state@,
        }
    }
}

impl Clone for InlayHint {
    fn clone(&self) -> (r: Self)
        ensures
            r == *self,
    {
        InlayHint {
            position: self.position,
            label: self.label.clone(),
            kind: self.kind,
            padding_left: self.padding_left,
            padding_right: self.padding_right,
            resolve_state: self.resolve_state.clone(),
        }
    }
}

/// Two records are the same when they hold the same position, text, kind,
/// padding and resolve state.
impl PartialEq for InlayHint {
    fn eq(&self, other: &Self) -> (r: bool) {
        self.position == other.position && self.label == other.label && same_kind(
            self.kind,
            other.kind,
        ) && self.padding_left == other.padding_left && self.padding_right == other.padding_right
            && self.resolve_state == other.resolve_state
    }
}

impl vstd::std_specs::cmp::PartialEqSpecImpl for InlayHint {
    open spec fn obeys_eq_spec() -> bool {
        true
    }

    open spec fn eq_spec(&self, other: &Self) -> bool {
        self@ == other@
    }
}

/// Whether two optional kinds are the same.
pub fn same_kind(a: Option<InlayHintKind>, b: Option<InlayHintKind>) -> (r: bool)
    ensures
        r == (a == b),
{
    match (a, b) {
        (None, None) => true,
        (Some(InlayHintKind::Type), Some(InlayHintKind::Type)) => true,
        (Some(InlayHintKind::Parameter), Some(InlayHintKind::Parameter)) => true,
        _ => false,
    }
}

/// The hints that a provider returned for one part of the rows it was asked for.
#[derive(Debug)]
pub struct HintChunk {
    pub rows: RowRange,
    pub hints: Vec<InlayHint>,
}

} // verus!
