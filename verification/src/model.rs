//! The data that the resolver reads and produces.

use vstd::prelude::*;

verus! {

/// The byte size of a field's type, as far as the resolver knows it.
#[derive(Clone, Copy, Debug, PartialEq, Eq, Structural)]
pub enum TypeSize {
    /// A concrete size, known while resolving.
    Known(usize),
    /// A size that only the host compiler can tell.
    Deferred,
}

/// What a field's declaration says about its offset.
#[derive(Clone, Copy, Debug, PartialEq, Eq, Structural)]
pub enum DeclaredOffset {
    /// The field carries no offset declaration.
    Missing,
    /// The field carries more than one offset declaration.
    Duplicate,
    /// The field's one offset declaration is no unsigned integer that fits the
    /// address space.
    Malformed,
    /// The field is declared at this absolute byte offset.
    At(usize),
}

impl DeclaredOffset {
    /// The declared byte offset; zero where none was validly declared.
    pub open spec fn value(self) -> usize {
        match self {
            DeclaredOffset::At(offset) => offset,
            _ => 0,
        }
    }
}

/// One declared field, in the form the resolver consumes.
#[derive(Clone, Copy, Debug, PartialEq, Eq, Structural)]
pub struct FieldDescriptor {
    pub offset: DeclaredOffset,
    pub size: TypeSize,
}

/// The length of a run of padding bytes.
#[derive(Clone, Copy, Debug, PartialEq, Eq, Structural)]
pub enum GapSpec {
    /// A concrete number of bytes.
    Known(usize),
    /// `span` bytes less the size of the type of the field that precedes the
    /// gap. The host compiler evaluates the difference and must refuse a
    /// negative one.
    Deferred { span: usize },
}

/// A field of a resolved layout, with the gap that precedes it.
#[derive(Clone, Copy, Debug, PartialEq, Eq, Structural)]
pub struct PlacedField {
    pub gap: GapSpec,
    /// The absolute byte offset that was declared for the field.
    pub offset: usize,
    pub size: TypeSize,
}

/// A resolved layout: the fields in declaration order, each behind its gap, and
/// the gap that closes the record where a total size was asked for.
#[derive(Debug, PartialEq, Eq)]
pub struct LayoutPlan {
    pub fields: Vec<PlacedField>,
    pub trailing: Option<GapSpec>,
}

/// The mathematical content of a [`LayoutPlan`].
pub struct LayoutPlanModel {
    pub fields: Seq<PlacedField>,
    pub trailing: Option<GapSpec>,
}

impl View for LayoutPlan {
    type V = LayoutPlanModel;

    open spec fn view(&self) -> LayoutPlanModel {
        LayoutPlanModel { fields: self.fields@, trailing: self.trailing }
    }
}

/// The mathematical content of what resolving returns.
pub open spec fn plan_outcome(r: Result<LayoutPlan, LayoutError>) -> Result<
    LayoutPlanModel,
    LayoutError,
> {
    match r {
        Ok(plan) => Ok(plan@),
        Err(e) => Err(e),
    }
}

/// The kind of item that a declaration declares.
#[derive(Clone, Copy, Debug, PartialEq, Eq, Structural)]
pub enum DeclKind {
    Struct,
    Enum,
    Union,
}

/// Why a declaration has no layout.
#[derive(Clone, Copy, Debug, PartialEq, Eq, Structural)]
pub enum LayoutError {
    /// The declaration is no struct.
    NotAStruct { found: DeclKind },
    /// Annotation `annotation` of the declaration asks for a representation by
    /// hand, which the resolver alone decides.
    ConflictingDirective { annotation: usize },
    /// The desired total size is no unsigned integer.
    MalformedSize,
    /// Field `field` carries no offset declaration.
    MissingOffset { field: usize },
    /// Field `field` carries more than one offset declaration.
    DuplicateOffset { field: usize },
    /// The offset declaration of field `field` is no unsigned integer.
    MalformedOffset { field: usize },
    /// Field `field` starts before the end of field `predecessor`, as far as
    /// that end is known while resolving.
    OffsetOrdering { field: usize, predecessor: usize },
    /// The desired total size cannot hold the last field, declared at
    /// `last_offset`.
    SizeTooSmall { desired: usize, last_offset: usize },
    /// Gap `gap` evaluates to a negative length: the field before it is larger
    /// than the room its successor's offset, or the total size, leaves for it.
    /// The gaps are counted in plan order, the trailing gap last.
    DeferredUnderflow { gap: usize },
    /// The size of the type of field `field` is deferred and was not supplied.
    UnresolvedSize { field: usize },
    /// The evaluated layout does not fit the address space.
    LayoutOverflow,
}

/// A layout with every length evaluated, as a packed representation of a plan
/// has it.
#[derive(Debug, PartialEq, Eq)]
pub struct Layout {
    /// The byte position at which each field starts.
    pub positions: Vec<usize>,
    /// The length of each gap in plan order, the trailing gap last.
    pub gaps: Vec<usize>,
    /// The total size in bytes.
    pub size: usize,
}

/// The mathematical content of a [`Layout`].
pub struct LayoutModel {
    pub positions: Seq<usize>,
    pub gaps: Seq<usize>,
    pub size: usize,
}

impl View for Layout {
    type V = LayoutModel;

    open spec fn view(&self) -> LayoutModel {
        LayoutModel { positions: self.positions@, gaps: self.gaps@, size: self.size }
    }
}

/// The mathematical content of what evaluating returns.
pub open spec fn layout_outcome(r: Result<Layout, LayoutError>) -> Result<
    LayoutModel,
    LayoutError,
> {
    match r {
        Ok(layout) => Ok(layout@),
        Err(e) => Err(e),
    }
}

} // verus!
