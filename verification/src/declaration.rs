//! Declarations as the front end hands them over, and the way from a
//! declaration to its layout plan.

use vstd::prelude::*;
use crate::literal::{
    literal_value, offset_from_literal, offset_of_literal, parse_literal, size_from_literal,
    size_of_literal,
};
use crate::model::{
    plan_outcome, DeclKind, DeclaredOffset, FieldDescriptor, LayoutError, LayoutPlan,
    LayoutPlanModel, TypeSize,
};
use crate::resolve::{resolve, resolve_spec};

verus! {

/// One annotation of a declaration or of a field: its name, and the text of
/// its arguments, empty where it has none.
#[derive(Debug, PartialEq, Eq)]
pub struct Annotation {
    pub name: String,
    pub args: String,
}

/// One field as declared: its annotations, and the size of its type as far as
/// the front end knows it.
#[derive(Debug, PartialEq, Eq)]
pub struct FieldDecl {
    pub annotations: Vec<Annotation>,
    pub size: TypeSize,
}

/// A declaration: what kind of item it is, its own annotations, the text of
/// the desired total size where one is given, and its fields in order.
#[derive(Debug, PartialEq, Eq)]
pub struct Declaration {
    pub kind: DeclKind,
    pub annotations: Vec<Annotation>,
    pub size: Option<String>,
    pub fields: Vec<FieldDecl>,
}

/// The name of the annotation that declares a field's offset.
pub open spec fn offset_name() -> Seq<char> {
    "field_offset"@
}

/// The name of the annotation that asks for a representation by hand.
pub open spec fn directive_name() -> Seq<char> {
    "repr"@
}

/// The place of the first annotation called `name` at or behind place `from`.
pub open spec fn first_named(annotations: Seq<Annotation>, name: Seq<char>, from: int) -> Option<
    int,
>
    decreases annotations.len() - from,
{
    if from < 0 || from >= annotations.len() {
        None
    } else if annotations[from].name@ == name {
        Some(from)
    } else {
        first_named(annotations, name, from + 1)
    }
}

/// Finds the first annotation called `name` at or behind place `from`.
pub fn find_named(annotations: &Vec<Annotation>, name: &str, from: usize) -> (r: Option<usize>)
    ensures
        r is Some <==> first_named(annotations@, name@, from as int) is Some,
        r matches Some(found) ==> first_named(annotations@, name@, from as int) == Some(
            found as int,
        ),
{
    let key: String = name.to_owned();
    let mut i: usize = from;
    while i < annotations.len()
        invariant
            key@ == name@,
            first_named(annotations@, name@, from as int) == first_named(
                annotations@,
                name@,
                i as int,
            ),
        decreases annotations.len() - i,
    {
        if annotations[i].name == key {
            return Some(i);
        }
        i += 1;
    }
    None
}

impl Annotation {
    /// Whether the annotation declares a field's offset.
    pub open spec fn declares_offset(&self) -> bool {
        self.name@ == offset_name()
    }

    /// Whether the annotation declares a field's offset. Such annotations are
    /// consumed by the resolver; every other one is kept as it stands.
    pub fn is_offset(&self) -> (r: bool)
        ensures
            r == self.declares_offset(),
    {
        let key: String = "field_offset".to_owned();
        self.name == key
    }
}

/// What the kind of a declaration allows: only a struct has a layout to
/// resolve.
pub open spec fn kind_check(kind: DeclKind) -> Result<(), LayoutError> {
    match kind {
        DeclKind::Struct => Ok(()),
        _ => Err(LayoutError::NotAStruct { found: kind }),
    }
}

/// Accepts a struct and refuses any other kind of declaration.
pub fn require_struct(kind: DeclKind) -> (r: Result<(), LayoutError>)
    ensures
        r == kind_check(kind),
{
    match kind {
        DeclKind::Struct => Ok(()),
        DeclKind::Enum => Err(LayoutError::NotAStruct { found: DeclKind::Enum }),
        DeclKind::Union => Err(LayoutError::NotAStruct { found: DeclKind::Union }),
    }
}

/// What the annotations of a declaration allow: the first that asks for a
/// representation by hand is a fault.
pub open spec fn directive_check(annotations: Seq<Annotation>) -> Result<(), LayoutError> {
    match first_named(annotations, directive_name(), 0) {
        Some(annotation) => Err(
            LayoutError::ConflictingDirective { annotation: annotation as usize },
        ),
        None => Ok(()),
    }
}

/// Refuses a declaration that already asks for a representation by hand: the
/// resolver is the one authority over the layout.
pub fn validate_no_conflicting_layout_directive(annotations: &Vec<Annotation>) -> (r: Result<
    (),
    LayoutError,
>)
    ensures
        r == directive_check(annotations@),
{
    match find_named(annotations, "repr", 0) {
        Some(annotation) => Err(LayoutError::ConflictingDirective { annotation }),
        None => Ok(()),
    }
}

/// What the annotations of a field declare about its offset: nothing without
/// an offset annotation, nothing usable with several, else what the arguments
/// of the one read as.
pub open spec fn offset_declared_by(annotations: Seq<Annotation>) -> DeclaredOffset {
    match first_named(annotations, offset_name(), 0) {
        None => DeclaredOffset::Missing,
        Some(first) => if first_named(annotations, offset_name(), first + 1) is Some {
            DeclaredOffset::Duplicate
        } else {
            offset_of_literal(literal_value(annotations[first].args@))
        },
    }
}

/// Reads the offset that the annotations of a field declare.
pub fn declared_offset(annotations: &Vec<Annotation>) -> (r: DeclaredOffset)
    ensures
        r == offset_declared_by(annotations@),
{
    match find_named(annotations, "field_offset", 0) {
        None => DeclaredOffset::Missing,
        Some(first) => {
            assert(first < annotations.len()) by {
                lemma_first_named_is_named(annotations@, offset_name(), 0);
            }
            if find_named(annotations, "field_offset", first + 1).is_some() {
                DeclaredOffset::Duplicate
            } else {
                offset_from_literal(parse_literal(annotations[first].args.as_str()))
            }
        },
    }
}

/// The annotation that `first_named` finds lies at or behind `from`, carries
/// the name, and is the first such: none between `from` and it carries the
/// name. Where it finds none, no annotation at or behind `from` carries it.
pub proof fn lemma_first_named_is_named(annotations: Seq<Annotation>, name: Seq<char>, from: int)
    requires
        0 <= from,
    ensures
        match first_named(annotations, name, from) {
            Some(found) => {
                &&& from <= found < annotations.len()
                &&& annotations[found].name@ == name
                &&& forall|j: int| from <= j < found ==> annotations[j].name@ != name
            },
            None => forall|j: int| from <= j < annotations.len() ==> annotations[j].name@ != name,
        },
    decreases annotations.len() - from,
{
    if from < annotations.len() && annotations[from].name@ != name {
        lemma_first_named_is_named(annotations, name, from + 1);
    }
}

/// A declared field in the form the resolver consumes.
pub open spec fn descriptor_of(field: FieldDecl) -> FieldDescriptor {
    FieldDescriptor { offset: offset_declared_by(field.annotations@), size: field.size }
}

/// The declared fields in the form the resolver consumes.
pub open spec fn descriptors_of(fields: Seq<FieldDecl>) -> Seq<FieldDescriptor> {
    Seq::new(fields.len(), |i: int| descriptor_of(fields[i]))
}

/// Reads the offset declaration of every field.
pub fn describe_fields(fields: &Vec<FieldDecl>) -> (r: Vec<FieldDescriptor>)
    ensures
        r@ == descriptors_of(fields@),
{
    let mut described: Vec<FieldDescriptor> = Vec::new();
    let mut i: usize = 0;
    while i < fields.len()
        invariant
            i <= fields.len(),
            described@.len() == i,
            forall|k: int| 0 <= k < i ==> described@[k] == descriptor_of(fields@[k]),
        decreases fields.len() - i,
    {
        let offset = declared_offset(&fields[i].annotations);
        described.push(FieldDescriptor { offset, size: fields[i].size });
        i += 1;
    }
    assert(described@ =~= descriptors_of(fields@));
    described
}

/// The total size that a declaration desires: none where it gives no text,
/// else what the text reads as.
pub open spec fn size_desired_by(size: Option<String>) -> Result<Option<usize>, LayoutError> {
    match size {
        None => Ok(None),
        Some(text) => match size_of_literal(literal_value(text@)) {
            Ok(total) => Ok(Some(total)),
            Err(e) => Err(e),
        },
    }
}

/// Reads the desired total size of a declaration.
pub fn desired_size(size: &Option<String>) -> (r: Result<Option<usize>, LayoutError>)
    ensures
        r == size_desired_by(*size),
{
    match size {
        None => Ok(None),
        Some(text) => match size_from_literal(parse_literal(text.as_str())) {
            Ok(total) => Ok(Some(total)),
            Err(e) => Err(e),
        },
    }
}

/// What planning a declaration gives. Faults are looked for in this order:
/// the kind of the declaration, a representation asked for by hand, the
/// desired total size, the fields in declaration order, and last the room
/// that the desired size leaves for the last field.
pub open spec fn plan_spec(decl: Declaration) -> Result<LayoutPlanModel, LayoutError> {
    match kind_check(decl.kind) {
        Err(e) => Err(e),
        Ok(_) => match directive_check(decl.annotations@) {
            Err(e) => Err(e),
            Ok(_) => match size_desired_by(decl.size) {
                Err(e) => Err(e),
                Ok(desired) => resolve_spec(descriptors_of(decl.fields@), desired),
            },
        },
    }
}

/// Plans the memory layout of a declaration: checks that it is a struct
/// without a representation asked for by hand, reads the desired total size
/// and the offset of every field, and resolves them.
pub fn memory_layout(decl: &Declaration) -> (r: Result<LayoutPlan, LayoutError>)
    ensures
        plan_outcome(r) == plan_spec(*decl),
{
    if let Err(e) = require_struct(decl.kind) {
        return Err(e);
    }
    if let Err(e) = validate_no_conflicting_layout_directive(&decl.annotations) {
        return Err(e);
    }
    let desired = match desired_size(&decl.size) {
        Ok(desired) => desired,
        Err(e) => {
            return Err(e);
        },
    };
    let fields = describe_fields(&decl.fields);
    resolve(&fields, desired)
}

} // verus!
