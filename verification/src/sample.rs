//! A sample record and its layout.

use vstd::prelude::*;
use crate::evaluate::{end_of, first_stop};
use crate::model::{DeclaredOffset, FieldDescriptor, Layout, TypeSize};
use crate::resolve::{first_fault, resolve};

verus! {

/// A record of three 32-bit fields, declared at the byte offsets `0x10`,
/// `0x20` and `0x30`.
#[derive(Clone, Copy, Debug, PartialEq, Eq)]
pub struct Yeet {
    pub a: i32,
    pub b: i32,
    pub c: i32,
}

impl Yeet {
    /// The fields of the record as declared.
    pub open spec fn declared() -> Seq<FieldDescriptor> {
        seq![
            FieldDescriptor { offset: DeclaredOffset::At(0x10), size: TypeSize::Known(4) },
            FieldDescriptor { offset: DeclaredOffset::At(0x20), size: TypeSize::Known(4) },
            FieldDescriptor { offset: DeclaredOffset::At(0x30), size: TypeSize::Known(4) },
        ]
    }

    /// The fields of the record as declared.
    pub fn fields() -> (r: Vec<FieldDescriptor>)
        ensures
            r@ == Self::declared(),
    {
        let mut fields: Vec<FieldDescriptor> = Vec::new();
        fields.push(FieldDescriptor { offset: DeclaredOffset::At(0x10), size: TypeSize::Known(4) });
        fields.push(FieldDescriptor { offset: DeclaredOffset::At(0x20), size: TypeSize::Known(4) });
        fields.push(FieldDescriptor { offset: DeclaredOffset::At(0x30), size: TypeSize::Known(4) });
        assert(fields@ =~= Self::declared());
        fields
    }

    /// The layout of the record: `0x10` bytes of padding before `a`, `0xc`
    /// before `b` and before `c`, and `0x34` bytes in all.
    pub fn layout() -> (layout: Layout)
        ensures
            layout@.positions == seq![0x10usize, 0x20, 0x30],
            layout@.gaps == seq![0x10usize, 0xc, 0xc],
            layout@.size == 0x34,
    {
        let fields = Self::fields();
        let sizes: Vec<usize> = Vec::new();
        proof {
            reveal_with_fuel(first_fault, 4);
        }
        let plan = resolve(&fields, None).unwrap();
        proof {
            reveal_with_fuel(first_stop, 4);
            reveal_with_fuel(end_of, 4);
        }
        let layout = plan.evaluate(&sizes).unwrap();
        assert(layout@.positions =~= seq![0x10usize, 0x20, 0x30]);
        assert(layout@.gaps =~= seq![0x10usize, 0xc, 0xc]);
        layout
    }
}

} // verus!
