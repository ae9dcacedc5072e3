use memory_layout::evaluate::evaluate_gap;
use memory_layout::model::{
    DeclaredOffset, FieldDescriptor, GapSpec, Layout, LayoutError, LayoutPlan, PlacedField,
    TypeSize,
};
use memory_layout::resolve::resolve;
use memory_layout::sample::Yeet;

fn at(offset: usize, size: TypeSize) -> FieldDescriptor {
    FieldDescriptor { offset: DeclaredOffset::At(offset), size }
}

fn three(size: TypeSize) -> Vec<FieldDescriptor> {
    vec![at(0x10, size), at(0x20, size), at(0x30, size)]
}

#[test]
fn four_byte_fields_without_desired_size() {
    for size in [TypeSize::Known(4), TypeSize::Deferred] {
        let layout = resolve(&three(size), None).unwrap().evaluate(&vec![4, 4, 4]).unwrap();
        assert_eq!(layout.gaps, vec![0x10, 0x0c, 0x0c]);
        assert_eq!(layout.size, 0x34);
        assert_eq!(layout.positions, vec![0x10, 0x20, 0x30]);
    }
}

#[test]
fn four_byte_fields_with_desired_size() {
    for size in [TypeSize::Known(4), TypeSize::Deferred] {
        let layout = resolve(&three(size), Some(0x38)).unwrap().evaluate(&vec![4, 4, 4]).unwrap();
        assert_eq!(layout.gaps, vec![0x10, 0x0c, 0x0c, 0x04]);
        assert_eq!(layout.size, 0x38);
        assert_eq!(layout.positions, vec![0x10, 0x20, 0x30]);
    }
}

#[test]
fn deferred_field_at_the_desired_size_underflows_when_evaluated() {
    let plan = resolve(&three(TypeSize::Deferred), Some(0x30)).unwrap();
    assert_eq!(plan.evaluate(&vec![4, 4, 4]), Err(LayoutError::DeferredUnderflow { gap: 3 }));
    assert_eq!(plan.evaluate(&vec![4, 4, 0]).unwrap().size, 0x30);
}

#[test]
fn deferred_field_too_large_for_its_room_underflows_when_evaluated() {
    let plan = resolve(&three(TypeSize::Deferred), None).unwrap();
    assert_eq!(plan.evaluate(&vec![4, 0x11, 4]), Err(LayoutError::DeferredUnderflow { gap: 2 }));
    assert_eq!(plan.evaluate(&vec![0x11, 0x11, 4]), Err(LayoutError::DeferredUnderflow { gap: 1 }));
    assert_eq!(plan.evaluate(&vec![0x10, 0x10, 4]).unwrap().gaps, vec![0x10, 0, 0]);
}

#[test]
fn positions_are_the_declared_offsets() {
    let fields = vec![
        at(0, TypeSize::Known(1)),
        at(1, TypeSize::Deferred),
        at(9, TypeSize::Known(0)),
        at(9, TypeSize::Deferred),
        at(0x100, TypeSize::Known(16)),
    ];
    let layout = resolve(&fields, None).unwrap().evaluate(&vec![0, 8, 0, 0xf7, 0]).unwrap();
    assert_eq!(layout.positions, vec![0, 1, 9, 9, 0x100]);
    assert_eq!(layout.gaps, vec![0, 0, 0, 0, 0]);
    assert_eq!(layout.size, 0x110);

    let layout = resolve(&fields, Some(0x200)).unwrap().evaluate(&vec![0, 2, 0, 3, 0]).unwrap();
    assert_eq!(layout.positions, vec![0, 1, 9, 9, 0x100]);
    assert_eq!(layout.gaps, vec![0, 0, 6, 0, 0xf4, 0xf0]);
    assert_eq!(layout.size, 0x200);
}

#[test]
fn known_sizes_are_not_read_from_the_supplied_ones() {
    let layout = resolve(&three(TypeSize::Known(4)), None).unwrap().evaluate(&vec![9, 9, 9]);
    assert_eq!(layout.unwrap().size, 0x34);
    let layout = resolve(&three(TypeSize::Known(4)), None).unwrap().evaluate(&Vec::new());
    assert_eq!(layout.unwrap().size, 0x34);
}

#[test]
fn deferred_size_that_is_not_supplied_is_unresolved() {
    let plan = resolve(&three(TypeSize::Deferred), None).unwrap();
    assert_eq!(plan.evaluate(&vec![4, 4]), Err(LayoutError::UnresolvedSize { field: 2 }));
    assert_eq!(plan.evaluate(&Vec::new()), Err(LayoutError::UnresolvedSize { field: 0 }));
}

#[test]
fn underflow_is_found_before_an_unresolved_size() {
    let plan = resolve(&three(TypeSize::Deferred), None).unwrap();
    assert_eq!(plan.evaluate(&vec![0x11]), Err(LayoutError::DeferredUnderflow { gap: 1 }));
}

#[test]
fn layout_beyond_the_address_space_overflows() {
    let fields = vec![at(usize::MAX, TypeSize::Deferred)];
    let plan = resolve(&fields, None).unwrap();
    assert_eq!(plan.evaluate(&vec![1]), Err(LayoutError::LayoutOverflow));
    assert_eq!(plan.evaluate(&vec![0]).unwrap().size, usize::MAX);

    let by_hand = LayoutPlan {
        fields: vec![PlacedField {
            gap: GapSpec::Known(8),
            offset: 8,
            size: TypeSize::Known(usize::MAX - 8),
        }],
        trailing: Some(GapSpec::Known(1)),
    };
    assert_eq!(by_hand.evaluate(&Vec::new()), Err(LayoutError::LayoutOverflow));
}

#[test]
fn empty_plans_evaluate_to_their_trailing_gap() {
    let layout = resolve(&Vec::new(), Some(0x20)).unwrap().evaluate(&Vec::new()).unwrap();
    assert_eq!(layout, Layout { positions: Vec::new(), gaps: vec![0x20], size: 0x20 });
    let layout = resolve(&Vec::new(), None).unwrap().evaluate(&Vec::new()).unwrap();
    assert_eq!(layout, Layout { positions: Vec::new(), gaps: Vec::new(), size: 0 });
}

#[test]
fn deferred_gap_before_the_first_field_subtracts_nothing() {
    let by_hand = LayoutPlan {
        fields: vec![PlacedField {
            gap: GapSpec::Deferred { span: 6 },
            offset: 6,
            size: TypeSize::Known(2),
        }],
        trailing: None,
    };
    assert_eq!(
        by_hand.evaluate(&Vec::new()),
        Ok(Layout { positions: vec![6], gaps: vec![6], size: 8 })
    );
}

#[test]
fn evaluate_gap_subtracts_the_preceding_size() {
    assert_eq!(evaluate_gap(GapSpec::Known(7), 100), Some(7));
    assert_eq!(evaluate_gap(GapSpec::Deferred { span: 0x10 }, 4), Some(0x0c));
    assert_eq!(evaluate_gap(GapSpec::Deferred { span: 4 }, 4), Some(0));
    assert_eq!(evaluate_gap(GapSpec::Deferred { span: 3 }, 4), None);
}

#[test]
fn sample_record_is_fifty_two_bytes() {
    let layout = Yeet::layout();
    assert_eq!(layout.size, 52);
    assert_eq!(layout.positions, vec![0x10, 0x20, 0x30]);
    assert_eq!(layout.gaps, vec![0x10, 0x0c, 0x0c]);
    assert_eq!(Yeet::fields(), three(TypeSize::Known(4)));
    let record = Yeet { a: 1, b: 2, c: 3 };
    assert_eq!(record, Yeet { a: 1, b: 2, c: 3 });
}
