use memory_layout::model::{
    DeclaredOffset, FieldDescriptor, GapSpec, LayoutError, LayoutPlan, PlacedField, TypeSize,
};
use memory_layout::resolve::{close_record, place_field, resolve};

fn at(offset: usize, size: TypeSize) -> FieldDescriptor {
    FieldDescriptor { offset: DeclaredOffset::At(offset), size }
}

fn three(size: TypeSize) -> Vec<FieldDescriptor> {
    vec![at(0x10, size), at(0x20, size), at(0x30, size)]
}

#[test]
fn known_sizes_give_concrete_gaps() {
    let plan = resolve(&three(TypeSize::Known(4)), None).unwrap();
    assert_eq!(
        plan,
        LayoutPlan {
            fields: vec![
                PlacedField { gap: GapSpec::Known(0x10), offset: 0x10, size: TypeSize::Known(4) },
                PlacedField { gap: GapSpec::Known(0x0c), offset: 0x20, size: TypeSize::Known(4) },
                PlacedField { gap: GapSpec::Known(0x0c), offset: 0x30, size: TypeSize::Known(4) },
            ],
            trailing: None,
        }
    );
}

#[test]
fn deferred_sizes_give_symbolic_gaps() {
    let plan = resolve(&three(TypeSize::Deferred), None).unwrap();
    assert_eq!(
        plan,
        LayoutPlan {
            fields: vec![
                PlacedField { gap: GapSpec::Known(0x10), offset: 0x10, size: TypeSize::Deferred },
                PlacedField {
                    gap: GapSpec::Deferred { span: 0x10 },
                    offset: 0x20,
                    size: TypeSize::Deferred,
                },
                PlacedField {
                    gap: GapSpec::Deferred { span: 0x10 },
                    offset: 0x30,
                    size: TypeSize::Deferred,
                },
            ],
            trailing: None,
        }
    );
}

#[test]
fn desired_size_adds_a_trailing_gap() {
    let known = resolve(&three(TypeSize::Known(4)), Some(0x38)).unwrap();
    assert_eq!(known.trailing, Some(GapSpec::Known(4)));
    assert_eq!(known.fields, resolve(&three(TypeSize::Known(4)), None).unwrap().fields);

    let deferred = resolve(&three(TypeSize::Deferred), Some(0x38)).unwrap();
    assert_eq!(deferred.trailing, Some(GapSpec::Deferred { span: 8 }));
    assert_eq!(deferred.fields, resolve(&three(TypeSize::Deferred), None).unwrap().fields);
}

#[test]
fn desired_size_at_the_last_offset_is_too_small_for_a_sized_field() {
    assert_eq!(
        resolve(&three(TypeSize::Known(4)), Some(0x30)),
        Err(LayoutError::SizeTooSmall { desired: 0x30, last_offset: 0x30 })
    );
    assert_eq!(
        resolve(&three(TypeSize::Known(4)), Some(0x33)),
        Err(LayoutError::SizeTooSmall { desired: 0x33, last_offset: 0x30 })
    );
    assert_eq!(
        resolve(&three(TypeSize::Known(4)), Some(0x34)).unwrap().trailing,
        Some(GapSpec::Known(0))
    );
}

#[test]
fn desired_size_at_the_last_offset_holds_an_empty_field() {
    let plan = resolve(&three(TypeSize::Known(0)), Some(0x30)).unwrap();
    assert_eq!(plan.trailing, Some(GapSpec::Known(0)));
}

#[test]
fn desired_size_at_the_last_offset_is_left_to_the_host_for_a_deferred_field() {
    let plan = resolve(&three(TypeSize::Deferred), Some(0x30)).unwrap();
    assert_eq!(plan.trailing, Some(GapSpec::Deferred { span: 0 }));
}

#[test]
fn desired_size_below_the_last_offset_is_too_small() {
    for size in [TypeSize::Known(0), TypeSize::Known(4), TypeSize::Deferred] {
        assert_eq!(
            resolve(&three(size), Some(0x2f)),
            Err(LayoutError::SizeTooSmall { desired: 0x2f, last_offset: 0x30 })
        );
    }
}

#[test]
fn lower_offset_is_an_ordering_fault() {
    for size in [TypeSize::Known(0), TypeSize::Known(4), TypeSize::Deferred] {
        let fields = vec![at(0x10, size), at(0x20, size), at(0x1f, size)];
        assert_eq!(
            resolve(&fields, None),
            Err(LayoutError::OffsetOrdering { field: 2, predecessor: 1 })
        );
        assert_eq!(
            resolve(&fields, Some(0x100)),
            Err(LayoutError::OffsetOrdering { field: 2, predecessor: 1 })
        );
    }
}

#[test]
fn equal_offsets_are_refused_only_behind_a_sized_field() {
    let sized = vec![at(0x10, TypeSize::Known(4)), at(0x10, TypeSize::Known(4))];
    assert_eq!(
        resolve(&sized, None),
        Err(LayoutError::OffsetOrdering { field: 1, predecessor: 0 })
    );

    let empty = vec![at(0x10, TypeSize::Known(0)), at(0x10, TypeSize::Known(4))];
    assert_eq!(resolve(&empty, None).unwrap().fields[1].gap, GapSpec::Known(0));

    let deferred = vec![at(0x10, TypeSize::Deferred), at(0x10, TypeSize::Known(4))];
    assert_eq!(resolve(&deferred, None).unwrap().fields[1].gap, GapSpec::Deferred { span: 0 });
}

#[test]
fn offset_inside_a_sized_predecessor_is_an_ordering_fault() {
    let overlapping = vec![at(0x10, TypeSize::Known(4)), at(0x13, TypeSize::Known(4))];
    assert_eq!(
        resolve(&overlapping, None),
        Err(LayoutError::OffsetOrdering { field: 1, predecessor: 0 })
    );
    let touching = vec![at(0x10, TypeSize::Known(4)), at(0x14, TypeSize::Known(4))];
    assert_eq!(resolve(&touching, None).unwrap().fields[1].gap, GapSpec::Known(0));
}

#[test]
fn first_field_may_sit_at_offset_zero() {
    let plan = resolve(&vec![at(0, TypeSize::Known(4)), at(4, TypeSize::Known(4))], None).unwrap();
    assert_eq!(plan.fields[0].gap, GapSpec::Known(0));
    assert_eq!(plan.fields[1].gap, GapSpec::Known(0));
}

#[test]
fn empty_declaration_with_desired_size_is_one_trailing_gap() {
    let plan = resolve(&Vec::new(), Some(0x20)).unwrap();
    assert_eq!(plan, LayoutPlan { fields: Vec::new(), trailing: Some(GapSpec::Known(0x20)) });
}

#[test]
fn empty_declaration_resolves_to_an_empty_plan() {
    let plan = resolve(&Vec::new(), None).unwrap();
    assert_eq!(plan, LayoutPlan { fields: Vec::new(), trailing: None });
}

#[test]
fn missing_offset_names_the_field() {
    let fields = vec![
        at(0x10, TypeSize::Known(4)),
        FieldDescriptor { offset: DeclaredOffset::Missing, size: TypeSize::Known(4) },
    ];
    assert_eq!(resolve(&fields, None), Err(LayoutError::MissingOffset { field: 1 }));
}

#[test]
fn duplicate_offset_names_the_field() {
    let fields =
        vec![FieldDescriptor { offset: DeclaredOffset::Duplicate, size: TypeSize::Deferred }];
    assert_eq!(resolve(&fields, None), Err(LayoutError::DuplicateOffset { field: 0 }));
}

#[test]
fn malformed_offset_names_the_field() {
    let fields = vec![
        at(0x10, TypeSize::Known(4)),
        at(0x20, TypeSize::Known(4)),
        FieldDescriptor { offset: DeclaredOffset::Malformed, size: TypeSize::Known(4) },
    ];
    assert_eq!(resolve(&fields, None), Err(LayoutError::MalformedOffset { field: 2 }));
}

#[test]
fn earliest_fault_is_reported() {
    let fields = vec![
        at(0x20, TypeSize::Known(4)),
        at(0x10, TypeSize::Known(4)),
        FieldDescriptor { offset: DeclaredOffset::Missing, size: TypeSize::Known(4) },
    ];
    assert_eq!(
        resolve(&fields, Some(0)),
        Err(LayoutError::OffsetOrdering { field: 1, predecessor: 0 })
    );
    let fields = vec![
        FieldDescriptor { offset: DeclaredOffset::Malformed, size: TypeSize::Known(4) },
        FieldDescriptor { offset: DeclaredOffset::Missing, size: TypeSize::Known(4) },
    ];
    assert_eq!(resolve(&fields, None), Err(LayoutError::MalformedOffset { field: 0 }));
}

#[test]
fn field_faults_come_before_the_size_fault() {
    let fields = vec![at(0x20, TypeSize::Known(4)), at(0x10, TypeSize::Known(4))];
    assert_eq!(
        resolve(&fields, Some(0x8)),
        Err(LayoutError::OffsetOrdering { field: 1, predecessor: 0 })
    );
}

#[test]
fn resolving_twice_gives_the_same_plan() {
    for desired in [None, Some(0x38), Some(0x10)] {
        for size in [TypeSize::Known(4), TypeSize::Deferred] {
            let fields = three(size);
            assert_eq!(resolve(&fields, desired), resolve(&fields, desired));
            assert_eq!(fields, three(size));
        }
    }
}

#[test]
fn place_field_is_one_step() {
    let first = at(0x10, TypeSize::Known(4));
    assert_eq!(
        place_field(None, first, 0),
        Ok(PlacedField { gap: GapSpec::Known(0x10), offset: 0x10, size: TypeSize::Known(4) })
    );
    assert_eq!(
        place_field(Some(first), at(0x20, TypeSize::Deferred), 1),
        Ok(PlacedField { gap: GapSpec::Known(0x0c), offset: 0x20, size: TypeSize::Deferred })
    );
    assert_eq!(
        place_field(Some(at(0x20, TypeSize::Deferred)), at(0x30, TypeSize::Known(1)), 2),
        Ok(PlacedField {
            gap: GapSpec::Deferred { span: 0x10 },
            offset: 0x30,
            size: TypeSize::Known(1)
        })
    );
    assert_eq!(
        place_field(Some(first), at(0x0f, TypeSize::Known(4)), 5),
        Err(LayoutError::OffsetOrdering { field: 5, predecessor: 4 })
    );
    assert_eq!(
        place_field(
            Some(first),
            FieldDescriptor { offset: DeclaredOffset::Missing, size: TypeSize::Known(4) },
            7
        ),
        Err(LayoutError::MissingOffset { field: 7 })
    );
}

#[test]
fn close_record_is_the_last_step() {
    let last = at(0x30, TypeSize::Known(4));
    assert_eq!(close_record(None, None), Ok(None));
    assert_eq!(close_record(Some(last), None), Ok(None));
    assert_eq!(close_record(None, Some(0x20)), Ok(Some(GapSpec::Known(0x20))));
    assert_eq!(close_record(Some(last), Some(0x38)), Ok(Some(GapSpec::Known(4))));
    assert_eq!(
        close_record(Some(at(0x30, TypeSize::Deferred)), Some(0x38)),
        Ok(Some(GapSpec::Deferred { span: 8 }))
    );
    assert_eq!(
        close_record(Some(last), Some(0x32)),
        Err(LayoutError::SizeTooSmall { desired: 0x32, last_offset: 0x30 })
    );
}

#[test]
fn largest_offsets_do_not_overflow() {
    let fields = vec![at(0, TypeSize::Known(usize::MAX)), at(usize::MAX, TypeSize::Known(0))];
    let plan = resolve(&fields, Some(usize::MAX)).unwrap();
    assert_eq!(plan.fields[1].gap, GapSpec::Known(0));
    assert_eq!(plan.trailing, Some(GapSpec::Known(0)));
}
