use lib::source_location::{
    RoadEditingByteRange, RoadEditingLocationContext, RoadEditingPropertyPath, RoadEditingPropertyStep,
    RoadEditingSourceAddress, RoadEditingTableKind,
};

#[test]
fn byte_range_must_be_fully_inside_source() {
    let range = RoadEditingByteRange::checked(4, 8, 12).expect("range inside the source");
    assert_eq!((range.start(), range.length()), (4, 8));
    assert!(RoadEditingByteRange::checked(4, 9, 12).is_none());
    assert!(RoadEditingByteRange::checked(u32::MAX, 2, usize::MAX).is_none());
}

#[test]
fn source_address_is_copy_and_context_logical_size_is_closed() {
    fn assert_copy<T: Copy>() {}
    assert_copy::<RoadEditingSourceAddress>();

    let context = RoadEditingLocationContext::new(
        vec!["a".to_string()],
        vec![RoadEditingPropertyPath::new(vec![RoadEditingPropertyStep::TableField {
            table: RoadEditingTableKind::LaneEdge,
            field_id: 0,
        }])],
        vec!["canvas".to_string()],
    );
    assert_eq!(context.source_map_logical_bytes(), 12 + (4 + 1) + (4 + 8) + (4 + 6));
}
