use nova_mod::visuals::{
    fill_class_slots, manual_filter_on, manual_match, record_class, sort_class_groups, ClassGroup,
};

#[test]
fn manual_filter_needs_a_pick() {
    assert!(!manual_filter_on(true, &[0, 0, 0]));
    assert!(manual_filter_on(true, &[0, 0x50, 0]));
    assert!(!manual_filter_on(false, &[0x50]));
    assert!(!manual_filter_on(true, &[]));
}

#[test]
fn manual_match_checks_picks() {
    assert!(manual_match(true, &[0x10, 0x20], 0x20));
    assert!(!manual_match(true, &[0x10, 0x20], 0x30));
    assert!(!manual_match(false, &[0x10, 0x20], 0x20));
}

#[test]
fn tally_counts_each_class_in_first_seen_order() {
    let mut groups = Vec::new();
    for c in [0x30usize, 0x10, 0, 0x30, 0x20, 0x30, 0x10] {
        record_class(&mut groups, c);
    }
    assert_eq!(
        groups,
        vec![
            ClassGroup { class_ptr: 0x30, count: 3 },
            ClassGroup { class_ptr: 0x10, count: 2 },
            ClassGroup { class_ptr: 0x20, count: 1 },
        ]
    );
}

#[test]
fn ranking_is_busiest_first_and_stable() {
    let mut groups = vec![
        ClassGroup { class_ptr: 1, count: 2 },
        ClassGroup { class_ptr: 2, count: 5 },
        ClassGroup { class_ptr: 3, count: 2 },
        ClassGroup { class_ptr: 4, count: 9 },
        ClassGroup { class_ptr: 5, count: 2 },
    ];
    sort_class_groups(&mut groups);
    let order: Vec<usize> = groups.iter().map(|g| g.class_ptr).collect();
    assert_eq!(order, vec![4, 2, 1, 3, 5]);
}

#[test]
fn slots_take_the_top_groups_and_clear_the_rest() {
    let ranked = vec![ClassGroup { class_ptr: 7, count: 4 }, ClassGroup { class_ptr: 8, count: 1 }];
    let mut slots = vec![ClassGroup { class_ptr: 99, count: 99 }; 4];
    fill_class_slots(&mut slots, &ranked);
    assert_eq!(
        slots,
        vec![
            ClassGroup { class_ptr: 7, count: 4 },
            ClassGroup { class_ptr: 8, count: 1 },
            ClassGroup::empty(),
            ClassGroup::empty(),
        ]
    );
    let mut few = vec![ClassGroup::empty(); 1];
    fill_class_slots(&mut few, &ranked);
    assert_eq!(few, vec![ClassGroup { class_ptr: 7, count: 4 }]);
}
