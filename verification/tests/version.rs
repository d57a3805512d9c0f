use data_converter_engine::DataVersion;

#[test]
fn a_version_keeps_what_it_was_made_of() {
    let v = DataVersion::new(3, 7);
    assert_eq!(v.get_version(), 3);
    assert_eq!(v.get_step(), 7);
}

#[test]
fn a_bare_number_is_step_zero() {
    let v: DataVersion = 12.into();
    assert_eq!(v, DataVersion::new(12, 0));
    assert_eq!(DataVersion::from(0), DataVersion::new(0, 0));
}

#[test]
fn versions_compare_by_major_version_first() {
    assert!(DataVersion::new(1, 9) < DataVersion::new(2, 0));
    assert!(DataVersion::new(2, 0) > DataVersion::new(1, 9));
    assert!(DataVersion::new(2, 0) < DataVersion::new(2, 1));
    assert!(DataVersion::new(2, 1) <= DataVersion::new(2, 1));
    assert!(DataVersion::new(2, 1) >= DataVersion::new(2, 1));
    assert!(!(DataVersion::new(2, 1) < DataVersion::new(2, 1)));
    assert_eq!(
        DataVersion::new(5, 5).partial_cmp(&DataVersion::new(5, 5)),
        Some(std::cmp::Ordering::Equal)
    );
    assert_eq!(DataVersion::new(5, 4).cmp(&DataVersion::new(5, 5)), std::cmp::Ordering::Less);
    assert_eq!(DataVersion::new(6, 0).cmp(&DataVersion::new(5, 5)), std::cmp::Ordering::Greater);
}

#[test]
fn the_order_tests_agree_with_the_operators() {
    let a = DataVersion::new(1, 2);
    let b = DataVersion::new(1, 3);
    assert!(a.is_before(&b));
    assert!(!b.is_before(&a));
    assert!(!a.is_before(&a));
    assert!(a.is_at_most(&a));
    assert!(a.is_at_most(&b));
    assert!(!b.is_at_most(&a));
}

#[test]
fn the_interval_is_open_below_and_closed_above() {
    let from = DataVersion::new(1, 0);
    let to = DataVersion::new(2, 0);
    assert!(!DataVersion::new(1, 0).is_within(&from, &to));
    assert!(DataVersion::new(1, 1).is_within(&from, &to));
    assert!(DataVersion::new(2, 0).is_within(&from, &to));
    assert!(!DataVersion::new(2, 1).is_within(&from, &to));
    assert!(!DataVersion::new(0, 5).is_within(&from, &to));
    assert!(!DataVersion::new(1, 0).is_within(&from, &from));
}

#[test]
fn versions_can_be_copied_and_hashed() {
    let v = DataVersion::new(4, 2);
    let copy = v;
    assert_eq!(v, copy);
    let mut set = std::collections::HashSet::new();
    set.insert(v);
    assert!(set.contains(&DataVersion::new(4, 2)));
    assert_eq!(format!("{:?}", v), "DataVersion { version: 4, step: 2 }");
}
