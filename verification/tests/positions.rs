use logd::positions::{get_file_position, set_file_position, PositionMap};

#[test]
fn position_defaults_to_zero() {
    let mut positions = PositionMap::new();
    let path = String::from("/var/log/pods/a.log");
    assert_eq!(get_file_position(&path, &mut positions), 0);
    assert_eq!(positions.len(), 1);
}

#[test]
fn position_is_kept_per_path() {
    let mut positions = PositionMap::new();
    let a = String::from("/var/log/pods/a.log");
    let b = String::from("/var/log/pods/b.log");
    assert!(set_file_position(&a, &mut positions, 12).is_ok());
    assert_eq!(get_file_position(&a, &mut positions), 12);
    assert_eq!(get_file_position(&b, &mut positions), 0);
    assert!(set_file_position(&a, &mut positions, 18).is_ok());
    assert_eq!(get_file_position(&a, &mut positions), 18);
    assert_eq!(positions.len(), 2);
}
