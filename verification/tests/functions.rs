use exercises::functions::{area_of, match_found, volume, MATCH_TARGET};

#[test]
fn area_of_two_by_three() {
    assert_eq!(area_of(2, 3), 6);
    assert_eq!(area_of(-2, 3), -6);
    assert_eq!(area_of(0, 12345), 0);
}

#[test]
fn volume_of_two_by_three_by_five() {
    assert_eq!(volume(2, 3, 5), 30);
    assert_eq!(volume(-1, 7, 11), -77);
}

#[test]
fn match_found_only_on_the_target() {
    assert_eq!(MATCH_TARGET, 13);
    assert!(match_found(13));
    assert!(!match_found(0));
    assert!(!match_found(-13));
}
