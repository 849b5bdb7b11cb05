use bevy_smud_demo::util::{append_decimal, screenshot_path};

#[test]
fn numbers_are_written_in_decimal() {
    let mut out = String::from("n=");
    append_decimal(&mut out, 0);
    assert_eq!(out, "n=0");
    append_decimal(&mut out, 9);
    append_decimal(&mut out, 10);
    append_decimal(&mut out, 4096);
    assert_eq!(out, "n=09104096");
    let mut big = String::new();
    append_decimal(&mut big, u128::MAX);
    assert_eq!(big, "340282366920938463463374607431768211455");
}

#[test]
fn screenshot_path_holds_the_time() {
    assert_eq!(screenshot_path(0), "./screenshot-0.png");
    assert_eq!(screenshot_path(1761599999123456789), "./screenshot-1761599999123456789.png");
}
