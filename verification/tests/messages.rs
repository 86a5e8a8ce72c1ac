use pixel_canvas::decimal::append_dec;
use pixel_canvas::errors::{Axis, OutOfBounds, SizeMismatch};

#[test]
fn decimal_rendering() {
    let mut s = String::new();
    append_dec(&mut s, 0);
    assert_eq!(s, "0");

    let mut s = String::new();
    append_dec(&mut s, 7);
    assert_eq!(s, "7");

    let mut s = String::new();
    append_dec(&mut s, 10);
    assert_eq!(s, "10");

    let mut s = String::new();
    append_dec(&mut s, 65535);
    assert_eq!(s, "65535");

    let mut s = String::from("tag: ");
    append_dec(&mut s, 18446744073709551615);
    assert_eq!(s, "tag: 18446744073709551615");
}

#[test]
fn out_of_bounds_message_for_each_axis() {
    assert_eq!(
        OutOfBounds { axis: Axis::X, limit: 65535, value: 60000 }.message(),
        "x out of bounds: the width is 65535 but the x is 60000"
    );
    assert_eq!(
        OutOfBounds { axis: Axis::Y, limit: 100, value: 3000 }.message(),
        "y out of bounds: the height is 100 but the y is 3000"
    );
}

#[test]
fn size_mismatch_message() {
    assert_eq!(
        SizeMismatch { expected: 100, actual: 0 }.message(),
        "snapshot has 0 bytes but the canvas needs 100"
    );
}
