use rmatrix::color::RColor;

#[test]
fn color_from_bytes() {
    assert_eq!(RColor::new(0, 255, 7).0, (0, 255, 7));
    assert_eq!(RColor::from((1, 2, 3)).0, (1, 2, 3));
    assert_eq!(RColor::default().0, (0, 0, 0));
}

#[test]
fn color_channels_are_brought_into_a_byte() {
    assert_eq!(RColor((-5, 300, 128)).tuple(), (0, 255, 128));
    assert_eq!(RColor((0, 255, 256)).tuple(), (0, 255, 255));
    let t: (u8, u8, u8) = RColor((i16::MIN, i16::MAX, 1)).into();
    assert_eq!(t, (0, 255, 1));
}

#[test]
fn color_sum_and_difference_saturate() {
    let a = RColor((10, 32000, -32000));
    let b = RColor((-20, 1000, -1000));
    assert_eq!(a.add(&b).0, (-10, i16::MAX, i16::MIN));
    assert_eq!(a.sub(&b).0, (30, 31000, -31000));
    assert_eq!(b.sub(&a).0, (-30, -31000, 31000));
    assert_eq!(RColor((i16::MIN, 0, 5)).sub(&RColor((1, i16::MIN, 5))).0, (i16::MIN, i16::MAX, 0));
}
