use zip_resize::resize::resize_plan;

#[test]
fn tall_image_reaches_target_height() {
    assert_eq!(resize_plan(2000, 3000, 1800), (1200, 1800));
    assert_eq!(resize_plan(1000, 1800, 1800), (1000, 1800));
}

#[test]
fn width_is_rounded() {
    // 1001 * 1800 / 3000 = 600.6
    assert_eq!(resize_plan(1001, 3000, 1800), (601, 1800));
    // 1000 * 1800 / 2400 = 750
    assert_eq!(resize_plan(1000, 2400, 1800), (750, 1800));
    // 5 * 1800 / 3600 = 2.5 rounds up
    assert_eq!(resize_plan(5, 3600, 1800), (3, 1800));
}

#[test]
fn low_image_unchanged() {
    assert_eq!(resize_plan(2000, 1799, 1800), (2000, 1799));
    assert_eq!(resize_plan(7, 1, 1800), (7, 1));
}

#[test]
fn width_never_below_one_pixel() {
    assert_eq!(resize_plan(1, 4000, 1000), (1, 1000));
}

#[test]
fn largest_sizes_do_not_overflow() {
    assert_eq!(resize_plan(u32::MAX, u32::MAX, u32::MAX), (u32::MAX, u32::MAX));
    assert_eq!(resize_plan(u32::MAX, u32::MAX, 1), (1, 1));
}
