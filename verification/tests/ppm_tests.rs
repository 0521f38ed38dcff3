use rayutils::ppm::write_ppm;

#[test]
fn two_row_image_serializes_exactly() {
    let img = vec![vec![(1u8, 2u8, 3u8)], vec![(4u8, 5u8, 6u8)]];
    assert_eq!(write_ppm(&img), "P3\n1 2\n255\n1 2 3\n4 5 6\n");
}

#[test]
fn single_pixel_image() {
    let img = vec![vec![(0u8, 128u8, 255u8)]];
    assert_eq!(write_ppm(&img), "P3\n1 1\n255\n0 128 255\n");
}

#[test]
fn wide_image_is_row_major() {
    let img = vec![
        vec![(10u8, 20u8, 30u8), (40u8, 50u8, 60u8)],
        vec![(70u8, 80u8, 90u8), (100u8, 110u8, 120u8)],
    ];
    assert_eq!(
        write_ppm(&img),
        "P3\n2 2\n255\n10 20 30\n40 50 60\n70 80 90\n100 110 120\n"
    );
}
