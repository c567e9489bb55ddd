use altered_perception::Luma;
use rgb::RGB;

#[test]
fn luma8_to_rgb8() {
    (0..=u8::MAX).for_each(|r| {
        let luma_pixel = Luma::new(r);
        let intermediate: RGB<u8> = Luma::to_rgb::<u8>(luma_pixel);
        let final_out = Luma::from_rgb(intermediate);

        assert_eq!(luma_pixel, final_out);
    });
}

#[test]
fn luma_new_keeps_the_luminance() {
    assert_eq!(Luma::new(167u8).luminance, 167);
    assert_eq!(Luma::new(0.25f64).luminance, 0.25);
}

#[test]
fn luma_replicates_its_value() {
    let rgb_pixel = Luma::to_rgb::<u8>(Luma::new(167u8));
    assert_eq!(rgb_pixel, RGB::new(167, 167, 167));
}

#[test]
fn luma_zero_goes_to_black_and_back() {
    let rgb_pixel = Luma::to_rgb::<u8>(Luma::new(0u8));
    assert_eq!(rgb_pixel, RGB::new(0, 0, 0));
    assert_eq!(Luma::from_rgb(rgb_pixel), Luma::new(0u8));
}

#[test]
fn luma_converts_into_a_wider_channel() {
    let wide = Luma::to_rgb::<u16>(Luma::new(255u8));
    assert_eq!(wide, RGB::new(255u16, 255, 255));
    let float = Luma::to_rgb::<f64>(Luma::new(155u8));
    assert_eq!(float, RGB::new(155.0, 155.0, 155.0));
    let same = Luma::to_rgb::<f32>(Luma::new(0.5f32));
    assert_eq!(same, RGB::new(0.5f32, 0.5, 0.5));
}

#[test]
fn luminance_of_the_primaries() {
    assert_eq!(Luma::from_rgb(RGB::new(255u8, 0, 0)).luminance, 139);
    assert_eq!(Luma::from_rgb(RGB::new(0u8, 255, 0)).luminance, 195);
    assert_eq!(Luma::from_rgb(RGB::new(0u8, 0, 255)).luminance, 86);
    assert_eq!(Luma::from_rgb(RGB::new(255u8, 255, 0)).luminance, 240);
}

#[test]
fn luminance_of_black_and_white() {
    assert_eq!(Luma::from_rgb(RGB::new(0u8, 0, 0)).luminance, 0);
    assert_eq!(Luma::from_rgb(RGB::new(255u8, 255, 255)).luminance, 255);
}

#[test]
fn luminance_of_small_channels() {
    assert_eq!(Luma::from_rgb(RGB::new(1u8, 2, 3)).luminance, 2);
    assert_eq!(Luma::from_rgb(RGB::new(1u8, 0, 0)).luminance, 1);
    assert_eq!(Luma::from_rgb(RGB::new(0u8, 1, 0)).luminance, 1);
    assert_eq!(Luma::from_rgb(RGB::new(0u8, 0, 1)).luminance, 0);
    assert_eq!(Luma::from_rgb(RGB::new(0u8, 0, 2)).luminance, 1);
    assert_eq!(Luma::from_rgb(RGB::new(12u8, 200, 77)).luminance, 156);
}

#[test]
fn luminance_of_a_tie_is_that_of_double_arithmetic() {
    // 0.299 * 34^2 + 0.587 * 26^2 + 0.114 * 11^2 is 756.25 = 27.5^2, but
    // the sum of the rounded products is the double just below it
    assert_eq!(Luma::from_rgb(RGB::new(34u8, 26, 11)).luminance, 27);
    assert_eq!(Luma::from_rgb(RGB::new(130u8, 130, 95)).luminance, 126);
    assert_eq!(Luma::from_rgb(RGB::new(230u8, 230, 5)).luminance, 216);
    // the sum of the rounded products is 56.5^2 itself, and 24.5^2
    assert_eq!(Luma::from_rgb(RGB::new(10u8, 10, 165)).luminance, 57);
    assert_eq!(Luma::from_rgb(RGB::new(22u8, 10, 59)).luminance, 25);
}

fn luminance_in_doubles(r: u8, g: u8, b: u8) -> u8 {
    let (rf, gf, bf) = (r as f64, g as f64, b as f64);
    (0.299 * rf.powi(2) + 0.587 * gf.powi(2) + 0.114 * bf.powi(2)).sqrt().round() as u8
}

#[test]
fn luminance_of_every_tie_is_that_of_double_arithmetic() {
    // the pixels whose weighted sum of squares is the square of a whole
    // number and a half
    let ties: [(u8, u8, u8, u8); 43] = [
        (2, 82, 213, 96), (10, 10, 165, 57), (10, 190, 185, 159), (22, 10, 59, 25),
        (26, 154, 59, 121), (26, 230, 47, 178), (34, 26, 11, 27), (34, 34, 159, 63),
        (34, 50, 223, 87), (46, 50, 37, 48), (46, 166, 189, 145), (58, 82, 103, 79),
        (66, 30, 177, 74), (74, 86, 171, 97), (74, 154, 41, 126), (94, 170, 93, 144),
        (98, 58, 157, 88), (102, 78, 33, 83), (106, 46, 111, 78), (106, 230, 57, 187),
        (106, 254, 239, 219), (110, 50, 145, 87), (118, 38, 167, 91), (118, 82, 157, 105),
        (122, 10, 241, 106), (130, 130, 95, 126), (134, 94, 71, 106), (138, 150, 111, 143),
        (142, 98, 137, 118), (146, 46, 71, 91), (146, 70, 63, 99), (146, 230, 187, 204),
        (154, 146, 179, 153), (154, 230, 87, 198), (170, 70, 245, 136), (170, 130, 55, 138),
        (178, 178, 53, 169), (218, 130, 21, 156), (230, 130, 55, 162), (230, 130, 245, 181),
        (230, 230, 5, 216), (230, 250, 185, 238), (238, 182, 77, 193),
    ];
    for (r, g, b, expected) in ties {
        assert_eq!(Luma::from_rgb(RGB::new(r, g, b)).luminance, expected);
        assert_eq!(luminance_in_doubles(r, g, b), expected);
    }
}

#[test]
fn luminance_is_that_of_double_arithmetic_on_a_grid() {
    for r in (0..=255u8).step_by(5) {
        for g in (0..=255u8).step_by(3) {
            for b in (0..=255u8).step_by(2) {
                assert_eq!(
                    Luma::from_rgb(RGB::new(r, g, b)).luminance,
                    luminance_in_doubles(r, g, b)
                );
            }
        }
    }
}

#[test]
fn luminance_is_that_of_double_arithmetic_near_the_ends() {
    let ends: [u8; 12] = [0, 1, 2, 3, 4, 127, 128, 251, 252, 253, 254, 255];
    for r in ends {
        for g in ends {
            for b in 0..=255u8 {
                assert_eq!(
                    Luma::from_rgb(RGB::new(r, g, b)).luminance,
                    luminance_in_doubles(r, g, b)
                );
                assert_eq!(
                    Luma::from_rgb(RGB::new(b, r, g)).luminance,
                    luminance_in_doubles(b, r, g)
                );
            }
        }
    }
}

#[test]
fn luminance_takes_the_channel_type_as_a_parameter() {
    assert_eq!(Luma::<u8>::from_rgb::<u8>(RGB::new(1, 2, 3)), Luma::new(2));
    assert_eq!(Luma::from_rgb(RGB::new(true, false, true)), Luma::new(1));
}
