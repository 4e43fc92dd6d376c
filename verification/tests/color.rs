use blastracer::objects::color4u8::Color4u8;

fn levels(r: f32, g: f32, b: f32, a: f32) -> Color4u8 {
    Color4u8::from_f32s(r.to_bits(), g.to_bits(), b.to_bits(), a.to_bits())
}

#[test]
fn new_keeps_each_channel() {
    let color = Color4u8::new(1, 2, 3, 4);
    assert_eq!(color.r, 1);
    assert_eq!(color.g, 2);
    assert_eq!(color.b, 3);
    assert_eq!(color.a, 4);
}

#[test]
fn as_u32_puts_red_lowest_then_green_then_blue() {
    assert_eq!(Color4u8::new(0x11, 0x22, 0x33, 0x44).as_u32(), 0x0033_2211);
    assert_eq!(Color4u8::new(255, 0, 0, 255).as_u32(), 0x0000_00ff);
    assert_eq!(Color4u8::new(0, 255, 0, 255).as_u32(), 0x0000_ff00);
    assert_eq!(Color4u8::new(0, 0, 255, 255).as_u32(), 0x00ff_0000);
    assert_eq!(Color4u8::new(0, 0, 0, 0).as_u32(), 0);
    assert_eq!(Color4u8::new(255, 255, 255, 255).as_u32(), 0x00ff_ffff);
}

#[test]
fn as_u32_leaves_alpha_out() {
    let opaque = Color4u8::new(9, 8, 7, 255).as_u32();
    let clear = Color4u8::new(9, 8, 7, 0).as_u32();
    assert_eq!(opaque, clear);
    assert_eq!(opaque >> 24, 0);
}

#[test]
fn from_u32_reads_the_low_three_bytes() {
    assert_eq!(Color4u8::from_u32(0x0033_2211), Color4u8::new(0x11, 0x22, 0x33, 255));
    assert_eq!(Color4u8::from_u32(0xaa33_2211), Color4u8::new(0x11, 0x22, 0x33, 255));
    assert_eq!(Color4u8::from_u32(0), Color4u8::new(0, 0, 0, 255));
    assert_eq!(Color4u8::from_u32(u32::MAX), Color4u8::new(255, 255, 255, 255));
}

#[test]
fn packing_then_unpacking_returns_the_bytes() {
    let samples: [u8; 9] = [0, 1, 2, 15, 16, 127, 128, 254, 255];
    for r in samples {
        for g in samples {
            for b in samples {
                let color = Color4u8::new(r, g, b, 255);
                assert_eq!(Color4u8::from_u32(color.as_u32()), color);
            }
        }
    }
}

#[test]
fn packing_then_unpacking_makes_a_clear_colour_opaque() {
    let back = Color4u8::from_u32(Color4u8::new(1, 2, 3, 0).as_u32());
    assert_eq!(back, Color4u8::new(1, 2, 3, 255));
}

#[test]
fn unpacking_then_packing_returns_the_low_24_bits() {
    for word in [0u32, 1, 0x00ff_ffff, 0x0100_0000, 0x1234_5678, 0xdead_beef, u32::MAX] {
        assert_eq!(Color4u8::from_u32(word).as_u32(), word & 0x00ff_ffff);
    }
}

#[test]
fn from_f32s_maps_zero_to_0_and_one_to_255() {
    assert_eq!(levels(0.0, 0.0, 0.0, 0.0), Color4u8::new(0, 0, 0, 0));
    assert_eq!(levels(1.0, 1.0, 1.0, 1.0), Color4u8::new(255, 255, 255, 255));
}

#[test]
fn from_f32s_maps_each_channel_by_itself() {
    assert_eq!(levels(1.0, 0.5, 0.25, 0.0), Color4u8::new(255, 127, 63, 0));
    assert_eq!(levels(0.0, 0.25, 0.5, 1.0), Color4u8::new(0, 63, 127, 255));
}

#[test]
fn from_f32s_rounds_down() {
    // 255 * 0.75 = 191.25, 255 * 0.1 = 25.5, 255 * 0.999 = 254.745
    assert_eq!(levels(0.75, 0.1, 0.999, 1.0), Color4u8::new(191, 25, 254, 255));
    // 255 * 0.00390625 = 0.99609375
    assert_eq!(levels(0.00390625, 0.0039215687, 0.004, 1.0), Color4u8::new(0, 1, 1, 255));
}

#[test]
fn from_f32s_agrees_with_whole_arithmetic_on_every_256th() {
    for k in 0u32..=256 {
        let level = k as f32 / 256.0;
        let expected = (255 * k / 256) as u8;
        let color = levels(level, level, level, level);
        assert_eq!(color, Color4u8::new(expected, expected, expected, expected));
    }
}

#[test]
fn from_f32s_saturates_above_one() {
    assert_eq!(levels(1.0000001, 2.0, 255.0, 65025.0), Color4u8::new(255, 255, 255, 255));
    assert_eq!(levels(f32::MAX, f32::INFINITY, 1.5, 1e30), Color4u8::new(255, 255, 255, 255));
}

#[test]
fn from_f32s_saturates_below_zero() {
    assert_eq!(levels(-0.0, -1.0, -0.5, -255.0), Color4u8::new(0, 0, 0, 0));
    assert_eq!(levels(f32::MIN, f32::NEG_INFINITY, -1e-45, -1e-30), Color4u8::new(0, 0, 0, 0));
}

#[test]
fn from_f32s_gives_0_for_what_is_no_number() {
    let nan = f32::NAN;
    let other = f32::from_bits(0xffc0_0001);
    assert!(other.is_nan());
    assert_eq!(levels(nan, other, -nan, nan), Color4u8::new(0, 0, 0, 0));
}

#[test]
fn from_f32s_gives_0_for_the_smallest_levels() {
    let least = f32::from_bits(1);
    let least_normal = f32::MIN_POSITIVE;
    assert_eq!(levels(least, least_normal, 1e-10, 0.0039), Color4u8::new(0, 0, 0, 0));
}

#[test]
fn from_f32s_just_below_one_is_254() {
    let below = f32::from_bits(0x3f7f_ffff);
    assert!(below < 1.0);
    assert_eq!(levels(below, below, below, below), Color4u8::new(254, 254, 254, 254));
}

#[test]
fn a_brighter_level_never_gives_a_darker_byte() {
    let ladder: [f32; 12] =
        [-2.0, -0.0, 0.0, 1e-20, 0.003, 0.004, 0.3, 0.31830987, 0.5, 0.9999, 1.0, 7.0];
    for pair in ladder.windows(2) {
        let dim = levels(pair[0], 0.0, 0.0, 1.0).r;
        let bright = levels(pair[1], 0.0, 0.0, 1.0).r;
        assert!(dim <= bright);
    }
}

#[test]
fn a_lit_white_surface_is_brighter_than_one_facing_away() {
    // A white surface of albedo 1 under a white light of intensity 1 reflects 1/pi
    // where it faces the light and nothing where it faces away.
    let facing = std::f32::consts::FRAC_1_PI;
    let away = 0.0f32;
    let lit = levels(facing, facing, facing, 1.0);
    let dark = levels(away, away, away, 1.0);
    assert_eq!(lit, Color4u8::new(81, 81, 81, 255));
    assert_eq!(dark, Color4u8::new(0, 0, 0, 255));
    assert!(lit.as_u32() > dark.as_u32());
}

#[test]
fn from_f32s_agrees_with_exact_arithmetic_on_many_levels() {
    // 255 times a single is exact in double precision.
    let mut state: u32 = 0x2545_f491;
    for round in 0..400_000u32 {
        state = state.wrapping_mul(1_664_525).wrapping_add(1_013_904_223);
        // every other round near the unit interval, where the bytes change
        let bits = if round % 2 == 0 { state } else { 0x3b00_0000 + state % 0x0500_0000 };
        let level = f32::from_bits(bits);
        let expected = if level.is_nan() {
            0
        } else {
            (level as f64 * 255.0).floor().clamp(0.0, 255.0) as u8
        };
        assert_eq!(Color4u8::from_f32s(bits, 0, 0, 0).r, expected);
    }
}
