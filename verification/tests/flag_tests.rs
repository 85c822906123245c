use flag_processor::describe::{color_json, colors_json, decimal_string, layout_json};
use flag_processor::filter::{filter_kind, invert_pixels, FilterKind};
use flag_processor::layout::{build_flag_spec, colors_needed, pick_layout, Layout};
use flag_processor::palette::{color_dist_sq, pick_tincture, pool_color, Rgb};
use flag_processor::rng::Rng;
use flag_processor::texture::{average_samples, compose_texture};

fn rgb(r: u8, g: u8, b: u8) -> Rgb {
    Rgb { r, g, b }
}

fn is_metal(c: Rgb) -> bool {
    (0..3).any(|i| pool_color(true, i) == c)
}

fn is_color(c: Rgb) -> bool {
    (0..9).any(|i| pool_color(false, i) == c)
}

#[test]
fn seed_hash_of_zero_bits() {
    let mut rng = Rng::from_seed_bits(0);
    assert_eq!(rng.next_u32(), 931894489);
}

#[test]
fn zero_hash_is_replaced() {
    // 0x61C8_8647 is the one bit pattern whose hash is zero.
    let mut replaced = Rng::from_seed_bits(0x61C8_8647);
    let mut x: u32 = 0xDEAD_BEEF;
    x ^= x << 13;
    x ^= x >> 17;
    x ^= x << 5;
    assert_eq!(replaced.next_u32(), x);
    assert_ne!(x, 0);
}

#[test]
fn range_is_next_modulo() {
    let mut rng = Rng::from_seed_bits(0);
    assert_eq!(rng.range(1000), 489);
}

#[test]
fn draws_never_zero() {
    let mut rng = Rng::from_seed_bits(12345);
    for _ in 0..10000 {
        assert_ne!(rng.next_u32(), 0);
    }
}

#[test]
fn range_stays_below_bound() {
    let mut rng = Rng::from_seed_bits(777);
    for n in 1..200u32 {
        assert!(rng.range(n) < n);
    }
}

#[test]
fn color_distance_exact() {
    assert_eq!(color_dist_sq(rgb(255, 255, 255), rgb(0, 0, 0)), 195075);
    assert_eq!(color_dist_sq(rgb(0, 40, 104), rgb(255, 215, 0)), 65025 + 30625 + 10816);
    assert_eq!(color_dist_sq(rgb(12, 12, 12), rgb(12, 12, 12)), 0);
}

#[test]
fn pools_hold_the_tinctures() {
    assert_eq!(pool_color(true, 1), rgb(255, 215, 0));
    assert_eq!(pool_color(false, 0), rgb(0, 40, 104));
    assert_eq!(pool_color(false, 8), rgb(128, 0, 32));
    for i in 0..3 {
        assert!(!is_color(pool_color(true, i)));
    }
}

#[test]
fn tincture_of_ten() {
    let mut rng = Rng::from_seed_bits(5.0f32.to_bits());
    let palette = pick_tincture(&mut rng, 10);
    let expected = vec![
        rgb(255, 255, 255),
        rgb(0, 153, 0),
        rgb(255, 255, 255),
        rgb(0, 35, 149),
        rgb(255, 153, 51),
        rgb(0, 35, 149),
        rgb(255, 153, 51),
        rgb(65, 137, 221),
        rgb(255, 153, 51),
        rgb(65, 137, 221),
    ];
    assert_eq!(palette, expected);
}

#[test]
fn tincture_of_zero_has_one_entry() {
    let mut rng = Rng::from_seed_bits(99);
    assert_eq!(pick_tincture(&mut rng, 0).len(), 1);
    let mut rng = Rng::from_seed_bits(99);
    assert_eq!(pick_tincture(&mut rng, 1).len(), 1);
}

#[test]
fn rule_of_tincture_holds() {
    for seed in 0..300u32 {
        let mut rng = Rng::from_seed_bits(seed.wrapping_mul(2654435761));
        let palette = pick_tincture(&mut rng, 12);
        assert_eq!(palette.len(), 12);
        for i in 0..palette.len() {
            assert!(is_metal(palette[i]) || is_color(palette[i]));
            if i + 1 < palette.len() {
                assert_eq!(is_metal(palette[i]), is_color(palette[i + 1]));
            }
        }
    }
}

#[test]
fn layout_draw_order() {
    let mut rng = Rng::from_seed_bits(3.0f32.to_bits());
    assert_eq!(pick_layout(&mut rng), Layout::HorizontalStripes { bands: 2, wide_middle: false });
}

#[test]
fn colors_needed_per_layout() {
    assert_eq!(colors_needed(&Layout::HorizontalStripes { bands: 3, wide_middle: true }), 3);
    assert_eq!(colors_needed(&Layout::HorizontalStripes { bands: 2, wide_middle: false }), 2);
    assert_eq!(colors_needed(&Layout::VerticalStripes { wide_middle: false }), 3);
    assert_eq!(colors_needed(&Layout::NordicCross { thickness_draw: 1 }), 2);
    assert_eq!(colors_needed(&Layout::Canton), 2);
    assert_eq!(colors_needed(&Layout::RisingSun { rays: 6, cx_quarters: 2, cy_quarters: 2 }), 2);
    assert_eq!(colors_needed(&Layout::NordicStar { thickness_draw: 1, scale_draw: 2 }), 3);
    assert_eq!(colors_needed(&Layout::Chevron), 2);
}

#[test]
fn flag_of_seed_zero() {
    let spec = build_flag_spec(0.0f32.to_bits());
    assert_eq!(spec.layout, Layout::VerticalStripes { wide_middle: true });
    assert_eq!(spec.palette, vec![rgb(0, 35, 149), rgb(255, 215, 0), rgb(0, 35, 149)]);
    assert_eq!(spec.phase_draw, 2531479859);
}

#[test]
fn flag_of_seed_one() {
    let spec = build_flag_spec(1.0f32.to_bits());
    assert_eq!(spec.layout, Layout::NordicCross { thickness_draw: 3758529205 });
    assert_eq!(spec.palette, vec![rgb(0, 153, 0), rgb(255, 255, 255)]);
    assert_eq!(spec.phase_draw, 2944265525);
}

#[test]
fn flag_of_seed_two() {
    let spec = build_flag_spec(2.0f32.to_bits());
    assert_eq!(spec.layout, Layout::NordicStar { thickness_draw: 1863441630, scale_draw: 3318539771 });
    assert_eq!(spec.palette, vec![rgb(255, 153, 51), rgb(12, 12, 12), rgb(255, 153, 51)]);
    assert_eq!(spec.phase_draw, 28762074);
}

#[test]
fn flag_of_seed_rising_sun() {
    let spec = build_flag_spec(123.456f32.to_bits());
    assert_eq!(spec.layout, Layout::RisingSun { rays: 10, cx_quarters: 1, cy_quarters: 3 });
    assert_eq!(spec.palette, vec![rgb(255, 153, 51), rgb(0, 40, 104)]);
    assert_eq!(spec.phase_draw, 511307828);
}

#[test]
fn flag_of_negative_seed() {
    let spec = build_flag_spec((-7.25f32).to_bits());
    assert_eq!(spec.layout, Layout::HorizontalStripes { bands: 3, wide_middle: false });
    assert_eq!(spec.palette, vec![rgb(255, 215, 0), rgb(0, 40, 104), rgb(255, 255, 255)]);
    assert_eq!(spec.phase_draw, 3709868327);
}

#[test]
fn flag_of_seed_chevron_and_canton() {
    let chevron = build_flag_spec(15.0f32.to_bits());
    assert_eq!(chevron.layout, Layout::Chevron);
    assert_eq!(chevron.palette, vec![rgb(12, 12, 12), rgb(255, 215, 0)]);
    let canton = build_flag_spec(4.0f32.to_bits());
    assert_eq!(canton.layout, Layout::Canton);
    assert_eq!(canton.palette, vec![rgb(255, 215, 0), rgb(0, 35, 149)]);
}

#[test]
fn flags_keep_their_ranges() {
    for i in 0..2000u32 {
        let spec = build_flag_spec(i.wrapping_mul(0x9E37_79B9));
        assert_eq!(spec.palette.len(), colors_needed(&spec.layout));
        match spec.layout {
            Layout::HorizontalStripes { bands, .. } => assert!(bands == 2 || bands == 3),
            Layout::RisingSun { rays, cx_quarters, cy_quarters } => {
                assert!((6..=24).contains(&rays));
                assert!([(2, 2), (0, 4), (0, 2), (2, 4), (1, 3)].contains(&(cx_quarters, cy_quarters)));
            }
            _ => {}
        }
    }
}

#[test]
fn same_seed_same_flag() {
    let a = build_flag_spec(42.0f32.to_bits());
    let b = build_flag_spec(42.0f32.to_bits());
    assert_eq!(a.layout, b.layout);
    assert_eq!(a.palette, b.palette);
    assert_eq!(a.phase_draw, b.phase_draw);
}

#[test]
fn average_rounds_down() {
    let avg = average_samples(rgb(0, 1, 255), rgb(0, 1, 255), rgb(0, 1, 254), rgb(3, 0, 255));
    assert_eq!(avg, rgb(0, 0, 254));
}

#[test]
fn compose_empty_when_no_area() {
    assert!(compose_texture(0, 5, &vec![]).is_empty());
    assert!(compose_texture(5, 0, &vec![]).is_empty());
}

#[test]
fn compose_two_pixels() {
    let samples = vec![
        rgb(10, 20, 30),
        rgb(10, 20, 30),
        rgb(10, 20, 30),
        rgb(10, 20, 30),
        rgb(0, 0, 0),
        rgb(255, 255, 255),
        rgb(0, 0, 0),
        rgb(255, 255, 255),
    ];
    let pixels = compose_texture(2, 1, &samples);
    assert_eq!(pixels, vec![10, 20, 30, 255, 127, 127, 127, 255]);
}

#[test]
fn filter_names() {
    assert_eq!(filter_kind("grayscale"), FilterKind::Grayscale);
    assert_eq!(filter_kind("invert"), FilterKind::Invert);
    assert_eq!(filter_kind("vignette"), FilterKind::Vignette);
    assert_eq!(filter_kind("Invert"), FilterKind::Unchanged);
    assert_eq!(filter_kind(""), FilterKind::Unchanged);
    assert_eq!(filter_kind("inverted"), FilterKind::Unchanged);
}

#[test]
fn invert_keeps_alpha_and_tail() {
    let pixels = vec![0, 100, 255, 7, 1, 2, 3, 200, 9, 9];
    let out = invert_pixels(pixels);
    assert_eq!(out, vec![255, 155, 0, 7, 254, 253, 252, 200, 9, 9]);
}

#[test]
fn invert_twice_is_identity() {
    let pixels: Vec<u8> = (0..43u32).map(|i| (i * 37 % 256) as u8).collect();
    assert_eq!(invert_pixels(invert_pixels(pixels.clone())), pixels);
}

#[test]
fn decimal_notation() {
    assert_eq!(decimal_string(0), "0");
    assert_eq!(decimal_string(24), "24");
    assert_eq!(decimal_string(4294967295), "4294967295");
}

#[test]
fn color_notation() {
    assert_eq!(color_json(rgb(255, 153, 51)), "\"#ff9933\"");
    assert_eq!(color_json(rgb(0, 10, 171)), "\"#000aab\"");
    assert_eq!(colors_json(&vec![]), "");
    assert_eq!(colors_json(&vec![rgb(1, 2, 3), rgb(4, 5, 6)]), "\"#010203\",\"#040506\"");
}

#[test]
fn describe_each_layout() {
    let spec = build_flag_spec(0.0f32.to_bits());
    assert_eq!(
        layout_json(&spec.layout, &spec.palette, "", ""),
        "{\"type\":\"vertical_stripes\",\"bands\":3,\"wideMiddle\":true,\"colors\":[\"#002395\",\"#ffd700\",\"#002395\"]}"
    );
    let spec = build_flag_spec(3.0f32.to_bits());
    assert_eq!(
        layout_json(&spec.layout, &spec.palette, "", ""),
        "{\"type\":\"horizontal_stripes\",\"bands\":2,\"wideMiddle\":false,\"colors\":[\"#228b22\",\"#ffffff\"]}"
    );
    let spec = build_flag_spec(4.0f32.to_bits());
    assert_eq!(
        layout_json(&spec.layout, &spec.palette, "", ""),
        "{\"type\":\"canton\",\"colors\":[\"#ffd700\",\"#002395\"]}"
    );
    let spec = build_flag_spec(10.0f32.to_bits());
    assert_eq!(
        layout_json(&spec.layout, &spec.palette, "", ""),
        "{\"type\":\"rising_sun\",\"rays\":24,\"cxFrac\":0.5000,\"cyFrac\":0.5000,\"colors\":[\"#ffffff\",\"#ce1126\"]}"
    );
    let spec = build_flag_spec(123.456f32.to_bits());
    assert_eq!(
        layout_json(&spec.layout, &spec.palette, "", ""),
        "{\"type\":\"rising_sun\",\"rays\":10,\"cxFrac\":0.2500,\"cyFrac\":0.7500,\"colors\":[\"#ff9933\",\"#002868\"]}"
    );
    let spec = build_flag_spec(15.0f32.to_bits());
    assert_eq!(
        layout_json(&spec.layout, &spec.palette, "", ""),
        "{\"type\":\"chevron\",\"colors\":[\"#0c0c0c\",\"#ffd700\"]}"
    );
}

#[test]
fn describe_fraction_layouts() {
    let palette = vec![rgb(0, 153, 0), rgb(255, 255, 255)];
    assert_eq!(
        layout_json(&Layout::NordicCross { thickness_draw: 7 }, &palette, "0.1500", "unused"),
        "{\"type\":\"nordic_cross\",\"thicknessFrac\":0.1500,\"colors\":[\"#009900\",\"#ffffff\"]}"
    );
    assert_eq!(
        layout_json(&Layout::NordicStar { thickness_draw: 7, scale_draw: 8 }, &palette, "0.1200", "0.0900"),
        "{\"type\":\"nordic_star\",\"thicknessFrac\":0.1200,\"starScale\":0.0900,\"colors\":[\"#009900\",\"#ffffff\"]}"
    );
}
