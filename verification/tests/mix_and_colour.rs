use soprintln::colour::{colour_pair, hue, FULL_SCALE, FULL_TURN};
use soprintln::hsl_to_rgb;
use soprintln::mix::{mix, MULTIPLIER, MULTIPLIER_INVERSE};

#[test]
fn mix_has_known_values() {
    assert_eq!(mix(0), 0);
    assert_eq!(mix(1), 0xab16_9eb8_aeae_59a4);
    assert_eq!(mix(2), 0xd6e2_c15b_dd93_4f63);
    assert_eq!(mix(0x1234_5678), 0xcff9_9a6c_ce40_3b91);
    assert_eq!(mix(u64::MAX), 0xa1ba_8d66_900d_2b21);
}

#[test]
fn multiplier_is_odd_and_has_its_inverse() {
    assert_eq!(MULTIPLIER % 2, 1);
    assert_eq!(MULTIPLIER.wrapping_mul(MULTIPLIER_INVERSE), 1);
}

#[test]
fn mix_is_the_same_on_every_call() {
    for v in [0u64, 1, 2, 0x1234_5678, u64::MAX, 0xdead_beef_0000_0001] {
        assert_eq!(mix(v), mix(v));
        assert_eq!(hue(mix(v)), hue(mix(v)));
    }
}

#[test]
fn mix_keeps_consecutive_values_apart() {
    let mut seen: Vec<u64> = (0u64..1000).map(mix).collect();
    seen.sort();
    seen.dedup();
    assert_eq!(seen.len(), 1000);
}

#[test]
fn hue_scales_the_hash_to_the_wheel() {
    assert_eq!(hue(0), 0);
    assert_eq!(hue(u64::MAX), 359_999);
    assert_eq!(hue(1u64 << 63), 180_000);
    assert_eq!(hue(1u64 << 62), 90_000);
    assert_eq!(hue(mix(1)), 240_593);
    assert_eq!(hue(mix(2)), 302_183);
    assert_eq!(hue(mix(0x1234_5678)), 292_464);
}

#[test]
fn hues_of_consecutive_values_do_not_cluster() {
    let mut buckets = [0u32; 36];
    let mut hues: Vec<u32> = Vec::new();
    for v in 0u64..1000 {
        let h = hue(mix(v));
        assert!(h < FULL_TURN);
        buckets[(h / 10_000) as usize] += 1;
        hues.push(h);
    }
    for count in buckets {
        assert!(count >= 10, "a tenth of a sextant holds only {count} hues");
        assert!(count <= 56, "a tenth of a sextant holds {count} hues");
    }
    hues.sort();
    hues.dedup();
    assert!(hues.len() >= 990);
}

#[test]
fn primary_and_secondary_colours() {
    assert_eq!(hsl_to_rgb(0, 100_000, 50_000), (255, 0, 0));
    assert_eq!(hsl_to_rgb(60_000, 100_000, 50_000), (255, 255, 0));
    assert_eq!(hsl_to_rgb(120_000, 100_000, 50_000), (0, 255, 0));
    assert_eq!(hsl_to_rgb(180_000, 100_000, 50_000), (0, 255, 255));
    assert_eq!(hsl_to_rgb(240_000, 100_000, 50_000), (0, 0, 255));
    assert_eq!(hsl_to_rgb(300_000, 100_000, 50_000), (255, 0, 255));
    assert_eq!(hsl_to_rgb(359_999, 100_000, 50_000), (255, 0, 0));
}

#[test]
fn colours_between_the_primaries_drop_the_fraction() {
    assert_eq!(hsl_to_rgb(30_000, 100_000, 50_000), (255, 127, 0));
    assert_eq!(hsl_to_rgb(90_000, 100_000, 50_000), (127, 255, 0));
    assert_eq!(hsl_to_rgb(150_000, 100_000, 50_000), (0, 255, 127));
    assert_eq!(hsl_to_rgb(210_000, 100_000, 50_000), (0, 127, 255));
    assert_eq!(hsl_to_rgb(270_000, 100_000, 50_000), (127, 0, 255));
    assert_eq!(hsl_to_rgb(330_000, 100_000, 50_000), (255, 0, 127));
}

#[test]
fn boundary_hues_at_half_saturation() {
    assert_eq!(hsl_to_rgb(0, 50_000, 70_000), (216, 140, 140));
    assert_eq!(hsl_to_rgb(60_000, 50_000, 70_000), (216, 216, 140));
    assert_eq!(hsl_to_rgb(120_000, 50_000, 70_000), (140, 216, 140));
    assert_eq!(hsl_to_rgb(180_000, 50_000, 70_000), (140, 216, 216));
    assert_eq!(hsl_to_rgb(240_000, 50_000, 70_000), (140, 140, 216));
    assert_eq!(hsl_to_rgb(300_000, 50_000, 70_000), (216, 140, 216));
    assert_eq!(hsl_to_rgb(359_999, 50_000, 70_000), (216, 140, 140));
}

#[test]
fn full_turn_is_hue_zero() {
    for (s, l) in [(100_000u32, 50_000u32), (50_000, 70_000), (37_000, 91_000), (0, 0)] {
        assert_eq!(hsl_to_rgb(FULL_TURN, s, l), hsl_to_rgb(0, s, l));
    }
}

#[test]
fn black_white_and_grey() {
    assert_eq!(hsl_to_rgb(0, 0, 0), (0, 0, 0));
    assert_eq!(hsl_to_rgb(0, 0, FULL_SCALE), (255, 255, 255));
    assert_eq!(hsl_to_rgb(200_000, FULL_SCALE, FULL_SCALE), (255, 255, 255));
    assert_eq!(hsl_to_rgb(200_000, FULL_SCALE, 0), (0, 0, 0));
    assert_eq!(hsl_to_rgb(123_456, 0, 50_000), (127, 127, 127));
}

#[test]
fn conversion_of_a_hashed_value_is_stable() {
    let h = hue(mix(0x1234_5678));
    assert!(h < 360_000);
    let first = hsl_to_rgb(h, 50_000, 70_000);
    let second = hsl_to_rgb(hue(mix(0x1234_5678)), 50_000, 70_000);
    assert_eq!(first, (207, 140, 216));
    assert_eq!(first, second);
}

#[test]
fn conversion_agrees_with_floating_point() {
    fn reference(h: f64, s: f64, l: f64) -> (u8, u8, u8) {
        let h = h / 360.0;
        let s = s / 100.0;
        let l = l / 100.0;
        let c = (1.0 - (2.0 * l - 1.0).abs()) * s;
        let x = c * (1.0 - ((h * 6.0) % 2.0 - 1.0).abs());
        let m = l - c / 2.0;
        let (r, g, b) = match (h * 6.0) as u8 {
            0 | 6 => (c, x, 0.0),
            1 => (x, c, 0.0),
            2 => (0.0, c, x),
            3 => (0.0, x, c),
            4 => (x, 0.0, c),
            _ => (c, 0.0, x),
        };
        (((r + m) * 255.0) as u8, ((g + m) * 255.0) as u8, ((b + m) * 255.0) as u8)
    }
    let mut state: u64 = 1;
    for _ in 0..2000 {
        state = mix(state.wrapping_add(0x9e37_79b9));
        let h = (state % 360_000) as u32;
        let s = ((state >> 20) % 100_001) as u32;
        let l = ((state >> 40) % 100_001) as u32;
        let exact = hsl_to_rgb(h, s, l);
        let float = reference(h as f64 / 1000.0, s as f64 / 1000.0, l as f64 / 1000.0);
        assert!(exact.0.abs_diff(float.0) <= 1, "{h} {s} {l}");
        assert!(exact.1.abs_diff(float.1) <= 1, "{h} {s} {l}");
        assert!(exact.2.abs_diff(float.2) <= 1, "{h} {s} {l}");
    }
}

#[test]
fn background_is_muted_and_dimmed() {
    let (fg, bg) = colour_pair(0, 100_000, 50_000, 5);
    assert_eq!(fg, (255, 0, 0));
    assert_eq!(bg, hsl_to_rgb(0, 80_000, 25_000));
    let (fg, bg) = colour_pair(292_464, 37_000, 91_000, 6);
    assert_eq!(fg, hsl_to_rgb(292_464, 37_000, 91_000));
    assert_eq!(bg, hsl_to_rgb(292_464, 29_600, 54_600));
    assert_eq!((fg, bg), ((238, 223, 240), (164, 104, 173)));
    let (fg, bg) = colour_pair(120_000, 40_000, 100_000, 10);
    assert_eq!(fg, (255, 255, 255));
    assert_eq!(bg, (255, 255, 255));
}

#[test]
fn every_channel_is_a_byte_on_a_grid_of_inputs() {
    let mut h = 0u32;
    while h <= FULL_TURN {
        let mut s = 0u32;
        while s <= FULL_SCALE {
            let mut l = 0u32;
            while l <= FULL_SCALE {
                let (r, g, b) = hsl_to_rgb(h, s, l);
                let top = r.max(g).max(b) as u32;
                let low = r.min(g).min(b) as u32;
                assert!(low * 100_000 <= l * 255);
                assert!((top + 1) * 100_000 > l * 255);
                l += 12_500;
            }
            s += 12_500;
        }
        h += 7_500;
    }
}
