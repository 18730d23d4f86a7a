use ambient_color::bucket::{bucket, quantize_channel};
use ambient_color::extract::dominant_color;
use ambient_color::frame::{Frame, Rgb};

fn rgb(r: u8, g: u8, b: u8) -> Rgb {
    Rgb { r, g, b }
}

fn frame_of(width: u32, height: u32, pixels: &[Rgb]) -> Frame {
    let mut data = Vec::new();
    for p in pixels {
        data.push(p.r);
        data.push(p.g);
        data.push(p.b);
    }
    Frame::from_raw(width, height, data).unwrap()
}

#[test]
fn low_four_bits_are_cleared() {
    assert_eq!(quantize_channel(0), 0);
    assert_eq!(quantize_channel(15), 0);
    assert_eq!(quantize_channel(16), 16);
    assert_eq!(quantize_channel(200), 192);
    assert_eq!(quantize_channel(239), 224);
    assert_eq!(quantize_channel(255), 240);
    for c in 0..=255u8 {
        assert_eq!(quantize_channel(c), c & 0xf0);
    }
}

#[test]
fn bucket_coarsens_each_channel() {
    assert_eq!(bucket(rgb(200, 100, 50)), rgb(192, 96, 48));
    assert_eq!(bucket(rgb(255, 0, 17)), rgb(240, 0, 16));
    assert_eq!(bucket(rgb(192, 96, 48)), rgb(192, 96, 48));
}

#[test]
fn empty_frame_is_black() {
    let frame = Frame::from_raw(0, 0, vec![]).unwrap();
    assert_eq!(dominant_color(&frame), rgb(0, 0, 0));
}

#[test]
fn frame_without_rows_or_columns_is_black() {
    assert_eq!(dominant_color(&Frame::from_raw(0, 9, vec![]).unwrap()), rgb(0, 0, 0));
    assert_eq!(dominant_color(&Frame::from_raw(9, 0, vec![]).unwrap()), rgb(0, 0, 0));
}

#[test]
fn uniform_frame_gives_its_bucket() {
    let frame = frame_of(4, 3, &[rgb(200, 100, 50); 12]);
    assert_eq!(dominant_color(&frame), rgb(192, 96, 48));
}

#[test]
fn single_pixel() {
    assert_eq!(dominant_color(&frame_of(1, 1, &[rgb(255, 255, 255)])), rgb(240, 240, 240));
    assert_eq!(dominant_color(&frame_of(1, 1, &[rgb(7, 8, 9)])), rgb(0, 0, 0));
}

#[test]
fn nine_tenths_beat_one_tenth_wherever_they_are() {
    let a = rgb(200, 100, 50);
    let b = rgb(10, 20, 30);
    let mut minority_first = vec![b; 10];
    minority_first.extend(vec![a; 90]);
    let mut minority_last = vec![a; 90];
    minority_last.extend(vec![b; 10]);
    let mut spread = Vec::new();
    for i in 0..100 {
        spread.push(if i % 10 == 3 { b } else { a });
    }
    for pixels in [minority_first, minority_last, spread] {
        assert_eq!(dominant_color(&frame_of(10, 10, &pixels)), rgb(192, 96, 48));
        assert_eq!(dominant_color(&frame_of(100, 1, &pixels)), rgb(192, 96, 48));
        assert_eq!(dominant_color(&frame_of(4, 25, &pixels)), rgb(192, 96, 48));
    }
}

#[test]
fn most_votes_win_without_a_majority() {
    let mut pixels = vec![rgb(0, 0, 0); 35];
    pixels.extend(vec![rgb(128, 128, 128); 40]);
    pixels.extend(vec![rgb(255, 255, 255); 25]);
    assert_eq!(dominant_color(&frame_of(10, 10, &pixels)), rgb(128, 128, 128));
    pixels.reverse();
    assert_eq!(dominant_color(&frame_of(10, 10, &pixels)), rgb(128, 128, 128));
}

#[test]
fn one_vote_decides() {
    let mut pixels = vec![rgb(16, 0, 0); 50];
    pixels.extend(vec![rgb(240, 240, 240); 51]);
    assert_eq!(dominant_color(&frame_of(101, 1, &pixels)), rgb(240, 240, 240));
}

#[test]
fn low_bits_do_not_change_the_result() {
    let plain = vec![rgb(192, 96, 48), rgb(192, 96, 48), rgb(16, 32, 64)];
    let noisy = vec![rgb(207, 97, 63), rgb(193, 111, 48), rgb(31, 47, 79)];
    let expected = rgb(192, 96, 48);
    assert_eq!(dominant_color(&frame_of(3, 1, &plain)), expected);
    assert_eq!(dominant_color(&frame_of(3, 1, &noisy)), expected);
}

#[test]
fn noise_within_a_bucket_is_one_colour() {
    let mut pixels = Vec::new();
    for low in 0..16u8 {
        pixels.push(rgb(96 + low, 160 + (15 - low), 32 + (low ^ 5)));
    }
    pixels.extend(vec![rgb(0, 0, 0); 15]);
    assert_eq!(dominant_color(&frame_of(31, 1, &pixels)), rgb(96, 160, 32));
}

#[test]
fn crossing_a_bucket_boundary_is_another_colour() {
    let pixels = vec![rgb(15, 0, 0), rgb(16, 0, 0), rgb(17, 0, 0)];
    assert_eq!(dominant_color(&frame_of(3, 1, &pixels)), rgb(16, 0, 0));
}

#[test]
fn a_tie_goes_to_the_first_by_red_green_blue() {
    let low_red = rgb(0, 240, 240);
    let high_red = rgb(16, 0, 0);
    assert_eq!(dominant_color(&frame_of(2, 1, &[low_red, high_red])), low_red);
    assert_eq!(dominant_color(&frame_of(2, 1, &[high_red, low_red])), low_red);
    let low_green = rgb(32, 16, 240);
    let high_green = rgb(32, 32, 0);
    assert_eq!(dominant_color(&frame_of(1, 2, &[high_green, low_green])), low_green);
    let low_blue = rgb(32, 32, 0);
    let high_blue = rgb(32, 32, 16);
    assert_eq!(
        dominant_color(&frame_of(2, 2, &[high_blue, low_blue, low_blue, high_blue])),
        low_blue
    );
}

#[test]
fn every_bucket_tied_gives_black_first() {
    let mut pixels = Vec::new();
    for r in 0..16u8 {
        for g in 0..16u8 {
            for b in 0..16u8 {
                pixels.push(rgb(r * 16 + 3, g * 16 + 5, b * 16 + 7));
            }
        }
    }
    pixels.reverse();
    assert_eq!(dominant_color(&frame_of(64, 64, &pixels)), rgb(0, 0, 0));
    pixels.push(rgb(250, 250, 250));
    assert_eq!(dominant_color(&frame_of(4097, 1, &pixels)), rgb(240, 240, 240));
}

#[test]
fn repeated_calls_agree() {
    let mut pixels = Vec::new();
    for i in 0..600u32 {
        pixels.push(rgb((i * 7 % 256) as u8, (i * 13 % 256) as u8, (i * 29 % 256) as u8));
    }
    let frame = frame_of(30, 20, &pixels);
    let first = dominant_color(&frame);
    for _ in 0..5 {
        assert_eq!(dominant_color(&frame), first);
    }
    let again = frame_of(20, 30, &pixels);
    assert_eq!(dominant_color(&again), first);
}

#[test]
fn result_is_always_a_bucket() {
    let mut pixels = Vec::new();
    for i in 0..500u32 {
        pixels.push(rgb((i * 31 % 256) as u8, (i * 17 % 256) as u8, (i * 3 % 256) as u8));
    }
    let out = dominant_color(&frame_of(500, 1, &pixels));
    assert_eq!(out.r % 16, 0);
    assert_eq!(out.g % 16, 0);
    assert_eq!(out.b % 16, 0);
    assert_eq!(bucket(out), out);
}

#[test]
fn dominant_colour_matches_a_plain_count() {
    let mut pixels = Vec::new();
    let mut seed: u32 = 12345;
    for _ in 0..3000 {
        seed = seed.wrapping_mul(1664525).wrapping_add(1013904223);
        let r = ((seed >> 24) as u8) & 0x3f;
        let g = ((seed >> 16) as u8) & 0x1f;
        let b = ((seed >> 8) as u8) & 0x3f;
        pixels.push(rgb(r, g, b));
    }
    let mut best: Option<((u8, u8, u8), usize)> = None;
    for r in 0..16u8 {
        for g in 0..16u8 {
            for b in 0..16u8 {
                let c = (r * 16, g * 16, b * 16);
                let n = pixels
                    .iter()
                    .filter(|p| (p.r & 0xf0, p.g & 0xf0, p.b & 0xf0) == c)
                    .count();
                if best.map_or(true, |(_, m)| n > m) {
                    best = Some((c, n));
                }
            }
        }
    }
    let ((r, g, b), _) = best.unwrap();
    assert_eq!(dominant_color(&frame_of(60, 50, &pixels)), rgb(r, g, b));
}
