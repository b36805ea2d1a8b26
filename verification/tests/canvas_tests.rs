use raytracer::canvas::Canvas;
use raytracer::color::Color;

#[test]
fn new_canvas_is_zeroed() {
    let c = Canvas::new(4, 3);
    assert_eq!(c.width(), 4);
    assert_eq!(c.height(), 3);
    assert_eq!(c.pixel_count(), 12);
    assert_eq!(c.sample_count, 0);
    assert!(c.pixel_buffer.iter().all(|&p| p == 0));
    assert!(c.accum_buffer.iter().all(|&a| a == Color::black()));
}

#[test]
fn paint_pixel_writes_one_slot() {
    let mut c = Canvas::new(4, 3);
    c.paint_pixel(1, 2, 0xABCDEF);
    for (i, &p) in c.pixel_buffer.iter().enumerate() {
        if i == 2 * 4 + 1 {
            assert_eq!(p, 0xABCDEF);
        } else {
            assert_eq!(p, 0);
        }
    }
}

#[test]
fn add_sample_averages() {
    let mut c = Canvas::new(2, 2);
    // First frame: sum = sample, average over one sample.
    let avg = c.add_sample(0, 0, Color::new(600, 600, 600));
    assert_eq!(avg, Color::new(600, 600, 600));
    c.next_frame();
    assert_eq!(c.sample_count, 1);
    // Second frame: running average of 600 and 0.
    let avg = c.add_sample(0, 0, Color::black());
    assert_eq!(avg, Color::new(300, 300, 300));
}

#[test]
fn constant_samples_average_to_the_sample() {
    let mut c = Canvas::new(1, 1);
    let sample = Color::new(700, 500, 300);
    for _ in 0..50 {
        let avg = c.add_sample(0, 0, sample);
        assert_eq!(avg, sample);
        c.next_frame();
    }
}

#[test]
fn running_average_approaches_the_mean() {
    // Alternating samples 0 and 1.0: the average at even counts is
    // exactly 0.5 and the deviation at odd counts keeps shrinking.
    let mut c = Canvas::new(1, 1);
    let mut deviations = Vec::new();
    for k in 0..20 {
        let s = if k % 2 == 0 { Color::new(1000, 1000, 1000) } else { Color::black() };
        let avg = c.add_sample(0, 0, s);
        c.next_frame();
        if k % 2 == 1 {
            assert_eq!(avg, Color::new(500, 500, 500));
        } else {
            deviations.push(avg.r as i64 - 500);
        }
    }
    for pair in deviations.windows(2) {
        assert!(pair[1].abs() <= pair[0].abs());
    }
}

#[test]
fn reset_accumulation_zeroes_sums_and_counter() {
    let mut c = Canvas::new(2, 2);
    for y in 0..2 {
        for x in 0..2 {
            c.add_sample(x, y, Color::new(999, 999, 999));
        }
    }
    c.next_frame();
    c.reset_accumulation();
    assert_eq!(c.sample_count, 0);
    assert!(c.accum_buffer.iter().all(|&a| a == Color::black()));
    // The very next average is the new sample alone: the display is back
    // at zero for a black sample.
    let avg = c.add_sample(1, 1, Color::black());
    assert_eq!(avg, Color::black());
}

#[test]
fn resize_reallocates_and_resets() {
    let mut c = Canvas::new(2, 2);
    c.add_sample(0, 0, Color::new(100, 100, 100));
    c.next_frame();
    c.resize(3, 5);
    assert_eq!(c.width(), 3);
    assert_eq!(c.height(), 5);
    assert_eq!(c.pixel_buffer.len(), 15);
    assert_eq!(c.accum_buffer.len(), 15);
    assert_eq!(c.sample_count, 0);
    // A zero-sized request is ignored.
    c.resize(0, 7);
    assert_eq!(c.width(), 3);
    assert_eq!(c.height(), 5);
}

#[test]
fn rgba_unpacks_pixels() {
    let mut c = Canvas::new(2, 1);
    c.paint_pixel(0, 0, 0x00112233);
    c.paint_pixel(1, 0, 0xFFAABBCC);
    let bytes = c.rgba_data();
    assert_eq!(bytes, vec![0x11, 0x22, 0x33, 0x00, 0xAA, 0xBB, 0xCC, 0xFF]);
}
