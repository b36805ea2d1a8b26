use raytracer::color::{lerp, Color, FP_ONE};

#[test]
fn new_stores_channels() {
    let c = Color::new(1, 2, 3);
    assert_eq!(c, Color { r: 1, g: 2, b: 3 });
}

#[test]
fn black_and_white() {
    assert_eq!(Color::black(), Color::new(0, 0, 0));
    assert_eq!(Color::white(), Color::new(FP_ONE, FP_ONE, FP_ONE));
}

#[test]
fn add_is_channelwise() {
    let a = Color::new(100, 200, 300);
    let b = Color::new(1, 2, 3);
    assert_eq!(a.add(b), Color::new(101, 202, 303));
}

#[test]
fn add_saturates() {
    let a = Color::new(u64::MAX - 1, 0, 0);
    let b = Color::new(5, 0, 0);
    assert_eq!(a.add(b).r, u64::MAX);
}

#[test]
fn sub_floors_at_zero() {
    let a = Color::new(5, 10, 3);
    let b = Color::new(10, 4, 3);
    assert_eq!(a.sub(b), Color::new(0, 6, 0));
}

#[test]
fn mul_renormalizes() {
    // 0.5 * 0.5 == 0.25
    let half = Color::new(500, 500, 500);
    assert_eq!(half.mul(half), Color::new(250, 250, 250));
}

#[test]
fn mul_scalar_and_div_scalar() {
    let c = Color::new(800, 400, 200);
    assert_eq!(c.mul_scalar(500), Color::new(400, 200, 100));
    assert_eq!(c.div_scalar(4), Color::new(200, 100, 50));
}

#[test]
fn white_is_multiplicative_identity() {
    let c = Color::new(123, 456, 789);
    assert_eq!(Color::white().mul(c), c);
}

#[test]
fn gamma_correct_is_fixed_point_sqrt() {
    // sqrt(0.25) == 0.5 exactly in fixed point.
    let c = Color::new(250, 250, 250).gamma_correct();
    assert_eq!(c, Color::new(500, 500, 500));
    // sqrt(1.0) == 1.0
    assert_eq!(Color::white().gamma_correct(), Color::white());
    // sqrt(0) == 0
    assert_eq!(Color::black().gamma_correct(), Color::black());
}

#[test]
fn gamma_correct_truncates() {
    // sqrt(0.5) = 0.7071...; fixed point keeps 0.707.
    let c = Color::new(500, 0, 0).gamma_correct();
    assert_eq!(c.r, 707);
}

#[test]
fn to_u32_packs_and_clamps() {
    // 1.0 -> 255 in every channel.
    assert_eq!(Color::white().to_u32(), 0x00FF_FFFF);
    assert_eq!(Color::black().to_u32(), 0);
    // 0.5 -> 127 (500 * 255 / 1000 truncates).
    assert_eq!(Color::new(500, 0, 0).to_u32(), 127 << 16);
    // Channels past 1.0 clamp at 255 instead of bleeding into neighbors.
    assert_eq!(Color::new(5000, 0, 0).to_u32(), 255 << 16);
}

#[test]
fn clamp_is_channelwise() {
    let c = Color::new(5, 500, 5000);
    assert_eq!(c.clamp(10, 1000), Color::new(10, 500, 1000));
}

#[test]
fn lerp_mixes() {
    let a = Color::new(0, 0, 0);
    let b = Color::new(1000, 1000, 1000);
    assert_eq!(lerp(&a, &b, 0), a);
    assert_eq!(lerp(&a, &b, 1000), b);
    assert_eq!(lerp(&a, &b, 250), Color::new(250, 250, 250));
}

#[test]
#[allow(non_snake_case)]
fn newFromNormals_remaps() {
    // -1 -> 0, 0 -> 0.5, +1 -> 1.
    assert_eq!(Color::newFromNormals(-1000, 0, 1000), Color::new(0, 500, 1000));
}
