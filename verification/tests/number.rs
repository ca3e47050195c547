//! Numbers by their bits, against the machine's own.

use ratty::number::Single;

fn num(x: f32) -> Single {
    Single { bits: x.to_bits() }
}

fn samples() -> Vec<f32> {
    vec![
        0.0,
        -0.0,
        1.0,
        -1.0,
        0.5,
        1.5,
        2.0,
        1e-40,
        -1e-40,
        f32::MIN_POSITIVE,
        f32::MAX,
        f32::MIN,
        f32::INFINITY,
        f32::NEG_INFINITY,
        f32::NAN,
    ]
}

#[test]
fn comparisons_agree_with_the_machine() {
    for a in samples() {
        assert_eq!(num(a).is_finite(), a.is_finite(), "{a}");
        assert_eq!(num(a).is_nan(), a.is_nan(), "{a}");
        assert_eq!(num(a).is_nonzero(), a != 0.0, "{a}");
        for b in samples() {
            assert_eq!(num(a).is_below(num(b)), a < b, "{a} {b}");
            if !b.is_nan() {
                let raised = f32::from_bits(num(a).raise_to(num(b)).bits);
                assert_eq!(raised, a.max(b), "{a} {b}");
            }
        }
    }
}

#[test]
fn clamping_agrees_with_the_machine() {
    for a in samples() {
        let moved = num(a).clamp_to(num(0.0), num(1.0));
        assert_eq!(moved.bits, a.clamp(0.0, 1.0).to_bits(), "{a}");
    }
}

#[test]
fn thousandths_agree_with_the_machine() {
    for x in [0.0_f32, 1e-40, 0.0004, 0.0005, 0.0015, 0.3, 1.2345, 7.7777, 30.0, 59.9995, 1e9] {
        let exact = (f64::from(x) * 1000.0).round().clamp(100.0, 60_000.0) as u64;
        assert_eq!(num(x).thousandfold_within(100, 60_000), exact, "{x}");
        let small = (f64::from(x) * 1000.0).round().clamp(0.0, 60_000.0) as u64;
        assert_eq!(num(x).thousandfold_within(0, 60_000), small, "{x}");
    }
}
