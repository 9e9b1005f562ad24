use tpt_certus::float_bits::{f64_bits_eq, next_down, next_up};
use tpt_certus::realization::EnvelopeBits;

fn up(x: f64) -> f64 {
    f64::from_bits(next_up(x.to_bits()))
}

fn down(x: f64) -> f64 {
    f64::from_bits(next_down(x.to_bits()))
}

#[test]
fn next_up_and_next_down_step_one_ulp() {
    assert_eq!(up(1.0), f64::from_bits(1.0f64.to_bits() + 1));
    assert_eq!(down(1.0), f64::from_bits(1.0f64.to_bits() - 1));
    assert_eq!(down(up(1.0)), 1.0);
    assert_eq!(up(0.0), f64::from_bits(1));
    assert_eq!(down(0.0), f64::from_bits(0x8000_0000_0000_0001));
    assert!(up(f64::INFINITY).is_infinite());
}

#[test]
fn steps_at_the_edges_of_the_finite_range() {
    assert_eq!(up(f64::MAX), f64::INFINITY);
    assert_eq!(down(f64::MIN), f64::NEG_INFINITY);
    assert_eq!(up(-0.0).to_bits(), 1);
    assert_eq!(down(-f64::from_bits(1)).to_bits(), 0x8000_0000_0000_0002);
    assert_eq!(up(-f64::from_bits(1)).to_bits(), 0x8000_0000_0000_0000);
    assert!(up(f64::NAN).is_nan());
    assert_eq!(down(f64::NEG_INFINITY), f64::NEG_INFINITY);
    assert!(up(-2.0) > -2.0 && up(-2.0) < -1.9999999);
    assert!(f64_bits_eq(up(down(0.0)).to_bits(), 0.0f64.to_bits()));
}

#[test]
fn envelope_widening() {
    let e = EnvelopeBits { lo: 1.0f64.to_bits(), hi: 2.0f64.to_bits() };
    let out = e.widen_outward();
    assert!(f64::from_bits(out.lo) < 1.0 && f64::from_bits(out.hi) > 2.0);
    let d = e.widen_down();
    assert!(f64::from_bits(d.lo) < 1.0 && f64::from_bits(d.hi) < 2.0);
    let u = e.widen_up();
    assert!(f64::from_bits(u.lo) > 1.0 && f64::from_bits(u.hi) > 2.0);
}
