use procmesh::fixed::{isqrt_u128, Fx};
use procmesh::trig::{cos_turns, sin_turns, FULL_TURN, HALF_TURN, QUARTER_TURN};

const ONE: i64 = 65536;

fn fx(raw: i64) -> Fx {
    Fx { raw }
}

#[test]
fn times_is_exact_on_whole_products() {
    // 1.5 * 2.0 == 3.0
    assert_eq!(fx(98304).times(fx(131072)).raw, 196608);
    // 3.0 * -0.5 == -1.5
    assert_eq!(fx(196608).times(fx(-32768)).raw, -98304);
    assert_eq!(fx(0).times(fx(12345)).raw, 0);
    assert_eq!(fx(12345).times(Fx::one()).raw, 12345);
    assert_eq!(fx(-12345).times(Fx::one()).raw, -12345);
}

#[test]
fn times_rounds_toward_zero() {
    // (1/65536) * (1/2) rounds to zero from either side
    assert_eq!(fx(1).times(fx(32768)).raw, 0);
    assert_eq!(fx(-1).times(fx(32768)).raw, 0);
    // 3 * (1/2) in raw steps: 3*32768/65536 truncates to 1 for both signs
    assert_eq!(fx(3).times(fx(32768)).raw, 1);
    assert_eq!(fx(-3).times(fx(32768)).raw, -1);
}

#[test]
fn div_by_matches_truncating_division() {
    // 3.0 / 2.0 == 1.5
    assert_eq!(fx(196608).div_by(fx(131072)).raw, 98304);
    // -3.0 / 2.0 == -1.5
    assert_eq!(fx(-196608).div_by(fx(131072)).raw, -98304);
    // 1.0 / 3.0 truncates: 65536*65536/196608 = 21845
    assert_eq!(Fx::one().div_by(fx(196608)).raw, 21845);
}

#[test]
fn half_truncates_toward_zero() {
    assert_eq!(fx(5).half().raw, 2);
    assert_eq!(fx(-5).half().raw, -2);
    assert_eq!(fx(131072).half().raw, 65536);
}

#[test]
fn sqrt_of_exact_squares() {
    // sqrt(4.0) == 2.0, sqrt(1.0) == 1.0, sqrt(0) == 0
    assert_eq!(fx(4 * ONE).sqrt_val().raw, 2 * ONE);
    assert_eq!(Fx::one().sqrt_val().raw, ONE);
    assert_eq!(Fx::zero().sqrt_val().raw, 0);
    // sqrt(2.25) == 1.5
    assert_eq!(fx(147456).sqrt_val().raw, 98304);
}

#[test]
fn isqrt_brackets_its_argument() {
    for n in [0u128, 1, 2, 3, 4, 15, 16, 17, 1_000_000, u64::MAX as u128] {
        let r = isqrt_u128(n) as u128;
        assert!(r * r <= n);
        assert!((r + 1) * (r + 1) > n);
    }
}

#[test]
fn sine_is_exact_at_quarter_turns() {
    assert_eq!(sin_turns(fx(0)).raw, 0);
    assert_eq!(sin_turns(fx(QUARTER_TURN)).raw, ONE);
    assert_eq!(sin_turns(fx(HALF_TURN)).raw, 0);
    assert_eq!(sin_turns(fx(HALF_TURN + QUARTER_TURN)).raw, -ONE);
    assert_eq!(sin_turns(fx(FULL_TURN)).raw, 0);
    assert_eq!(cos_turns(fx(0)).raw, ONE);
    assert_eq!(cos_turns(fx(QUARTER_TURN)).raw, 0);
    assert_eq!(cos_turns(fx(HALF_TURN)).raw, -ONE);
    assert_eq!(cos_turns(fx(HALF_TURN + QUARTER_TURN)).raw, 0);
}

#[test]
fn sine_wraps_and_handles_negative_angles() {
    // one and a quarter turns is a quarter turn
    assert_eq!(sin_turns(fx(FULL_TURN + QUARTER_TURN)).raw, ONE);
    // minus a quarter turn
    assert_eq!(sin_turns(fx(-QUARTER_TURN)).raw, -ONE);
    assert_eq!(cos_turns(fx(-HALF_TURN)).raw, -ONE);
    assert_eq!(sin_turns(fx(-FULL_TURN)).raw, 0);
}

#[test]
fn sine_tracks_the_real_sine() {
    let mut t: i64 = -131072;
    while t <= 131072 {
        let got = sin_turns(fx(t)).raw as f64 / ONE as f64;
        let want = (2.0 * std::f64::consts::PI * (t as f64 / ONE as f64)).sin();
        assert!(
            (got - want).abs() < 0.004,
            "sin at {} raw turns: got {}, want {}",
            t,
            got,
            want
        );
        t += 97;
    }
}
