use mandelbrot_animation::path::{fixed_path, Anchor, Decimal};

fn as_double(d: Decimal) -> f64 {
    d.mantissa as f64 / 10f64.powi(d.scale as i32)
}

#[test]
fn path_has_four_anchors() {
    let path = fixed_path();
    assert_eq!(path.len(), 4);
    assert_eq!(
        path[0],
        Anchor {
            re: Decimal { mantissa: -743643887037151, scale: 15 },
            im: Decimal { mantissa: 13182590420533, scale: 14 },
        }
    );
    assert_eq!(
        path[3],
        Anchor {
            re: Decimal { mantissa: -74364085, scale: 8 },
            im: Decimal { mantissa: 1318309, scale: 7 },
        }
    );
}

#[test]
fn anchors_are_the_doubles_nearest_to_their_decimals() {
    let path = fixed_path();
    let expected: [(f64, f64); 4] = [
        (-0.743643887037151, 0.13182590420533),
        (-0.743643135, 0.13182733),
        (-0.743642, 0.131829),
        (-0.74364085, 0.1318309),
    ];
    for (anchor, want) in path.iter().zip(expected.iter()) {
        assert_eq!(as_double(anchor.re), want.0);
        assert_eq!(as_double(anchor.im), want.1);
    }
}

#[test]
fn anchors_fit_a_double_exactly() {
    for anchor in fixed_path() {
        for d in [anchor.re, anchor.im] {
            assert!(d.mantissa.abs() < (1i64 << 53));
            assert!(d.scale <= 22);
        }
    }
}
