use sparrow::number::Single;

fn single(x: f32) -> Single {
    Single { bits: x.to_bits() }
}

const VALUES: [f32; 14] = [
    0.0,
    -0.0,
    1.0,
    -1.0,
    0.5,
    0.99999994,
    1.0000001,
    f32::MIN_POSITIVE,
    -f32::MIN_POSITIVE,
    f32::MAX,
    f32::INFINITY,
    f32::NEG_INFINITY,
    f32::NAN,
    2500.0,
];

#[test]
fn patterns_compare_as_numbers_do() {
    for a in VALUES {
        assert_eq!(single(a).is_nan(), a.is_nan());
        for b in VALUES {
            assert_eq!(single(a).le(single(b)), a <= b, "{} <= {}", a, b);
            assert_eq!(single(a).lt(single(b)), a < b, "{} < {}", a, b);
        }
    }
}

#[test]
fn zero_and_one_have_their_patterns() {
    assert_eq!(Single::zero(), single(0.0));
    assert_eq!(Single::one(), single(1.0));
}
