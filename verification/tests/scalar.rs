use truss::scalar::Scalar;

#[test]
fn integers_have_zero_and_one() {
    assert_eq!(<i64 as Scalar>::zero(), 0);
    assert_eq!(<i64 as Scalar>::one(), 1);
}

#[test]
fn integers_add_subtract_and_multiply() {
    assert_eq!(Scalar::add(20i64, 22), 42);
    assert_eq!(Scalar::sub(20i64, 22), -2);
    assert_eq!(Scalar::mul(-6i64, 7), -42);
    assert_eq!(Scalar::neg(5i64), -5);
    assert_eq!(Scalar::neg(-5i64), 5);
    assert_eq!(Scalar::neg(0i64), 0);
}

#[test]
fn integer_arithmetic_wraps_around() {
    assert_eq!(Scalar::add(i64::MAX, 1), i64::MIN);
    assert_eq!(Scalar::add(i64::MIN, -1), i64::MAX);
    assert_eq!(Scalar::sub(i64::MIN, 1), i64::MAX);
    assert_eq!(Scalar::sub(i64::MAX, -1), i64::MIN);
    assert_eq!(Scalar::mul(i64::MAX, 2), -2);
    assert_eq!(Scalar::mul(1i64 << 32, 1i64 << 32), 0);
    assert_eq!(Scalar::neg(i64::MIN), i64::MIN);
}

#[test]
fn integer_laws_on_chosen_values() {
    let values = [0i64, 1, -1, 7, -12, i64::MAX, i64::MIN, 1 << 40];
    for a in values {
        assert_eq!(Scalar::add(a, 0), a);
        assert_eq!(Scalar::add(a, Scalar::neg(a)), 0);
        assert_eq!(Scalar::mul(a, 1), a);
        assert_eq!(Scalar::mul(a, 0), 0);
        assert_eq!(Scalar::is_negligible(Scalar::neg(a)), Scalar::is_negligible(a));
        for b in values {
            assert_eq!(Scalar::add(a, b), Scalar::add(b, a));
            assert_eq!(Scalar::sub(a, b), Scalar::add(a, Scalar::neg(b)));
            assert_eq!(Scalar::mul(Scalar::neg(a), b), Scalar::neg(Scalar::mul(a, b)));
            for c in values {
                assert_eq!(
                    Scalar::add(Scalar::add(a, b), c),
                    Scalar::add(a, Scalar::add(b, c))
                );
            }
        }
    }
}

#[test]
fn only_zero_is_a_negligible_integer() {
    assert!(Scalar::is_negligible(0i64));
    assert!(!Scalar::is_negligible(1i64));
    assert!(!Scalar::is_negligible(-1i64));
    assert!(!Scalar::is_negligible(i64::MIN));
}
