use rings_core::did::Did;
use rings_core::error::Error;

fn d(hi: u32, lo: u128) -> Did {
    Did::new(hi, lo)
}

#[test]
fn distance_wraps_around_the_ring() {
    assert_eq!(d(0, 5).distance(&d(0, 9)), d(0, 4));
    assert_eq!(d(0, 9).distance(&d(0, 5)), d(u32::MAX, u128::MAX - 3));
    assert_eq!(d(1, 0).distance(&d(0, u128::MAX)), d(u32::MAX, u128::MAX));
    assert_eq!(d(0, u128::MAX).distance(&d(1, 0)), d(0, 1));
    assert_eq!(d(3, 3).distance(&d(3, 3)), d(0, 0));
}

#[test]
fn distances_in_both_directions_sum_to_the_ring() {
    let pairs = [(d(0, 5), d(0, 9)), (d(7, 1), d(2, 99)), (d(u32::MAX, 1), d(0, 2))];
    for (a, b) in pairs {
        let x = a.distance(&b);
        let y = b.distance(&a);
        // x + y == 2^160, so the low limbs add with a carry into the high limbs
        let (lo, carry) = x.lo.overflowing_add(y.lo);
        let hi = x.hi.wrapping_add(y.hi).wrapping_add(carry as u32);
        assert_eq!((hi, lo), (0, 0));
        assert!(x != d(0, 0));
    }
}

#[test]
fn between_is_half_open_and_exclusive() {
    let a = d(0, 10);
    let b = d(0, 20);
    assert!(Did::between(&a, &d(0, 15), &b));
    assert!(!Did::between(&a, &a, &b));
    assert!(!Did::between(&a, &b, &b));
    assert!(!Did::between(&a, &d(0, 25), &b));
    assert!(Did::between(&b, &d(0, 25), &a));
    assert!(Did::between(&b, &d(0, 5), &a));
    // a == b covers the whole ring but a
    assert!(Did::between(&a, &d(9, 0), &a));
    assert!(!Did::between(&a, &a, &a));
}

#[test]
fn exactly_one_arc_holds_a_third_point() {
    let a = d(0, 100);
    let b = d(5, 7);
    for x in [d(0, 0), d(0, 101), d(4, 0), d(6, 0), d(u32::MAX, u128::MAX)] {
        assert!(Did::between(&a, &x, &b) != Did::between(&b, &x, &a));
    }
}

#[test]
fn did_text_round_trip() {
    let x = d(0x0123_abcd, 0x00ff_0000_0000_0000_0000_0000_0000_0001);
    let text = x.to_string();
    assert_eq!(text, "0x0123abcd00ff0000000000000000000000000001");
    assert_eq!(Did::from_str(&text), Ok(x));
    assert_eq!(Did::from_str("0123ABCD00FF0000000000000000000000000001"), Ok(x));
}

#[test]
fn did_text_errors() {
    assert_eq!(Did::from_str(""), Err(Error::InvalidDid));
    assert_eq!(Did::from_str("0x123"), Err(Error::InvalidDid));
    assert_eq!(
        Did::from_str("0x0123abcd00ff000000000000000000000000000g"),
        Err(Error::InvalidDid)
    );
}

#[test]
fn did_from_bytes_is_big_endian() {
    let mut b = [0u8; 20];
    b[0] = 0x12;
    b[3] = 0x34;
    b[19] = 0x56;
    assert_eq!(Did::from_bytes(&b), d(0x1200_0034, 0x56));
}

#[test]
fn did_order() {
    assert!(d(0, u128::MAX).lt(&d(1, 0)));
    assert!(!d(1, 0).lt(&d(1, 0)));
    assert!(d(1, 0).lt(&d(1, 1)));
}

#[test]
fn add_and_powers_of_two() {
    assert_eq!(Did::pow2(0), d(0, 1));
    assert_eq!(Did::pow2(127), d(0, 1u128 << 127));
    assert_eq!(Did::pow2(128), d(1, 0));
    assert_eq!(Did::pow2(159), d(0x8000_0000, 0));
    assert_eq!(d(0, u128::MAX).add(&d(0, 1)), d(1, 0));
    assert_eq!(d(u32::MAX, u128::MAX).add(&d(0, 2)), d(0, 1));
    assert_eq!(d(0x8000_0000, 5).add_pow2(159), d(0, 5));
    assert_eq!(d(0, 5).add_pow2(3), d(0, 13));
}
