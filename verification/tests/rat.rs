use collide1d::rat::Rat;

fn rat(n: i64, d: i64) -> Rat {
    Rat::new(n, d).unwrap()
}

#[test]
fn new_reduces_to_lowest_terms() {
    let r = rat(50, 100);
    assert_eq!(r, rat(1, 2));
    assert_eq!(r.num, 1);
    assert_eq!(r.den, 2);
    let r = rat(-36, 24);
    assert_eq!(r.num, -3);
    assert_eq!(r.den, 2);
    let z = rat(0, 7);
    assert_eq!(z.num, 0);
    assert_eq!(z.den, 1);
}

#[test]
fn new_rejects_nonpositive_denominator() {
    assert!(Rat::new(1, 0).is_none());
    assert!(Rat::new(1, -2).is_none());
}

#[test]
fn arithmetic_is_exact() {
    let third = rat(1, 3);
    let sixth = rat(1, 6);
    assert_eq!(third.add(&sixth).unwrap(), rat(1, 2));
    assert_eq!(third.sub(&sixth).unwrap(), rat(1, 6));
    assert_eq!(third.mul(&sixth).unwrap(), rat(1, 18));
    assert_eq!(third.div(&sixth).unwrap(), rat(2, 1));
    assert_eq!(rat(3, 4).div(&rat(-1, 2)).unwrap(), rat(-3, 2));
    assert_eq!(rat(-5, 7).neg(), rat(5, 7));
    assert!(rat(1, 3).lt(&rat(1, 2)));
    assert!(rat(1, 2).le(&rat(1, 2)));
    assert!(!rat(1, 2).lt(&rat(1, 2)));
}

#[test]
fn overflow_is_reported_not_wrapped() {
    let tiny = Rat::new(1, i64::MAX).unwrap();
    // The product's denominator cannot be reduced and does not fit.
    assert!(tiny.mul(&tiny).is_none());
    let big = Rat::from_int(i64::MAX);
    assert!(big.mul(&big).is_none());
    // A reducible product still succeeds.
    assert_eq!(rat(2, 3).mul(&rat(3, 2)).unwrap(), Rat::from_int(1));
}
