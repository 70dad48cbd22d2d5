use wallet_ledger::amount::Amount;

#[test]
fn new_keeps_mantissa_and_scale() {
    let a = Amount::new(-3141, 3);
    assert_eq!(a.mantissa(), -3141);
    assert_eq!(a.scale(), 3);
    assert_eq!(Amount::zero().mantissa(), 0);
    assert_eq!(Amount::zero().scale(), 0);
}

#[test]
fn try_from_parts_accepts_what_can_be_represented() {
    let max: i128 = 79_228_162_514_264_337_593_543_950_335;
    assert!(Amount::try_from_parts(max, 28).is_some());
    assert!(Amount::try_from_parts(-max, 0).is_some());
    assert!(Amount::try_from_parts(max + 1, 0).is_none());
    assert!(Amount::try_from_parts(-max - 1, 0).is_none());
    assert!(Amount::try_from_parts(1, 29).is_none());
    let a = Amount::try_from_parts(12345, 2).unwrap();
    assert_eq!(a.mantissa(), 12345);
    assert_eq!(a.scale(), 2);
}

#[test]
fn equality_is_by_value() {
    assert_eq!(Amount::new(10, 1), Amount::new(1, 0));
    assert_eq!(Amount::new(0, 5), Amount::new(0, 0));
    assert_ne!(Amount::new(10, 1), Amount::new(10, 0));
    assert_ne!(Amount::new(-1, 0), Amount::new(1, 0));
}

#[test]
fn order_is_by_value() {
    assert!(Amount::new(5, 1).lt(&Amount::new(1, 0)));
    assert!(!Amount::new(1, 0).lt(&Amount::new(5, 1)));
    assert!(!Amount::new(1, 0).lt(&Amount::new(10, 1)));
    assert!(Amount::new(-5, 1).lt(&Amount::new(-1, 2)));
    assert!(Amount::new(-1, 28).is_negative());
    assert!(!Amount::new(0, 3).is_negative());
    assert!(Amount::new(1, 28).is_positive());
    assert!(!Amount::new(0, 3).is_positive());
    assert!(!Amount::new(-2, 0).is_positive());
}

#[test]
fn checked_add_of_one_scale_adds_mantissas() {
    let sum = Amount::new(100, 0).checked_add(Amount::new(200, 0)).unwrap();
    assert_eq!(sum.mantissa(), 300);
    assert_eq!(sum.scale(), 0);
    let sum = Amount::new(-125, 2).checked_add(Amount::new(25, 2)).unwrap();
    assert_eq!(sum.mantissa(), -100);
    assert_eq!(sum.scale(), 2);
}

#[test]
fn checked_add_of_zero_gives_the_other_operand() {
    let sum = Amount::new(0, 4).checked_add(Amount::new(7, 1)).unwrap();
    assert_eq!((sum.mantissa(), sum.scale()), (7, 1));
    let sum = Amount::new(7, 1).checked_add(Amount::new(0, 4)).unwrap();
    assert_eq!((sum.mantissa(), sum.scale()), (7, 1));
}

#[test]
fn checked_sub_of_one_scale_subtracts_mantissas() {
    let diff = Amount::new(100, 0).checked_sub(Amount::new(250, 0)).unwrap();
    assert_eq!((diff.mantissa(), diff.scale()), (-150, 0));
    let diff = Amount::new(-5, 3).checked_sub(Amount::new(-5, 3)).unwrap();
    assert_eq!((diff.mantissa(), diff.scale()), (0, 3));
}

#[test]
fn checked_sub_with_zero() {
    let diff = Amount::new(0, 2).checked_sub(Amount::new(7, 1)).unwrap();
    assert_eq!((diff.mantissa(), diff.scale()), (-7, 1));
    let diff = Amount::new(7, 1).checked_sub(Amount::new(0, 2)).unwrap();
    assert_eq!((diff.mantissa(), diff.scale()), (7, 1));
    let diff = Amount::new(0, 2).checked_sub(Amount::new(0, 5)).unwrap();
    assert_eq!((diff.mantissa(), diff.scale()), (0, 5));
}

#[test]
fn checked_operations_report_overflow() {
    let max = Amount::try_from_parts(79_228_162_514_264_337_593_543_950_335, 0).unwrap();
    assert!(max.checked_add(Amount::new(1, 0)).is_none());
    assert!(max.checked_add(max).is_none());
    let min = Amount::try_from_parts(-79_228_162_514_264_337_593_543_950_335, 0).unwrap();
    assert!(min.checked_sub(Amount::new(1, 0)).is_none());
    assert_eq!(max.checked_sub(max), Some(Amount::zero()));
    let top = max.checked_sub(Amount::new(1, 0)).unwrap().checked_add(Amount::new(1, 0)).unwrap();
    assert_eq!(top.mantissa(), 79_228_162_514_264_337_593_543_950_335);
}

#[test]
fn large_operands_of_one_scale_add_exactly() {
    let a = Amount::try_from_parts(40_000_000_000_000_000_000_000_000_000, 5).unwrap();
    let b = Amount::try_from_parts(39_000_000_000_000_000_000_000_000_000, 5).unwrap();
    let sum = a.checked_add(b).unwrap();
    assert_eq!(sum.mantissa(), 79_000_000_000_000_000_000_000_000_000);
    assert_eq!(sum.scale(), 5);
    let diff = b.checked_sub(a).unwrap();
    assert_eq!(diff.mantissa(), -1_000_000_000_000_000_000_000_000_000);
    assert_eq!(diff.scale(), 5);
}
