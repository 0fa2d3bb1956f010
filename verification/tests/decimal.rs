use position_manager::decimal::Dec;

fn d(text: &str) -> Dec {
    Dec::parse(text).unwrap()
}

fn parts(value: Dec) -> (i128, u32) {
    (value.mantissa(), value.scale())
}

#[test]
fn texts_are_read_with_their_scale() {
    assert_eq!(parts(d("0.50")), (50, 2));
    assert_eq!(parts(d("-12.345")), (-12345, 3));
    assert_eq!(parts(d("7")), (7, 0));
}

#[test]
fn texts_that_are_no_numbers_are_refused() {
    assert!(Dec::parse("").is_none());
    assert!(Dec::parse("abc").is_none());
    assert!(Dec::parse("1.2.3").is_none());
}

#[test]
fn written_numbers_read_back_unchanged() {
    let values = [
        Dec::new(0, 0),
        Dec::new(0, 2),
        Dec::new(45, 2),
        Dec::new(-1, 28),
        Dec::new(120, 1),
        Dec::from_parts(79228162514264337593543950335, 0).unwrap(),
        Dec::from_parts(-79228162514264337593543950335, 28).unwrap(),
        Dec::from_parts(79228162514264337593543950335, 14).unwrap(),
        Dec::from_parts(79228162514264337593543950334, 27).unwrap(),
        Dec::from_parts(10000000000000000000000000000, 28).unwrap(),
    ];
    for value in values {
        assert_eq!(parts(d(&value.to_text())), parts(value));
    }
}

#[test]
fn all_digits_are_written() {
    assert_eq!(Dec::new(45, 2).to_text(), "0.45");
    assert_eq!(Dec::new(-1200, 2).to_text(), "-12.00");
    assert_eq!(Dec::new(3, 0).to_text(), "3");
}

#[test]
fn parts_out_of_range_are_refused() {
    assert!(Dec::from_parts(79228162514264337593543950336, 0).is_none());
    assert!(Dec::from_parts(-79228162514264337593543950336, 0).is_none());
    assert!(Dec::from_parts(1, 29).is_none());
    assert_eq!(parts(Dec::from_parts(12, 1).unwrap()), (12, 1));
}

#[test]
fn comparisons_ignore_the_scale() {
    assert!(d("0.5").same(d("0.50")));
    assert!(d("0.5").le(d("0.50")));
    assert!(!d("0.5").lt(d("0.50")));
    assert!(d("-1").lt(d("0.001")));
    assert!(d("0.01").is_positive());
    assert!(!d("0.00").is_positive());
    assert!(!d("-3").is_positive());
}

#[test]
fn sums_and_differences_are_exact() {
    assert!(d("0.1").plus(d("0.2")).unwrap().same(d("0.3")));
    assert!(d("1").minus(d("0.55")).unwrap().same(d("0.45")));
    assert!(d("100000000000000").plus(d("0.00000000000001")).unwrap().same(d("100000000000000.00000000000001")));
}

#[test]
fn adding_zero_changes_nothing() {
    assert_eq!(parts(d("0.000").plus(d("5.1")).unwrap()), (51, 1));
    assert_eq!(parts(d("5.1").plus(d("0.000")).unwrap()), (51, 1));
    assert_eq!(parts(d("0.00").plus(d("0.0")).unwrap()), (0, 1));
    assert_eq!(parts(d("0").plus(d("-2.50")).unwrap()), (-250, 2));
}

#[test]
fn sums_that_are_too_large_are_refused() {
    let largest = Dec::from_parts(79228162514264337593543950335, 0).unwrap();
    assert!(largest.plus(Dec::new(1, 0)).is_none());
    assert!(largest.minus(Dec::new(-1, 0)).is_none());
    assert!(largest.times(Dec::new(2, 0)).is_none());
}

#[test]
fn products_keep_all_digits() {
    assert_eq!(parts(d("0.5").times(d("1.50")).unwrap()), (750, 3));
    assert_eq!(parts(d("-3").times(d("0.05")).unwrap()), (-15, 2));
    assert_eq!(parts(d("0.00").times(d("7.5")).unwrap()), (0, 0));
    assert_eq!(parts(d("7.5").times(d("0.0")).unwrap()), (0, 0));
}

#[test]
fn quotients_are_computed() {
    assert!(d("1").over(d("4")).unwrap().same(d("0.25")));
    assert!(d("1").over(d("3")).unwrap().same(d("0.3333333333333333333333333333")));
    assert!(d("1").over(d("0.00")).is_none());
    assert_eq!(parts(d("0.00").over(d("3")).unwrap()), (0, 0));
}

#[test]
fn whole_numbers_around_a_value() {
    assert_eq!(parts(d("1.0606").ceil()), (2, 0));
    assert_eq!(parts(d("-1.5").ceil()), (-1, 0));
    assert_eq!(parts(d("-0.5").ceil()), (0, 0));
    assert_eq!(parts(d("2.00").ceil()), (2, 0));
    assert_eq!(parts(d("1.9").floor()), (1, 0));
    assert_eq!(parts(d("-1.1").floor()), (-2, 0));
    assert_eq!(parts(d("0.000").floor()), (0, 0));
    assert_eq!(parts(d("-2.0").floor()), (-2, 0));
}

#[test]
fn sign_is_taken_away() {
    assert_eq!(parts(d("-1.25").abs()), (125, 2));
    assert_eq!(parts(d("1.25").abs()), (125, 2));
}

#[test]
fn truncation_cuts_toward_zero() {
    assert_eq!(parts(d("0.459").truncate(2)), (45, 2));
    assert_eq!(parts(d("-0.459").truncate(2)), (-45, 2));
    assert_eq!(parts(d("0.000").truncate(2)), (0, 2));
    assert!(d("0.5").truncate(2).same(d("0.5")));
    assert_eq!(parts(d("17.999").truncate(0)), (17, 0));
    assert_eq!(parts(d("12.3456").truncate(4)), (123456, 4));
}

#[test]
fn whole_parts_that_fit_are_given() {
    assert_eq!(d("17.99").to_u32(), Some(17));
    assert_eq!(d("0").to_u32(), Some(0));
    assert_eq!(d("4294967295").to_u32(), Some(4294967295));
    assert_eq!(d("4294967296").to_u32(), None);
    assert_eq!(d("-1").to_u32(), None);
    assert_eq!(d("-0.5").to_u32(), None);
}
