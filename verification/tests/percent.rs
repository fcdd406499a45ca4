use ada_gps::IntegerPercent;

#[test]
fn it_works() {
    let result = 2 + 2;
    assert_eq!(result, 4);
}

#[test]
fn integer_percent_holds_its_value() {
    assert_eq!(IntegerPercent::new(42).as_u8(), 42);
    assert_eq!(IntegerPercent::zero().as_u8(), 0);
    assert_eq!(IntegerPercent::new(100).as_u8(), 100);
    assert_eq!(IntegerPercent::zero(), 0);
    assert!(IntegerPercent::new(7) == 7);
    assert!(IntegerPercent::new(7) != 8);
    assert!(IntegerPercent::new(7) < IntegerPercent::new(8));
}
