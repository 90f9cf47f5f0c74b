//! Small arithmetic exercises carried alongside the guest programs.

use guest_build::zk;

#[test]
fn test_fibo() {
    let n = 10;
    let mut a: u128 = 0;
    let mut b: u128 = 1;
    let mut sum: u128;
    for _ in 1..n {
        sum = a + b;
        a = b;
        b = sum;
    }
}

#[test]
fn test_fibo2() {
    let n = 12;
    let mut a: u128 = 0;
    let mut b: u128 = 1;
    let mut sum: u128;
    for _ in 1..n {
        sum = a + b;
        a = b;
        b = sum;
    }
}

#[test]
fn fibo() {
    let n = 10;
    let mut a: u128 = 0;
    let mut b: u128 = 1;
    let mut sum: u128;
    for _ in 1..n {
        sum = a + b;
        a = b;
        b = sum;
    }
}

#[test]
fn zk_arithmetic() {
    assert_eq!(zk::multiply(6, 7), 42);
    assert_eq!(zk::add(40, 2), 42);
    assert_eq!(zk::add_two(2), 4);
    assert_eq!(zk::multiply(-3, 5), -15);
}
