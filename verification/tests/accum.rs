use pushgen::accum::{Product, Sum};
use pushgen::{GeneratorExt, IntoGenerator, SliceGenerator};
use std::num::Wrapping;

#[test]
fn sum() {
    let data = [1, 2, 3, 4];
    assert_eq!(i32::sum(data.into_gen()), 10);
    assert_eq!(i32::sum(SliceGenerator::new(&data)), 10);

    let data = [Wrapping(u32::MAX), Wrapping(1)];
    assert_eq!(Wrapping::<u32>::sum(data.into_gen()), Wrapping(0));
}

#[test]
fn product() {
    let data = [2, 3, 4];
    let expected = 2 * 3 * 4;
    assert_eq!(i32::product(data.into_gen()), expected);
    assert_eq!(i32::product(SliceGenerator::new(&data)), expected);
}

#[test]
fn sum_and_product_of_nothing() {
    let data: [i32; 0] = [];
    assert_eq!(i32::sum(data.into_gen()), 0);
    assert_eq!(i32::sum(SliceGenerator::new(&data)), 0);
    assert_eq!(i32::product(data.into_gen()), 1);
    assert_eq!(i32::product(SliceGenerator::new(&data)), 1);
    let data: [Wrapping<u8>; 0] = [];
    assert_eq!(Wrapping::<u8>::sum(data.into_gen()), Wrapping(0));
    assert_eq!(Wrapping::<u8>::product(data.into_gen()), Wrapping(1));
}

#[test]
fn product_wraps_for_wrapping_numbers() {
    let data = [Wrapping(200u8), Wrapping(2u8)];
    assert_eq!(Wrapping::<u8>::product(data.into_gen()), Wrapping(144));
    let data = [Wrapping(i8::MAX), Wrapping(1i8)];
    assert_eq!(Wrapping::<i8>::sum(data.into_gen()), Wrapping(i8::MIN));
}

#[test]
fn sum_and_product_at_the_limits() {
    let data = [i8::MAX - 1, 1];
    assert_eq!(i8::sum(data.into_gen()), i8::MAX);
    let data = [-64i8, 2];
    assert_eq!(i8::product(data.into_gen()), i8::MIN);
    let data = [u64::MAX, 0];
    assert_eq!(u64::sum(SliceGenerator::new(&data)), u64::MAX);
}

#[test]
fn sum_and_product_as_methods() {
    let data = [1, 2, 3, 4];
    let total: i32 = SliceGenerator::new(&data).sum();
    assert_eq!(total, 10);
    let total: i64 = [2i64, 3, 4].into_gen().product();
    assert_eq!(total, 24);
}

#[test]
fn sum_over_an_adaptor() {
    let data = [1, 2, 3, 4, 5, 6];
    let total: i32 = SliceGenerator::new(&data).filter(|x| **x % 2 == 0).take(2).sum();
    assert_eq!(total, 6);
}
