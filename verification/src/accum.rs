//! Sums and products of the values of a generator.

use crate::generator::Generator;
use crate::laws::{law_delivery, lemma_patient_run};
use crate::script::{first_run, gives, lemma_first_run_gives, values, Step};
use crate::signal::ValueResult;
use crate::sink::{feed, never_stops, Sink, Sound};
use std::num::Wrapping;
use vstd::prelude::*;

verus! {

/// `std::num::Wrapping`: a struct with one public field, the number it wraps.
/// Nothing more is claimed of it.
#[verifier::external_type_specification]
#[verifier::reject_recursive_types(T)]
pub struct ExWrapping<T>(Wrapping<T>);

/// A kind of number that can be summed and multiplied. A sum or product of
/// two numbers is `None` where the kind has no number for it.
pub trait Numeric: Copy {
    /// The number that changes no sum.
    spec fn zero_value() -> Self;

    /// The number that changes no product.
    spec fn one_value() -> Self;

    /// The sum of two numbers.
    spec fn sum_with(self, other: Self) -> Option<Self>;

    /// The product of two numbers.
    spec fn product_with(self, other: Self) -> Option<Self>;

    /// The number that changes no sum.
    fn zero() -> (r: Self)
        ensures
            r == Self::zero_value(),
    ;

    /// The number that changes no product.
    fn one() -> (r: Self)
        ensures
            r == Self::one_value(),
    ;

    /// The sum of two numbers.
    fn plus(self, other: Self) -> (r: Option<Self>)
        ensures
            r == self.sum_with(other),
    ;

    /// The product of two numbers.
    fn times(self, other: Self) -> (r: Option<Self>)
        ensures
            r == self.product_with(other),
    ;
}

/// The values behind references.
pub open spec fn targets<'a, T>(items: Seq<&'a T>) -> Seq<T> {
    Seq::new(items.len(), |i: int| *items[i])
}

/// Adds up the numbers it is given and always asks for more. It holds `None`
/// once a sum did not fit.
pub struct Adding<N> {
    total: Option<N>,
}

impl<N> Sound for Adding<N> {
    open spec fn inv(&self) -> bool {
        true
    }
}

impl<N: Numeric> Sink<N> for Adding<N> {
    type State = Option<N>;

    closed spec fn state(&self) -> Option<N> {
        self.total
    }

    open spec fn verdict(s: Option<N>, value: N) -> ValueResult {
        ValueResult::MoreValues
    }

    open spec fn step(s: Option<N>, value: N) -> Option<N> {
        match s {
            Some(total) => total.sum_with(value),
            None => None,
        }
    }

    fn accept(&mut self, value: N) -> (r: ValueResult) {
        self.total = match self.total {
            Some(total) => total.plus(value),
            None => None,
        };
        ValueResult::MoreValues
    }
}

/// Multiplies the numbers it is given and always asks for more. It holds
/// `None` once a product did not fit.
pub struct Multiplying<N> {
    total: Option<N>,
}

impl<N> Sound for Multiplying<N> {
    open spec fn inv(&self) -> bool {
        true
    }
}

impl<N: Numeric> Sink<N> for Multiplying<N> {
    type State = Option<N>;

    closed spec fn state(&self) -> Option<N> {
        self.total
    }

    open spec fn verdict(s: Option<N>, value: N) -> ValueResult {
        ValueResult::MoreValues
    }

    open spec fn step(s: Option<N>, value: N) -> Option<N> {
        match s {
            Some(total) => total.product_with(value),
            None => None,
        }
    }

    fn accept(&mut self, value: N) -> (r: ValueResult) {
        self.total = match self.total {
            Some(total) => total.times(value),
            None => None,
        };
        ValueResult::MoreValues
    }
}

/// Hands the value behind each reference to an inner sink.
pub struct Reading<S> {
    inner: S,
}

impl<S: Sound> Sound for Reading<S> {
    closed spec fn inv(&self) -> bool {
        self.inner.inv()
    }
}

impl<'a, N: Copy, S: Sink<N>> Sink<&'a N> for Reading<S> {
    type State = S::State;

    closed spec fn state(&self) -> S::State {
        self.inner.state()
    }

    open spec fn verdict(s: S::State, value: &'a N) -> ValueResult {
        S::verdict(s, *value)
    }

    open spec fn step(s: S::State, value: &'a N) -> S::State {
        S::step(s, *value)
    }

    fn accept(&mut self, value: &'a N) -> (r: ValueResult) {
        self.inner.accept(*value)
    }
}

/// The sum of `numbers`, added one by one to `start`.
pub open spec fn sum_from<N: Numeric>(start: Option<N>, numbers: Seq<N>) -> Option<N> {
    feed::<N, Adding<N>>(start, numbers)
}

/// The product of `numbers`, multiplied one by one onto `start`.
pub open spec fn product_from<N: Numeric>(start: Option<N>, numbers: Seq<N>) -> Option<N> {
    feed::<N, Multiplying<N>>(start, numbers)
}

/// An adding sink never asks to stop.
pub proof fn lemma_adding_patient<N: Numeric>(s: Option<N>, numbers: Seq<N>)
    ensures
        never_stops::<N, Adding<N>>(s, numbers),
    decreases numbers.len(),
{
    if numbers.len() > 0 {
        lemma_adding_patient::<N>(<Adding<N> as Sink<N>>::step(s, numbers[0]), numbers.skip(1));
    }
}

/// A multiplying sink never asks to stop.
pub proof fn lemma_multiplying_patient<N: Numeric>(s: Option<N>, numbers: Seq<N>)
    ensures
        never_stops::<N, Multiplying<N>>(s, numbers),
    decreases numbers.len(),
{
    if numbers.len() > 0 {
        lemma_multiplying_patient::<N>(
            <Multiplying<N> as Sink<N>>::step(s, numbers[0]),
            numbers.skip(1),
        );
    }
}

/// A reading sink behaves on references as its inner sink does on the values
/// behind them.
pub proof fn lemma_reading<'a, N: Copy, S: Sink<N>>(s: S::State, items: Seq<&'a N>)
    ensures
        feed::<&'a N, Reading<S>>(s, items) == feed::<N, S>(s, targets(items)),
        never_stops::<&'a N, Reading<S>>(s, items) == never_stops::<N, S>(s, targets(items)),
    decreases items.len(),
{
    if items.len() > 0 {
        lemma_reading::<N, S>(S::step(s, *items[0]), items.skip(1));
        assert(targets(items).skip(1) =~= targets(items.skip(1)));
        assert(targets(items)[0] == *items[0]);
    }
}

/// The sum of nothing is zero, and the product of nothing is one.
pub proof fn law_empty_sum_and_product<N: Numeric>()
    ensures
        <N as Sum<N>>::sum_of(first_run(Seq::<Step<N>>::empty())) == Some(N::zero_value()),
        <N as Product<N>>::product_of(first_run(Seq::<Step<N>>::empty())) == Some(
            N::one_value(),
        ),
{
    let nothing = Seq::<N>::empty();
    lemma_first_run_gives(nothing);
    assert(gives(nothing) =~= Seq::<Step<N>>::empty());
}

/// Over a source without pauses, the sum is that of all the items, added
/// from the first to the last, and the product likewise.
pub proof fn law_sum_and_product_of_items<N: Numeric>(items: Seq<N>)
    ensures
        <N as Sum<N>>::sum_of(first_run(gives(items))) == sum_from(Some(N::zero_value()), items),
        <N as Product<N>>::product_of(first_run(gives(items))) == product_from(
            Some(N::one_value()),
            items,
        ),
{
    lemma_first_run_gives(items);
}

/// A type that the values of a generator can be summed up to.
pub trait Sum<A = Self>: Sized {
    /// The sum of `values`; `None` where it does not fit.
    spec fn sum_of(values: Seq<A>) -> Option<Self>;

    /// The sum of the values that `gen` gives in one run. The sum, and every
    /// sum on the way to it, must fit.
    fn sum<G: Generator<Output = A>>(gen: G) -> (r: Self)
        requires
            Self::sum_of(first_run(gen.pending())) is Some,
        ensures
            Self::sum_of(first_run(gen.pending())) == Some(r),
    ;
}

/// A type that the values of a generator can be multiplied up to.
pub trait Product<A = Self>: Sized {
    /// The product of `values`; `None` where it does not fit.
    spec fn product_of(values: Seq<A>) -> Option<Self>;

    /// The product of the values that `gen` gives in one run. The product,
    /// and every product on the way to it, must fit.
    fn product<G: Generator<Output = A>>(gen: G) -> (r: Self)
        requires
            Self::product_of(first_run(gen.pending())) is Some,
        ensures
            Self::product_of(first_run(gen.pending())) == Some(r),
    ;
}

impl<N: Numeric> Sum<N> for N {
    open spec fn sum_of(values: Seq<N>) -> Option<N> {
        sum_from(Some(N::zero_value()), values)
    }

    fn sum<G: Generator<Output = N>>(gen: G) -> (r: N) {
        let mut gen = gen;
        let ghost steps = gen.pending();
        let ghost start = Some(N::zero_value());
        proof {
            lemma_adding_patient::<N>(start, values(steps));
            lemma_patient_run::<N, Adding<N>>(steps, start);
            law_delivery::<N, Adding<N>>(steps, start);
        }
        let (_, adding) = gen.run(Adding { total: Some(N::zero()) });
        adding.total.unwrap()
    }
}

impl<'a, N: Numeric> Sum<&'a N> for N {
    open spec fn sum_of(values: Seq<&'a N>) -> Option<N> {
        sum_from(Some(N::zero_value()), targets(values))
    }

    fn sum<G: Generator<Output = &'a N>>(gen: G) -> (r: N) {
        let mut gen = gen;
        let ghost steps = gen.pending();
        let ghost start = Some(N::zero_value());
        proof {
            lemma_adding_patient::<N>(start, targets(values(steps)));
            lemma_reading::<N, Adding<N>>(start, values(steps));
            lemma_patient_run::<&'a N, Reading<Adding<N>>>(steps, start);
            law_delivery::<&'a N, Reading<Adding<N>>>(steps, start);
            lemma_reading::<N, Adding<N>>(start, first_run(steps));
        }
        let (_, reading) = gen.run(Reading { inner: Adding { total: Some(N::zero()) } });
        reading.inner.total.unwrap()
    }
}

impl<N: Numeric> Product<N> for N {
    open spec fn product_of(values: Seq<N>) -> Option<N> {
        product_from(Some(N::one_value()), values)
    }

    fn product<G: Generator<Output = N>>(gen: G) -> (r: N) {
        let mut gen = gen;
        let ghost steps = gen.pending();
        let ghost start = Some(N::one_value());
        proof {
            lemma_multiplying_patient::<N>(start, values(steps));
            lemma_patient_run::<N, Multiplying<N>>(steps, start);
            law_delivery::<N, Multiplying<N>>(steps, start);
        }
        let (_, multiplying) = gen.run(Multiplying { total: Some(N::one()) });
        multiplying.total.unwrap()
    }
}

impl<'a, N: Numeric> Product<&'a N> for N {
    open spec fn product_of(values: Seq<&'a N>) -> Option<N> {
        product_from(Some(N::one_value()), targets(values))
    }

    fn product<G: Generator<Output = &'a N>>(gen: G) -> (r: N) {
        let mut gen = gen;
        let ghost steps = gen.pending();
        let ghost start = Some(N::one_value());
        proof {
            lemma_multiplying_patient::<N>(start, targets(values(steps)));
            lemma_reading::<N, Multiplying<N>>(start, values(steps));
            lemma_patient_run::<&'a N, Reading<Multiplying<N>>>(steps, start);
            law_delivery::<&'a N, Reading<Multiplying<N>>>(steps, start);
            lemma_reading::<N, Multiplying<N>>(start, first_run(steps));
        }
        let (_, reading) = gen.run(Reading { inner: Multiplying { total: Some(N::one()) } });
        reading.inner.total.unwrap()
    }
}

impl Numeric for i8 {
    open spec fn zero_value() -> i8 {
        0
    }

    open spec fn one_value() -> i8 {
        1
    }

    open spec fn sum_with(self, other: i8) -> Option<i8> {
        if i8::MIN <= self + other <= i8::MAX {
            Some((self + other) as i8)
        } else {
            None
        }
    }

    open spec fn product_with(self, other: i8) -> Option<i8> {
        if i8::MIN <= self * other <= i8::MAX {
            Some((self * other) as i8)
        } else {
            None
        }
    }

    fn zero() -> (r: i8) {
        0
    }

    fn one() -> (r: i8) {
        1
    }

    fn plus(self, other: i8) -> (r: Option<i8>) {
        self.checked_add(other)
    }

    fn times(self, other: i8) -> (r: Option<i8>) {
        self.checked_mul(other)
    }
}

impl Numeric for i16 {
    open spec fn zero_value() -> i16 {
        0
    }

    open spec fn one_value() -> i16 {
        1
    }

    open spec fn sum_with(self, other: i16) -> Option<i16> {
        if i16::MIN <= self + other <= i16::MAX {
            Some((self + other) as i16)
        } else {
            None
        }
    }

    open spec fn product_with(self, other: i16) -> Option<i16> {
        if i16::MIN <= self * other <= i16::MAX {
            Some((self * other) as i16)
        } else {
            None
        }
    }

    fn zero() -> (r: i16) {
        0
    }

    fn one() -> (r: i16) {
        1
    }

    fn plus(self, other: i16) -> (r: Option<i16>) {
        self.checked_add(other)
    }

    fn times(self, other: i16) -> (r: Option<i16>) {
        self.checked_mul(other)
    }
}

impl Numeric for i32 {
    open spec fn zero_value() -> i32 {
        0
    }

    open spec fn one_value() -> i32 {
        1
    }

    open spec fn sum_with(self, other: i32) -> Option<i32> {
        if i32::MIN <= self + other <= i32::MAX {
            Some((self + other) as i32)
        } else {
            None
        }
    }

    open spec fn product_with(self, other: i32) -> Option<i32> {
        if i32::MIN <= self * other <= i32::MAX {
            Some((self * other) as i32)
        } else {
            None
        }
    }

    fn zero() -> (r: i32) {
        0
    }

    fn one() -> (r: i32) {
        1
    }

    fn plus(self, other: i32) -> (r: Option<i32>) {
        self.checked_add(other)
    }

    fn times(self, other: i32) -> (r: Option<i32>) {
        self.checked_mul(other)
    }
}

impl Numeric for i64 {
    open spec fn zero_value() -> i64 {
        0
    }

    open spec fn one_value() -> i64 {
        1
    }

    open spec fn sum_with(self, other: i64) -> Option<i64> {
        if i64::MIN <= self + other <= i64::MAX {
            Some((self + other) as i64)
        } else {
            None
        }
    }

    open spec fn product_with(self, other: i64) -> Option<i64> {
        if i64::MIN <= self * other <= i64::MAX {
            Some((self * other) as i64)
        } else {
            None
        }
    }

    fn zero() -> (r: i64) {
        0
    }

    fn one() -> (r: i64) {
        1
    }

    fn plus(self, other: i64) -> (r: Option<i64>) {
        self.checked_add(other)
    }

    fn times(self, other: i64) -> (r: Option<i64>) {
        self.checked_mul(other)
    }
}

impl Numeric for i128 {
    open spec fn zero_value() -> i128 {
        0
    }

    open spec fn one_value() -> i128 {
        1
    }

    open spec fn sum_with(self, other: i128) -> Option<i128> {
        if i128::MIN <= self + other <= i128::MAX {
            Some((self + other) as i128)
        } else {
            None
        }
    }

    open spec fn product_with(self, other: i128) -> Option<i128> {
        if i128::MIN <= self * other <= i128::MAX {
            Some((self * other) as i128)
        } else {
            None
        }
    }

    fn zero() -> (r: i128) {
        0
    }

    fn one() -> (r: i128) {
        1
    }

    fn plus(self, other: i128) -> (r: Option<i128>) {
        self.checked_add(other)
    }

    fn times(self, other: i128) -> (r: Option<i128>) {
        self.checked_mul(other)
    }
}

impl Numeric for isize {
    open spec fn zero_value() -> isize {
        0
    }

    open spec fn one_value() -> isize {
        1
    }

    open spec fn sum_with(self, other: isize) -> Option<isize> {
        if isize::MIN <= self + other <= isize::MAX {
            Some((self + other) as isize)
        } else {
            None
        }
    }

    open spec fn product_with(self, other: isize) -> Option<isize> {
        if isize::MIN <= self * other <= isize::MAX {
            Some((self * other) as isize)
        } else {
            None
        }
    }

    fn zero() -> (r: isize) {
        0
    }

    fn one() -> (r: isize) {
        1
    }

    fn plus(self, other: isize) -> (r: Option<isize>) {
        self.checked_add(other)
    }

    fn times(self, other: isize) -> (r: Option<isize>) {
        self.checked_mul(other)
    }
}

impl Numeric for u8 {
    open spec fn zero_value() -> u8 {
        0
    }

    open spec fn one_value() -> u8 {
        1
    }

    open spec fn sum_with(self, other: u8) -> Option<u8> {
        if u8::MIN <= self + other <= u8::MAX {
            Some((self + other) as u8)
        } else {
            None
        }
    }

    open spec fn product_with(self, other: u8) -> Option<u8> {
        if u8::MIN <= self * other <= u8::MAX {
            Some((self * other) as u8)
        } else {
            None
        }
    }

    fn zero() -> (r: u8) {
        0
    }

    fn one() -> (r: u8) {
        1
    }

    fn plus(self, other: u8) -> (r: Option<u8>) {
        self.checked_add(other)
    }

    fn times(self, other: u8) -> (r: Option<u8>) {
        self.checked_mul(other)
    }
}

impl Numeric for u16 {
    open spec fn zero_value() -> u16 {
        0
    }

    open spec fn one_value() -> u16 {
        1
    }

    open spec fn sum_with(self, other: u16) -> Option<u16> {
        if u16::MIN <= self + other <= u16::MAX {
            Some((self + other) as u16)
        } else {
            None
        }
    }

    open spec fn product_with(self, other: u16) -> Option<u16> {
        if u16::MIN <= self * other <= u16::MAX {
            Some((self * other) as u16)
        } else {
            None
        }
    }

    fn zero() -> (r: u16) {
        0
    }

    fn one() -> (r: u16) {
        1
    }

    fn plus(self, other: u16) -> (r: Option<u16>) {
        self.checked_add(other)
    }

    fn times(self, other: u16) -> (r: Option<u16>) {
        self.checked_mul(other)
    }
}

impl Numeric for u32 {
    open spec fn zero_value() -> u32 {
        0
    }

    open spec fn one_value() -> u32 {
        1
    }

    open spec fn sum_with(self, other: u32) -> Option<u32> {
        if u32::MIN <= self + other <= u32::MAX {
            Some((self + other) as u32)
        } else {
            None
        }
    }

    open spec fn product_with(self, other: u32) -> Option<u32> {
        if u32::MIN <= self * other <= u32::MAX {
            Some((self * other) as u32)
        } else {
            None
        }
    }

    fn zero() -> (r: u32) {
        0
    }

    fn one() -> (r: u32) {
        1
    }

    fn plus(self, other: u32) -> (r: Option<u32>) {
        self.checked_add(other)
    }

    fn times(self, other: u32) -> (r: Option<u32>) {
        self.checked_mul(other)
    }
}

impl Numeric for u64 {
    open spec fn zero_value() -> u64 {
        0
    }

    open spec fn one_value() -> u64 {
        1
    }

    open spec fn sum_with(self, other: u64) -> Option<u64> {
        if u64::MIN <= self + other <= u64::MAX {
            Some((self + other) as u64)
        } else {
            None
        }
    }

    open spec fn product_with(self, other: u64) -> Option<u64> {
        if u64::MIN <= self * other <= u64::MAX {
            Some((self * other) as u64)
        } else {
            None
        }
    }

    fn zero() -> (r: u64) {
        0
    }

    fn one() -> (r: u64) {
        1
    }

    fn plus(self, other: u64) -> (r: Option<u64>) {
        self.checked_add(other)
    }

    fn times(self, other: u64) -> (r: Option<u64>) {
        self.checked_mul(other)
    }
}

impl Numeric for u128 {
    open spec fn zero_value() -> u128 {
        0
    }

    open spec fn one_value() -> u128 {
        1
    }

    open spec fn sum_with(self, other: u128) -> Option<u128> {
        if u128::MIN <= self + other <= u128::MAX {
            Some((self + other) as u128)
        } else {
            None
        }
    }

    open spec fn product_with(self, other: u128) -> Option<u128> {
        if u128::MIN <= self * other <= u128::MAX {
            Some((self * other) as u128)
        } else {
            None
        }
    }

    fn zero() -> (r: u128) {
        0
    }

    fn one() -> (r: u128) {
        1
    }

    fn plus(self, other: u128) -> (r: Option<u128>) {
        self.checked_add(other)
    }

    fn times(self, other: u128) -> (r: Option<u128>) {
        self.checked_mul(other)
    }
}

impl Numeric for usize {
    open spec fn zero_value() -> usize {
        0
    }

    open spec fn one_value() -> usize {
        1
    }

    open spec fn sum_with(self, other: usize) -> Option<usize> {
        if usize::MIN <= self + other <= usize::MAX {
            Some((self + other) as usize)
        } else {
            None
        }
    }

    open spec fn product_with(self, other: usize) -> Option<usize> {
        if usize::MIN <= self * other <= usize::MAX {
            Some((self * other) as usize)
        } else {
            None
        }
    }

    fn zero() -> (r: usize) {
        0
    }

    fn one() -> (r: usize) {
        1
    }

    fn plus(self, other: usize) -> (r: Option<usize>) {
        self.checked_add(other)
    }

    fn times(self, other: usize) -> (r: Option<usize>) {
        self.checked_mul(other)
    }
}

impl Numeric for Wrapping<i8> {
    open spec fn zero_value() -> Wrapping<i8> {
        Wrapping(0i8)
    }

    open spec fn one_value() -> Wrapping<i8> {
        Wrapping(1i8)
    }

    open spec fn sum_with(self, other: Wrapping<i8>) -> Option<Wrapping<i8>> {
        Some(Wrapping(self.0.wrapping_add(other.0)))
    }

    open spec fn product_with(self, other: Wrapping<i8>) -> Option<Wrapping<i8>> {
        Some(Wrapping(self.0.wrapping_mul(other.0)))
    }

    fn zero() -> (r: Wrapping<i8>) {
        Wrapping(0i8)
    }

    fn one() -> (r: Wrapping<i8>) {
        Wrapping(1i8)
    }

    fn plus(self, other: Wrapping<i8>) -> (r: Option<Wrapping<i8>>) {
        Some(Wrapping(self.0.wrapping_add(other.0)))
    }

    fn times(self, other: Wrapping<i8>) -> (r: Option<Wrapping<i8>>) {
        Some(Wrapping(self.0.wrapping_mul(other.0)))
    }
}

impl Numeric for Wrapping<i16> {
    open spec fn zero_value() -> Wrapping<i16> {
        Wrapping(0i16)
    }

    open spec fn one_value() -> Wrapping<i16> {
        Wrapping(1i16)
    }

    open spec fn sum_with(self, other: Wrapping<i16>) -> Option<Wrapping<i16>> {
        Some(Wrapping(self.0.wrapping_add(other.0)))
    }

    open spec fn product_with(self, other: Wrapping<i16>) -> Option<Wrapping<i16>> {
        Some(Wrapping(self.0.wrapping_mul(other.0)))
    }

    fn zero() -> (r: Wrapping<i16>) {
        Wrapping(0i16)
    }

    fn one() -> (r: Wrapping<i16>) {
        Wrapping(1i16)
    }

    fn plus(self, other: Wrapping<i16>) -> (r: Option<Wrapping<i16>>) {
        Some(Wrapping(self.0.wrapping_add(other.0)))
    }

    fn times(self, other: Wrapping<i16>) -> (r: Option<Wrapping<i16>>) {
        Some(Wrapping(self.0.wrapping_mul(other.0)))
    }
}

impl Numeric for Wrapping<i32> {
    open spec fn zero_value() -> Wrapping<i32> {
        Wrapping(0i32)
    }

    open spec fn one_value() -> Wrapping<i32> {
        Wrapping(1i32)
    }

    open spec fn sum_with(self, other: Wrapping<i32>) -> Option<Wrapping<i32>> {
        Some(Wrapping(self.0.wrapping_add(other.0)))
    }

    open spec fn product_with(self, other: Wrapping<i32>) -> Option<Wrapping<i32>> {
        Some(Wrapping(self.0.wrapping_mul(other.0)))
    }

    fn zero() -> (r: Wrapping<i32>) {
        Wrapping(0i32)
    }

    fn one() -> (r: Wrapping<i32>) {
        Wrapping(1i32)
    }

    fn plus(self, other: Wrapping<i32>) -> (r: Option<Wrapping<i32>>) {
        Some(Wrapping(self.0.wrapping_add(other.0)))
    }

    fn times(self, other: Wrapping<i32>) -> (r: Option<Wrapping<i32>>) {
        Some(Wrapping(self.0.wrapping_mul(other.0)))
    }
}

impl Numeric for Wrapping<i64> {
    open spec fn zero_value() -> Wrapping<i64> {
        Wrapping(0i64)
    }

    open spec fn one_value() -> Wrapping<i64> {
        Wrapping(1i64)
    }

    open spec fn sum_with(self, other: Wrapping<i64>) -> Option<Wrapping<i64>> {
        Some(Wrapping(self.0.wrapping_add(other.0)))
    }

    open spec fn product_with(self, other: Wrapping<i64>) -> Option<Wrapping<i64>> {
        Some(Wrapping(self.0.wrapping_mul(other.0)))
    }

    fn zero() -> (r: Wrapping<i64>) {
        Wrapping(0i64)
    }

    fn one() -> (r: Wrapping<i64>) {
        Wrapping(1i64)
    }

    fn plus(self, other: Wrapping<i64>) -> (r: Option<Wrapping<i64>>) {
        Some(Wrapping(self.0.wrapping_add(other.0)))
    }

    fn times(self, other: Wrapping<i64>) -> (r: Option<Wrapping<i64>>) {
        Some(Wrapping(self.0.wrapping_mul(other.0)))
    }
}

impl Numeric for Wrapping<i128> {
    open spec fn zero_value() -> Wrapping<i128> {
        Wrapping(0i128)
    }

    open spec fn one_value() -> Wrapping<i128> {
        Wrapping(1i128)
    }

    open spec fn sum_with(self, other: Wrapping<i128>) -> Option<Wrapping<i128>> {
        Some(Wrapping(self.0.wrapping_add(other.0)))
    }

    open spec fn product_with(self, other: Wrapping<i128>) -> Option<Wrapping<i128>> {
        Some(Wrapping(self.0.wrapping_mul(other.0)))
    }

    fn zero() -> (r: Wrapping<i128>) {
        Wrapping(0i128)
    }

    fn one() -> (r: Wrapping<i128>) {
        Wrapping(1i128)
    }

    fn plus(self, other: Wrapping<i128>) -> (r: Option<Wrapping<i128>>) {
        Some(Wrapping(self.0.wrapping_add(other.0)))
    }

    fn times(self, other: Wrapping<i128>) -> (r: Option<Wrapping<i128>>) {
        Some(Wrapping(self.0.wrapping_mul(other.0)))
    }
}

impl Numeric for Wrapping<isize> {
    open spec fn zero_value() -> Wrapping<isize> {
        Wrapping(0isize)
    }

    open spec fn one_value() -> Wrapping<isize> {
        Wrapping(1isize)
    }

    open spec fn sum_with(self, other: Wrapping<isize>) -> Option<Wrapping<isize>> {
        Some(Wrapping(self.0.wrapping_add(other.0)))
    }

    open spec fn product_with(self, other: Wrapping<isize>) -> Option<Wrapping<isize>> {
        Some(Wrapping(self.0.wrapping_mul(other.0)))
    }

    fn zero() -> (r: Wrapping<isize>) {
        Wrapping(0isize)
    }

    fn one() -> (r: Wrapping<isize>) {
        Wrapping(1isize)
    }

    fn plus(self, other: Wrapping<isize>) -> (r: Option<Wrapping<isize>>) {
        Some(Wrapping(self.0.wrapping_add(other.0)))
    }

    fn times(self, other: Wrapping<isize>) -> (r: Option<Wrapping<isize>>) {
        Some(Wrapping(self.0.wrapping_mul(other.0)))
    }
}

impl Numeric for Wrapping<u8> {
    open spec fn zero_value() -> Wrapping<u8> {
        Wrapping(0u8)
    }

    open spec fn one_value() -> Wrapping<u8> {
        Wrapping(1u8)
    }

    open spec fn sum_with(self, other: Wrapping<u8>) -> Option<Wrapping<u8>> {
        Some(Wrapping(self.0.wrapping_add(other.0)))
    }

    open spec fn product_with(self, other: Wrapping<u8>) -> Option<Wrapping<u8>> {
        Some(Wrapping(self.0.wrapping_mul(other.0)))
    }

    fn zero() -> (r: Wrapping<u8>) {
        Wrapping(0u8)
    }

    fn one() -> (r: Wrapping<u8>) {
        Wrapping(1u8)
    }

    fn plus(self, other: Wrapping<u8>) -> (r: Option<Wrapping<u8>>) {
        Some(Wrapping(self.0.wrapping_add(other.0)))
    }

    fn times(self, other: Wrapping<u8>) -> (r: Option<Wrapping<u8>>) {
        Some(Wrapping(self.0.wrapping_mul(other.0)))
    }
}

impl Numeric for Wrapping<u16> {
    open spec fn zero_value() -> Wrapping<u16> {
        Wrapping(0u16)
    }

    open spec fn one_value() -> Wrapping<u16> {
        Wrapping(1u16)
    }

    open spec fn sum_with(self, other: Wrapping<u16>) -> Option<Wrapping<u16>> {
        Some(Wrapping(self.0.wrapping_add(other.0)))
    }

    open spec fn product_with(self, other: Wrapping<u16>) -> Option<Wrapping<u16>> {
        Some(Wrapping(self.0.wrapping_mul(other.0)))
    }

    fn zero() -> (r: Wrapping<u16>) {
        Wrapping(0u16)
    }

    fn one() -> (r: Wrapping<u16>) {
        Wrapping(1u16)
    }

    fn plus(self, other: Wrapping<u16>) -> (r: Option<Wrapping<u16>>) {
        Some(Wrapping(self.0.wrapping_add(other.0)))
    }

    fn times(self, other: Wrapping<u16>) -> (r: Option<Wrapping<u16>>) {
        Some(Wrapping(self.0.wrapping_mul(other.0)))
    }
}

impl Numeric for Wrapping<u32> {
    open spec fn zero_value() -> Wrapping<u32> {
        Wrapping(0u32)
    }

    open spec fn one_value() -> Wrapping<u32> {
        Wrapping(1u32)
    }

    open spec fn sum_with(self, other: Wrapping<u32>) -> Option<Wrapping<u32>> {
        Some(Wrapping(self.0.wrapping_add(other.0)))
    }

    open spec fn product_with(self, other: Wrapping<u32>) -> Option<Wrapping<u32>> {
        Some(Wrapping(self.0.wrapping_mul(other.0)))
    }

    fn zero() -> (r: Wrapping<u32>) {
        Wrapping(0u32)
    }

    fn one() -> (r: Wrapping<u32>) {
        Wrapping(1u32)
    }

    fn plus(self, other: Wrapping<u32>) -> (r: Option<Wrapping<u32>>) {
        Some(Wrapping(self.0.wrapping_add(other.0)))
    }

    fn times(self, other: Wrapping<u32>) -> (r: Option<Wrapping<u32>>) {
        Some(Wrapping(self.0.wrapping_mul(other.0)))
    }
}

impl Numeric for Wrapping<u64> {
    open spec fn zero_value() -> Wrapping<u64> {
        Wrapping(0u64)
    }

    open spec fn one_value() -> Wrapping<u64> {
        Wrapping(1u64)
    }

    open spec fn sum_with(self, other: Wrapping<u64>) -> Option<Wrapping<u64>> {
        Some(Wrapping(self.0.wrapping_add(other.0)))
    }

    open spec fn product_with(self, other: Wrapping<u64>) -> Option<Wrapping<u64>> {
        Some(Wrapping(self.0.wrapping_mul(other.0)))
    }

    fn zero() -> (r: Wrapping<u64>) {
        Wrapping(0u64)
    }

    fn one() -> (r: Wrapping<u64>) {
        Wrapping(1u64)
    }

    fn plus(self, other: Wrapping<u64>) -> (r: Option<Wrapping<u64>>) {
        Some(Wrapping(self.0.wrapping_add(other.0)))
    }

    fn times(self, other: Wrapping<u64>) -> (r: Option<Wrapping<u64>>) {
        Some(Wrapping(self.0.wrapping_mul(other.0)))
    }
}

impl Numeric for Wrapping<u128> {
    open spec fn zero_value() -> Wrapping<u128> {
        Wrapping(0u128)
    }

    open spec fn one_value() -> Wrapping<u128> {
        Wrapping(1u128)
    }

    open spec fn sum_with(self, other: Wrapping<u128>) -> Option<Wrapping<u128>> {
        Some(Wrapping(self.0.wrapping_add(other.0)))
    }

    open spec fn product_with(self, other: Wrapping<u128>) -> Option<Wrapping<u128>> {
        Some(Wrapping(self.0.wrapping_mul(other.0)))
    }

    fn zero() -> (r: Wrapping<u128>) {
        Wrapping(0u128)
    }

    fn one() -> (r: Wrapping<u128>) {
        Wrapping(1u128)
    }

    fn plus(self, other: Wrapping<u128>) -> (r: Option<Wrapping<u128>>) {
        Some(Wrapping(self.0.wrapping_add(other.0)))
    }

    fn times(self, other: Wrapping<u128>) -> (r: Option<Wrapping<u128>>) {
        Some(Wrapping(self.0.wrapping_mul(other.0)))
    }
}

impl Numeric for Wrapping<usize> {
    open spec fn zero_value() -> Wrapping<usize> {
        Wrapping(0usize)
    }

    open spec fn one_value() -> Wrapping<usize> {
        Wrapping(1usize)
    }

    open spec fn sum_with(self, other: Wrapping<usize>) -> Option<Wrapping<usize>> {
        Some(Wrapping(self.0.wrapping_add(other.0)))
    }

    open spec fn product_with(self, other: Wrapping<usize>) -> Option<Wrapping<usize>> {
        Some(Wrapping(self.0.wrapping_mul(other.0)))
    }

    fn zero() -> (r: Wrapping<usize>) {
        Wrapping(0usize)
    }

    fn one() -> (r: Wrapping<usize>) {
        Wrapping(1usize)
    }

    fn plus(self, other: Wrapping<usize>) -> (r: Option<Wrapping<usize>>) {
        Some(Wrapping(self.0.wrapping_add(other.0)))
    }

    fn times(self, other: Wrapping<usize>) -> (r: Option<Wrapping<usize>>) {
        Some(Wrapping(self.0.wrapping_mul(other.0)))
    }
}

} // verus!
