use pushgen::sinks::Collect;
use pushgen::stopping::StoppingGen;
use pushgen::structs::Zip;
use pushgen::{Generator, GeneratorExt, GeneratorResult, SliceGenerator};

fn do_zip(left: &[i32], right: &[i32]) -> (Vec<(i32, i32)>, GeneratorResult) {
    let mut output: Vec<(i32, i32)> = Vec::new();
    let result = Zip::new(SliceGenerator::new(&left), SliceGenerator::new(&right))
        .for_each(|(a, b)| output.push((*a, *b)));
    (output, result)
}

fn do_iter_zip(left: &[i32], right: &[i32]) -> Vec<(i32, i32)> {
    left.iter()
        .zip(right.iter())
        .map(|(a, b)| (*a, *b))
        .collect::<Vec<(i32, i32)>>()
}

#[test]
fn same_length() {
    let data = [1, 2, 3, 4];
    let (output, result) = do_zip(&data, &data);
    let expected = do_iter_zip(&data, &data);

    assert_eq!(result, GeneratorResult::Complete);
    assert_eq!(output, expected);
}

#[test]
fn shorter_left_side() {
    let left = [1, 2, 3];
    let right = [1, 2, 3, 4];
    let (output, result) = do_zip(&left, &right);
    let expected = do_iter_zip(&left, &right);

    assert_eq!(result, GeneratorResult::Complete);
    assert_eq!(output, expected);
}

#[test]
fn shorter_right_side() {
    let right = [1, 2, 3];
    let left = [1, 2, 3, 4];
    let (output, result) = do_zip(&left, &right);
    let expected = do_iter_zip(&left, &right);

    assert_eq!(result, GeneratorResult::Complete);
    assert_eq!(output, expected);
}

#[test]
fn zip_truncates_to_the_shorter_side() {
    let left = [1, 2, 3];
    let right = [1, 2, 3, 4];
    let (output, result) = do_zip(&left, &right);
    assert_eq!(result, GeneratorResult::Complete);
    assert_eq!(output, [(1, 1), (2, 2), (3, 3)]);
}

#[test]
fn zip_with_an_empty_side_yields_nothing() {
    let data = [1, 2, 3];
    let empty: [i32; 0] = [];
    assert_eq!(do_zip(&data, &empty), (vec![], GeneratorResult::Complete));
    assert_eq!(do_zip(&empty, &data), (vec![], GeneratorResult::Complete));
}

#[test]
fn zip_stopped_and_resumed_loses_no_pair() {
    let left = [1, 2, 3, 4];
    let right = [10, 20, 30, 40];
    for k in 1..=4 {
        let mut generator = Zip::new(SliceGenerator::new(&left), SliceGenerator::new(&right));
        let (result, first) = generator.run(Collect::first(k));
        assert_eq!(result, GeneratorResult::Stopped);
        let (result, second) = generator.run(Collect::all());
        assert_eq!(result, GeneratorResult::Complete);
        let mut pairs: Vec<(i32, i32)> = Vec::new();
        pairs.extend(first.into_vec().into_iter().map(|(a, b)| (*a, *b)));
        assert_eq!(pairs.len(), k);
        pairs.extend(second.into_vec().into_iter().map(|(a, b)| (*a, *b)));
        assert_eq!(pairs, [(1, 10), (2, 20), (3, 30), (4, 40)]);
    }
}

#[test]
fn zip_stays_complete_when_the_left_side_has_more() {
    let left = [1, 2, 3, 4, 5];
    let right = [1];
    let mut generator = Zip::new(SliceGenerator::new(&left), SliceGenerator::new(&right));
    let (result, sink) = generator.run(Collect::all());
    assert_eq!(result, GeneratorResult::Complete);
    assert_eq!(sink.into_vec(), [(&1, &1)]);
    for _ in 0..3 {
        let (result, sink) = generator.run(Collect::all());
        assert_eq!(result, GeneratorResult::Complete);
        assert!(sink.into_vec().is_empty());
    }
}

#[test]
fn zip_drops_the_left_value_when_the_right_side_pauses() {
    let left = [1, 2, 3];
    let right = [10, 20, 30];
    let mut generator = Zip::new(SliceGenerator::new(&left), StoppingGen::new(1, &right));
    let mut output: Vec<(i32, i32)> = Vec::new();
    let result = generator.for_each(|(a, b)| output.push((*a, *b)));
    assert_eq!(result, GeneratorResult::Stopped);
    assert_eq!(output, [(1, 10)]);
    let result = generator.for_each(|(a, b)| output.push((*a, *b)));
    assert_eq!(result, GeneratorResult::Complete);
    assert_eq!(output, [(1, 10), (3, 20)]);
}

#[test]
fn zip_passes_on_a_pause_of_the_left_side() {
    let left = [1, 2, 3];
    let right = [10, 20, 30];
    let mut generator = Zip::new(StoppingGen::new(2, &left), SliceGenerator::new(&right));
    let mut output: Vec<(i32, i32)> = Vec::new();
    let result = generator.for_each(|(a, b)| output.push((*a, *b)));
    assert_eq!(result, GeneratorResult::Stopped);
    assert_eq!(output, [(1, 10), (2, 20)]);
    let result = generator.for_each(|(a, b)| output.push((*a, *b)));
    assert_eq!(result, GeneratorResult::Complete);
    assert_eq!(output, [(1, 10), (2, 20), (3, 30)]);
}

#[test]
fn zip_with_a_take_is_complete_with_the_last_pair() {
    let left = [1, 2, 3];
    let right = [10, 20, 30];
    let mut generator =
        Zip::new(SliceGenerator::new(&left), SliceGenerator::new(&right).take(2));
    let (result, sink) = generator.run(Collect::first(2));
    assert_eq!(result, GeneratorResult::Complete);
    assert_eq!(sink.into_vec(), [(&1, &10), (&2, &20)]);
    let (result, sink) = generator.run(Collect::all());
    assert_eq!(result, GeneratorResult::Complete);
    assert!(sink.into_vec().is_empty());

    let mut generator =
        Zip::new(SliceGenerator::new(&left).take(1), SliceGenerator::new(&right));
    let (result, sink) = generator.run(Collect::first(1));
    assert_eq!(result, GeneratorResult::Complete);
    assert_eq!(sink.into_vec(), [(&1, &10)]);
}
