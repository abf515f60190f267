use pushgen::sinks::Call;
use pushgen::structs::Chain;
use pushgen::{Generator, GeneratorResult, SliceGenerator, ValueResult};

#[test]
fn basic_chain() {
    let data = [1, 2, 3];
    let mut output: Vec<i32> = Vec::new();
    let (result, _) = Chain::new(SliceGenerator::new(&data), SliceGenerator::new(&data)).run(
        Call::new(|x: &i32| {
            output.push(*x);
            ValueResult::MoreValues
        }),
    );

    assert_eq!(result, GeneratorResult::Complete);
    assert_eq!(output, [1, 2, 3, 1, 2, 3]);
}

#[test]
fn chain_stopped_inside_the_first_resumes_inside_the_first() {
    let first = [1, 2, 3];
    let second = [4, 5];
    let mut generator = Chain::new(SliceGenerator::new(&first), SliceGenerator::new(&second));

    let (result, sink) = generator.run(pushgen::sinks::Collect::first(2));
    assert_eq!(result, GeneratorResult::Stopped);
    assert_eq!(sink.into_vec(), [&1, &2]);

    let (result, sink) = generator.run(pushgen::sinks::Collect::all());
    assert_eq!(result, GeneratorResult::Complete);
    assert_eq!(sink.into_vec(), [&3, &4, &5]);
}

#[test]
fn chain_stopped_on_the_last_of_the_first_goes_on_with_the_second() {
    let first = [1, 2];
    let second = [3];
    let mut generator = Chain::new(SliceGenerator::new(&first), SliceGenerator::new(&second));

    let (result, sink) = generator.run(pushgen::sinks::Collect::first(2));
    assert_eq!(result, GeneratorResult::Stopped);
    assert_eq!(sink.into_vec(), [&1, &2]);

    let (result, sink) = generator.run(pushgen::sinks::Collect::first(1));
    assert_eq!(result, GeneratorResult::Stopped);
    assert_eq!(sink.into_vec(), [&3]);

    let (result, sink) = generator.run(pushgen::sinks::Collect::all());
    assert_eq!(result, GeneratorResult::Complete);
    assert!(sink.into_vec().is_empty());
}

#[test]
fn chain_of_empty_sides() {
    let empty: [i32; 0] = [];
    let data = [7];
    let (result, sink) = Chain::new(SliceGenerator::new(&empty), SliceGenerator::new(&data))
        .run(pushgen::sinks::Collect::all());
    assert_eq!(result, GeneratorResult::Complete);
    assert_eq!(sink.into_vec(), [&7]);

    let (result, sink) = Chain::new(SliceGenerator::new(&data), SliceGenerator::new(&empty))
        .run(pushgen::sinks::Collect::all());
    assert_eq!(result, GeneratorResult::Complete);
    assert_eq!(sink.into_vec(), [&7]);
}

#[test]
fn chain_stays_complete() {
    let data = [1];
    let mut generator = Chain::new(SliceGenerator::new(&data), SliceGenerator::new(&data));
    let (result, _) = generator.run(pushgen::sinks::Collect::all());
    assert_eq!(result, GeneratorResult::Complete);
    let (result, sink) = generator.run(pushgen::sinks::Collect::all());
    assert_eq!(result, GeneratorResult::Complete);
    assert!(sink.into_vec().is_empty());
}

#[test]
fn chain_over_take_hands_nothing_to_a_sink_that_asked_to_stop() {
    let first = [1, 2];
    let second = [9];
    let mut generator = Chain::new(
        pushgen::structs::Take::new(SliceGenerator::new(&first), 1),
        SliceGenerator::new(&second),
    );
    let (result, sink) = generator.run(pushgen::sinks::Collect::first(1));
    assert_eq!(result, GeneratorResult::Stopped);
    assert_eq!(sink.into_vec(), [&1]);
    let (result, sink) = generator.run(pushgen::sinks::Collect::all());
    assert_eq!(result, GeneratorResult::Complete);
    assert_eq!(sink.into_vec(), [&9]);
}

#[test]
fn chain_over_take_goes_on_in_one_run_where_the_sink_lets_it() {
    let first = [1, 2];
    let second = [9];
    let mut generator = Chain::new(
        pushgen::structs::Take::new(SliceGenerator::new(&first), 1),
        pushgen::structs::Take::new(SliceGenerator::new(&second), 1),
    );
    let (result, sink) = generator.run(pushgen::sinks::Collect::all());
    assert_eq!(result, GeneratorResult::Complete);
    assert_eq!(sink.into_vec(), [&1, &9]);
}

#[test]
fn chain_that_ends_on_a_take_is_complete_with_its_last_value() {
    let first = [1];
    let second = [9, 8];
    let mut generator = Chain::new(
        SliceGenerator::new(&first),
        pushgen::structs::Take::new(SliceGenerator::new(&second), 1),
    );
    let (result, sink) = generator.run(pushgen::sinks::Collect::first(2));
    assert_eq!(result, GeneratorResult::Complete);
    assert_eq!(sink.into_vec(), [&1, &9]);
}
