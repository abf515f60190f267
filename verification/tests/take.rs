use pushgen::sinks::Call;
use pushgen::structs::Take;
use pushgen::{Generator, GeneratorExt, GeneratorResult, SliceGenerator, ValueResult};

#[test]
fn take() {
    let data = [1, 2, 3, 4, 5];
    let mut output: Vec<i32> = Vec::new();

    let (result, _) = Take::new(SliceGenerator::new(&data), 2).run(Call::new(|x: &i32| {
        output.push(*x);
        ValueResult::MoreValues
    }));
    assert_eq!(result, GeneratorResult::Complete);
    assert_eq!(output, [1, 2]);
}

#[test]
fn take_restart() {
    let data = [1, 2, 3, 4, 5];
    let mut output: Vec<i32> = Vec::new();

    let mut generator = Take::new(SliceGenerator::new(&data), 4);

    let (result, sink) = generator.run(pushgen::sinks::Collect::first(2));
    output.extend(sink.into_vec().into_iter().map(|x| *x));

    assert_eq!(result, GeneratorResult::Stopped);
    assert_eq!(output, [1, 2]);

    let (result, _) = generator.run(Call::new(|x: &i32| {
        output.push(*x);
        ValueResult::MoreValues
    }));
    assert_eq!(result, GeneratorResult::Complete);
    assert_eq!(output, [1, 2, 3, 4]);
}

fn collect_all<G: Generator<Output = &'static i32>>(
    generator: &mut G,
) -> (GeneratorResult, Vec<i32>) {
    let (result, sink) = generator.run(pushgen::sinks::Collect::all());
    (result, sink.into_vec().into_iter().map(|x| *x).collect())
}

static DATA: [i32; 5] = [1, 2, 3, 4, 5];

#[test]
fn take_two_of_five() {
    let mut generator = Take::new(SliceGenerator::new(&DATA), 2);
    assert_eq!(collect_all(&mut generator), (GeneratorResult::Complete, vec![1, 2]));
}

#[test]
fn take_as_many_as_there_are_or_more_yields_all() {
    for n in 5..8 {
        let mut generator = Take::new(SliceGenerator::new(&DATA), n);
        assert_eq!(collect_all(&mut generator), (GeneratorResult::Complete, vec![1, 2, 3, 4, 5]));
    }
}

#[test]
fn take_nothing_is_complete_at_once() {
    let mut generator = Take::new(SliceGenerator::new(&DATA), 0);
    assert_eq!(collect_all(&mut generator), (GeneratorResult::Complete, vec![]));
}

#[test]
fn take_stays_complete() {
    let mut generator = Take::new(SliceGenerator::new(&DATA), 2);
    assert_eq!(collect_all(&mut generator), (GeneratorResult::Complete, vec![1, 2]));
    assert_eq!(collect_all(&mut generator), (GeneratorResult::Complete, vec![]));
    assert_eq!(collect_all(&mut generator), (GeneratorResult::Complete, vec![]));
}

#[test]
fn take_is_complete_with_its_last_value_whatever_the_sink_answers() {
    let mut generator = Take::new(SliceGenerator::new(&DATA), 2);
    let (result, sink) = generator.run(pushgen::sinks::Collect::first(2));
    assert_eq!(result, GeneratorResult::Complete);
    assert_eq!(sink.into_vec(), [&1, &2]);
    assert_eq!(collect_all(&mut generator), (GeneratorResult::Complete, vec![]));
}

#[test]
fn take_of_one_into_a_sink_that_stores_and_stops() {
    let data = [1, 2, 3];
    let mut out: Vec<i32> = Vec::new();
    let (result, _) = Take::new(SliceGenerator::new(&data), 1).run(Call::new(|x: &i32| {
        out.push(*x);
        ValueResult::Stop
    }));
    assert_eq!(result, GeneratorResult::Complete);
    assert_eq!(out, [1]);
}

#[test]
fn take_stopped_means_fewer_than_its_number_delivered() {
    for n in 1..7 {
        for k in 1..7 {
            let mut generator = Take::new(SliceGenerator::new(&DATA), n);
            let (result, sink) = generator.run(pushgen::sinks::Collect::first(k));
            let delivered = sink.into_vec().len();
            assert_eq!(delivered, n.min(k).min(5));
            let expected = if delivered == n || k > 5 {
                GeneratorResult::Complete
            } else {
                GeneratorResult::Stopped
            };
            assert_eq!(result, expected);
        }
    }
}

#[test]
fn take_leaves_the_rest_to_its_source() {
    let mut source = SliceGenerator::new(&DATA);
    assert_eq!(source.try_advance(1), (1, GeneratorResult::Stopped));
    let mut generator = Take::new(source, 2).chain(SliceGenerator::new(&DATA[..1]));
    assert_eq!(collect_all(&mut generator), (GeneratorResult::Complete, vec![2, 3, 1]));
}

#[test]
fn take_keeps_its_budget_over_many_runs() {
    let mut generator = Take::new(SliceGenerator::new(&DATA), 4);
    let mut output: Vec<i32> = Vec::new();
    let mut runs: usize = 0;
    loop {
        let (result, sink) = generator.run(pushgen::sinks::Collect::first(1));
        output.extend(sink.into_vec().into_iter().map(|x| *x));
        runs += 1;
        if result == GeneratorResult::Complete {
            break;
        }
    }
    assert_eq!(output, [1, 2, 3, 4]);
    assert_eq!(runs, 4);
}

#[test]
fn default_try_advance_counts_through_take() {
    let mut generator = Take::new(SliceGenerator::new(&DATA), 4);
    assert_eq!(generator.try_advance(2), (2, GeneratorResult::Stopped));
    assert_eq!(collect_all(&mut generator), (GeneratorResult::Complete, vec![3, 4]));

    let mut generator = Take::new(SliceGenerator::new(&DATA), 3);
    assert_eq!(generator.try_advance(10), (3, GeneratorResult::Complete));

    let mut generator = Take::new(SliceGenerator::new(&DATA), 2);
    assert_eq!(generator.try_advance(2), (2, GeneratorResult::Complete));
}
