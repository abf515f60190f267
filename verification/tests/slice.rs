use pushgen::sinks::{Call, Collect, Countdown, Probe};
use pushgen::{Generator, GeneratorResult, ReverseGenerator, SliceGenerator};

fn copied(items: Vec<&i32>) -> Vec<i32> {
    items.into_iter().map(|x| *x).collect()
}

#[test]
fn slice_delivers_everything_in_order() {
    let data = [1, 2, 3];
    let (result, sink) = SliceGenerator::new(&data).run(Collect::all());
    assert_eq!(result, GeneratorResult::Complete);
    assert_eq!(copied(sink.into_vec()), [1, 2, 3]);
}

#[test]
fn empty_slice_is_complete_at_once() {
    let data: [i32; 0] = [];
    let (result, sink) = SliceGenerator::new(&data).run(Collect::all());
    assert_eq!(result, GeneratorResult::Complete);
    assert!(sink.into_vec().is_empty());
}

#[test]
fn stop_at_each_index_then_resume_loses_nothing() {
    let data = [1, 2, 3, 4, 5];
    for k in 1..=data.len() {
        let mut generator = SliceGenerator::new(&data);
        let (result, first) = generator.run(Collect::first(k));
        assert_eq!(result, GeneratorResult::Stopped);
        let first = copied(first.into_vec());
        assert_eq!(first, data[..k]);

        let (result, second) = generator.run(Collect::all());
        assert_eq!(result, GeneratorResult::Complete);
        let second = copied(second.into_vec());
        assert_eq!(second, data[k..]);

        let mut all = first;
        all.extend(second);
        assert_eq!(all, data);
    }
}

#[test]
fn complete_is_final() {
    let data = [1, 2, 3];
    let mut generator = SliceGenerator::new(&data);
    let (result, _) = generator.run(Collect::all());
    assert_eq!(result, GeneratorResult::Complete);
    for _ in 0..3 {
        let mut calls: usize = 0;
        let (result, _) = generator.run(Call::new(|_x: &i32| {
            calls += 1;
            pushgen::ValueResult::MoreValues
        }));
        assert_eq!(result, GeneratorResult::Complete);
        assert_eq!(calls, 0);
    }
}

#[test]
fn stop_on_the_last_element_is_stopped_then_complete() {
    let data = [1, 2, 3];
    let mut generator = SliceGenerator::new(&data);
    let (result, sink) = generator.run(Collect::first(3));
    assert_eq!(result, GeneratorResult::Stopped);
    assert_eq!(copied(sink.into_vec()), [1, 2, 3]);
    let (result, sink) = generator.run(Collect::all());
    assert_eq!(result, GeneratorResult::Complete);
    assert!(sink.into_vec().is_empty());
}

#[test]
fn run_back_delivers_in_reverse() {
    let data = [1, 2, 3, 4];
    let (result, sink) = SliceGenerator::new(&data).run_back(Collect::all());
    assert_eq!(result, GeneratorResult::Complete);
    assert_eq!(copied(sink.into_vec()), [4, 3, 2, 1]);
}

fn front(generator: &mut SliceGenerator<'_, i32>) -> Result<i32, GeneratorResult> {
    let (result, probe) = generator.run(Probe::new());
    match probe.into_value() {
        Some(x) => Ok(*x),
        None => Err(result),
    }
}

fn back(generator: &mut SliceGenerator<'_, i32>) -> Result<i32, GeneratorResult> {
    let (result, probe) = generator.run_back(Probe::new());
    match probe.into_value() {
        Some(x) => Ok(*x),
        None => Err(result),
    }
}

#[test]
fn front_and_back_meet_without_crossing() {
    let numbers = [1, 2, 3, 4, 5, 6];
    let mut gen = SliceGenerator::new(&numbers);

    assert_eq!(Ok(1), front(&mut gen));
    assert_eq!(Ok(6), back(&mut gen));
    assert_eq!(Ok(5), back(&mut gen));
    assert_eq!(Ok(2), front(&mut gen));
    assert_eq!(Ok(3), front(&mut gen));
    assert_eq!(Ok(4), front(&mut gen));
    assert_eq!(Err(GeneratorResult::Complete), front(&mut gen));
    assert_eq!(Err(GeneratorResult::Complete), back(&mut gen));
}

#[test]
fn try_advance_jumps_over_values() {
    let data = [1, 2, 3, 4, 5];
    let mut gen = SliceGenerator::new(&data);
    assert_eq!(gen.try_advance(3), (3, GeneratorResult::Stopped));
    assert_eq!(front(&mut gen), Ok(4));
    assert_eq!(front(&mut gen), Ok(5));
    assert_eq!(front(&mut gen), Err(GeneratorResult::Complete));
}

#[test]
fn try_advance_to_the_exact_end_is_stopped() {
    let data = [1, 2, 3];
    let mut gen = SliceGenerator::new(&data);
    assert_eq!(gen.try_advance(3), (3, GeneratorResult::Stopped));
    assert_eq!(gen.try_advance(1), (0, GeneratorResult::Complete));
}

#[test]
fn try_advance_past_the_end_is_complete() {
    let data = [1, 2, 3];
    let mut gen = SliceGenerator::new(&data);
    assert_eq!(gen.try_advance(1), (1, GeneratorResult::Stopped));
    assert_eq!(gen.try_advance(7), (2, GeneratorResult::Complete));
    assert_eq!(gen.try_advance(7), (0, GeneratorResult::Complete));
}

#[test]
fn try_advance_back_jumps_from_the_end() {
    let data = [1, 2, 3, 4, 5];
    let mut gen = SliceGenerator::new(&data);
    assert_eq!(gen.try_advance_back(2), (2, GeneratorResult::Stopped));
    assert_eq!(back(&mut gen), Ok(3));
    assert_eq!(front(&mut gen), Ok(1));
    assert_eq!(gen.try_advance_back(5), (1, GeneratorResult::Complete));
    assert_eq!(front(&mut gen), Err(GeneratorResult::Complete));
}

#[test]
fn countdown_stops_at_its_budget() {
    let data = [1, 2, 3, 4, 5];
    let mut gen = SliceGenerator::new(&data);
    let (result, counter) = gen.run(Countdown::new(3));
    assert_eq!(result, GeneratorResult::Stopped);
    assert_eq!(counter.left(), 0);
    let (result, sink) = gen.run(Collect::all());
    assert_eq!(result, GeneratorResult::Complete);
    assert_eq!(copied(sink.into_vec()), [4, 5]);
}

#[test]
fn countdown_keeps_what_it_did_not_use() {
    let data = [1, 2];
    let (result, counter) = SliceGenerator::new(&data).run(Countdown::new(5));
    assert_eq!(result, GeneratorResult::Complete);
    assert_eq!(counter.left(), 3);
}
