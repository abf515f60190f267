use pushgen::sinks::{Call, Collect, Probe};
use pushgen::stopping::StoppingGen;
use pushgen::{Generator, GeneratorExt, GeneratorResult, Sink, ValueResult};

#[test]
fn signals_from_bool() {
    assert_eq!(ValueResult::from(true), ValueResult::MoreValues);
    assert_eq!(ValueResult::from(false), ValueResult::Stop);
    assert_eq!(GeneratorResult::from(true), GeneratorResult::Complete);
    assert_eq!(GeneratorResult::from(false), GeneratorResult::Stopped);
    let signal: ValueResult = (1 < 2).into();
    assert_eq!(signal, ValueResult::MoreValues);
}

#[test]
fn signals_are_ordered_as_declared() {
    assert!(ValueResult::Stop < ValueResult::MoreValues);
    assert!(GeneratorResult::Stopped < GeneratorResult::Complete);
}

#[test]
fn collect_with_a_limit_stops_at_it() {
    let mut sink: Collect<i32> = Collect::first(2);
    assert_eq!(sink.accept(5), ValueResult::MoreValues);
    assert_eq!(sink.accept(6), ValueResult::Stop);
    assert_eq!(sink.as_slice(), [5, 6]);
    let mut sink = sink.unlimited();
    assert_eq!(sink.accept(7), ValueResult::MoreValues);
    assert_eq!(sink.into_vec(), [5, 6, 7]);
}

#[test]
fn collect_without_a_limit_never_stops() {
    let mut sink: Collect<i32> = Collect::all();
    for x in 0..100 {
        assert_eq!(sink.accept(x), ValueResult::MoreValues);
    }
    assert_eq!(sink.into_vec().len(), 100);
}

#[test]
fn probe_keeps_one_value() {
    let mut probe: Probe<i32> = Probe::new();
    assert_eq!(probe.accept(3), ValueResult::Stop);
    assert_eq!(probe.into_value(), Some(3));
    let probe: Probe<i32> = Probe::new();
    assert_eq!(probe.into_value(), None);
}

#[test]
fn a_function_is_a_sink() {
    let mut seen: Vec<i32> = Vec::new();
    let mut sink = Call::new(|x: i32| {
        seen.push(x);
        ValueResult::from(x < 2)
    });
    assert_eq!(sink.accept(1), ValueResult::MoreValues);
    assert_eq!(sink.accept(2), ValueResult::Stop);
    drop(sink);
    assert_eq!(seen, [1, 2]);
}

#[test]
fn stopping_gen_pauses_once_where_it_is_told() {
    let data = [1, 2, 3];
    for pause in 0..3 {
        let mut generator = StoppingGen::new(pause, &data);
        let mut output: Vec<i32> = Vec::new();
        assert_eq!(generator.for_each(|x| output.push(*x)), GeneratorResult::Stopped);
        assert_eq!(output, data[..pause as usize]);
        assert_eq!(generator.for_each(|x| output.push(*x)), GeneratorResult::Complete);
        assert_eq!(output, data);
        assert_eq!(generator.for_each(|x| output.push(*x)), GeneratorResult::Complete);
        assert_eq!(output, data);
    }
}

#[test]
fn stopping_gen_without_a_pause_in_reach() {
    let data = [1, 2, 3];
    for pause in [-1, 3, 4, 100] {
        let mut generator = StoppingGen::new(pause, &data);
        let mut output: Vec<i32> = Vec::new();
        assert_eq!(generator.for_each(|x| output.push(*x)), GeneratorResult::Complete);
        assert_eq!(output, data);
    }
}

#[test]
fn stopping_gen_keeps_its_pause_when_the_sink_stops_first() {
    let data = [1, 2, 3];
    let mut generator = StoppingGen::new(2, &data);
    let (result, sink) = generator.run(Collect::first(2));
    assert_eq!(result, GeneratorResult::Stopped);
    assert_eq!(sink.into_vec(), [&1, &2]);
    let (result, sink) = generator.run(Collect::all());
    assert_eq!(result, GeneratorResult::Stopped);
    assert!(sink.into_vec().is_empty());
    let (result, sink) = generator.run(Collect::all());
    assert_eq!(result, GeneratorResult::Complete);
    assert_eq!(sink.into_vec(), [&3]);
}

#[test]
fn a_limit_of_nothing_still_takes_the_value_it_is_given() {
    let mut sink: Collect<i32> = Collect::first(0);
    assert_eq!(sink.accept(9), ValueResult::Stop);
    assert_eq!(sink.into_vec(), [9]);
}

#[test]
fn a_countdown_from_nothing_asks_to_stop_at_once() {
    let data = [1, 2, 3];
    let mut generator = pushgen::SliceGenerator::new(&data);
    let (result, counter) = generator.run(pushgen::sinks::Countdown::new(0));
    assert_eq!(result, GeneratorResult::Stopped);
    assert_eq!(counter.left(), 0);
    let (result, sink) = generator.run(Collect::all());
    assert_eq!(result, GeneratorResult::Complete);
    assert_eq!(sink.into_vec(), [&2, &3]);
}
