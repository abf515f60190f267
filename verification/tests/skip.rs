use pushgen::sinks::Collect;
use pushgen::stopping::StoppingGen;
use pushgen::structs::Skip;
use pushgen::{Generator, GeneratorResult, SliceGenerator};

static DATA: [i32; 5] = [1, 2, 3, 4, 5];

fn collect_all<G: Generator<Output = &'static i32>>(
    generator: &mut G,
) -> (GeneratorResult, Vec<i32>) {
    let (result, sink) = generator.run(Collect::all());
    (result, sink.into_vec().into_iter().map(|x| *x).collect())
}

#[test]
fn skip_two_of_five() {
    let mut generator = Skip::new(SliceGenerator::new(&DATA), 2);
    assert_eq!(collect_all(&mut generator), (GeneratorResult::Complete, vec![3, 4, 5]));
}

#[test]
fn skip_as_many_as_there_are_or_more_yields_nothing() {
    for n in 5..8 {
        let mut generator = Skip::new(SliceGenerator::new(&DATA), n);
        assert_eq!(collect_all(&mut generator), (GeneratorResult::Complete, vec![]));
        assert_eq!(collect_all(&mut generator), (GeneratorResult::Complete, vec![]));
    }
}

#[test]
fn skip_nothing_yields_all() {
    let mut generator = Skip::new(SliceGenerator::new(&DATA), 0);
    assert_eq!(collect_all(&mut generator), (GeneratorResult::Complete, vec![1, 2, 3, 4, 5]));
}

#[test]
fn skip_then_stop_and_resume() {
    let mut generator = Skip::new(SliceGenerator::new(&DATA), 1);
    let (result, sink) = generator.run(Collect::first(2));
    assert_eq!(result, GeneratorResult::Stopped);
    assert_eq!(sink.into_vec(), [&2, &3]);
    assert_eq!(collect_all(&mut generator), (GeneratorResult::Complete, vec![4, 5]));
}

#[test]
fn skip_remembers_its_budget_when_the_source_pauses() {
    let mut generator = Skip::new(StoppingGen::new(1, &DATA[..4]), 2);
    assert_eq!(collect_all(&mut generator), (GeneratorResult::Stopped, vec![]));
    assert_eq!(collect_all(&mut generator), (GeneratorResult::Complete, vec![3, 4]));
}

#[test]
fn skip_keeps_a_pause_that_follows_the_skipped_values() {
    let mut generator = Skip::new(StoppingGen::new(2, &DATA[..4]), 2);
    assert_eq!(collect_all(&mut generator), (GeneratorResult::Stopped, vec![]));
    assert_eq!(collect_all(&mut generator), (GeneratorResult::Complete, vec![3, 4]));
}
