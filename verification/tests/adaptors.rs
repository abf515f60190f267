use pushgen::function::{Predicate, Transform};
use pushgen::sinks::Collect;
use pushgen::stopping::StoppingGen;
use pushgen::structs::{BoxedGenerator, Cloned, Filter, FilterMap, Mapped};
use pushgen::{
    from_fn, ClonedExt, Either, Generator, GeneratorExt, GeneratorResult, IntoGenerator,
    ReverseGenerator, SliceGenerator,
};

static DATA: [i32; 5] = [1, 2, 3, 4, 5];

#[test]
fn map_is_the_ordinary_map() {
    let mut output: Vec<i32> = Vec::new();
    let result = SliceGenerator::new(&DATA).map(|x| x * 3).for_each(|x| output.push(x));
    assert_eq!(result, GeneratorResult::Complete);
    let expected: Vec<i32> = DATA.iter().map(|x| x * 3).collect();
    assert_eq!(output, expected);
    assert_eq!(output, [3, 6, 9, 12, 15]);
}

#[test]
fn filter_is_the_ordinary_filter() {
    let mut output: Vec<i32> = Vec::new();
    let result = SliceGenerator::new(&DATA).filter(|x| *x % 2 == 1).for_each(|x| output.push(*x));
    assert_eq!(result, GeneratorResult::Complete);
    let expected: Vec<i32> = DATA.iter().filter(|x| *x % 2 == 1).map(|x| *x).collect();
    assert_eq!(output, expected);
    assert_eq!(output, [1, 3, 5]);
}

#[test]
fn filter_then_map() {
    let mut output: Vec<i32> = Vec::new();
    SliceGenerator::new(&DATA).filter(|x| *x % 2 == 0).map(|x| x * 3).for_each(|x| output.push(x));
    assert_eq!(output, [6, 12]);
}

#[test]
fn a_rejected_value_never_ends_a_run() {
    let mut generator = SliceGenerator::new(&DATA).filter(|x| **x > 3);
    let (result, sink) = generator.run(Collect::first(1));
    assert_eq!(result, GeneratorResult::Stopped);
    assert_eq!(sink.into_vec(), [&4]);
    let (result, sink) = generator.run(Collect::all());
    assert_eq!(result, GeneratorResult::Complete);
    assert_eq!(sink.into_vec(), [&5]);
}

#[test]
fn filter_that_rejects_everything() {
    let (result, sink) = SliceGenerator::new(&DATA).filter(|_x| false).run(Collect::all());
    assert_eq!(result, GeneratorResult::Complete);
    assert!(sink.into_vec().is_empty());
}

#[test]
fn filter_map_keeps_what_is_made() {
    let mut output: Vec<i32> = Vec::new();
    let result = SliceGenerator::new(&DATA)
        .filter_map(|x| if *x > 2 { Some(*x * 10) } else { None })
        .for_each(|x| output.push(x));
    assert_eq!(result, GeneratorResult::Complete);
    assert_eq!(output, [30, 40, 50]);
}

#[test]
fn filter_map_stopped_and_resumed() {
    let mut generator = SliceGenerator::new(&DATA)
        .filter_map(|x| if *x % 2 == 1 { Some(*x) } else { None });
    let (result, sink) = generator.run(Collect::first(2));
    assert_eq!(result, GeneratorResult::Stopped);
    assert_eq!(sink.into_vec(), [1, 3]);
    let (result, sink) = generator.run(Collect::all());
    assert_eq!(result, GeneratorResult::Complete);
    assert_eq!(sink.into_vec(), [5]);
}

struct Halve;

impl<'a> Transform<&'a i32> for Halve {
    type Out = i32;

    fn value(&self, x: &'a i32) -> i32 {
        *x / 2
    }

    fn apply(&self, x: &'a i32) -> i32 {
        *x / 2
    }
}

struct Even;

impl<'a> Predicate<&'a i32> for Even {
    fn holds(&self, x: &'a i32) -> bool {
        *x % 2 == 0
    }

    fn decide(&self, x: &&'a i32) -> bool {
        **x % 2 == 0
    }
}

struct EvenHalf;

impl<'a> Transform<&'a i32> for EvenHalf {
    type Out = Option<i32>;

    fn value(&self, x: &'a i32) -> Option<i32> {
        self.apply(x)
    }

    fn apply(&self, x: &'a i32) -> Option<i32> {
        if *x % 2 == 0 {
            Some(*x / 2)
        } else {
            None
        }
    }
}

#[test]
fn adaptors_take_transformations_of_their_own_type() {
    let (result, sink) = Mapped::new(SliceGenerator::new(&DATA), Halve).run(Collect::all());
    assert_eq!(result, GeneratorResult::Complete);
    assert_eq!(sink.into_vec(), [0, 1, 1, 2, 2]);

    let (result, sink) = Filter::new(SliceGenerator::new(&DATA), Even).run(Collect::all());
    assert_eq!(result, GeneratorResult::Complete);
    assert_eq!(sink.into_vec(), [&2, &4]);

    let (result, sink) = FilterMap::new(SliceGenerator::new(&DATA), EvenHalf).run(Collect::all());
    assert_eq!(result, GeneratorResult::Complete);
    assert_eq!(sink.into_vec(), [1, 2]);
}

#[test]
fn cloned_gives_values() {
    let data = [String::from("a"), String::from("b")];
    let (result, sink) = Cloned::new(SliceGenerator::new(&data)).run(Collect::all());
    assert_eq!(result, GeneratorResult::Complete);
    assert_eq!(sink.into_vec(), [String::from("a"), String::from("b")]);

    let (result, sink) = SliceGenerator::new(&DATA).cloned().run(Collect::first(2));
    assert_eq!(result, GeneratorResult::Stopped);
    assert_eq!(sink.into_vec(), [1, 2]);
}

#[test]
fn fluent_take_skip_chain_zip() {
    let (result, sink) = SliceGenerator::new(&DATA).skip(1).take(3).run(Collect::all());
    assert_eq!(result, GeneratorResult::Complete);
    assert_eq!(sink.into_vec(), [&2, &3, &4]);

    let (result, sink) = SliceGenerator::new(&DATA)
        .take(1)
        .chain(SliceGenerator::new(&DATA).skip(4))
        .run(Collect::all());
    assert_eq!(result, GeneratorResult::Complete);
    assert_eq!(sink.into_vec(), [&1, &5]);

    let (result, sink) = SliceGenerator::new(&DATA)
        .zip(SliceGenerator::new(&DATA).skip(3))
        .run(Collect::all());
    assert_eq!(result, GeneratorResult::Complete);
    assert_eq!(sink.into_vec(), [(&1, &4), (&2, &5)]);
}

#[test]
fn drive_is_run() {
    let mut generator = SliceGenerator::new(&DATA).take(2);
    let (result, sink) = generator.drive(Collect::all());
    assert_eq!(result, GeneratorResult::Complete);
    assert_eq!(sink.into_vec(), [&1, &2]);
}

#[test]
fn for_each_cannot_be_stopped_by_its_consumer() {
    let mut count: usize = 0;
    let result = SliceGenerator::new(&DATA).for_each(|_x| count += 1);
    assert_eq!(result, GeneratorResult::Complete);
    assert_eq!(count, 5);
}

#[test]
fn boxed_generators_share_one_type() {
    let mut pipelines: Vec<BoxedGenerator<i32>> = vec![
        [1, 2, 3].into_gen().boxed(),
        [4, 5, 6].into_gen().take(2).boxed(),
        SliceGenerator::new(&DATA).cloned().skip(4).boxed(),
        BoxedGenerator::new([7].into_gen()),
    ];
    let mut output: Vec<i32> = Vec::new();
    for pipeline in pipelines.iter_mut() {
        assert_eq!(pipeline.for_each(|x| output.push(x)), GeneratorResult::Complete);
    }
    assert_eq!(output, [1, 2, 3, 4, 5, 5, 7]);
}

#[test]
fn boxed_stopped_and_resumed() {
    let mut generator = [1, 2, 3, 4].into_gen().boxed();
    let (result, sink) = generator.run(Collect::first(3));
    assert_eq!(result, GeneratorResult::Stopped);
    assert_eq!(sink.into_vec(), [1, 2, 3]);
    let (result, sink) = generator.run(Collect::all());
    assert_eq!(result, GeneratorResult::Complete);
    assert_eq!(sink.into_vec(), [4]);
    let (result, sink) = generator.run(Collect::all());
    assert_eq!(result, GeneratorResult::Complete);
    assert!(sink.into_vec().is_empty());
}

#[test]
fn boxed_passes_on_a_pause() {
    let mut generator = StoppingGen::new(1, &DATA[..3]).boxed();
    let (result, sink) = generator.run(Collect::all());
    assert_eq!(result, GeneratorResult::Stopped);
    assert_eq!(sink.into_vec(), [&1]);
    let (result, sink) = generator.run(Collect::all());
    assert_eq!(result, GeneratorResult::Complete);
    assert_eq!(sink.into_vec(), [&2, &3]);
}

fn one_of(
    first: bool,
) -> Either<SliceGenerator<'static, i32>, pushgen::structs::Skip<SliceGenerator<'static, i32>>> {
    if first {
        Either::Left(SliceGenerator::new(&DATA))
    } else {
        Either::Right(SliceGenerator::new(&DATA).skip(3))
    }
}

#[test]
fn either_runs_the_side_it_holds() {
    let (result, sink) = one_of(true).run(Collect::all());
    assert_eq!(result, GeneratorResult::Complete);
    assert_eq!(sink.into_vec(), [&1, &2, &3, &4, &5]);

    let (result, sink) = one_of(false).run(Collect::all());
    assert_eq!(result, GeneratorResult::Complete);
    assert_eq!(sink.into_vec(), [&4, &5]);

    assert_eq!(one_of(true).try_advance(2), (2, GeneratorResult::Stopped));
    assert_eq!(one_of(false).try_advance(3), (2, GeneratorResult::Complete));
}

#[test]
fn either_runs_back() {
    let data = [1, 2, 3];
    let mut left: Either<SliceGenerator<'_, i32>, SliceGenerator<'_, i32>> =
        Either::Left(SliceGenerator::new(&data));
    let (result, sink) = left.run_back(Collect::first(2));
    assert_eq!(result, GeneratorResult::Stopped);
    assert_eq!(sink.into_vec(), [&3, &2]);
    assert_eq!(left.try_advance_back(1), (1, GeneratorResult::Stopped));
    let (result, sink) = left.run(Collect::all());
    assert_eq!(result, GeneratorResult::Complete);
    assert!(sink.into_vec().is_empty());

    let mut right: Either<SliceGenerator<'_, i32>, SliceGenerator<'_, i32>> =
        Either::Right(SliceGenerator::new(&data));
    let (result, sink) = right.run_back(Collect::all());
    assert_eq!(result, GeneratorResult::Complete);
    assert_eq!(sink.into_vec(), [&3, &2, &1]);
}

#[test]
fn from_fn_steps_until_there_is_nothing() {
    let (result, sink) = from_fn(Some(7)).run(Collect::all());
    assert_eq!(result, GeneratorResult::Complete);
    assert_eq!(sink.into_vec(), [7]);

    let (result, sink) = from_fn(None::<i32>).run(Collect::all());
    assert_eq!(result, GeneratorResult::Complete);
    assert!(sink.into_vec().is_empty());

    let mut once = from_fn(Some(7));
    let (result, sink) = once.run(Collect::first(1));
    assert_eq!(result, GeneratorResult::Stopped);
    assert_eq!(sink.into_vec(), [7]);
    let (result, sink) = once.run(Collect::all());
    assert_eq!(result, GeneratorResult::Complete);
    assert!(sink.into_vec().is_empty());
}

#[test]
fn arrays_slices_and_vectors_become_generators() {
    let (result, sink) = [1, 2, 3].into_gen().run(Collect::all());
    assert_eq!(result, GeneratorResult::Complete);
    assert_eq!(sink.into_vec(), [1, 2, 3]);

    let slice: &[i32] = &DATA[1..3];
    let (result, sink) = slice.into_gen().run(Collect::all());
    assert_eq!(result, GeneratorResult::Complete);
    assert_eq!(sink.into_vec(), [&2, &3]);

    let vector = vec![4, 5];
    let (result, sink) = (&vector).into_gen().run(Collect::all());
    assert_eq!(result, GeneratorResult::Complete);
    assert_eq!(sink.into_vec(), [&4, &5]);

    let mut array = [1, 2, 3, 4].into_gen();
    assert_eq!(array.try_advance(3), (3, GeneratorResult::Stopped));
    let (result, sink) = array.run(Collect::all());
    assert_eq!(result, GeneratorResult::Complete);
    assert_eq!(sink.into_vec(), [4]);
    assert_eq!(array.try_advance(1), (0, GeneratorResult::Complete));
}

#[test]
fn adaptors_over_a_take_are_complete_with_its_last_value() {
    let (result, sink) = SliceGenerator::new(&DATA).take(2).map(|x| x * 2).run(Collect::first(2));
    assert_eq!(result, GeneratorResult::Complete);
    assert_eq!(sink.into_vec(), [2, 4]);

    let (result, sink) = SliceGenerator::new(&DATA).take(2).filter(|x| **x > 1).run(
        Collect::first(1),
    );
    assert_eq!(result, GeneratorResult::Complete);
    assert_eq!(sink.into_vec(), [&2]);

    let (result, sink) = SliceGenerator::new(&DATA).take(3).skip(1).run(Collect::first(2));
    assert_eq!(result, GeneratorResult::Complete);
    assert_eq!(sink.into_vec(), [&2, &3]);

    let (result, sink) = SliceGenerator::new(&DATA).cloned().take(2).boxed().run(Collect::first(2));
    assert_eq!(result, GeneratorResult::Complete);
    assert_eq!(sink.into_vec(), [1, 2]);

    let (result, sink) = SliceGenerator::new(&DATA).take(2).take(5).run(Collect::first(2));
    assert_eq!(result, GeneratorResult::Complete);
    assert_eq!(sink.into_vec(), [&1, &2]);
}

#[test]
fn a_filter_that_rejects_the_last_value_of_a_take_is_complete() {
    let (result, sink) = SliceGenerator::new(&DATA).take(2).filter(|x| **x < 2).run(
        Collect::all(),
    );
    assert_eq!(result, GeneratorResult::Complete);
    assert_eq!(sink.into_vec(), [&1]);
}
