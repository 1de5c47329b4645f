use libafl_core::corpus::{CorpusId, HasRand, StdState};
use libafl_core::error::Error;
use libafl_core::mutators::{MutationResult, Mutator, MutatorList, Named, NamedTuple};
use libafl_core::rand::{Rand, StdRand};
use libafl_core::scheduled::{
    HavocScheduledMutator, LogMutationMetadata, LoggerScheduledMutator, ScheduledMutator,
    SingleChoiceScheduledMutator,
};

type State = StdState<StdRand, Vec<u8>>;

#[derive(Debug, Clone, Copy, PartialEq)]
enum TestMutator {
    Flip,
    Noop,
    Numbered(usize),
    Fail,
}

impl Named for TestMutator {
    fn name(&self) -> String {
        match self {
            TestMutator::Flip => "flip".to_string(),
            TestMutator::Noop => "noop".to_string(),
            TestMutator::Numbered(n) => format!("m{n}"),
            TestMutator::Fail => "fail".to_string(),
        }
    }
}

impl Mutator<Vec<u8>, State> for TestMutator {
    fn mutate(&mut self, state: &mut State, input: &mut Vec<u8>) -> Result<MutationResult, Error> {
        match self {
            TestMutator::Noop => Ok(MutationResult::Skipped),
            TestMutator::Fail => Err(Error::IllegalArgument("boom".to_string())),
            _ => {
                if input.is_empty() {
                    return Ok(MutationResult::Skipped);
                }
                let pos = state.rand_mut().below(input.len());
                let bit = state.rand_mut().below(8);
                input[pos] ^= 1 << bit;
                Ok(MutationResult::Mutated)
            }
        }
    }

    fn post_exec(&mut self, _state: &mut State, _id: Option<CorpusId>) -> Result<(), Error> {
        Ok(())
    }
}

fn state_with_corpus(seed: u64) -> State {
    let mut state = StdState::new(StdRand::with_seed(seed));
    state.add(b"abc".to_vec());
    state.add(b"def".to_vec());
    state
}

#[test]
fn test_havoc() {
    let mut state = state_with_corpus(0x1337);
    let mut input = b"abc".to_vec();
    let input_prior = input.clone();
    let mut havoc = HavocScheduledMutator::new(MutatorList::new(vec![TestMutator::Flip, TestMutator::Noop]));
    assert_eq!(input, input_prior);
    let mut equal_in_a_row = 0;
    for _ in 0..42 {
        havoc.mutate(&mut state, &mut input).unwrap();
        equal_in_a_row = if input == input_prior { equal_in_a_row + 1 } else { 0 };
        assert_ne!(equal_in_a_row, 5);
    }
}

#[test]
fn test_single_choice() {
    let mut state = state_with_corpus(0x1337);
    let mut input = b"abc".to_vec();
    let input_prior = input.clone();
    let mut mutator =
        SingleChoiceScheduledMutator::new(MutatorList::new(vec![TestMutator::Flip, TestMutator::Noop]));
    assert_eq!(input, input_prior);
    let mut equal_in_a_row = 0;
    for _ in 0..100 {
        mutator.mutate(&mut state, &mut input).unwrap();
        equal_in_a_row = if input == input_prior { equal_in_a_row + 1 } else { 0 };
        assert_ne!(equal_in_a_row, 20);
    }
}

#[test]
fn havoc_iterations_are_bounded_powers_of_two() {
    let mut state = state_with_corpus(7);
    let input = b"abc".to_vec();
    let zero = HavocScheduledMutator::with_max_stack_pow(MutatorList::new(vec![TestMutator::Flip]), 0);
    for _ in 0..50 {
        assert_eq!(ScheduledMutator::<Vec<u8>, State>::iterations(&zero, &mut state, &input), 2);
    }
    let three = HavocScheduledMutator::with_max_stack_pow(MutatorList::new(vec![TestMutator::Flip]), 3);
    let mut seen = std::collections::BTreeSet::new();
    for _ in 0..500 {
        let n = ScheduledMutator::<Vec<u8>, State>::iterations(&three, &mut state, &input);
        assert!([2u64, 4, 8, 16].contains(&n), "{n}");
        seen.insert(n);
    }
    assert_eq!(seen.len(), 4);
    let default = HavocScheduledMutator::new(MutatorList::new(vec![TestMutator::Flip]));
    for _ in 0..200 {
        let n = ScheduledMutator::<Vec<u8>, State>::iterations(&default, &mut state, &input);
        assert!(n.is_power_of_two() && (2..=256).contains(&n), "{n}");
    }
}

#[test]
fn single_choice_stacks_one_and_covers_all_indices() {
    let mut state = state_with_corpus(11);
    let input = b"abc".to_vec();
    let list: Vec<TestMutator> = (0..10).map(TestMutator::Numbered).collect();
    let mutator = SingleChoiceScheduledMutator::new(MutatorList::new(list));
    let mut hits = [0usize; 10];
    for _ in 0..1000 {
        assert_eq!(ScheduledMutator::<Vec<u8>, State>::iterations(&mutator, &mut state, &input), 1);
        let id = ScheduledMutator::<Vec<u8>, State>::schedule(&mutator, &mut state, &input);
        hits[id.0] += 1;
    }
    assert!(hits.iter().filter(|h| **h > 0).count() >= 9);
}

#[test]
fn stacked_result_is_mutated_when_any_step_mutates() {
    let mut state = state_with_corpus(3);
    let mut input = b"abc".to_vec();
    let mut skipping = HavocScheduledMutator::with_max_stack_pow(MutatorList::new(vec![TestMutator::Noop]), 2);
    assert_eq!(skipping.mutate(&mut state, &mut input).unwrap(), MutationResult::Skipped);
    assert_eq!(input, b"abc".to_vec());
    let mut flipping = SingleChoiceScheduledMutator::new(MutatorList::new(vec![TestMutator::Flip]));
    assert_eq!(flipping.mutate(&mut state, &mut input).unwrap(), MutationResult::Mutated);
    assert_ne!(input, b"abc".to_vec());
}

#[test]
fn empty_collection_is_refused() {
    let mut state = state_with_corpus(3);
    let mut input = b"abc".to_vec();
    let mut havoc = HavocScheduledMutator::new(MutatorList::<TestMutator>::new(vec![]));
    assert!(matches!(havoc.mutate(&mut state, &mut input), Err(Error::IllegalState(_))));
}

#[test]
fn scheduled_mutator_names() {
    let single =
        SingleChoiceScheduledMutator::new(MutatorList::new(vec![TestMutator::Flip, TestMutator::Noop]));
    assert_eq!(single.name(), "SingleChoiceScheduledMutator[flip, noop]");
    let havoc = HavocScheduledMutator::new(MutatorList::new(vec![TestMutator::Flip]));
    assert_eq!(havoc.name(), "HavocScheduledMutator[flip]");
    let logger = LoggerScheduledMutator::new(havoc);
    assert_eq!(logger.name(), "LoggerScheduledMutator[HavocScheduledMutator[flip]]");
    let list = MutatorList::new(vec![TestMutator::Flip, TestMutator::Noop]);
    assert_eq!(list.name(1), Some("noop".to_string()));
    assert_eq!(list.name(2), None);
}

#[test]
fn logger_attaches_names_of_accepted_input() {
    let mut state = state_with_corpus(5);
    let mut input = b"abc".to_vec();
    let inner = HavocScheduledMutator::with_max_stack_pow(MutatorList::new(vec![TestMutator::Flip]), 0);
    let mut logger = LoggerScheduledMutator::new(inner);
    logger.mutate(&mut state, &mut input).unwrap();
    logger.post_exec(&mut state, Some(CorpusId(1))).unwrap();
    let meta: &LogMutationMetadata = state.testcase(CorpusId(1)).unwrap().log.as_ref().unwrap();
    assert_eq!(meta.as_slice(), &["flip".to_string(), "flip".to_string()]);
    assert!(state.testcase(CorpusId(0)).unwrap().log.is_none());
}

#[test]
fn logger_names_come_last_applied_first() {
    let mut state = state_with_corpus(9);
    let mut input = b"abc".to_vec();
    let list: Vec<TestMutator> = (0..4).map(TestMutator::Numbered).collect();
    let inner = HavocScheduledMutator::with_max_stack_pow(MutatorList::new(list), 2);
    let mut logger = LoggerScheduledMutator::new(inner);
    logger.mutate(&mut state, &mut input).unwrap();
    logger.post_exec(&mut state, Some(CorpusId(0))).unwrap();
    let names = state.testcase(CorpusId(0)).unwrap().log.as_ref().unwrap().as_slice().to_vec();
    assert!([2usize, 4, 8].contains(&names.len()));
    assert!(names.iter().all(|n| n.starts_with('m')));
}

#[test]
fn logger_forgets_rejected_input() {
    let mut state = state_with_corpus(5);
    let mut input = b"abc".to_vec();
    let inner = SingleChoiceScheduledMutator::new(MutatorList::new(vec![TestMutator::Flip]));
    let mut logger = LoggerScheduledMutator::new(inner);
    logger.mutate(&mut state, &mut input).unwrap();
    logger.post_exec(&mut state, None).unwrap();
    assert!(state.testcase(CorpusId(0)).unwrap().log.is_none());
    logger.mutate(&mut state, &mut input).unwrap();
    logger.post_exec(&mut state, Some(CorpusId(0))).unwrap();
    let meta = state.testcase(CorpusId(0)).unwrap().log.as_ref().unwrap();
    assert_eq!(meta.as_slice(), &["flip".to_string()]);
    // the log was cleared: accepting again attaches an empty list
    logger.post_exec(&mut state, Some(CorpusId(1))).unwrap();
    assert!(state.testcase(CorpusId(1)).unwrap().log.as_ref().unwrap().as_slice().is_empty());
}

#[test]
fn logger_reports_missing_corpus_entry() {
    let mut state = state_with_corpus(5);
    let mut input = b"abc".to_vec();
    let inner = SingleChoiceScheduledMutator::new(MutatorList::new(vec![TestMutator::Flip]));
    let mut logger = LoggerScheduledMutator::new(inner);
    logger.mutate(&mut state, &mut input).unwrap();
    assert!(matches!(logger.post_exec(&mut state, Some(CorpusId(9))), Err(Error::KeyNotFound(_))));
}

#[test]
fn log_metadata_keeps_its_list() {
    let meta = LogMutationMetadata::new(vec!["a".to_string(), "b".to_string()]);
    assert_eq!(meta.as_slice().len(), 2);
    assert_eq!(meta.list, vec!["a".to_string(), "b".to_string()]);
}

#[test]
fn std_rand_stays_below_bound() {
    let mut r = StdRand::with_seed(42);
    for n in 1..200usize {
        assert!(r.below(n) < n);
    }
    assert_eq!(r.below_or_zero(0), 0);
}

#[test]
fn failing_step_stops_the_stack_with_its_error() {
    let mut state = state_with_corpus(3);
    let mut input = b"abc".to_vec();
    let mut havoc = HavocScheduledMutator::with_max_stack_pow(MutatorList::new(vec![TestMutator::Fail]), 3);
    match havoc.mutate(&mut state, &mut input) {
        Err(Error::IllegalArgument(msg)) => assert_eq!(msg, "boom"),
        other => panic!("unexpected {other:?}"),
    }
    assert_eq!(input, b"abc".to_vec());
    let inner = SingleChoiceScheduledMutator::new(MutatorList::new(vec![TestMutator::Fail]));
    let mut logger = LoggerScheduledMutator::new(inner);
    assert!(logger.mutate(&mut state, &mut input).is_err());
    logger.post_exec(&mut state, Some(CorpusId(0))).unwrap();
    let meta = state.testcase(CorpusId(0)).unwrap().log.as_ref().unwrap();
    assert_eq!(meta.as_slice(), &["fail".to_string()]);
}

#[test]
fn single_choice_iterations_leave_the_random_source_alone() {
    let mut state = state_with_corpus(21);
    let mut twin = state_with_corpus(21);
    let input = b"abc".to_vec();
    let mutator = SingleChoiceScheduledMutator::new(MutatorList::new(vec![TestMutator::Flip]));
    assert_eq!(ScheduledMutator::<Vec<u8>, State>::iterations(&mutator, &mut state, &input), 1);
    assert_eq!(state.rand_mut().below(1000), twin.rand_mut().below(1000));
}

#[test]
fn stack_sizes_are_powers_of_two() {
    assert_eq!(libafl_core::scheduled::stack_size(0), 2);
    assert_eq!(libafl_core::scheduled::stack_size(7), 256);
    assert_eq!(libafl_core::scheduled::stack_size(62), 1u64 << 63);
}

#[test]
fn seeded_sources_repeat_their_draws() {
    let mut a = StdRand::with_seed(99);
    let mut b = StdRand::with_seed(99);
    for n in 1..50usize {
        assert_eq!(a.below(n), b.below(n));
    }
    assert_eq!(a.next(), b.next());
}
