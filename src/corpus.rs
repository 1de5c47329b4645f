use vstd::prelude::*;
use vstd::string::*;

use crate::error::Error;
use crate::rand::Rand;
use crate::scheduled::LogMutationMetadata;

verus! {

/// The identifier of one entry of the corpus: its position.
#[derive(Debug, Clone, Copy, PartialEq, Eq, Structural)]
pub struct CorpusId(pub usize);

/// A state that holds a source of random numbers.
/// A state that holds a source of random numbers. A type that states which source it
/// holds sets `rand_known`; for one that does not, nothing is promised of `rand_mut`.
pub trait HasRand: Sized {
    type R: Rand;

    /// Whether `rand_spec` and `with_rand` describe the source.
    open spec fn rand_known(&self) -> bool {
        false
    }

    /// The source this state holds.
    open spec fn rand_spec(&self) -> Self::R {
        arbitrary()
    }

    /// This state with its source replaced by `r`.
    open spec fn with_rand(&self, r: Self::R) -> Self {
        *self
    }

    fn rand_mut(&mut self) -> (r: &mut Self::R)
        ensures
            old(self).rand_known() ==> *r == old(self).rand_spec() && *final(self) == old(
                self,
            ).with_rand(*final(r)),
    ;
}

/// A state that holds the corpus, whose entries can carry a mutation log.
pub trait HasCorpus {
    /// How many entries the corpus has.
    spec fn corpus_len(&self) -> nat;

    /// The mutation log attached to the entry `id`, if any.
    spec fn log_of(&self, id: CorpusId) -> Option<Seq<Seq<char>>>;

    /// Attaches `meta` to the entry `id`, replacing the log it had.
    fn attach_log(&mut self, id: CorpusId, meta: LogMutationMetadata) -> (r: Result<(), Error>)
        ensures
            r is Ok <==> id.0 < old(self).corpus_len(),
            final(self).corpus_len() == old(self).corpus_len(),
            r is Ok ==> final(self).log_of(id) == Some(meta@),
            forall|other: CorpusId| other != id ==> #[trigger] final(self).log_of(other) == old(self).log_of(other),
            r is Err ==> forall|other: CorpusId| #[trigger] final(self).log_of(other) == old(self).log_of(other),
    ;
}

/// One entry of the corpus: an input and the log of how it was made, if kept.
#[derive(Debug)]
pub struct Testcase<I> {
    pub input: I,
    pub log: Option<LogMutationMetadata>,
}

/// A random source and an in-memory corpus.
#[derive(Debug)]
pub struct StdState<R, I> {
    pub rand: R,
    pub corpus: Vec<Testcase<I>>,
}

pub open spec fn log_view(l: Option<LogMutationMetadata>) -> Option<Seq<Seq<char>>> {
    match l {
        Some(m) => Some(m@),
        None => None,
    }
}

impl<R: Rand, I> StdState<R, I> {
    /// A state drawing from `rand`, with an empty corpus.
    pub fn new(rand: R) -> (r: StdState<R, I>)
        ensures
            r.corpus@.len() == 0,
    {
        StdState { rand, corpus: Vec::new() }
    }

    /// Adds `input` to the corpus, with no log.
    pub fn add(&mut self, input: I) -> (r: CorpusId)
        requires
            old(self).corpus@.len() < usize::MAX,
        ensures
            r.0 == old(self).corpus@.len(),
            final(self).corpus@.len() == old(self).corpus@.len() + 1,
            final(self).corpus@[r.0 as int].log is None,
            forall|i: int| 0 <= i < old(self).corpus@.len() ==> #[trigger] final(self).corpus@[i]
                == old(self).corpus@[i],
    {
        let id = self.corpus.len();
        self.corpus.push(Testcase { input, log: None });
        CorpusId(id)
    }

    /// The entry `id`, if the corpus has it.
    pub fn testcase(&self, id: CorpusId) -> (r: Option<&Testcase<I>>)
        ensures
            id.0 < self.corpus@.len() ==> r == Some(&self.corpus@[id.0 as int]),
            id.0 >= self.corpus@.len() ==> r is None,
    {
        if id.0 < self.corpus.len() {
            Some(&self.corpus[id.0])
        } else {
            None
        }
    }
}

impl<R: Rand, I> HasRand for StdState<R, I> {
    type R = R;

    open spec fn rand_known(&self) -> bool {
        true
    }

    open spec fn rand_spec(&self) -> R {
        self.rand
    }

    open spec fn with_rand(&self, r: R) -> StdState<R, I> {
        StdState { rand: r, corpus: self.corpus }
    }

    fn rand_mut(&mut self) -> (r: &mut R) {
        &mut self.rand
    }
}

impl<R: Rand, I> HasCorpus for StdState<R, I> {
    open spec fn corpus_len(&self) -> nat {
        self.corpus@.len()
    }

    open spec fn log_of(&self, id: CorpusId) -> Option<Seq<Seq<char>>> {
        if id.0 < self.corpus@.len() {
            log_view(self.corpus@[id.0 as int].log)
        } else {
            None
        }
    }

    fn attach_log(&mut self, id: CorpusId, meta: LogMutationMetadata) -> (r: Result<(), Error>) {
        if id.0 < self.corpus.len() {
            let t = &mut self.corpus[id.0];
            t.log = Some(meta);
            Ok(())
        } else {
            Err(Error::key_not_found(String::from_str("no such corpus entry")))
        }
    }
}

} // verus!
