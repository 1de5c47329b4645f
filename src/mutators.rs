use vstd::prelude::*;
use vstd::string::*;

use crate::corpus::CorpusId;
use crate::error::Error;
use crate::text::strings_view;

verus! {

/// Whether a mutation changed the input.
#[derive(Debug, Clone, Copy, PartialEq, Eq, Structural)]
pub enum MutationResult {
    Mutated,
    Skipped,
}

/// The position of one elementary mutator in its collection.
#[derive(Debug, Clone, Copy, PartialEq, Eq, Structural)]
pub struct MutationId(pub usize);

impl MutationId {
    pub fn new(index: usize) -> (r: MutationId)
        ensures
            r.0 == index,
    {
        MutationId(index)
    }
}

/// Something with a name. A type that states its name sets `name_known`; for one
/// that does not, nothing is promised of `name`.
pub trait Named {
    /// Whether `name_spec` gives the name.
    open spec fn name_known(&self) -> bool {
        false
    }

    /// The name, where `name_known` holds.
    open spec fn name_spec(&self) -> Seq<char> {
        Seq::empty()
    }

    fn name(&self) -> (r: String)
        ensures
            self.name_known() ==> r@ == self.name_spec(),
    ;
}

/// A transformation of inputs of type `I`, with access to the state `S`. A type
/// states what its calls do through `mutate_post` and `post_exec_post`; for one that
/// does not, nothing is promised.
pub trait Mutator<I, S>: Named {
    /// What a call of `mutate` that took the mutator from `before` to `after` and the
    /// state from `state_before` to `state_after`, and returned `r`, does.
    open spec fn mutate_post(
        before: &Self,
        after: &Self,
        state_before: &S,
        state_after: &S,
        r: Result<MutationResult, Error>,
    ) -> bool {
        true
    }

    /// What a call of `post_exec` with `id` that took the mutator from `before` to
    /// `after` and the state from `state_before` to `state_after`, and returned `r`, does.
    open spec fn post_exec_post(
        before: &Self,
        after: &Self,
        state_before: &S,
        state_after: &S,
        id: Option<CorpusId>,
        r: Result<(), Error>,
    ) -> bool {
        true
    }

    /// Tries to change `input`; says whether it did.
    fn mutate(&mut self, state: &mut S, input: &mut I) -> (r: Result<MutationResult, Error>)
        ensures
            Self::mutate_post(old(self), final(self), old(state), final(state), r),
    ;

    /// Called once the mutated input has been run; `new_corpus_id` names the entry it
    /// was added to the corpus as, if it was.
    fn post_exec(&mut self, state: &mut S, new_corpus_id: Option<CorpusId>) -> (r: Result<(), Error>)
        ensures
            Self::post_exec_post(old(self), final(self), old(state), final(state), new_corpus_id, r),
    ;
}

/// One application of an elementary mutator: its index and what it returned.
pub type Application = (usize, Result<MutationResult, Error>);

/// An ordered collection of named things, each reachable by its index.
pub trait NamedTuple {
    /// The names, in order.
    spec fn names_spec(&self) -> Seq<Seq<char>>;

    fn len(&self) -> (r: usize)
        ensures
            r == self.names_spec().len(),
    ;

    /// The name at `index`, if there is one.
    fn name(&self, index: usize) -> (r: Option<String>)
        ensures
            index < self.names_spec().len() ==> r is Some && r.unwrap()@
                == self.names_spec()[index as int],
            index >= self.names_spec().len() ==> r is None,
    ;

    /// All the names, in order.
    fn names(&self) -> (r: Vec<String>)
        ensures
            strings_view(r@) == self.names_spec(),
    ;
}

/// An ordered collection of named elementary mutators, each reachable by its index.
pub trait MutatorsTuple<I, S>: NamedTuple {
    /// Every application made through [`MutatorsTuple::get_and_mutate`], in order,
    /// with what it returned.
    spec fn applied(&self) -> Seq<Application>;

    /// Applies the mutator at `index` to `input`.
    fn get_and_mutate(&mut self, index: usize, state: &mut S, input: &mut I) -> (r: Result<
        MutationResult,
        Error,
    >)
        requires
            index < old(self).names_spec().len(),
        ensures
            final(self).names_spec() == old(self).names_spec(),
            final(self).applied() == old(self).applied().push((index, r)),
    ;
}

/// Elementary mutators of one type, in a fixed order, with their names as they were
/// when the collection was made.
pub struct MutatorList<M> {
    list: Vec<M>,
    names: Vec<String>,
    history: Ghost<Seq<Application>>,
}

impl<M> MutatorList<M> {
    pub closed spec fn names_spec_of(&self) -> Seq<Seq<char>> {
        strings_view(self.names@)
    }

    pub closed spec fn applied_of(&self) -> Seq<Application> {
        self.history@
    }
}

impl<M: Named> MutatorList<M> {
    /// The collection of `list`, with no application made yet.
    pub fn new(list: Vec<M>) -> (r: MutatorList<M>)
        ensures
            r.names_spec_of().len() == list@.len(),
            r.applied_of() == Seq::<Application>::empty(),
            forall|j: int|
                0 <= j < list@.len() && (#[trigger] list@[j]).name_known() ==> r.names_spec_of()[j]
                    == list@[j].name_spec(),
    {
        let mut names: Vec<String> = Vec::new();
        let mut i: usize = 0;
        while i < list.len()
            invariant
                i <= list@.len(),
                names@.len() == i,
                forall|j: int|
                    0 <= j < i && (#[trigger] list@[j]).name_known() ==> names@[j]@
                        == list@[j].name_spec(),
            decreases list@.len() - i,
        {
            names.push(list[i].name());
            i += 1;
        }
        MutatorList { list, names, history: Ghost(Seq::empty()) }
    }
}

impl<M> NamedTuple for MutatorList<M> {
    open spec fn names_spec(&self) -> Seq<Seq<char>> {
        self.names_spec_of()
    }

    fn len(&self) -> (r: usize) {
        self.names.len()
    }

    fn name(&self, index: usize) -> (r: Option<String>) {
        if index < self.names.len() {
            Some(self.names[index].clone())
        } else {
            None
        }
    }

    fn names(&self) -> (r: Vec<String>) {
        let r = self.names.clone();
        assert(strings_view(r@) =~= self.names_spec_of());
        r
    }
}

impl<I, S, M: Mutator<I, S>> MutatorsTuple<I, S> for MutatorList<M> {
    open spec fn applied(&self) -> Seq<Application> {
        self.applied_of()
    }

    fn get_and_mutate(&mut self, index: usize, state: &mut S, input: &mut I) -> (r: Result<
        MutationResult,
        Error,
    >) {
        let r = if index < self.list.len() {
            let m = &mut self.list[index];
            m.mutate(state, input)
        } else {
            Err(Error::key_not_found(String::from_str("no mutator at this index")))
        };
        proof {
            self.history@ = self.history@.push((index, r));
        }
        r
    }
}

} // verus!
