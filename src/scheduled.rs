use vstd::arithmetic::power2::{lemma2_to64_rest, lemma_pow2_strictly_increases, lemma_pow2_unfold, pow2};
use vstd::prelude::*;
use vstd::string::*;

use crate::corpus::{CorpusId, HasCorpus, HasRand};
use crate::error::Error;
use crate::mutators::{Application, MutationId, MutationResult, Mutator, MutatorsTuple, Named, NamedTuple};
use crate::rand::Rand;
use crate::text::{join_strings, join_with, strings_view};

verus! {

/// The names of the mutations that made an input, attached to its corpus entry.
#[derive(Debug, Clone)]
pub struct LogMutationMetadata {
    pub list: Vec<String>,
}

impl View for LogMutationMetadata {
    type V = Seq<Seq<char>>;

    open spec fn view(&self) -> Seq<Seq<char>> {
        strings_view(self.list@)
    }
}

impl LogMutationMetadata {
    pub fn new(list: Vec<String>) -> (r: LogMutationMetadata)
        ensures
            r.list == list,
    {
        LogMutationMetadata { list }
    }

    /// The names, in the order they were logged.
    pub fn as_slice(&self) -> (r: &[String])
        ensures
            r@ == self.list@,
    {
        self.list.as_slice()
    }
}

/// Whether any of the applications `t` changed the input.
pub open spec fn any_mutated(t: Seq<Application>) -> bool {
    exists|k: int| 0 <= k < t.len() && (#[trigger] t[k]).1 == Ok::<MutationResult, Error>(MutationResult::Mutated)
}

/// Whether every one of the applications `t` returned without an error.
pub open spec fn all_ok(t: Seq<Application>) -> bool {
    forall|k: int| 0 <= k < t.len() ==> (#[trigger] t[k]).1 is Ok
}

/// What a stack of applications `t` reports: `Mutated` where any of them did.
pub open spec fn stacked_result(t: Seq<Application>) -> MutationResult {
    if any_mutated(t) {
        MutationResult::Mutated
    } else {
        MutationResult::Skipped
    }
}

/// `new` are the applications of one stack meant to hold `n` of them, and `r` what the
/// stack returned: all `n` ran and `r` is what they report together; or the stack
/// stopped at the first one that failed, and `r` is that error.
pub open spec fn stack_outcome(new: Seq<Application>, n: nat, r: Result<MutationResult, Error>) -> bool {
    &&& forall|k: int| 0 <= k < new.len() - 1 ==> (#[trigger] new[k]).1 is Ok
    &&& match r {
        Ok(m) => new.len() == n && all_ok(new) && m == stacked_result(new),
        Err(e) => 1 <= new.len() <= n && new.last().1 == Err::<MutationResult, Error>(e),
    }
}

/// The applications `a1` extend `a0`; the new ones picked mutations among `count`;
/// with no mutation to pick, nothing was applied and `r` is an illegal-state error;
/// otherwise the new ones are a stack of some size `n` that `admits`, and `r` its outcome.
pub open spec fn scheduled_post(
    a0: Seq<Application>,
    a1: Seq<Application>,
    count: nat,
    admits: spec_fn(u64) -> bool,
    r: Result<MutationResult, Error>,
) -> bool {
    &&& a1.len() >= a0.len()
    &&& a1.take(a0.len() as int) == a0
    &&& forall|k: int| a0.len() <= k < a1.len() ==> (#[trigger] a1[k]).0 < count
    &&& count == 0 ==> (a1 == a0 && (r matches Err(Error::IllegalState(_))))
    &&& count > 0 ==> exists|n: u64| admits(n) && stack_outcome(a1.skip(a0.len() as int), n as nat, r)
}

/// Where the state's random source is described, `k` is its next draw below `n` and
/// the state `s1` is `s0` after that one draw.
pub open spec fn draw_post<S: HasRand>(s0: &S, s1: &S, n: usize, k: usize) -> bool {
    s0.rand_known() && s0.rand_spec().draws_known() ==> k == s0.rand_spec().next_below(n) && *s1
        == s0.with_rand(s0.rand_spec().after_below(n))
}

/// A mutator that holds a collection of mutations.
pub trait ComposedByMutations {
    type Mutations;

    spec fn mutations_spec(&self) -> Self::Mutations;

    fn mutations(&self) -> (r: &Self::Mutations)
        ensures
            *r == self.mutations_spec(),
    ;

    fn mutations_mut(&mut self) -> (r: &mut Self::Mutations)
        ensures
            *r == old(self).mutations_spec(),
            final(self).mutations_spec() == *final(r),
    ;
}

/// A mutator that applies a stack of mutations from its collection to an input.
pub trait ScheduledMutator<I, S>: ComposedByMutations where
    Self::Mutations: MutatorsTuple<I, S>,
 {
    /// Whether `n` is a stack size that this mutator may choose.
    spec fn iterations_spec(&self, n: u64) -> bool;

    /// Whether choosing the stack size leaves the state as it was.
    spec fn iterations_keep_state(&self) -> bool;

    /// How many mutations to stack for the next input.
    /// What choosing the stack size `n` does to the state, taking it from `s0` to `s1`.
    open spec fn iterations_post(&self, s0: &S, s1: &S, n: u64) -> bool {
        true
    }

    /// What picking the mutation `r` does to the state, taking it from `s0` to `s1`.
    open spec fn schedule_post(&self, s0: &S, s1: &S, r: MutationId) -> bool {
        true
    }

    fn iterations(&self, state: &mut S, input: &I) -> (r: u64)
        ensures
            self.iterations_spec(r),
            self.iterations_keep_state() ==> *final(state) == *old(state),
            self.iterations_post(old(state), final(state), r),
    ;

    /// The mutation to apply next.
    fn schedule(&self, state: &mut S, input: &I) -> (r: MutationId)
        requires
            self.mutations_spec().names_spec().len() > 0,
        ensures
            r.0 < self.mutations_spec().names_spec().len(),
            self.schedule_post(old(state), final(state), r),
    ;

    /// Applies a stack of mutations to `input`: as many as [`ScheduledMutator::iterations`]
    /// says, each picked by [`ScheduledMutator::schedule`]. Reports `Mutated` where any of
    /// them changed the input; stops at the first one that fails and returns its error.
    /// An empty collection is refused.
    fn scheduled_mutate(&mut self, state: &mut S, input: &mut I) -> (r: Result<
        MutationResult,
        Error,
    >)
        ensures
            final(self).mutations_spec().names_spec() == old(self).mutations_spec().names_spec(),
            scheduled_post(
                old(self).mutations_spec().applied(),
                final(self).mutations_spec().applied(),
                old(self).mutations_spec().names_spec().len(),
                |n: u64| (old(self).iterations_spec(n) && exists|s1: S| old(self).iterations_post(old(state), &s1, n)),
                r,
            ),
    {
        if self.mutations().len() == 0 {
            proof {
                let a = self.mutations_spec().applied();
                assert(a.take(a.len() as int) =~= a);
            }
            return Err(Error::illegal_state(String::from_str("no mutations to schedule")));
        }
        let ghost a0 = self.mutations_spec().applied();
        let ghost names = self.mutations_spec().names_spec();
        let mut r = MutationResult::Skipped;
        let num = self.iterations(state, input);
        let ghost s_it = *state;
        let mut i: u64 = 0;
        proof {
            assert(self.mutations_spec().applied().skip(a0.len() as int) =~= Seq::<Application>::empty());
        }
        while i < num
            invariant
                i <= num,
                old(self).iterations_spec(num),
                old(self).iterations_post(old(state), &s_it, num),
                names == old(self).mutations_spec().names_spec(),
                a0 == old(self).mutations_spec().applied(),
                self.mutations_spec().names_spec() == names,
                names.len() > 0,
                self.mutations_spec().applied().len() == a0.len() + i,
                self.mutations_spec().applied().take(a0.len() as int) == a0,
                all_ok(self.mutations_spec().applied().skip(a0.len() as int)),
                r == stacked_result(self.mutations_spec().applied().skip(a0.len() as int)),
                forall|k: int|
                    a0.len() <= k < self.mutations_spec().applied().len() ==> (
                    #[trigger] self.mutations_spec().applied()[k]).0 < names.len(),
            decreases num - i,
        {
            let idx = self.schedule(state, input);
            let ghost before = self.mutations_spec().applied();
            let res = self.mutations_mut().get_and_mutate(idx.0, state, input);
            let ghost after = self.mutations_spec().applied();
            proof {
                assert(self.mutations_spec().names_spec() == names);
                assert(after == before.push((idx.0, res)));
                assert(after.take(a0.len() as int) =~= before.take(a0.len() as int));
                assert(after.skip(a0.len() as int) =~= before.skip(a0.len() as int).push((idx.0, res)));
            }
            match res {
                Ok(o) => {
                    proof {
                        lemma_stacked_push(before.skip(a0.len() as int), idx.0, o);
                    }
                    if o == MutationResult::Mutated {
                        r = MutationResult::Mutated;
                    }
                },
                Err(e) => {
                    proof {
                        let new = after.skip(a0.len() as int);
                        assert forall|k: int| 0 <= k < new.len() - 1 implies (#[trigger] new[k]).1 is Ok by {
                            assert(new[k] == before.skip(a0.len() as int)[k]);
                        }
                        assert(stack_outcome(new, num as nat, Err(e)));
                        assert(old(self).iterations_post(old(state), &s_it, num));
                        assert((old(self).iterations_spec(num) && exists|s1: S| old(self).iterations_post(old(state), &s1, num)));
                    }
                    return Err(e);
                },
            }
            i += 1;
        }
        proof {
            assert(old(self).iterations_post(old(state), &s_it, num));
                        assert((old(self).iterations_spec(num) && exists|s1: S| old(self).iterations_post(old(state), &s1, num)));
            assert(stack_outcome(self.mutations_spec().applied().skip(a0.len() as int), num as nat, Ok(r)));
        }
        Ok(r)
    }
}


proof fn lemma_stacked_push(t: Seq<Application>, idx: usize, o: MutationResult)
    requires
        all_ok(t),
    ensures
        all_ok(t.push((idx, Ok(o)))),
        stacked_result(t.push((idx, Ok(o)))) == if o == MutationResult::Mutated {
            MutationResult::Mutated
        } else {
            stacked_result(t)
        },
{
    let a: Application = (idx, Ok(o));
    let u = t.push(a);
    assert forall|k: int| 0 <= k < u.len() implies (#[trigger] u[k]).1 is Ok by {
        if k < t.len() {
            assert(u[k] == t[k]);
        }
    }
    if o == MutationResult::Mutated {
        assert(u[t.len() as int].1 == Ok::<MutationResult, Error>(MutationResult::Mutated));
    } else {
        if any_mutated(u) {
            let k = choose|k: int| 0 <= k < u.len() && (#[trigger] u[k]).1 == Ok::<MutationResult, Error>(MutationResult::Mutated);
            assert(t[k] == u[k]);
        }
        if any_mutated(t) {
            let k = choose|k: int| 0 <= k < t.len() && (#[trigger] t[k]).1 == Ok::<MutationResult, Error>(MutationResult::Mutated);
            assert(t[k] == u[k]);
        }
    }
}

/// A stack reports `Mutated` as soon as any one of its applications did, whatever its
/// position and whatever the others reported.
pub proof fn law_any_mutation_marks_stack(t: Seq<Application>, k: int)
    requires
        0 <= k < t.len(),
        t[k].1 == Ok::<MutationResult, Error>(MutationResult::Mutated),
    ensures
        stacked_result(t) == MutationResult::Mutated,
{
    assert(any_mutated(t));
}

/// What a stack reports does not depend on the order of its applications.
pub proof fn law_stack_order_free(t: Seq<Application>, u: Seq<Application>)
    ensures
        stacked_result(t + u) == stacked_result(u + t),
{
    let a = t + u;
    let b = u + t;
    if any_mutated(a) {
        let k = choose|k: int| 0 <= k < a.len() && (#[trigger] a[k]).1 == Ok::<MutationResult, Error>(MutationResult::Mutated);
        if k < t.len() {
            assert(b[u.len() + k] == a[k]);
        } else {
            assert(b[k - t.len()] == a[k]);
        }
    }
    if any_mutated(b) {
        let k = choose|k: int| 0 <= k < b.len() && (#[trigger] b[k]).1 == Ok::<MutationResult, Error>(MutationResult::Mutated);
        if k < u.len() {
            assert(a[t.len() + k] == b[k]);
        } else {
            assert(a[k - u.len()] == b[k]);
        }
    }
}

fn bracketed_name(prefix: &str, names: &Vec<String>) -> (r: String)
    ensures
        r@ == prefix@ + "["@ + join_with(strings_view(names@), ", "@) + "]"@,
{
    let joined = join_strings(names, ", ");
    String::from_str(prefix).concat("[").concat(joined.as_str()).concat("]")
}

/// Applies one mutation of its collection per call, picked at random.
#[derive(Debug)]
pub struct SingleChoiceScheduledMutator<MT> {
    name: String,
    mutations: MT,
}

impl<MT: NamedTuple> SingleChoiceScheduledMutator<MT> {
    /// Wraps `mutations`; the name lists theirs.
    pub fn new(mutations: MT) -> (r: SingleChoiceScheduledMutator<MT>)
        ensures
            r.mutations_spec() == mutations,
            r.name_spec() == "SingleChoiceScheduledMutator"@ + "["@ + join_with(
                mutations.names_spec(),
                ", "@,
            ) + "]"@,
    {
        let names = mutations.names();
        let name = bracketed_name("SingleChoiceScheduledMutator", &names);
        SingleChoiceScheduledMutator { name, mutations }
    }
}

impl<MT> Named for SingleChoiceScheduledMutator<MT> {
    open spec fn name_known(&self) -> bool {
        true
    }

    closed spec fn name_spec(&self) -> Seq<char> {
        self.name@
    }

    fn name(&self) -> (r: String) {
        self.name.clone()
    }
}

impl<MT> ComposedByMutations for SingleChoiceScheduledMutator<MT> {
    type Mutations = MT;

    closed spec fn mutations_spec(&self) -> MT {
        self.mutations
    }

    fn mutations(&self) -> (r: &MT) {
        &self.mutations
    }

    fn mutations_mut(&mut self) -> (r: &mut MT) {
        &mut self.mutations
    }
}

impl<I, S: HasRand, MT: MutatorsTuple<I, S>> Mutator<I, S> for SingleChoiceScheduledMutator<MT> {
    open spec fn mutate_post(
        before: &Self,
        after: &Self,
        state_before: &S,
        state_after: &S,
        r: Result<MutationResult, Error>,
    ) -> bool {
        &&& after.mutations_spec().names_spec() == before.mutations_spec().names_spec()
        &&& scheduled_post(
            before.mutations_spec().applied(),
            after.mutations_spec().applied(),
            before.mutations_spec().names_spec().len(),
            |n: u64| (<SingleChoiceScheduledMutator<MT> as ScheduledMutator<I, S>>::iterations_spec(before, n) && exists|s1: S| <SingleChoiceScheduledMutator<MT> as ScheduledMutator<I, S>>::iterations_post(before, state_before, &s1, n)),
            r,
        )
    }

    open spec fn post_exec_post(
        before: &Self,
        after: &Self,
        state_before: &S,
        state_after: &S,
        id: Option<CorpusId>,
        r: Result<(), Error>,
    ) -> bool {
        r is Ok && *after == *before && *state_after == *state_before
    }

    fn mutate(&mut self, state: &mut S, input: &mut I) -> (r: Result<MutationResult, Error>) {
        self.scheduled_mutate(state, input)
    }

    fn post_exec(&mut self, state: &mut S, new_corpus_id: Option<CorpusId>) -> (r: Result<(), Error>) {
        Ok(())
    }
}

impl<I, S: HasRand, MT: MutatorsTuple<I, S>> ScheduledMutator<I, S> for SingleChoiceScheduledMutator<
    MT,
> {
    open spec fn iterations_spec(&self, n: u64) -> bool {
        n == 1
    }

    open spec fn iterations_keep_state(&self) -> bool {
        true
    }

    open spec fn iterations_post(&self, s0: &S, s1: &S, n: u64) -> bool {
        n == 1 && *s1 == *s0
    }

    open spec fn schedule_post(&self, s0: &S, s1: &S, r: MutationId) -> bool {
        draw_post(s0, s1, self.mutations_spec().names_spec().len() as usize, r.0)
    }

    fn iterations(&self, state: &mut S, input: &I) -> (r: u64) {
        1
    }

    fn schedule(&self, state: &mut S, input: &I) -> (r: MutationId) {
        let n = self.mutations.len();
        let ghost s0 = *state;
        let k = state.rand_mut().below(n);
        proof {
            assert(draw_post(&s0, state, n, k));
            assert(n == self.mutations_spec().names_spec().len());
            assert(self.schedule_post(&s0, state, MutationId(k)));
        }
        MutationId(k)
    }
}

/// With an exponent bound of zero, the havoc stack always has two mutations.
pub proof fn law_havoc_zero_pow_stacks_two(n: u64)
    requires
        is_stack_size(n, 0),
    ensures
        n == 2,
{
    let k = choose|k: nat| k <= 0 && n as nat == #[trigger] pow2(k + 1);
    assert(k == 0);
    vstd::arithmetic::power2::lemma2_to64();
}

/// Every havoc stack size is a power of two between `2` and `2^(max_stack_pow + 1)`.
pub proof fn law_havoc_stack_bounds(n: u64, max_stack_pow: usize)
    requires
        is_stack_size(n, max_stack_pow),
    ensures
        2 <= n,
        n as nat <= pow2((max_stack_pow + 1) as nat),
        exists|e: nat| n as nat == #[trigger] pow2(e),
{
    let k = choose|k: nat| k <= max_stack_pow && n as nat == #[trigger] pow2(k + 1);
    vstd::arithmetic::power2::lemma2_to64();
    lemma_pow2_unfold(k + 1);
    vstd::arithmetic::power2::lemma_pow2_pos(k);
    if k < max_stack_pow {
        lemma_pow2_strictly_increases(k + 1, (max_stack_pow + 1) as nat);
    }
    assert(n as nat == pow2(k + 1));
}

/// Applies a random number of mutations of its collection per call: a power of two
/// from 2 up to `2^(max_stack_pow + 1)`, the exponent drawn uniformly.
#[derive(Debug)]
pub struct HavocScheduledMutator<MT> {
    name: String,
    mutations: MT,
    max_stack_pow: StackPow,
}

/// An exponent of the stack size, small enough for the size to fit in a `u64`.
#[derive(Debug)]
struct StackPow {
    pow: usize,
}

impl StackPow {
    #[verifier::type_invariant]
    spec fn inv(&self) -> bool {
        self.pow <= MAX_STACK_POW_LIMIT
    }

    fn new(pow: usize) -> (r: StackPow)
        requires
            pow <= MAX_STACK_POW_LIMIT,
        ensures
            r.pow == pow,
    {
        StackPow { pow }
    }

    fn get(&self) -> (r: usize)
        ensures
            r == self.pow,
            r <= MAX_STACK_POW_LIMIT,
    {
        proof {
            use_type_invariant(self);
        }
        self.pow
    }
}

/// The largest exponent for which the stack size still fits in a `u64`.
pub const MAX_STACK_POW_LIMIT: usize = 62;

impl<MT> HavocScheduledMutator<MT> {
    pub closed spec fn max_stack_pow_spec(&self) -> usize {
        self.max_stack_pow.pow
    }
}

impl<MT: NamedTuple> HavocScheduledMutator<MT> {
    /// Wraps `mutations`, stacking up to `2^8` of them.
    pub fn new(mutations: MT) -> (r: HavocScheduledMutator<MT>)
        ensures
            r.mutations_spec() == mutations,
            r.max_stack_pow_spec() == 7,
            r.name_spec() == "HavocScheduledMutator"@ + "["@ + join_with(mutations.names_spec(), ", "@)
                + "]"@,
    {
        Self::with_max_stack_pow(mutations, 7)
    }

    /// Wraps `mutations`, stacking up to `2^(max_stack_pow + 1)` of them.
    pub fn with_max_stack_pow(mutations: MT, max_stack_pow: usize) -> (r: HavocScheduledMutator<MT>)
        requires
            max_stack_pow <= MAX_STACK_POW_LIMIT,
        ensures
            r.mutations_spec() == mutations,
            r.max_stack_pow_spec() == max_stack_pow,
            r.name_spec() == "HavocScheduledMutator"@ + "["@ + join_with(mutations.names_spec(), ", "@)
                + "]"@,
    {
        let names = mutations.names();
        let name = bracketed_name("HavocScheduledMutator", &names);
        HavocScheduledMutator { name, mutations, max_stack_pow: StackPow::new(max_stack_pow) }
    }
}

impl<MT> Named for HavocScheduledMutator<MT> {
    open spec fn name_known(&self) -> bool {
        true
    }

    closed spec fn name_spec(&self) -> Seq<char> {
        self.name@
    }

    fn name(&self) -> (r: String) {
        self.name.clone()
    }
}

impl<MT> ComposedByMutations for HavocScheduledMutator<MT> {
    type Mutations = MT;

    closed spec fn mutations_spec(&self) -> MT {
        self.mutations
    }

    fn mutations(&self) -> (r: &MT) {
        &self.mutations
    }

    fn mutations_mut(&mut self) -> (r: &mut MT) {
        &mut self.mutations
    }
}

impl<I, S: HasRand, MT: MutatorsTuple<I, S>> Mutator<I, S> for HavocScheduledMutator<MT> {
    open spec fn mutate_post(
        before: &Self,
        after: &Self,
        state_before: &S,
        state_after: &S,
        r: Result<MutationResult, Error>,
    ) -> bool {
        &&& after.mutations_spec().names_spec() == before.mutations_spec().names_spec()
        &&& scheduled_post(
            before.mutations_spec().applied(),
            after.mutations_spec().applied(),
            before.mutations_spec().names_spec().len(),
            |n: u64| (<HavocScheduledMutator<MT> as ScheduledMutator<I, S>>::iterations_spec(before, n) && exists|s1: S| <HavocScheduledMutator<MT> as ScheduledMutator<I, S>>::iterations_post(before, state_before, &s1, n)),
            r,
        )
    }

    open spec fn post_exec_post(
        before: &Self,
        after: &Self,
        state_before: &S,
        state_after: &S,
        id: Option<CorpusId>,
        r: Result<(), Error>,
    ) -> bool {
        r is Ok && *after == *before && *state_after == *state_before
    }

    fn mutate(&mut self, state: &mut S, input: &mut I) -> (r: Result<MutationResult, Error>) {
        self.scheduled_mutate(state, input)
    }

    fn post_exec(&mut self, state: &mut S, new_corpus_id: Option<CorpusId>) -> (r: Result<(), Error>) {
        Ok(())
    }
}

/// Whether `n` is `2^(k + 1)` for some `k` up to `max_stack_pow`.
pub open spec fn is_stack_size(n: u64, max_stack_pow: usize) -> bool {
    exists|k: nat| k <= max_stack_pow && n as nat == #[trigger] pow2(k + 1)
}

impl<I, S: HasRand, MT: MutatorsTuple<I, S>> ScheduledMutator<I, S> for HavocScheduledMutator<MT> {
    open spec fn iterations_spec(&self, n: u64) -> bool {
        is_stack_size(n, self.max_stack_pow_spec())
    }

    open spec fn iterations_keep_state(&self) -> bool {
        false
    }

    open spec fn iterations_post(&self, s0: &S, s1: &S, n: u64) -> bool {
        exists|k: usize|
            draw_post(s0, s1, (self.max_stack_pow_spec() + 1) as usize, k) && n as nat == #[trigger] pow2(
                (k + 1) as nat,
            )
    }

    open spec fn schedule_post(&self, s0: &S, s1: &S, r: MutationId) -> bool {
        draw_post(s0, s1, self.mutations_spec().names_spec().len() as usize, r.0)
    }

    fn iterations(&self, state: &mut S, input: &I) -> (r: u64) {
        let max = self.max_stack_pow.get();
        let k = state.rand_mut().below(max + 1);
        let n = stack_size(k);
        proof {
            assert(n as nat == pow2((k + 1) as nat));
            assert(!self.iterations_keep_state());
        }
        n
    }

    fn schedule(&self, state: &mut S, input: &I) -> (r: MutationId) {
        let n = self.mutations.len();
        let ghost s0 = *state;
        let k = state.rand_mut().below(n);
        proof {
            assert(draw_post(&s0, state, n, k));
            assert(n == self.mutations_spec().names_spec().len());
            assert(self.schedule_post(&s0, state, MutationId(k)));
        }
        MutationId(k)
    }
}

/// `2^(k + 1)`.
pub fn stack_size(k: usize) -> (r: u64)
    requires
        k <= MAX_STACK_POW_LIMIT,
    ensures
        r as nat == pow2((k + 1) as nat),
{
    let mut n: u64 = 2;
    let mut j: usize = 0;
    proof {
        lemma_pow2_unfold(1);
        assert(pow2(0) == 1) by {
            vstd::arithmetic::power2::lemma2_to64();
        }
    }
    while j < k
        invariant
            j <= k <= MAX_STACK_POW_LIMIT,
            n as nat == pow2((j + 1) as nat),
        decreases k - j,
    {
        proof {
            lemma_pow2_unfold((j + 2) as nat);
            if j + 2 < 63 {
                lemma_pow2_strictly_increases((j + 2) as nat, 63);
            }
            lemma2_to64_rest();
        }
        n = n * 2;
        j += 1;
    }
    n
}

/// Wraps a scheduled mutator and logs the mutations it applies; the log of an input
/// that joins the corpus is attached to its entry.
#[derive(Debug)]
pub struct LoggerScheduledMutator<SM> {
    name: String,
    scheduled: SM,
    mutation_log: Vec<MutationId>,
}

impl<SM> LoggerScheduledMutator<SM> {
    pub closed spec fn inner(&self) -> SM {
        self.scheduled
    }

    /// The indices of the mutations applied in the last call, in order.
    pub closed spec fn log(&self) -> Seq<usize> {
        self.mutation_log@.map_values(|m: MutationId| m.0)
    }
}

impl<SM: Named> LoggerScheduledMutator<SM> {
    /// Wraps `scheduled`, with an empty log; the name is that of `scheduled`, in
    /// brackets after `LoggerScheduledMutator`.
    pub fn new(scheduled: SM) -> (r: LoggerScheduledMutator<SM>)
        ensures
            r.inner() == scheduled,
            r.log() == Seq::<usize>::empty(),
            exists|inner_name: Seq<char>|
                r.name_spec() == "LoggerScheduledMutator["@ + inner_name + "]"@,
            scheduled.name_known() ==> r.name_spec() == "LoggerScheduledMutator["@
                + scheduled.name_spec() + "]"@,
    {
        let inner_name = scheduled.name();
        let name = String::from_str("LoggerScheduledMutator[").concat(inner_name.as_str()).concat(
            "]",
        );
        let r = LoggerScheduledMutator { name, scheduled, mutation_log: Vec::new() };
        assert(r.log() =~= Seq::<usize>::empty());
        assert(r.name_spec() == "LoggerScheduledMutator["@ + inner_name@ + "]"@);
        r
    }
}

impl<SM> Named for LoggerScheduledMutator<SM> {
    open spec fn name_known(&self) -> bool {
        true
    }

    closed spec fn name_spec(&self) -> Seq<char> {
        self.name@
    }

    fn name(&self) -> (r: String) {
        self.name.clone()
    }
}

impl<SM: ComposedByMutations> ComposedByMutations for LoggerScheduledMutator<SM> {
    type Mutations = SM::Mutations;

    open spec fn mutations_spec(&self) -> SM::Mutations {
        self.inner().mutations_spec()
    }

    fn mutations(&self) -> (r: &SM::Mutations) {
        self.scheduled.mutations()
    }

    fn mutations_mut(&mut self) -> (r: &mut SM::Mutations) {
        self.scheduled.mutations_mut()
    }
}

/// The names of the mutations `log` picked out of `names`, the last applied first.
pub open spec fn logged_names(log: Seq<usize>, names: Seq<Seq<char>>) -> Seq<Seq<char>> {
    log.reverse().map_values(|i: usize| names[i as int])
}

impl<SM> LoggerScheduledMutator<SM> {
    /// Applies a stack of mutations as the wrapped mutator does, and logs each one. The
    /// log is emptied first, so it holds this call's mutations alone.
    pub fn logged_mutate<I, S>(&mut self, state: &mut S, input: &mut I) -> (r: Result<
        MutationResult,
        Error,
    >) where SM: ScheduledMutator<I, S>, SM::Mutations: MutatorsTuple<I, S>
        ensures
            final(self).name_spec() == old(self).name_spec(),
            final(self).mutations_spec().names_spec() == old(self).mutations_spec().names_spec(),
            scheduled_post(
                old(self).mutations_spec().applied(),
                final(self).mutations_spec().applied(),
                old(self).mutations_spec().names_spec().len(),
                |n: u64| (old(self).inner().iterations_spec(n) && exists|s1: S| old(self).inner().iterations_post(old(state), &s1, n)),
                r,
            ),
            final(self).log() == final(self).mutations_spec().applied().skip(
                old(self).mutations_spec().applied().len() as int,
            ).map_values(|a: Application| a.0),
    {
        self.mutation_log.clear();
        let ghost a0 = self.mutations_spec().applied();
        proof {
            assert(self.log() =~= Seq::<usize>::empty());
            assert(a0.skip(a0.len() as int).map_values(|a: Application| a.0) =~= Seq::<usize>::empty());
        }
        if self.scheduled.mutations().len() == 0 {
            proof {
                assert(a0.take(a0.len() as int) =~= a0);
            }
            return Err(Error::illegal_state(String::from_str("no mutations to schedule")));
        }
        let ghost names = self.mutations_spec().names_spec();
        let ghost start = self.scheduled;
        let mut r = MutationResult::Skipped;
        let num = self.scheduled.iterations(state, input);
        let ghost s_it = *state;
        let mut i: u64 = 0;
        proof {
            assert(self.mutations_spec().applied().skip(a0.len() as int) =~= Seq::<Application>::empty());
        }
        while i < num
            invariant
                i <= num,
                start.iterations_spec(num),
                start.iterations_post(old(state), &s_it, num),
                start == old(self).inner(),
                names == old(self).mutations_spec().names_spec(),
                a0 == old(self).mutations_spec().applied(),
                self.name_spec() == old(self).name_spec(),
                self.mutations_spec().names_spec() == names,
                names.len() > 0,
                self.mutations_spec().applied().len() == a0.len() + i,
                self.mutations_spec().applied().take(a0.len() as int) == a0,
                all_ok(self.mutations_spec().applied().skip(a0.len() as int)),
                r == stacked_result(self.mutations_spec().applied().skip(a0.len() as int)),
                self.log() == self.mutations_spec().applied().skip(a0.len() as int).map_values(
                    |a: Application| a.0,
                ),
                forall|k: int|
                    a0.len() <= k < self.mutations_spec().applied().len() ==> (
                    #[trigger] self.mutations_spec().applied()[k]).0 < names.len(),
            decreases num - i,
        {
            let idx = self.scheduled.schedule(state, input);
            let ghost before = self.mutations_spec().applied();
            let ghost log_before = self.log();
            self.mutation_log.push(idx);
            let res = self.scheduled.mutations_mut().get_and_mutate(idx.0, state, input);
            let ghost after = self.mutations_spec().applied();
            proof {
                assert(self.mutations_spec().names_spec() == names);
                assert(after == before.push((idx.0, res)));
                assert(after.take(a0.len() as int) =~= before.take(a0.len() as int));
                assert(after.skip(a0.len() as int) =~= before.skip(a0.len() as int).push((idx.0, res)));
                assert(self.log() =~= log_before.push(idx.0));
                assert(self.log() =~= after.skip(a0.len() as int).map_values(|a: Application| a.0));
            }
            match res {
                Ok(o) => {
                    proof {
                        lemma_stacked_push(before.skip(a0.len() as int), idx.0, o);
                    }
                    if o == MutationResult::Mutated {
                        r = MutationResult::Mutated;
                    }
                },
                Err(e) => {
                    proof {
                        let new = after.skip(a0.len() as int);
                        assert forall|k: int| 0 <= k < new.len() - 1 implies (#[trigger] new[k]).1 is Ok by {
                            assert(new[k] == before.skip(a0.len() as int)[k]);
                        }
                        assert(stack_outcome(new, num as nat, Err(e)));
                        assert(start.iterations_post(old(state), &s_it, num));
                        assert((start.iterations_spec(num) && exists|s1: S| start.iterations_post(old(state), &s1, num)));
                    }
                    return Err(e);
                },
            }
            i += 1;
        }
        proof {
            assert(start.iterations_post(old(state), &s_it, num));
                        assert((start.iterations_spec(num) && exists|s1: S| start.iterations_post(old(state), &s1, num)));
            assert(stack_outcome(self.mutations_spec().applied().skip(a0.len() as int), num as nat, Ok(r)));
        }
        Ok(r)
    }

    /// Once the input has been run: where it joined the corpus as `corpus_id`, attaches
    /// the names of the logged mutations, the last applied first, to that entry. The
    /// log is cleared whatever happens.
    pub fn log_post_exec<I, S: HasCorpus>(&mut self, state: &mut S, corpus_id: Option<CorpusId>) -> (r: Result<(), Error>) where
        SM: ScheduledMutator<I, S>,
        SM::Mutations: MutatorsTuple<I, S>,

        ensures
            final(self).log() == Seq::<usize>::empty(),
            final(self).inner() == old(self).inner(),
            final(self).name_spec() == old(self).name_spec(),
            corpus_id is None ==> r is Ok && *final(state) == *old(state),
            r is Err ==> forall|other: CorpusId|
                #[trigger] final(state).log_of(other) == old(state).log_of(other),
            forall|other: CorpusId|
                Some(other) != corpus_id ==> #[trigger] final(state).log_of(other) == old(
                    state,
                ).log_of(other),
            corpus_id is Some ==> {
                let id = corpus_id.unwrap();
                let names = old(self).mutations_spec().names_spec();
                let logged_ok = forall|k: int|
                    0 <= k < old(self).log().len() ==> #[trigger] old(self).log()[k] < names.len();
                &&& (r is Ok <==> (logged_ok && id.0 < old(state).corpus_len()))
                &&& r is Ok ==> final(state).log_of(id) == Some(
                    logged_names(old(self).log(), names),
                )
            },
    {
        let r = match corpus_id {
            None => Ok(()),
            Some(id) => self.attach_names(state, id),
        };
        self.mutation_log.clear();
        proof {
            assert(self.log() =~= Seq::<usize>::empty());
        }
        r
    }

    fn attach_names<I, S: HasCorpus>(&mut self, state: &mut S, id: CorpusId) -> (r: Result<(), Error>) where
        SM: ScheduledMutator<I, S>,
        SM::Mutations: MutatorsTuple<I, S>,

        ensures
            final(self).inner() == old(self).inner(),
            final(self).name_spec() == old(self).name_spec(),
            r is Err ==> forall|other: CorpusId|
                #[trigger] final(state).log_of(other) == old(state).log_of(other),
            forall|other: CorpusId|
                other != id ==> #[trigger] final(state).log_of(other) == old(state).log_of(other),
            ({
                let names = old(self).mutations_spec().names_spec();
                let logged_ok = forall|k: int|
                    0 <= k < old(self).log().len() ==> #[trigger] old(self).log()[k] < names.len();
                &&& (r is Ok <==> (logged_ok && id.0 < old(state).corpus_len()))
                &&& r is Ok ==> final(state).log_of(id) == Some(
                    logged_names(old(self).log(), names),
                )
            }),
    {
        let ghost names = self.mutations_spec().names_spec();
        let ghost log0 = self.log();
        let mut list: Vec<String> = Vec::new();
        let mut j: usize = self.mutation_log.len();
        while j > 0
            invariant
                j <= self.mutation_log@.len(),
                self.mutation_log@.len() == log0.len(),
                self.log() == log0,
                self.inner() == old(self).inner(),
                self.name_spec() == old(self).name_spec(),
                self.mutations_spec().names_spec() == names,
                forall|k: int| j <= k < log0.len() ==> #[trigger] log0[k] < names.len(),
                list@.len() == log0.len() - j,
                forall|k: int|
                    0 <= k < list@.len() ==> #[trigger] list@[k]@ == names[log0[log0.len() - 1
                        - k] as int],
            decreases j,
        {
            let idx = self.mutation_log[j - 1];
            proof {
                assert(log0[j - 1] == idx.0);
            }
            match self.scheduled.mutations().name(idx.0) {
                Some(n) => {
                    list.push(n);
                },
                None => {
                    proof {
                        assert(!(j - 1 < log0.len() && log0[j - 1] < names.len()));
                    }
                    return Err(Error::illegal_state(String::from_str("logged mutation has no name")));
                },
            }
            j -= 1;
        }
        let meta = LogMutationMetadata::new(list);
        proof {
            assert(meta@ =~= logged_names(log0, names));
        }
        state.attach_log(id, meta)
    }
}

/// The log kept for one call lists the mutations that the call applied, in order, and
/// the names attached to an accepted input are theirs, the last applied first: as many
/// names as applications, each the name of the mutation applied at that place.
pub proof fn law_log_names_applied(
    a0: Seq<Application>,
    a1: Seq<Application>,
    log: Seq<usize>,
    names: Seq<Seq<char>>,
)
    requires
        a1.len() >= a0.len(),
        log == a1.skip(a0.len() as int).map_values(|a: Application| a.0),
    ensures
        logged_names(log, names).len() == a1.len() - a0.len(),
        forall|k: int|
            0 <= k < a1.len() - a0.len() ==> #[trigger] logged_names(log, names)[k]
                == names[a1[a1.len() - 1 - k].0 as int],
{
    assert forall|k: int| 0 <= k < a1.len() - a0.len() implies #[trigger] logged_names(
        log,
        names,
    )[k] == names[a1[a1.len() - 1 - k].0 as int] by {
        assert(log.reverse()[k] == log[log.len() - 1 - k]);
        assert(log[log.len() - 1 - k] == a1.skip(a0.len() as int)[log.len() - 1 - k].0);
    }
}

impl<I, S: HasRand + HasCorpus, SM: ScheduledMutator<I, S>> Mutator<I, S> for LoggerScheduledMutator<
    SM,
> where SM::Mutations: MutatorsTuple<I, S> {
    open spec fn mutate_post(
        before: &Self,
        after: &Self,
        state_before: &S,
        state_after: &S,
        r: Result<MutationResult, Error>,
    ) -> bool {
        &&& after.name_spec() == before.name_spec()
        &&& after.mutations_spec().names_spec() == before.mutations_spec().names_spec()
        &&& scheduled_post(
            before.mutations_spec().applied(),
            after.mutations_spec().applied(),
            before.mutations_spec().names_spec().len(),
            |n: u64| (before.inner().iterations_spec(n) && exists|s1: S| before.inner().iterations_post(state_before, &s1, n)),
            r,
        )
        &&& after.log() == after.mutations_spec().applied().skip(
            before.mutations_spec().applied().len() as int,
        ).map_values(|a: Application| a.0)
    }

    open spec fn post_exec_post(
        before: &Self,
        after: &Self,
        state_before: &S,
        state_after: &S,
        id: Option<CorpusId>,
        r: Result<(), Error>,
    ) -> bool {
        &&& after.log() == Seq::<usize>::empty()
        &&& after.inner() == before.inner()
        &&& after.name_spec() == before.name_spec()
        &&& id is None ==> r is Ok && *state_after == *state_before
        &&& r is Err ==> forall|other: CorpusId|
            #[trigger] state_after.log_of(other) == state_before.log_of(other)
        &&& forall|other: CorpusId|
            Some(other) != id ==> #[trigger] state_after.log_of(other) == state_before.log_of(other)
        &&& id is Some ==> {
            let names = before.mutations_spec().names_spec();
            let logged_ok = forall|k: int|
                0 <= k < before.log().len() ==> #[trigger] before.log()[k] < names.len();
            &&& (r is Ok <==> (logged_ok && id.unwrap().0 < state_before.corpus_len()))
            &&& r is Ok ==> state_after.log_of(id.unwrap()) == Some(logged_names(before.log(), names))
        }
    }

    fn mutate(&mut self, state: &mut S, input: &mut I) -> (r: Result<MutationResult, Error>) {
        self.logged_mutate(state, input)
    }

    fn post_exec(&mut self, state: &mut S, corpus_id: Option<CorpusId>) -> (r: Result<(), Error>) {
        self.log_post_exec(state, corpus_id)
    }
}

impl<I, S: HasRand + HasCorpus, SM: ScheduledMutator<I, S>> ScheduledMutator<
    I,
    S,
> for LoggerScheduledMutator<SM> where SM::Mutations: MutatorsTuple<I, S> {
    open spec fn iterations_spec(&self, n: u64) -> bool {
        self.inner().iterations_spec(n)
    }

    open spec fn iterations_keep_state(&self) -> bool {
        self.inner().iterations_keep_state()
    }

    open spec fn iterations_post(&self, s0: &S, s1: &S, n: u64) -> bool {
        self.inner().iterations_post(s0, s1, n)
    }

    open spec fn schedule_post(&self, s0: &S, s1: &S, r: MutationId) -> bool {
        self.inner().schedule_post(s0, s1, r)
    }

    fn iterations(&self, state: &mut S, input: &I) -> (r: u64) {
        self.scheduled.iterations(state, input)
    }

    fn schedule(&self, state: &mut S, input: &I) -> (r: MutationId) {
        self.scheduled.schedule(state, input)
    }

    fn scheduled_mutate(&mut self, state: &mut S, input: &mut I) -> (r: Result<
        MutationResult,
        Error,
    >) {
        let r = self.logged_mutate(state, input);
        proof {
            let f = |n: u64| (old(self).iterations_spec(n) && exists|s1: S| old(self).iterations_post(old(state), &s1, n));
            let g = |n: u64| (old(self).inner().iterations_spec(n) && exists|s1: S| old(self).inner().iterations_post(old(state), &s1, n));
            assert forall|n: u64| #[trigger] f(n) == g(n) by {
                if exists|s1: S| old(self).iterations_post(old(state), &s1, n) {
                    let w = choose|s1: S| old(self).iterations_post(old(state), &s1, n);
                    assert(old(self).inner().iterations_post(old(state), &w, n));
                }
                if exists|s1: S| old(self).inner().iterations_post(old(state), &s1, n) {
                    let w = choose|s1: S| old(self).inner().iterations_post(old(state), &s1, n);
                    assert(old(self).iterations_post(old(state), &w, n));
                }
            }
            assert(f =~= g);
        }
        r
    }
}

} // verus!
