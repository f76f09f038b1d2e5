use vstd::prelude::*;
use std::marker::PhantomData;
use crate::agent_ops::PromptOp;
use crate::completion::Prompt;

verus! {

/// A step of a pipeline: it takes an input and gives an output.
pub trait Op: Sized {
    type Input;
    type Output;

    /// The inputs on which the step may be run.
    spec fn accepts(&self, input: Self::Input) -> bool;

    /// The outputs that the step may give for an input.
    spec fn produces(&self, input: Self::Input, output: Self::Output) -> bool;

    /// Runs the step on one input.
    fn call(&self, input: Self::Input) -> (output: Self::Output)
        requires
            self.accepts(input),
        ensures
            self.produces(input, output),
    ;

    /// Runs the step on each input and gives the outputs in the order of the inputs. `n`, the
    /// number of runs that may be under way at once, must be positive; here the runs happen one
    /// after the other.
    fn batch_call(&self, n: usize, inputs: Vec<Self::Input>) -> (outputs: Vec<Self::Output>)
        requires
            n > 0,
            forall|i: int| 0 <= i < inputs@.len() ==> self.accepts(#[trigger] inputs@[i]),
        ensures
            outputs@.len() == inputs@.len(),
            forall|i: int| 0 <= i < inputs@.len() ==> self.produces(#[trigger] inputs@[i], outputs@[i]),
    {
        let mut outputs: Vec<Self::Output> = Vec::new();
        let mut rest = inputs;
        let ghost all = inputs@;
        while rest.len() > 0
            invariant
                outputs@.len() + rest@.len() == all.len(),
                forall|i: int| 0 <= i < outputs@.len() ==> self.produces(#[trigger] all[i], outputs@[i]),
                forall|i: int| 0 <= i < rest@.len() ==> rest@[i] == all[outputs@.len() + i],
                forall|i: int| 0 <= i < all.len() ==> self.accepts(#[trigger] all[i]),
            decreases rest@.len(),
        {
            let input = rest.remove(0);
            assert(input == all[outputs@.len() as int]);
            let output = self.call(input);
            outputs.push(output);
        }
        outputs
    }

    /// Follows this step by a function applied to its output.
    fn map<F, Output>(self, f: F) -> (s: Sequential<Self, MapFn<F, Self::Output>>)
        where F: Fn(Self::Output) -> Output,
        ensures
            s.first() == self,
            s.second().func() == f,
    {
        Sequential::new(self, MapFn::new(f))
    }

    /// Follows this step by a function applied to its output; the function gives
    /// the result that the next step receives.
    fn then<F, Output>(self, f: F) -> (s: Sequential<Self, Then<F, Self::Output>>)
        where F: Fn(Self::Output) -> Output,
        ensures
            s.first() == self,
            s.second().func() == f,
    {
        Sequential::new(self, Then::new(f))
    }
}

/// A step that applies a function to its input.
pub struct MapFn<F, Input> {
    f: F,
    _input: PhantomData<Input>,
}

impl<F, Input> MapFn<F, Input> {
    /// The function that the step applies.
    pub closed spec fn func(&self) -> F {
        self.f
    }

    pub fn new<Output>(f: F) -> (m: Self)
        where F: Fn(Input) -> Output,
        ensures
            m.func() == f,
    {
        MapFn { f, _input: PhantomData }
    }

    /// Applies the function to `input`. Callers that hold a concrete function get its
    /// contract here; through the `Op` trait, Verus cannot see that the function meets the
    /// impl's `Fn` bound.
    pub fn call<Output>(&self, input: Input) -> (output: Output)
        where F: Fn(Input) -> Output,
        requires
            call_requires(self.func(), (input,)),
        ensures
            call_ensures(self.func(), (input,), output),
    {
        (self.f)(input)
    }
}

impl<F, Input, Output> Op for MapFn<F, Input> where F: Fn(Input) -> Output {
    type Input = Input;
    type Output = Output;

    open spec fn accepts(&self, input: Input) -> bool {
        call_requires(self.func(), (input,))
    }

    open spec fn produces(&self, input: Input, output: Output) -> bool {
        call_ensures(self.func(), (input,), output)
    }

    fn call(&self, input: Input) -> (output: Output) {
        (self.f)(input)
    }
}

/// A step that applies a function to its input and passes on what the function gives; it is
/// the step that a pipeline builds for `then`, beside `MapFn` for `map`.
pub struct Then<F, Input> {
    f: F,
    _input: PhantomData<Input>,
}

impl<F, Input> Then<F, Input> {
    /// The function that the step applies.
    pub closed spec fn func(&self) -> F {
        self.f
    }

    pub fn new<Output>(f: F) -> (t: Self)
        where F: Fn(Input) -> Output,
        ensures
            t.func() == f,
    {
        Then { f, _input: PhantomData }
    }

    /// Applies the function to `input`. Callers that hold a concrete function get its
    /// contract here; through the `Op` trait, Verus cannot see that the function meets the
    /// impl's `Fn` bound.
    pub fn call<Output>(&self, input: Input) -> (output: Output)
        where F: Fn(Input) -> Output,
        requires
            call_requires(self.func(), (input,)),
        ensures
            call_ensures(self.func(), (input,), output),
    {
        (self.f)(input)
    }
}

impl<F, Input, Output> Op for Then<F, Input> where F: Fn(Input) -> Output {
    type Input = Input;
    type Output = Output;

    open spec fn accepts(&self, input: Input) -> bool {
        call_requires(self.func(), (input,))
    }

    open spec fn produces(&self, input: Input, output: Output) -> bool {
        call_ensures(self.func(), (input,), output)
    }

    fn call(&self, input: Input) -> (output: Output) {
        (self.f)(input)
    }
}

/// A step that gives back its input unchanged.
pub struct Passthrough<T> {
    _t: PhantomData<T>,
}

impl<T> Passthrough<T> {
    pub fn new() -> (p: Self) {
        Passthrough { _t: PhantomData }
    }
}

impl<T> Op for Passthrough<T> {
    type Input = T;
    type Output = T;

    open spec fn accepts(&self, input: T) -> bool {
        true
    }

    open spec fn produces(&self, input: T, output: T) -> bool {
        output == input
    }

    fn call(&self, input: T) -> (output: T) {
        input
    }
}

/// Two steps run one after the other: the output of the first is the input of the second.
pub struct Sequential<Op1, Op2> {
    prev: Op1,
    op: Op2,
}

impl<Op1, Op2> Sequential<Op1, Op2> {
    /// The step that runs first.
    pub closed spec fn first(&self) -> Op1 {
        self.prev
    }

    /// The step that runs second.
    pub closed spec fn second(&self) -> Op2 {
        self.op
    }

    pub fn new(prev: Op1, op: Op2) -> (s: Self)
        ensures
            s.first() == prev,
            s.second() == op,
    {
        Sequential { prev, op }
    }
}

impl<Op1, Op2> Op for Sequential<Op1, Op2> where Op1: Op, Op2: Op<Input = Op1::Output> {
    type Input = Op1::Input;
    type Output = Op2::Output;

    open spec fn accepts(&self, input: Op1::Input) -> bool {
        &&& self.first().accepts(input)
        &&& forall|mid: Op1::Output| #[trigger] self.first().produces(input, mid)
                ==> self.second().accepts(mid)
    }

    open spec fn produces(&self, input: Op1::Input, output: Op2::Output) -> bool {
        exists|mid: Op1::Output| #[trigger] self.first().produces(input, mid)
            && self.second().produces(mid, output)
    }

    fn call(&self, input: Op1::Input) -> (output: Op2::Output) {
        let mid = self.prev.call(input);
        self.op.call(mid)
    }
}

impl<F, Input> MapFn<F, Input> where F: Fn(Input) -> String {
    /// Follows this step by a prompt to `agent`: the output of this step is the prompt.
    pub fn prompt<P: Prompt>(self, agent: P) -> (s: Sequential<Self, PromptOp<P>>)
        ensures
            s.first() == self,
            s.second().agent() == agent,
    {
        Sequential::new(self, PromptOp::new(agent))
    }
}

impl<F, Input> Then<F, Input> where F: Fn(Input) -> String {
    /// Follows this step by a prompt to `agent`: the output of this step is the prompt.
    pub fn prompt<P: Prompt>(self, agent: P) -> (s: Sequential<Self, PromptOp<P>>)
        ensures
            s.first() == self,
            s.second().agent() == agent,
    {
        Sequential::new(self, PromptOp::new(agent))
    }
}

impl<Op1, Op2> Sequential<Op1, Op2> where Op1: Op, Op2: Op<Input = Op1::Output, Output = String> {
    /// Follows this step by a prompt to `agent`: the output of this step is the prompt.
    pub fn prompt<P: Prompt>(self, agent: P) -> (s: Sequential<Self, PromptOp<P>>)
        ensures
            s.first() == self,
            s.second().agent() == agent,
    {
        Sequential::new(self, PromptOp::new(agent))
    }
}

/// A step that applies `f` to its input.
pub fn map<F, Input, Output>(f: F) -> (m: MapFn<F, Input>)
    where F: Fn(Input) -> Output,
    ensures
        m.func() == f,
{
    MapFn::new(f)
}

/// A step that applies `f` to its input and passes on what `f` gives.
pub fn then<F, Input, Output>(f: F) -> (t: Then<F, Input>)
    where F: Fn(Input) -> Output,
    ensures
        t.func() == f,
{
    Then::new(f)
}

/// The step `first` followed by the step `next`.
pub fn chain<A, B>(first: A, next: B) -> (s: Sequential<A, B>)
    where A: Op, B: Op<Input = A::Output>,
    ensures
        s.first() == first,
        s.second() == next,
{
    Sequential::new(first, next)
}

/// A step that gives back its input unchanged.
pub fn passthrough<T>() -> (p: Passthrough<T>) {
    Passthrough::new()
}

/// Running `a`, `b` and `c` one after the other gives the same outputs, and accepts the same
/// inputs, however the three steps are grouped.
pub proof fn law_sequential_assoc<A, B, C>(
    left: Sequential<Sequential<A, B>, C>,
    right: Sequential<A, Sequential<B, C>>,
    input: A::Input,
    output: C::Output,
)
    where A: Op, B: Op<Input = A::Output>, C: Op<Input = B::Output>,
    requires
        left.first().first() == right.first(),
        left.first().second() == right.second().first(),
        left.second() == right.second().second(),
    ensures
        left.accepts(input) <==> right.accepts(input),
        left.produces(input, output) <==> right.produces(input, output),
{
    let a = right.first();
    let b = right.second().first();
    let c = right.second().second();
    let ab = left.first();
    let bc = right.second();
    if left.accepts(input) {
        assert forall|v: A::Output| #[trigger] a.produces(input, v) implies bc.accepts(v) by {
            assert forall|w: B::Output| #[trigger] b.produces(v, w) implies c.accepts(w) by {
                assert(ab.produces(input, w));
            }
        }
    }
    if right.accepts(input) {
        assert forall|w: B::Output| #[trigger] ab.produces(input, w) implies c.accepts(w) by {
            let v = choose|v: A::Output| #[trigger] a.produces(input, v) && b.produces(v, w);
            assert(bc.accepts(v));
        }
        assert forall|v: A::Output| #[trigger] a.produces(input, v) implies b.accepts(v) by {
            assert(bc.accepts(v));
        }
    }
    if left.produces(input, output) {
        let w = choose|w: B::Output| #[trigger] ab.produces(input, w) && c.produces(w, output);
        let v = choose|v: A::Output| #[trigger] a.produces(input, v) && b.produces(v, w);
        assert(bc.produces(v, output));
    }
    if right.produces(input, output) {
        let v = choose|v: A::Output| #[trigger] a.produces(input, v) && bc.produces(v, output);
        let w = choose|w: B::Output| #[trigger] b.produces(v, w) && c.produces(w, output);
        assert(ab.produces(input, w));
    }
}

/// A step that gives back its input, placed before or after a step `a`, changes nothing: the
/// outputs and the accepted inputs are those of `a` alone.
pub proof fn law_passthrough_identity<A>(
    before: Sequential<Passthrough<A::Input>, A>,
    after: Sequential<A, Passthrough<A::Output>>,
    input: A::Input,
    output: A::Output,
)
    where A: Op,
    ensures
        before.accepts(input) <==> before.second().accepts(input),
        after.accepts(input) <==> after.first().accepts(input),
        before.produces(input, output) <==> before.second().produces(input, output),
        after.produces(input, output) <==> after.first().produces(input, output),
{
    if before.second().produces(input, output) {
        assert(before.first().produces(input, input));
    }
    if after.first().produces(input, output) {
        assert(after.second().produces(output, output));
    }
    if before.second().accepts(input) {
        assert(before.first().produces(input, input));
    }
}

} // verus!
