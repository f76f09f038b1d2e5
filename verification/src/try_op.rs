use vstd::prelude::*;
use crate::op::{MapFn, Op, Passthrough, Sequential, Then};

verus! {

/// A step whose output is a `Result`: it either succeeds with a value or fails with an error.
pub trait TryOp: Sized {
    type Input;
    type Output;
    type Error;

    /// The inputs on which the step may be run.
    spec fn try_accepts(&self, input: Self::Input) -> bool;

    /// The results that the step may give for an input.
    spec fn try_produces(&self, input: Self::Input, result: Result<Self::Output, Self::Error>) -> bool;

    /// Runs the step on one input.
    fn try_call(&self, input: Self::Input) -> (result: Result<Self::Output, Self::Error>)
        requires
            self.try_accepts(input),
        ensures
            self.try_produces(input, result),
    ;

    /// Runs the step on each input. When every run succeeds the values come back in the order of
    /// the inputs; otherwise the error of the first input, in their order, that failed comes
    /// back, after the inputs before it succeeded. `n`, the number of runs that may be under way
    /// at once, must be positive; here the runs happen one after the other.
    fn try_batch_call(&self, n: usize, inputs: Vec<Self::Input>) -> (result: Result<Vec<Self::Output>, Self::Error>)
        requires
            n > 0,
            forall|i: int| 0 <= i < inputs@.len() ==> self.try_accepts(#[trigger] inputs@[i]),
        ensures
            result matches Ok(values) ==> {
                &&& values@.len() == inputs@.len()
                &&& forall|i: int| 0 <= i < inputs@.len()
                        ==> self.try_produces(#[trigger] inputs@[i], Ok(values@[i]))
            },
            result matches Err(e) ==> exists|done: Seq<Self::Output>| #![trigger done.len()] {
                &&& done.len() < inputs@.len()
                &&& forall|j: int| 0 <= j < done.len()
                        ==> self.try_produces(#[trigger] inputs@[j], Ok(done[j]))
                &&& self.try_produces(inputs@[done.len() as int], Err(e))
            },
    {
        let mut values: Vec<Self::Output> = Vec::new();
        let ghost all = inputs@;
        let mut rest = inputs;
        #[verifier::loop_isolation(false)]
        while rest.len() > 0
            invariant
                values@.len() + rest@.len() == all.len(),
                forall|i: int| 0 <= i < values@.len() ==> self.try_produces(#[trigger] all[i], Ok(values@[i])),
                forall|i: int| 0 <= i < rest@.len() ==> rest@[i] == all[values@.len() + i],
                forall|i: int| 0 <= i < all.len() ==> self.try_accepts(#[trigger] all[i]),
            decreases rest@.len(),
        {
            let input = rest.remove(0);
            assert(input == all[values@.len() as int]);
            match self.try_call(input) {
                Ok(v) => values.push(v),
                Err(e) => {
                    let ghost done = values@;
                    assert(self.try_produces(inputs@[done.len() as int], Err(e)));
                    assert(forall|j: int| 0 <= j < done.len()
                        ==> self.try_produces(#[trigger] inputs@[j], Ok(done[j])));
                    return Err(e);
                },
            }
        }
        Ok(values)
    }

    /// Applies `f` to the value when this step succeeds.
    fn map_ok<F, Output>(self, f: F) -> (m: MapOk<Self, MapFn<F, Self::Output>>)
        where F: Fn(Self::Output) -> Output,
        ensures
            m.prev() == self,
            m.op().func() == f,
    {
        MapOk::new(self, MapFn::new(f))
    }

    /// Applies `f` to the error when this step fails.
    fn map_err<F, E>(self, f: F) -> (m: MapErr<Self, MapFn<F, Self::Error>>)
        where F: Fn(Self::Error) -> E,
        ensures
            m.prev() == self,
            m.op().func() == f,
    {
        MapErr::new(self, MapFn::new(f))
    }

    /// Runs the fallible function `f` on the value when this step succeeds.
    fn and_then<F, Output>(self, f: F) -> (a: AndThen<Self, Then<F, Self::Output>>)
        where F: Fn(Self::Output) -> Result<Output, Self::Error>,
        ensures
            a.prev() == self,
            a.op().func() == f,
    {
        AndThen::new(self, Then::new(f))
    }

    /// Runs the fallible function `f` on the error when this step fails.
    fn or_else<F, E>(self, f: F) -> (o: OrElse<Self, Then<F, Self::Error>>)
        where F: Fn(Self::Error) -> Result<Self::Output, E>,
        ensures
            o.prev() == self,
            o.op().func() == f,
    {
        OrElse::new(self, Then::new(f))
    }

    /// Runs the step `op` on the value when this step succeeds.
    fn chain_ok<Next: Op<Input = Self::Output>>(self, op: Next) -> (s: TrySequential<Self, Next>)
        ensures
            s.prev() == self,
            s.op() == op,
    {
        TrySequential::new(self, op)
    }
}

impl<O, T, E> TryOp for O where O: Op<Output = Result<T, E>> {
    type Input = O::Input;
    type Output = T;
    type Error = E;

    open spec fn try_accepts(&self, input: O::Input) -> bool {
        self.accepts(input)
    }

    open spec fn try_produces(&self, input: O::Input, result: Result<T, E>) -> bool {
        self.produces(input, result)
    }

    fn try_call(&self, input: O::Input) -> (result: Result<T, E>) {
        self.call(input)
    }
}

/// A step that runs `prev` and, when it succeeds, applies `op` to the value; errors pass
/// through unchanged.
pub struct MapOk<Op1, Op2> {
    prev: Op1,
    op: Op2,
}

impl<Op1, Op2> MapOk<Op1, Op2> {
    /// The step that runs first.
    pub closed spec fn prev(&self) -> Op1 {
        self.prev
    }

    /// The step that handles what `prev` gives.
    pub closed spec fn op(&self) -> Op2 {
        self.op
    }

    pub fn new(prev: Op1, op: Op2) -> (s: Self)
        ensures
            s.prev() == prev,
            s.op() == op,
    {
        MapOk { prev, op }
    }
}

impl<Op1, Op2> Op for MapOk<Op1, Op2> where Op1: TryOp, Op2: Op<Input = Op1::Output> {
    type Input = Op1::Input;
    type Output = Result<Op2::Output, Op1::Error>;

    open spec fn accepts(&self, input: Op1::Input) -> bool {
        &&& self.prev().try_accepts(input)
        &&& forall|v: Op1::Output| #[trigger] self.prev().try_produces(input, Ok(v))
                ==> self.op().accepts(v)
    }

    open spec fn produces(&self, input: Op1::Input, output: Result<Op2::Output, Op1::Error>) -> bool {
        match output {
            Ok(w) => exists|v: Op1::Output| #[trigger] self.prev().try_produces(input, Ok(v))
                && self.op().produces(v, w),
            Err(e) => self.prev().try_produces(input, Err(e)),
        }
    }

    fn call(&self, input: Op1::Input) -> (output: Result<Op2::Output, Op1::Error>) {
        match self.prev.try_call(input) {
            Ok(output) => Ok(self.op.call(output)),
            Err(err) => Err(err),
        }
    }
}

/// A step that runs `prev` and, when it fails, applies `op` to the error; values pass through
/// unchanged.
pub struct MapErr<Op1, Op2> {
    prev: Op1,
    op: Op2,
}

impl<Op1, Op2> MapErr<Op1, Op2> {
    /// The step that runs first.
    pub closed spec fn prev(&self) -> Op1 {
        self.prev
    }

    /// The step that handles what `prev` gives.
    pub closed spec fn op(&self) -> Op2 {
        self.op
    }

    pub fn new(prev: Op1, op: Op2) -> (s: Self)
        ensures
            s.prev() == prev,
            s.op() == op,
    {
        MapErr { prev, op }
    }
}

impl<Op1, Op2> Op for MapErr<Op1, Op2> where Op1: TryOp, Op2: Op<Input = Op1::Error> {
    type Input = Op1::Input;
    type Output = Result<Op1::Output, Op2::Output>;

    open spec fn accepts(&self, input: Op1::Input) -> bool {
        &&& self.prev().try_accepts(input)
        &&& forall|e: Op1::Error| #[trigger] self.prev().try_produces(input, Err(e))
                ==> self.op().accepts(e)
    }

    open spec fn produces(&self, input: Op1::Input, output: Result<Op1::Output, Op2::Output>) -> bool {
        match output {
            Ok(v) => self.prev().try_produces(input, Ok(v)),
            Err(f) => exists|e: Op1::Error| #[trigger] self.prev().try_produces(input, Err(e))
                && self.op().produces(e, f),
        }
    }

    fn call(&self, input: Op1::Input) -> (output: Result<Op1::Output, Op2::Output>) {
        match self.prev.try_call(input) {
            Ok(output) => Ok(output),
            Err(err) => Err(self.op.call(err)),
        }
    }
}

/// A step that runs `prev` and, when it succeeds, runs the fallible step `op` on the value; an
/// error of `prev` stops the run.
pub struct AndThen<Op1, Op2> {
    prev: Op1,
    op: Op2,
}

impl<Op1, Op2> AndThen<Op1, Op2> {
    /// The step that runs first.
    pub closed spec fn prev(&self) -> Op1 {
        self.prev
    }

    /// The step that handles what `prev` gives.
    pub closed spec fn op(&self) -> Op2 {
        self.op
    }

    pub fn new(prev: Op1, op: Op2) -> (s: Self)
        ensures
            s.prev() == prev,
            s.op() == op,
    {
        AndThen { prev, op }
    }
}

impl<Op1, Op2> Op for AndThen<Op1, Op2> where Op1: TryOp, Op2: TryOp<Input = Op1::Output, Error = Op1::Error> {
    type Input = Op1::Input;
    type Output = Result<Op2::Output, Op1::Error>;

    open spec fn accepts(&self, input: Op1::Input) -> bool {
        &&& self.prev().try_accepts(input)
        &&& forall|v: Op1::Output| #[trigger] self.prev().try_produces(input, Ok(v))
                ==> self.op().try_accepts(v)
    }

    open spec fn produces(&self, input: Op1::Input, output: Result<Op2::Output, Op1::Error>) -> bool {
        ||| exists|v: Op1::Output| #[trigger] self.prev().try_produces(input, Ok(v))
                && self.op().try_produces(v, output)
        ||| exists|e: Op1::Error| #[trigger] self.prev().try_produces(input, Err(e))
                && output == Err::<Op2::Output, Op1::Error>(e)
    }

    fn call(&self, input: Op1::Input) -> (output: Result<Op2::Output, Op1::Error>) {
        let output = self.prev.try_call(input)?;
        self.op.try_call(output)
    }
}

/// A step that runs `prev` and, when it fails, runs the fallible step `op` on the error; a value of
/// `prev` is kept.
pub struct OrElse<Op1, Op2> {
    prev: Op1,
    op: Op2,
}

impl<Op1, Op2> OrElse<Op1, Op2> {
    /// The step that runs first.
    pub closed spec fn prev(&self) -> Op1 {
        self.prev
    }

    /// The step that handles what `prev` gives.
    pub closed spec fn op(&self) -> Op2 {
        self.op
    }

    pub fn new(prev: Op1, op: Op2) -> (s: Self)
        ensures
            s.prev() == prev,
            s.op() == op,
    {
        OrElse { prev, op }
    }
}

impl<Op1, Op2> Op for OrElse<Op1, Op2> where Op1: TryOp, Op2: TryOp<Input = Op1::Error, Output = Op1::Output> {
    type Input = Op1::Input;
    type Output = Result<Op1::Output, Op2::Error>;

    open spec fn accepts(&self, input: Op1::Input) -> bool {
        &&& self.prev().try_accepts(input)
        &&& forall|e: Op1::Error| #[trigger] self.prev().try_produces(input, Err(e))
                ==> self.op().try_accepts(e)
    }

    open spec fn produces(&self, input: Op1::Input, output: Result<Op1::Output, Op2::Error>) -> bool {
        ||| exists|v: Op1::Output| #[trigger] self.prev().try_produces(input, Ok(v))
                && output == Ok::<Op1::Output, Op2::Error>(v)
        ||| exists|e: Op1::Error| #[trigger] self.prev().try_produces(input, Err(e))
                && self.op().try_produces(e, output)
    }

    fn call(&self, input: Op1::Input) -> (output: Result<Op1::Output, Op2::Error>) {
        match self.prev.try_call(input) {
            Ok(output) => Ok(output),
            Err(err) => self.op.try_call(err),
        }
    }
}

/// A step that runs `prev` and, when it succeeds, runs the step `op` on the value; errors pass
/// through unchanged.
pub struct TrySequential<Op1, Op2> {
    prev: Op1,
    op: Op2,
}

impl<Op1, Op2> TrySequential<Op1, Op2> {
    /// The step that runs first.
    pub closed spec fn prev(&self) -> Op1 {
        self.prev
    }

    /// The step that handles what `prev` gives.
    pub closed spec fn op(&self) -> Op2 {
        self.op
    }

    pub fn new(prev: Op1, op: Op2) -> (s: Self)
        ensures
            s.prev() == prev,
            s.op() == op,
    {
        TrySequential { prev, op }
    }
}

impl<Op1, Op2> Op for TrySequential<Op1, Op2> where Op1: TryOp, Op2: Op<Input = Op1::Output> {
    type Input = Op1::Input;
    type Output = Result<Op2::Output, Op1::Error>;

    open spec fn accepts(&self, input: Op1::Input) -> bool {
        &&& self.prev().try_accepts(input)
        &&& forall|v: Op1::Output| #[trigger] self.prev().try_produces(input, Ok(v))
                ==> self.op().accepts(v)
    }

    open spec fn produces(&self, input: Op1::Input, output: Result<Op2::Output, Op1::Error>) -> bool {
        match output {
            Ok(w) => exists|v: Op1::Output| #[trigger] self.prev().try_produces(input, Ok(v))
                && self.op().produces(v, w),
            Err(e) => self.prev().try_produces(input, Err(e)),
        }
    }

    fn call(&self, input: Op1::Input) -> (output: Result<Op2::Output, Op1::Error>) {
        match self.prev.try_call(input) {
            Ok(output) => Ok(self.op.call(output)),
            Err(err) => Err(err),
        }
    }
}

/// Mapping a success with `f` and then with `g` gives the same results, and accepts the same
/// inputs, as mapping it once with `f` followed by `g`.
pub proof fn law_map_ok_fusion<A, F, G>(
    outer: MapOk<MapOk<A, F>, G>,
    fused: MapOk<A, Sequential<F, G>>,
    input: A::Input,
    output: Result<G::Output, A::Error>,
)
    where A: TryOp, F: Op<Input = A::Output>, G: Op<Input = F::Output>,
    requires
        outer.prev().prev() == fused.prev(),
        outer.prev().op() == fused.op().first(),
        outer.op() == fused.op().second(),
    ensures
        outer.accepts(input) <==> fused.accepts(input),
        outer.produces(input, output) <==> fused.produces(input, output),
{
    let a = fused.prev();
    let f = fused.op().first();
    let g = fused.op().second();
    if outer.accepts(input) {
        assert forall|v: A::Output| #[trigger] a.try_produces(input, Ok(v))
            implies fused.op().accepts(v) by {
            assert forall|w: F::Output| #[trigger] f.produces(v, w) implies g.accepts(w) by {
                assert(outer.prev().produces(input, Ok(w)));
                assert(outer.prev().try_produces(input, Ok(w)));
            }
        }
    }
    if fused.accepts(input) {
        assert forall|w: F::Output| #[trigger] outer.prev().try_produces(input, Ok(w))
            implies g.accepts(w) by {
            let v = choose|v: A::Output| #[trigger] a.try_produces(input, Ok(v)) && f.produces(v, w);
            assert(fused.op().accepts(v));
        }
    }
    match output {
        Ok(x) => {
            if outer.produces(input, output) {
                let w = choose|w: F::Output| #[trigger] outer.prev().try_produces(input, Ok(w))
                    && g.produces(w, x);
                let v = choose|v: A::Output| #[trigger] a.try_produces(input, Ok(v)) && f.produces(v, w);
                assert(fused.op().produces(v, x));
            }
            if fused.produces(input, output) {
                let v = choose|v: A::Output| #[trigger] a.try_produces(input, Ok(v))
                    && fused.op().produces(v, x);
                let w = choose|w: F::Output| #[trigger] f.produces(v, w) && g.produces(w, x);
                assert(outer.prev().produces(input, Ok(w)));
                assert(outer.prev().try_produces(input, Ok(w)));
            }
        },
        Err(e) => {},
    }
}

/// Mapping an error with `f` and then with `g` gives the same results, and accepts the same
/// inputs, as mapping it once with `f` followed by `g`.
pub proof fn law_map_err_fusion<A, F, G>(
    outer: MapErr<MapErr<A, F>, G>,
    fused: MapErr<A, Sequential<F, G>>,
    input: A::Input,
    output: Result<A::Output, G::Output>,
)
    where A: TryOp, F: Op<Input = A::Error>, G: Op<Input = F::Output>,
    requires
        outer.prev().prev() == fused.prev(),
        outer.prev().op() == fused.op().first(),
        outer.op() == fused.op().second(),
    ensures
        outer.accepts(input) <==> fused.accepts(input),
        outer.produces(input, output) <==> fused.produces(input, output),
{
    let a = fused.prev();
    let f = fused.op().first();
    let g = fused.op().second();
    if outer.accepts(input) {
        assert forall|e: A::Error| #[trigger] a.try_produces(input, Err(e))
            implies fused.op().accepts(e) by {
            assert forall|w: F::Output| #[trigger] f.produces(e, w) implies g.accepts(w) by {
                assert(outer.prev().produces(input, Err(w)));
                assert(outer.prev().try_produces(input, Err(w)));
            }
        }
    }
    if fused.accepts(input) {
        assert forall|w: F::Output| #[trigger] outer.prev().try_produces(input, Err(w))
            implies g.accepts(w) by {
            let e = choose|e: A::Error| #[trigger] a.try_produces(input, Err(e)) && f.produces(e, w);
            assert(fused.op().accepts(e));
        }
    }
    match output {
        Ok(v) => {},
        Err(x) => {
            if outer.produces(input, output) {
                let w = choose|w: F::Output| #[trigger] outer.prev().try_produces(input, Err(w))
                    && g.produces(w, x);
                let e = choose|e: A::Error| #[trigger] a.try_produces(input, Err(e)) && f.produces(e, w);
                assert(fused.op().produces(e, x));
            }
            if fused.produces(input, output) {
                let e = choose|e: A::Error| #[trigger] a.try_produces(input, Err(e))
                    && fused.op().produces(e, x);
                let w = choose|w: F::Output| #[trigger] f.produces(e, w) && g.produces(w, x);
                assert(outer.prev().produces(input, Err(w)));
                assert(outer.prev().try_produces(input, Err(w)));
            }
        },
    }
}

/// Mapping a success with a step that gives back its input changes nothing: the results and
/// the accepted inputs are those of the step alone.
pub proof fn law_map_ok_identity<A>(
    mapped: MapOk<A, Passthrough<A::Output>>,
    input: A::Input,
    output: Result<A::Output, A::Error>,
)
    where A: TryOp,
    ensures
        mapped.accepts(input) <==> mapped.prev().try_accepts(input),
        mapped.produces(input, output) <==> mapped.prev().try_produces(input, output),
{
    match output {
        Ok(v) => {
            if mapped.prev().try_produces(input, output) {
                assert(mapped.op().produces(v, v));
            }
        },
        Err(e) => {},
    }
}

/// Mapping an error with a step that gives back its input changes nothing: the results and
/// the accepted inputs are those of the step alone.
pub proof fn law_map_err_identity<A>(
    mapped: MapErr<A, Passthrough<A::Error>>,
    input: A::Input,
    output: Result<A::Output, A::Error>,
)
    where A: TryOp,
    ensures
        mapped.accepts(input) <==> mapped.prev().try_accepts(input),
        mapped.produces(input, output) <==> mapped.prev().try_produces(input, output),
{
    match output {
        Ok(v) => {},
        Err(e) => {
            if mapped.prev().try_produces(input, output) {
                assert(mapped.op().produces(e, e));
            }
        },
    }
}

/// Chaining a step after a success (`chain_ok`) behaves as mapping the success with that step
/// (`map_ok`): same accepted inputs, same results.
pub proof fn law_chain_ok_is_map_ok<A, B>(
    chained: TrySequential<A, B>,
    mapped: MapOk<A, B>,
    input: A::Input,
    output: Result<B::Output, A::Error>,
)
    where A: TryOp, B: Op<Input = A::Output>,
    requires
        chained.prev() == mapped.prev(),
        chained.op() == mapped.op(),
    ensures
        chained.accepts(input) <==> mapped.accepts(input),
        chained.produces(input, output) <==> mapped.produces(input, output),
{
}

/// `and_then` is associative: running `a`, then `b` on its value, then `c` on that value gives
/// the same results, and accepts the same inputs, however the three steps are grouped.
pub proof fn law_and_then_assoc<A, B, C>(
    left: AndThen<AndThen<A, B>, C>,
    right: AndThen<A, AndThen<B, C>>,
    input: A::Input,
    output: Result<C::Output, A::Error>,
)
    where
        A: TryOp,
        B: TryOp<Input = A::Output, Error = A::Error>,
        C: TryOp<Input = B::Output, Error = A::Error>,
    requires
        left.prev().prev() == right.prev(),
        left.prev().op() == right.op().prev(),
        left.op() == right.op().op(),
    ensures
        left.accepts(input) <==> right.accepts(input),
        left.produces(input, output) <==> right.produces(input, output),
{
    let a = right.prev();
    let b = right.op().prev();
    let c = right.op().op();
    let ab = left.prev();
    let bc = right.op();
    // accepted inputs
    if left.accepts(input) {
        assert forall|v: A::Output| #[trigger] a.try_produces(input, Ok(v))
            implies bc.try_accepts(v) by {
            assert forall|w: B::Output| #[trigger] b.try_produces(v, Ok(w)) implies c.try_accepts(w) by {
                assert(ab.produces(input, Ok(w)));
                assert(ab.try_produces(input, Ok(w)));
            }
        }
    }
    if right.accepts(input) {
        assert forall|w: B::Output| #[trigger] ab.try_produces(input, Ok(w))
            implies c.try_accepts(w) by {
            let v = choose|v: A::Output| #[trigger] a.try_produces(input, Ok(v)) && b.try_produces(v, Ok(w));
            assert(bc.try_accepts(v));
        }
        assert forall|v: A::Output| #[trigger] a.try_produces(input, Ok(v))
            implies b.try_accepts(v) by {
            assert(bc.try_accepts(v));
        }
    }
    // results
    if left.produces(input, output) {
        if exists|w: B::Output| #[trigger] ab.try_produces(input, Ok(w)) && c.try_produces(w, output) {
            let w = choose|w: B::Output| #[trigger] ab.try_produces(input, Ok(w)) && c.try_produces(w, output);
            let v = choose|v: A::Output| #[trigger] a.try_produces(input, Ok(v)) && b.try_produces(v, Ok(w));
            assert(bc.produces(v, output));
            assert(bc.try_produces(v, output));
        } else {
            let e = choose|e: B::Error| #[trigger] ab.try_produces(input, Err(e))
                && output == Err::<C::Output, A::Error>(e);
            if exists|v: A::Output| #[trigger] a.try_produces(input, Ok(v)) && b.try_produces(v, Err(e)) {
                let v = choose|v: A::Output| #[trigger] a.try_produces(input, Ok(v)) && b.try_produces(v, Err(e));
                assert(bc.produces(v, output));
                assert(bc.try_produces(v, output));
            } else {
                let e2 = choose|e2: A::Error| #[trigger] a.try_produces(input, Err(e2))
                    && Err::<B::Output, A::Error>(e) == Err::<B::Output, A::Error>(e2);
                assert(a.try_produces(input, Err(e)));
            }
        }
    }
    if right.produces(input, output) {
        if exists|v: A::Output| #[trigger] a.try_produces(input, Ok(v)) && bc.try_produces(v, output) {
            let v = choose|v: A::Output| #[trigger] a.try_produces(input, Ok(v)) && bc.try_produces(v, output);
            if exists|w: B::Output| #[trigger] b.try_produces(v, Ok(w)) && c.try_produces(w, output) {
                let w = choose|w: B::Output| #[trigger] b.try_produces(v, Ok(w)) && c.try_produces(w, output);
                assert(ab.produces(input, Ok(w)));
                assert(ab.try_produces(input, Ok(w)));
            } else {
                let e = choose|e: B::Error| #[trigger] b.try_produces(v, Err(e))
                    && output == Err::<C::Output, A::Error>(e);
                assert(ab.produces(input, Err(e)));
                assert(ab.try_produces(input, Err(e)));
            }
        } else {
            let e = choose|e: A::Error| #[trigger] a.try_produces(input, Err(e))
                && output == Err::<C::Output, A::Error>(e);
            assert(ab.produces(input, Err(e)));
            assert(ab.try_produces(input, Err(e)));
        }
    }
}

/// `or_else` is associative: recovering from an error of `a` with `b`, and from an error of
/// that with `c`, gives the same results, and accepts the same inputs, however the three steps
/// are grouped.
pub proof fn law_or_else_assoc<A, B, C>(
    left: OrElse<OrElse<A, B>, C>,
    right: OrElse<A, OrElse<B, C>>,
    input: A::Input,
    output: Result<A::Output, C::Error>,
)
    where
        A: TryOp,
        B: TryOp<Input = A::Error, Output = A::Output>,
        C: TryOp<Input = B::Error, Output = A::Output>,
    requires
        left.prev().prev() == right.prev(),
        left.prev().op() == right.op().prev(),
        left.op() == right.op().op(),
    ensures
        left.accepts(input) <==> right.accepts(input),
        left.produces(input, output) <==> right.produces(input, output),
{
    let a = right.prev();
    let b = right.op().prev();
    let c = right.op().op();
    let ab = left.prev();
    let bc = right.op();
    if left.accepts(input) {
        assert forall|e: A::Error| #[trigger] a.try_produces(input, Err(e))
            implies bc.try_accepts(e) by {
            assert forall|f: B::Error| #[trigger] b.try_produces(e, Err(f)) implies c.try_accepts(f) by {
                assert(ab.produces(input, Err(f)));
                assert(ab.try_produces(input, Err(f)));
            }
        }
    }
    if right.accepts(input) {
        assert forall|f: B::Error| #[trigger] ab.try_produces(input, Err(f))
            implies c.try_accepts(f) by {
            let e = choose|e: A::Error| #[trigger] a.try_produces(input, Err(e)) && b.try_produces(e, Err(f));
            assert(bc.try_accepts(e));
        }
        assert forall|e: A::Error| #[trigger] a.try_produces(input, Err(e))
            implies b.try_accepts(e) by {
            assert(bc.try_accepts(e));
        }
    }
    if left.produces(input, output) {
        if exists|f: B::Error| #[trigger] ab.try_produces(input, Err(f)) && c.try_produces(f, output) {
            let f = choose|f: B::Error| #[trigger] ab.try_produces(input, Err(f)) && c.try_produces(f, output);
            let e = choose|e: A::Error| #[trigger] a.try_produces(input, Err(e)) && b.try_produces(e, Err(f));
            assert(bc.produces(e, output));
            assert(bc.try_produces(e, output));
        } else {
            let v = choose|v: A::Output| #[trigger] ab.try_produces(input, Ok(v))
                && output == Ok::<A::Output, C::Error>(v);
            if exists|e: A::Error| #[trigger] a.try_produces(input, Err(e)) && b.try_produces(e, Ok(v)) {
                let e = choose|e: A::Error| #[trigger] a.try_produces(input, Err(e)) && b.try_produces(e, Ok(v));
                assert(bc.produces(e, output));
                assert(bc.try_produces(e, output));
            } else {
                assert(a.try_produces(input, Ok(v)));
            }
        }
    }
    if right.produces(input, output) {
        if exists|e: A::Error| #[trigger] a.try_produces(input, Err(e)) && bc.try_produces(e, output) {
            let e = choose|e: A::Error| #[trigger] a.try_produces(input, Err(e)) && bc.try_produces(e, output);
            if exists|f: B::Error| #[trigger] b.try_produces(e, Err(f)) && c.try_produces(f, output) {
                let f = choose|f: B::Error| #[trigger] b.try_produces(e, Err(f)) && c.try_produces(f, output);
                assert(ab.produces(input, Err(f)));
                assert(ab.try_produces(input, Err(f)));
            } else {
                let v = choose|v: A::Output| #[trigger] b.try_produces(e, Ok(v))
                    && output == Ok::<A::Output, C::Error>(v);
                assert(ab.produces(input, Ok(v)));
                assert(ab.try_produces(input, Ok(v)));
            }
        } else {
            let v = choose|v: A::Output| #[trigger] a.try_produces(input, Ok(v))
                && output == Ok::<A::Output, C::Error>(v);
            assert(ab.produces(input, Ok(v)));
            assert(ab.try_produces(input, Ok(v)));
        }
    }
}

} // verus!
