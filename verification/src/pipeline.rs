use vstd::prelude::*;
use std::marker::PhantomData;
use crate::agent_ops::PromptOp;
use crate::completion::{Prompt, PromptError};
use crate::op::{MapFn, Op, Then};
use crate::vector_store::VectorStoreError;

verus! {

/// The start of a pipeline, whose fallible steps fail with errors of type `E`.
pub struct PipelineBuilder<E> {
    _error: PhantomData<E>,
}

impl<E> PipelineBuilder<E> {
    /// A first step that applies `f` to the pipeline's input.
    pub fn map<F, Input, Output>(self, f: F) -> (m: MapFn<F, Input>)
        where F: Fn(Input) -> Output,
        ensures
            m.func() == f,
    {
        MapFn::new(f)
    }

    /// A first step that applies `f` to the pipeline's input and passes on what `f` gives.
    pub fn then<F, Input, Output>(self, f: F) -> (t: Then<F, Input>)
        where F: Fn(Input) -> Output,
        ensures
            t.func() == f,
    {
        Then::new(f)
    }

    /// The step `op` as the first step of the pipeline.
    pub fn chain<T: Op>(self, op: T) -> (t: T)
        ensures
            t == op,
    {
        op
    }

    /// A first step that sends the pipeline's input, as a prompt, to `agent`.
    pub fn prompt<P: Prompt>(self, agent: P) -> (p: PromptOp<P>)
        ensures
            p.agent() == agent,
    {
        PromptOp::new(agent)
    }
}

/// The errors of a pipeline that prompts agents and looks up documents.
#[derive(Debug)]
pub enum ChainError {
    /// An agent gave no reply.
    PromptError(PromptError),
    /// A lookup in a vector store failed.
    LookupError(VectorStoreError),
}

impl From<PromptError> for ChainError {
    fn from(err: PromptError) -> (e: ChainError) {
        ChainError::PromptError(err)
    }
}

impl vstd::std_specs::convert::FromSpecImpl<PromptError> for ChainError {
    open spec fn obeys_from_spec() -> bool {
        true
    }

    open spec fn from_spec(err: PromptError) -> ChainError {
        ChainError::PromptError(err)
    }
}

impl From<VectorStoreError> for ChainError {
    fn from(err: VectorStoreError) -> (e: ChainError) {
        ChainError::LookupError(err)
    }
}

impl vstd::std_specs::convert::FromSpecImpl<VectorStoreError> for ChainError {
    open spec fn obeys_from_spec() -> bool {
        true
    }

    open spec fn from_spec(err: VectorStoreError) -> ChainError {
        ChainError::LookupError(err)
    }
}

/// A new pipeline whose fallible steps fail with a `ChainError`.
pub fn new() -> (b: PipelineBuilder<ChainError>) {
    PipelineBuilder { _error: PhantomData }
}

/// A new pipeline whose fallible steps fail with errors of type `E`.
pub fn with_error<E>() -> (b: PipelineBuilder<E>) {
    PipelineBuilder { _error: PhantomData }
}

} // verus!
