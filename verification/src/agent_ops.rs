use vstd::prelude::*;
use crate::completion::{Prompt, PromptError};
use crate::op::Op;

verus! {

/// A step that sends its input, as a prompt, to an agent and gives back the agent's reply.
pub struct PromptOp<P> {
    agent: P,
}

impl<P> PromptOp<P> {
    /// The agent that receives the prompts.
    pub closed spec fn agent(&self) -> P {
        self.agent
    }

    pub fn new(agent: P) -> (p: Self)
        ensures
            p.agent() == agent,
    {
        PromptOp { agent }
    }
}

impl<P: Prompt> Op for PromptOp<P> {
    type Input = String;
    type Output = Result<String, PromptError>;

    open spec fn accepts(&self, input: String) -> bool {
        true
    }

    open spec fn produces(&self, input: String, output: Result<String, PromptError>) -> bool {
        self.agent().replies(input@, output)
    }

    fn call(&self, input: String) -> (output: Result<String, PromptError>)
        ensures
            self.agent().replies(input@, output),
    {
        self.agent.prompt(input.as_str())
    }
}

/// A step that sends its input, as a prompt, to `agent`.
pub fn prompt<P: Prompt>(agent: P) -> (p: PromptOp<P>)
    ensures
        p.agent() == agent,
{
    PromptOp::new(agent)
}

/// The prompt step takes every input, and hands the whole of it to the agent: what the step
/// may give for a text is exactly what the agent may reply to that text, whatever its length.
pub proof fn law_prompt_step_hands_whole_input<P: Prompt>(
    step: PromptOp<P>,
    input: String,
    output: Result<String, PromptError>,
)
    ensures
        step.accepts(input),
        step.produces(input, output) <==> step.agent().replies(input@, output),
{
}

} // verus!
