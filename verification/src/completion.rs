use vstd::prelude::*;

verus! {

/// Why an agent gave no reply to a prompt.
#[derive(Debug)]
pub enum PromptError {
    /// The model failed to complete the prompt.
    CompletionError(String),
    /// A tool that the agent called failed.
    ToolError(String),
}

/// An agent that answers prompts.
pub trait Prompt {
    /// The replies that the agent may give to the prompt `prompt`; an agent that says nothing
    /// of its replies may give any.
    open spec fn replies(&self, prompt: Seq<char>, reply: Result<String, PromptError>) -> bool {
        true
    }

    /// Sends `prompt` to the agent and gives back its reply.
    fn prompt(&self, prompt: &str) -> (reply: Result<String, PromptError>)
        ensures
            self.replies(prompt@, reply),
    ;
}

} // verus!
