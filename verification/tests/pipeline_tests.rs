use qubit::completion::{Prompt, PromptError};
use qubit::op::{self, chain, passthrough, Op};
use qubit::pipeline::{self, ChainError};
use qubit::try_op::TryOp;
use qubit::vector_store::VectorStoreError;

struct MockModel;

impl Prompt for MockModel {
    fn prompt(&self, prompt: &str) -> Result<String, PromptError> {
        Ok(format!("Mock response: {}", prompt))
    }
}

struct FailingModel;

impl Prompt for FailingModel {
    fn prompt(&self, _prompt: &str) -> Result<String, PromptError> {
        Err(PromptError::CompletionError("no model".to_string()))
    }
}

#[test]
fn test_prompt_pipeline() {
    let model = MockModel;

    let chain = pipeline::new()
        .map(|input: &str| format!("User query: {}", input))
        .prompt(model);

    let result = chain.call("What is a flurbo?").expect("Failed to run chain");

    assert_eq!(result, "Mock response: User query: What is a flurbo?");
}

#[test]
fn test_prompt_pipeline_error() {
    let model = MockModel;

    let chain = pipeline::with_error::<()>()
        .map(|input: &str| format!("User query: {}", input))
        .prompt(model);

    let result = chain.try_call("What is a flurbo?").expect("Failed to run chain");

    assert_eq!(result, "Mock response: User query: What is a flurbo?");
}

#[test]
fn prompt_errors_reach_the_caller() {
    let chain = pipeline::new().prompt(FailingModel);
    match chain.call("hello".to_string()) {
        Err(PromptError::CompletionError(msg)) => assert_eq!(msg, "no model"),
        _ => panic!("expected a completion error"),
    }
}

#[test]
fn builder_then_and_chain() {
    let first = pipeline::new().then(|x: i32| x + 1);
    assert_eq!(first.call(1), 2);
    let op = pipeline::new().chain(op::map(|x: i32| x * 3));
    assert_eq!(op.call(2), 6);
    let both = chain(op::map(|x: i32| x + 1), op::map(|x: i32| x * 10));
    assert_eq!(both.call(4), 50);
}

#[test]
fn passthrough_gives_input_back() {
    let p = passthrough::<String>();
    assert_eq!(p.call("same".to_string()), "same");
    let seq = op::map(|x: i32| x - 2).chain_passthrough_check();
    assert_eq!(seq, 0);
}

trait PassthroughCheck {
    fn chain_passthrough_check(self) -> i32;
}

impl<T: Op<Input = i32, Output = i32>> PassthroughCheck for T {
    fn chain_passthrough_check(self) -> i32 {
        chain(self, passthrough()).call(2)
    }
}

#[test]
fn chain_error_from_conversions() {
    let e: ChainError = PromptError::ToolError("t".to_string()).into();
    assert!(matches!(e, ChainError::PromptError(PromptError::ToolError(_))));
    let e: ChainError = VectorStoreError::MissingIdError("d".to_string()).into();
    assert!(matches!(e, ChainError::LookupError(VectorStoreError::MissingIdError(_))));
}
