use qubit::agent::{
    appended_preamble, built_preamble, decimal_string, static_context_document, AgentSettings,
};

#[test]
fn context_documents_are_numbered() {
    let doc = static_context_document(0, "Context document 1");
    assert_eq!(doc.id, "static_doc_0");
    assert_eq!(doc.text, "Context document 1");
    assert!(doc.additional_props.is_empty());
    let doc = static_context_document(12, "x");
    assert_eq!(doc.id, "static_doc_12");
}

#[test]
fn preambles() {
    assert_eq!(appended_preamble(None, "doc"), "\ndoc");
    assert_eq!(appended_preamble(Some("System prompt".to_string()), "more"), "System prompt\nmore");
    assert_eq!(built_preamble(None), "");
    assert_eq!(built_preamble(Some("p".to_string())), "p");
}

#[test]
fn decimals() {
    assert_eq!(decimal_string(0), "0");
    assert_eq!(decimal_string(7), "7");
    assert_eq!(decimal_string(1024), "1024");
    assert_eq!(decimal_string(usize::MAX), usize::MAX.to_string());
}

#[test]
fn settings_build_like_the_documented_example() {
    let parts = AgentSettings::new()
        .preamble("System prompt")
        .context("Context document 1")
        .context("Context document 2")
        .tool("tool1".to_string())
        .tool("tool2".to_string())
        .max_tokens(256)
        .build();
    assert_eq!(parts.preamble, "System prompt");
    assert_eq!(parts.static_context.len(), 2);
    assert_eq!(parts.static_context[0].id, "static_doc_0");
    assert_eq!(parts.static_context[0].text, "Context document 1");
    assert_eq!(parts.static_context[1].id, "static_doc_1");
    assert_eq!(parts.static_context[1].text, "Context document 2");
    assert!(parts.static_context[1].additional_props.is_empty());
    assert_eq!(parts.static_tools, vec!["tool1".to_string(), "tool2".to_string()]);
    assert_eq!(parts.max_tokens, Some(256));
}

#[test]
fn settings_without_anything_build_empty() {
    let parts = AgentSettings::new().build();
    assert_eq!(parts.preamble, "");
    assert!(parts.static_context.is_empty());
    assert!(parts.static_tools.is_empty());
    assert_eq!(parts.max_tokens, None);
}

#[test]
fn settings_append_to_the_preamble() {
    let parts = AgentSettings::new().append_preamble("first").build();
    assert_eq!(parts.preamble, "\nfirst");
    let parts = AgentSettings::new().preamble("base").append_preamble("more").append_preamble("end").build();
    assert_eq!(parts.preamble, "base\nmore\nend");
    let parts = AgentSettings::new().append_preamble("gone").preamble("kept").build();
    assert_eq!(parts.preamble, "kept");
}

#[test]
fn context_ids_are_distinct() {
    let mut settings = AgentSettings::new();
    for i in 0..25 {
        settings = settings.context(&format!("doc {}", i));
    }
    let parts = settings.build();
    for i in 0..parts.static_context.len() {
        for j in 0..parts.static_context.len() {
            if i != j {
                assert_ne!(parts.static_context[i].id, parts.static_context[j].id);
            }
        }
    }
    assert_eq!(parts.static_context[24].id, "static_doc_24");
}
