use eq::ai::{build_system_prompt, quote_bank};

#[test]
fn test_quote_bank_not_empty() {
    assert!(!quote_bank().is_empty());
    assert!(quote_bank().len() >= 20);
}

#[test]
fn test_quotes_have_sources() {
    for (quote, source) in quote_bank() {
        assert!(!quote.is_empty());
        assert!(!source.is_empty());
    }
}

#[test]
fn test_system_prompt_includes_quotes() {
    let prompt = build_system_prompt("[]");
    assert!(prompt.contains("Paul Graham"));
    assert!(prompt.contains("How to Do Great Work"));
}

#[test]
fn system_prompt_embeds_the_context() {
    let prompt = build_system_prompt("THE-CONTEXT-BLOB");
    assert!(prompt.contains("## CURRENT TASKS IN SYSTEM:\nTHE-CONTEXT-BLOB"));
    assert!(prompt.contains("Eisenhower Matrix"));
}
