use fabio_claw::llm::{agent_mode_enabled, bpe_estimate, bpe_estimate_checked, inference_result, try_inference_result, try_mock_result, mock_infer, mock_result, model_load_failed};
use fabio_claw::errors::AppError;

#[test]
fn bpe_estimate_empty() {
    assert_eq!(bpe_estimate(""), 0);
}

#[test]
fn bpe_estimate_single_word() {
    assert!(bpe_estimate("hello") > 0);
}

#[test]
fn bpe_estimate_long_text() {
    let text = "The quick brown fox jumps over the lazy dog. ".repeat(10);
    let tokens = bpe_estimate(&text);
    assert!(tokens > 50, "Expected > 50 tokens, got {}", tokens);
    assert!(tokens < 500, "Expected < 500 tokens, got {}", tokens);
}

#[test]
fn bpe_estimate_nonzero_for_any_nonempty() {
    for s in &["a", " ", "\n", "hello world", "🦀"] {
        assert!(bpe_estimate(s) >= 1, "Expected >=1 token for {:?}", s);
    }
}

#[test]
fn bpe_estimate_exact_counts() {
    // one token per word and per other character, plus a quarter of each
    // word's length past four
    assert_eq!(bpe_estimate("hello"), 1);
    assert_eq!(bpe_estimate("internationalization"), 5);
    assert_eq!(bpe_estimate("a b"), 3);
    assert_eq!(bpe_estimate("hi, 42!"), 6);
}

#[test]
fn mock_reply_counts_words() {
    assert_eq!(
        mock_infer("  one two\tthree \n"),
        "[MOCK] Prompt had 3 words. Set MODEL_PATH to a valid .gguf file for real inference."
    );
    let r = mock_result("hi there");
    assert_eq!(r.prompt_tokens, 3);
    assert!(r.text.starts_with("[MOCK] Prompt had 2 words."));
}

#[test]
fn agent_mode_values() {
    assert!(agent_mode_enabled(Some("TRUE")));
    assert!(agent_mode_enabled(Some("true")));
    assert!(agent_mode_enabled(Some("1")));
    assert!(!agent_mode_enabled(Some("yes")));
    assert!(!agent_mode_enabled(None));
}

#[test]
fn inference_result_is_trimmed() {
    let r = inference_result("  Hi.  \n", 12);
    assert_eq!(r.text, "Hi.");
    assert_eq!(r.prompt_tokens, 12);
    assert_eq!(r.completion_tokens, 2);
}

#[test]
fn model_load_error_message() {
    match model_load_failed("bad file") {
        AppError::LlmError(m) => assert_eq!(m, "Model load failed: bad file"),
        _ => panic!("wrong variant"),
    }
}

#[test]
fn checked_token_estimates() {
    assert_eq!(bpe_estimate_checked(""), Some(0));
    assert_eq!(bpe_estimate_checked("hello world"), Some(bpe_estimate("hello world")));
    let r = try_mock_result("What is two plus two?").unwrap();
    assert_eq!(r.text, mock_infer("What is two plus two?"));
    assert_eq!(r.prompt_tokens, bpe_estimate("What is two plus two?"));
    let r = try_inference_result("  Four.  ", 7).unwrap();
    assert_eq!(r.text, "Four.");
    assert_eq!(r.prompt_tokens, 7);
    assert_eq!(r.completion_tokens, bpe_estimate("Four."));
}
