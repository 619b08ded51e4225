//! Response handling, code-block scanning and the small config and
//! syntax helpers.

use clauchat::api::extract_response;
use clauchat::api::handle_response;
use clauchat::chat_render::ChatRenderer;
use clauchat::config::Config;
use clauchat::config::Theme;
use clauchat::syntax::SyntaxHighlighter;

#[test]
fn non_success_status_reports_status_and_body() {
    let err = handle_response(429, "{\"error\":\"rate_limited\"}").expect_err("429 is an error");
    assert!(err.contains("429"));
    assert!(err.contains("rate_limited"));
    assert_eq!(err, "API error (429): {\"error\":\"rate_limited\"}");
}

#[test]
fn success_response_concatenates_text_blocks() {
    let body = "{\"id\":\"m1\",\"type\":\"message\",\"role\":\"assistant\",\
                \"content\":[{\"type\":\"text\",\"text\":\"Hello\"},\
                {\"type\":\"tool_use\",\"text\":\"ignored\"},\
                {\"type\":\"text\",\"text\":\" world\"}],\
                \"usage\":{\"input_tokens\":10,\"output_tokens\":20}}";
    let resp = handle_response(200, body).expect("a well-formed success body");
    assert_eq!(resp.content, "Hello world");
    assert_eq!(resp.usage.input_tokens, 10);
    assert_eq!(resp.usage.output_tokens, 20);
}

#[test]
fn malformed_success_body_is_an_error() {
    let err = handle_response(200, "{\"content\":[]}").expect_err("usage is required");
    assert_eq!(err, "malformed API response");
    assert!(extract_response("not json at all").is_none());
}

#[test]
fn code_blocks_are_found_with_language() {
    let content = "intro\n```rust\nfn main() {}\n```\nafter";
    let blocks = ChatRenderer::find_code_blocks(content);
    assert_eq!(blocks.len(), 1);
    assert_eq!(blocks[0].0, 6..31);
    assert_eq!(blocks[0].1.as_deref(), Some("rust"));
}

#[test]
fn bare_fences_have_no_language() {
    let content = "```\ncode\n```";
    let blocks = ChatRenderer::find_code_blocks(content);
    assert_eq!(blocks.len(), 1);
    assert_eq!(blocks[0].0, 0..12);
    assert!(blocks[0].1.is_none());
}

#[test]
fn unclosed_block_runs_to_the_end() {
    let content = "```py\nx=1";
    let blocks = ChatRenderer::find_code_blocks(content);
    assert_eq!(blocks.len(), 1);
    assert_eq!(blocks[0].0, 0..9);
    assert_eq!(blocks[0].1.as_deref(), Some("py"));
}

#[test]
fn fence_language_is_trimmed() {
    let content = "```   js\nx\n```";
    let blocks = ChatRenderer::find_code_blocks(content);
    assert_eq!(blocks.len(), 1);
    assert_eq!(blocks[0].1.as_deref(), Some("js"));
}

#[test]
fn indented_fence_opens_at_line_start() {
    let content = "  ```go\ncode\n```";
    let blocks = ChatRenderer::find_code_blocks(content);
    assert_eq!(blocks.len(), 1);
    assert_eq!(blocks[0].0, 0..16);
    assert_eq!(blocks[0].1.as_deref(), Some("go"));
}

#[test]
fn plain_text_has_no_blocks() {
    assert!(ChatRenderer::find_code_blocks("no fences here\njust text").is_empty());
    assert!(ChatRenderer::find_code_blocks("").is_empty());
}

#[test]
fn two_blocks_are_both_found() {
    let content = "```a\nx\n```\nmiddle\n```b\ny\n```";
    let blocks = ChatRenderer::find_code_blocks(content);
    assert_eq!(blocks.len(), 2);
    assert_eq!(blocks[0].1.as_deref(), Some("a"));
    assert_eq!(blocks[1].1.as_deref(), Some("b"));
    assert!(blocks[0].0.end <= blocks[1].0.start);
}

#[test]
fn extract_code_returns_the_body() {
    let block = "```rust\nfn main() {}\n```\n";
    assert_eq!(ChatRenderer::extract_code(block, Some("rust")), "fn main() {}");
    assert_eq!(ChatRenderer::extract_code("```\ncode here\n```", None), "code here");
}

#[test]
fn extract_code_without_closing_fence_takes_the_rest() {
    assert_eq!(ChatRenderer::extract_code("```py\nx = 1", Some("py")), "x = 1");
}

#[test]
fn extract_code_without_marker_is_empty() {
    assert_eq!(ChatRenderer::extract_code("no fences", Some("rust")), "");
}

#[test]
fn language_aliases_resolve() {
    assert_eq!(SyntaxHighlighter::language_alias("js"), "javascript");
    assert_eq!(SyntaxHighlighter::language_alias("PY"), "python");
    assert_eq!(SyntaxHighlighter::language_alias("rs"), "rust");
    assert_eq!(SyntaxHighlighter::language_alias("C"), "c++");
    assert_eq!(SyntaxHighlighter::language_alias("cpp"), "c++");
    assert_eq!(SyntaxHighlighter::language_alias("haskell"), "haskell");
    assert_eq!(SyntaxHighlighter::language_alias("Swift"), "Swift");
}

#[test]
fn config_defaults_are_sensible() {
    let c = Config::default();
    assert_eq!(c.api_key, "");
    assert_eq!(c.theme, Theme::Dark);
    assert_eq!(c.font_size, 16);
    assert_eq!(Theme::default(), Theme::Dark);
}
