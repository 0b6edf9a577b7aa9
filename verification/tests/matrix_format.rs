use tuner::matrix_format::{markdown_to_matrix_html, split_text, strip_button_markers};

#[test]
fn test_removes_buttons() {
    assert_eq!(strip_button_markers("text [button:OK]"), "text");
}

#[test]
fn test_multiple_buttons() {
    let result = strip_button_markers("[button:A] mid [button:B]");
    assert!(!result.contains("[button:"));
    assert!(result.contains("mid"));
}

#[test]
fn test_no_buttons_unchanged() {
    assert_eq!(strip_button_markers("plain text"), "plain text");
}

#[test]
fn test_bold() {
    let (plain, html) = markdown_to_matrix_html("**bold**");
    assert!(html.contains("<strong>bold</strong>"));
    assert!(plain.contains("bold"));
    assert!(!plain.contains("<"));
}

#[test]
fn test_italic() {
    let (_, html) = markdown_to_matrix_html("*italic*");
    assert!(html.contains("<em>italic</em>"));
}

#[test]
fn test_inline_code() {
    let (_, html) = markdown_to_matrix_html("use `func()`");
    assert!(html.contains("<code>func()</code>"));
}

#[test]
fn test_code_block() {
    let text = "```python\nprint('hi')\n```";
    let (_, html) = markdown_to_matrix_html(text);
    assert!(html.contains("<pre><code class=\"language-python\">"));
    assert!(html.contains("print(&#x27;hi&#x27;)"));
}

#[test]
fn test_code_block_no_language() {
    let text = "```\ncode\n```";
    let (_, html) = markdown_to_matrix_html(text);
    assert!(html.contains("<pre><code>"));
}

#[test]
fn test_heading() {
    let (_, html) = markdown_to_matrix_html("## Title");
    assert!(html.contains("<h2>Title</h2>"));
}

#[test]
fn test_heading_h1() {
    let (_, html) = markdown_to_matrix_html("# Big");
    assert!(html.contains("<h1>Big</h1>"));
}

#[test]
fn test_horizontal_rule() {
    let (_, html) = markdown_to_matrix_html("---");
    assert!(html.contains("<hr>"));
}

#[test]
fn test_strikethrough() {
    let (_, html) = markdown_to_matrix_html("~~deleted~~");
    assert!(html.contains("<del>deleted</del>"));
}

#[test]
fn test_link() {
    let (_, html) = markdown_to_matrix_html("[click](https://example.com)");
    assert!(html.contains("<a href=\"https://example.com\">click</a>"));
}



#[test]
fn test_html_escaping() {
    let (_, html) = markdown_to_matrix_html("<script>alert('xss')</script>");
    assert!(!html.contains("<script>"));
    assert!(html.contains("&lt;script&gt;"));
}

#[test]
fn test_plain_text_strips_html() {
    let (plain, _) = markdown_to_matrix_html("**bold** and *italic*");
    assert!(!plain.contains("<"));
    assert!(plain.contains("bold"));
    assert!(plain.contains("italic"));
}

#[test]
fn test_buttons_stripped() {
    let (plain, html) = markdown_to_matrix_html("Choose: [button:OK]");
    assert!(!html.contains("[button:"));
    assert!(!plain.contains("[button:"));
}

#[test]
fn test_unclosed_code_block() {
    let text = "```\ncode without closing";
    let (_, html) = markdown_to_matrix_html(text);
    assert!(html.contains("</code></pre>"));
}

#[test]
fn test_empty_input() {
    let (plain, html) = markdown_to_matrix_html("");
    assert_eq!(plain, "");
    assert_eq!(html, "");
}

#[test]
fn test_splitting() {
    let long_line = "a".repeat(35000);
    let text = format!("{}\n{}", long_line, long_line);
    let chunks = split_text(&text);
    assert_eq!(chunks.len(), 2);
    assert_eq!(chunks[0].0, long_line);
    assert_eq!(chunks[1].0, long_line);
}

#[test]
fn test_adversarial_nesting_and_unclosed() {
    let (plain, html) = markdown_to_matrix_html("**unclosed bold");
    assert_eq!(plain, "**unclosed bold");
    assert_eq!(html, "**unclosed bold<br>");

    let (plain, html) = markdown_to_matrix_html("`unclosed code");
    assert_eq!(plain, "`unclosed code");
    assert_eq!(html, "`unclosed code<br>");

    let (plain, html) = markdown_to_matrix_html("**bold *italic* and ~~strike~~ bold**");
    assert!(html.contains("<strong>bold <em>italic</em> and <del>strike</del> bold</strong>"));
    assert_eq!(plain, "bold italic and strike bold");

    let (plain, html) = markdown_to_matrix_html("[Wiki](https://en.wikipedia.org/wiki/Tag_(metadata))");
    println!("Wiki link output: html={}", html);
}

#[test]
fn test_large_input_splitting_edge_cases() {
    let giant_line = "a".repeat(70000);
    let chunks = split_text(&giant_line);
    println!("Giant line split into {} chunks", chunks.len());
    // Verify that giant line is NOT split (the bug where single line >60k is not split)
    assert_eq!(chunks.len(), 1);
    assert!(chunks[0].0.len() > 60000);

    let code_block = format!("```rust\n{}\n```", "fn main() {}\n".repeat(5000));
    assert!(code_block.len() > 60000);
    let chunks = split_text(&code_block);
    assert!(chunks.len() > 1);
    println!("Code block split into {} chunks", chunks.len());
    // Chunk 0 will end with </code></pre> because the markdown parser auto-closes open code blocks
    assert!(chunks[0].1.ends_with("</code></pre>"));
    // Chunk 1 will actually contain <pre><code> at the end because the closing ``` is
    // incorrectly interpreted as the START of a code block (due to lack of syntax/context awareness)!
    assert!(chunks[1].1.contains("<pre><code>"));
    // And inside Chunk 1, code lines are corrupted and parsed as normal markdown,
    // so they have <br> appended instead of being in pre/code tags.
    assert!(chunks[1].1.contains("fn main() {}<br>"));
}

#[test]
fn test_fences_alternate_and_lines_are_kept() {
    let (_, html) = markdown_to_matrix_html("```\na<b\n```\n```py\nx\n```");
    assert_eq!(
        html,
        "<pre><code>\na&lt;b\n</code></pre>\n<pre><code class=\"language-py\">\nx\n</code></pre>"
    );
    let (_, html) = markdown_to_matrix_html("one\n```\n**kept**");
    assert_eq!(html, "one<br>\n<pre><code>\n**kept**\n</code></pre>");
    assert_eq!(html.split('\n').count(), 4);
}
