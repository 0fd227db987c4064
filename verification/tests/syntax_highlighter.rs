use shared_service::highlight::{resolve_language, SyntaxHighlighter};

#[test]
fn test_basic_highlighting() {
    let highlighter = SyntaxHighlighter::new();
    let html = r#"<pre><code class="language-rust">fn main() {
    println!("Hello, world!");
}</code></pre>"#;

    let result = highlighter.highlight_html(html);
    assert!(result.contains("<span"));
    assert!(result.contains("fn"));
}

#[test]
fn test_multiple_code_blocks() {
    let highlighter = SyntaxHighlighter::new();
    let html = r#"
<pre><code class="language-rust">fn test() {}</code></pre>
<pre><code class="language-python">def test(): pass</code></pre>
"#;

    let result = highlighter.highlight_html(html);
    assert!(result.contains("<span"));
}

#[test]
fn test_no_language_specified() {
    let highlighter = SyntaxHighlighter::new();
    let html = r#"<pre><code>Some plain text</code></pre>"#;

    let result = highlighter.highlight_html(html);
    // Should still process without errors
    assert!(result.contains("Some plain text"));
}

#[test]
fn test_typescript_highlighting() {
    let highlighter = SyntaxHighlighter::new();
    // Properly formatted TypeScript
    let html = r#"<pre><code class="language-typescript">import {Component, OnInit} from '@angular/core';

@Component({
  selector: 'app-my-form'
})
export class MyFormComponent implements OnInit {
  constructor(private fb: FormBuilder) {}
}</code></pre>"#;

    let result = highlighter.highlight_html(html);

    // Should have highlighting spans
    assert!(result.contains("<span"));

    // Verify key keywords appear in the output
    assert!(result.contains("import"));
    assert!(result.contains("Component"));
    assert!(result.contains("class"));
}

#[test]
fn test_strips_existing_spans() {
    let highlighter = SyntaxHighlighter::new();
    // Code with existing span tags (from previous highlighting or editor)
    let html = r#"<pre><code class="language-rust"><span style="color:#c0c5ce;">fn main() { println!("test"); }</span></code></pre>"#;

    let result = highlighter.highlight_html(html);

    // Old color should be gone
    assert!(!result.contains("color:#c0c5ce;\">[entire line]"));

    // Should have new highlighting
    assert!(result.contains("<span"));
    assert!(result.contains("fn"));
}

#[test]
fn test_typescript_falls_back_to_javascript() {
    let highlighter = SyntaxHighlighter::new();
    // TypeScript code
    let html = r#"<pre><code class="language-typescript">const x: number = 5;
function test(): void {
    console.log(x);
}</code></pre>"#;

    let result = highlighter.highlight_html(html);

    // Should have highlighting (even if falling back to JS syntax)
    assert!(result.contains("<span"));
    assert!(result.contains("const"));
    assert!(result.contains("function"));
}

#[test]
fn html_without_code_blocks_is_unchanged() {
    let highlighter = SyntaxHighlighter::new();
    let html = "<p>No code here, just <b>text</b>.</p>";
    assert_eq!(highlighter.highlight_html(html), html);
}

#[test]
fn blank_code_blocks_are_left_alone() {
    let highlighter = SyntaxHighlighter::new();
    let html = "<pre><code class=\"language-rust\">   \n  </code></pre>";
    assert_eq!(highlighter.highlight_html(html), html);
}

#[test]
fn code_attributes_are_kept_and_pre_is_closed() {
    let highlighter = SyntaxHighlighter::new();
    let html = "<div><pre><code class=\"language-rust\">let x = 1;</code></pre></div>";
    let result = highlighter.highlight_html(html);
    assert!(result.starts_with("<div><pre><code class=\"language-rust\"><span"));
    assert!(result.ends_with("</code></pre></div>"));
    assert!(!result.contains("let x = 1;</code>"));
}

#[test]
fn other_theme_is_used_when_asked() {
    let highlighter = SyntaxHighlighter::new();
    let html = "<pre><code class=\"language-rust\">fn main() {}</code></pre>";
    let dark = highlighter.highlight_html_with_theme(html, "base16-ocean.dark");
    let light = highlighter.highlight_html_with_theme(html, "InspiredGitHub");
    assert!(light.contains("<span"));
    assert_ne!(dark, light);
}

#[test]
fn default_themes_are_available() {
    let highlighter = SyntaxHighlighter::new();
    let themes = highlighter.available_themes();
    for name in [
        "base16-ocean.dark",
        "base16-eighties.dark",
        "base16-mocha.dark",
        "base16-ocean.light",
        "InspiredGitHub",
        "Solarized (dark)",
        "Solarized (light)",
    ] {
        assert!(themes.contains(&name));
    }
}

#[test]
fn plain_text_language_is_available() {
    let highlighter = SyntaxHighlighter::new();
    assert!(highlighter.available_languages().contains(&"Plain Text"));
    assert!(highlighter.available_languages().contains(&"Rust"));
    assert!(highlighter.available_languages().contains(&"Python"));
    assert!(highlighter.available_languages().contains(&"JavaScript"));
}

#[test]
fn language_is_read_from_class_tokens() {
    assert_eq!(resolve_language(Some("hljs language-rust"), false), "rust");
    assert_eq!(resolve_language(Some("lang-python extra"), false), "python");
    assert_eq!(resolve_language(Some("language-go lang-c"), false), "go");
    assert_eq!(resolve_language(Some("highlight"), false), "txt");
    assert_eq!(resolve_language(None, true), "txt");
    assert_eq!(resolve_language(Some(""), true), "txt");
}

#[test]
fn typescript_and_jsx_fall_back_to_javascript() {
    assert_eq!(resolve_language(Some("language-typescript"), false), "js");
    assert_eq!(resolve_language(Some("language-ts"), false), "js");
    assert_eq!(resolve_language(Some("language-tsx"), false), "js");
    assert_eq!(resolve_language(Some("language-typescript"), true), "typescript");
    assert_eq!(resolve_language(Some("language-jsx"), true), "js");
}

#[test]
fn language_of_a_class_uses_the_available_syntaxes() {
    let highlighter = SyntaxHighlighter::new();
    assert_eq!(highlighter.language_for_class(Some("language-rust")), "rust");
    assert_eq!(highlighter.language_for_class(Some("lang-jsx")), "js");
    assert_eq!(highlighter.language_for_class(None), "txt");
    // The bundled syntaxes hold no TypeScript definition.
    assert_eq!(highlighter.language_for_class(Some("language-ts")), "js");
    assert_eq!(highlighter.language_for_class(Some("language-typescript")), "js");
}

#[test]
fn every_code_element_of_a_block_is_kept() {
    let highlighter = SyntaxHighlighter::new();
    let html = "<pre><code class=\"language-rust\">fn a() {}</code><code class=\"language-python\">pass</code></pre>";
    let result = highlighter.highlight_html_with_theme(html, "base16-ocean.dark");
    assert!(result.contains("pass"));
    assert_eq!(result.matches("<code").count(), 2);
    assert!(result.ends_with("<code class=\"language-python\">pass</code></pre>"));
    assert!(result.starts_with("<pre><code class=\"language-rust\"><span"));
}

#[test]
fn default_highlighting_uses_the_default_theme() {
    let highlighter = SyntaxHighlighter::default();
    let html = "<p>x</p><pre><code class=\"language-python\">def f():\n    return 1\n</code></pre>";
    assert_eq!(
        highlighter.highlight_html(html),
        highlighter.highlight_html_with_theme(html, "base16-ocean.dark")
    );
}

#[test]
fn language_names_find_their_syntax_regardless_of_case() {
    let highlighter = SyntaxHighlighter::new();
    let html = "<pre><code class=\"language-rust\">fn main() {}</code></pre>";
    let result = highlighter.highlight_html(html);
    assert!(result.matches("<span").count() >= 2);
    assert!(!result.contains("fn main() {}"));
}

#[test]
fn highlighted_markup_escapes_the_code_text() {
    let highlighter = SyntaxHighlighter::new();
    let html = "<pre><code>a &lt; b &amp;&amp; c</code></pre>";
    let result = highlighter.highlight_html(html);
    assert!(result.contains("a &lt; b &amp;&amp; c"));
}

#[test]
fn themes_are_listed_in_ascending_order() {
    let highlighter = SyntaxHighlighter::new();
    let themes = highlighter.available_themes();
    for pair in themes.windows(2) {
        assert!(pair[0] < pair[1]);
    }
}

#[test]
fn rs_extension_has_a_syntax() {
    let highlighter = SyntaxHighlighter::new();
    assert_eq!(highlighter.language_for_class(Some("language-rs")), "rs");
    let result = highlighter.highlight_html("<pre><code class=\"language-rs\">let x = 1;</code></pre>");
    assert!(result.matches("<span").count() >= 2);
}
