//! Reading-time estimation for sanitized HTML content.

use vstd::prelude::*;

use crate::text::{join, join_with_space, split_whitespace, to_chars, words};

verus! {

/// Reading speed used for estimates, in words per minute.
pub const WORDS_PER_MINUTE: usize = 200;

/// The text nodes of `html` parsed as an HTML fragment, in document order
/// (what `scraper::Html::parse_fragment(html).root_element().text()` yields).
pub uninterp spec fn fragment_text_nodes(html: Seq<char>) -> Seq<Seq<char>>;

/// The visible text of `html`: its text nodes joined by single spaces.
pub open spec fn visible_text(html: Seq<char>) -> Seq<char> {
    join(fragment_text_nodes(html), seq![' '])
}

/// Minutes needed to read `word_count` words: the word count divided by the
/// reading speed, rounded up, at least one minute, and at most `u32::MAX`.
pub open spec fn read_minutes(word_count: nat) -> u32 {
    let minutes = if word_count == 0 {
        1
    } else {
        (word_count + 199) / 200
    };
    if minutes > u32::MAX {
        u32::MAX
    } else {
        minutes as u32
    }
}

/// Calls `scraper::Html::parse_fragment` and collects the text nodes of its
/// root element; the contract names that list and says nothing more of it.
#[verifier::external_body]
fn parse_fragment_text_nodes(html: &str) -> (res: Vec<String>)
    ensures
        res.deep_view() == fragment_text_nodes(html@),
{
    scraper::Html::parse_fragment(html).root_element().text().map(String::from).collect()
}

/// Extract visible text from sanitized HTML
pub fn extract_text_from_html(html: &str) -> (res: String)
    ensures
        res@ == visible_text(html@),
{
    let nodes = parse_fragment_text_nodes(html);
    join_with_space(&nodes)
}

/// Reading time, in minutes, of an already extracted text.
pub fn read_time_minutes_for_text(text: &str) -> (res: u32)
    ensures
        res == read_minutes(words(text@).len()),
{
    let chars = to_chars(text);
    let word_count = split_whitespace(&chars).len();
    let mut minutes = word_count / WORDS_PER_MINUTE;
    if word_count % WORDS_PER_MINUTE != 0 {
        minutes = minutes + 1;
    }
    if minutes == 0 {
        minutes = 1;
    }
    proof {
        let w = word_count as nat;
        assert(w > 0 ==> (w + 199) / 200 == w / 200 + if w % 200 != 0 { 1nat } else { 0nat });
    }
    if minutes > u32::MAX as usize {
        u32::MAX
    } else {
        minutes as u32
    }
}

/// Estimated reading time, in minutes, of the visible text of `html`.
pub fn calculate_read_time_minutes(html: &str) -> (res: u32)
    ensures
        res == read_minutes(words(visible_text(html@)).len()),
{
    let text = extract_text_from_html(html);
    read_time_minutes_for_text(text.as_str())
}

/// Every text takes at least a minute to read, and more words never take less time.
pub proof fn lemma_read_minutes_monotonic(fewer: nat, more: nat)
    requires
        fewer <= more,
    ensures
        1 <= read_minutes(fewer) <= read_minutes(more),
{
    assert((fewer + 199) / 200 <= (more + 199) / 200) by (nonlinear_arith)
        requires
            fewer <= more,
    ;
}

/// Each started block of 200 words adds a minute: `n` full blocks take `n` minutes.
pub proof fn lemma_read_minutes_per_block(blocks: nat)
    requires
        1 <= blocks <= u32::MAX,
    ensures
        read_minutes(blocks * 200) == blocks,
        read_minutes(blocks * 200 + 1) == if blocks < u32::MAX {
            blocks + 1
        } else {
            blocks
        },
{
    assert((blocks * 200 + 199) / 200 == blocks) by (nonlinear_arith);
    assert((blocks * 200 + 1 + 199) / 200 == blocks + 1) by (nonlinear_arith);
}

/// Blog content made ready to serve: its reading time and its HTML with code highlighted.
pub struct PreparedContent {
    pub read_time_minutes: u32,
    pub html: String,
}

/// Estimates the reading time of a post's content and highlights its code
/// blocks with the default theme.
pub fn prepare_content(highlighter: &crate::highlight::SyntaxHighlighter, content: &str) -> (res:
    PreparedContent)
    ensures
        res.read_time_minutes == read_minutes(words(visible_text(content@)).len()),
        res.html@ == crate::highlight::document_highlighting(
            highlighter.syntax_set(),
            highlighter.theme_set(),
            "base16-ocean.dark"@,
            content@,
        ),
{
    let read_time_minutes = calculate_read_time_minutes(content);
    let html = highlighter.highlight_html(content);
    PreparedContent { read_time_minutes, html }
}

} // verus!
