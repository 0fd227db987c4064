//! Syntax highlighting of the code blocks of an HTML document.

use vstd::prelude::*;

use syntect::highlighting::ThemeSet;
use syntect::parsing::SyntaxSet;

use crate::line_highlighter::{
    highlight_line, line_pieces, markup_text, pieces_text, render_styled_line, start_highlighting,
    styled_line_html, SpanStyle,
};
use crate::text::{
    append_chars, chars_equal, concat, find, from_chars, is_blank, is_blank_chars, lemma_concat_lines,
    lines, lines_with_endings, replace_first, replace_first_chars, slice_chars, split_whitespace,
    strip_prefix_chars, strip_prefix_spec, to_chars, words,
};

verus! {

#[verifier::external_type_specification]
#[verifier::external_body]
pub struct ExSyntaxSet(SyntaxSet);

#[verifier::external_type_specification]
#[verifier::external_body]
pub struct ExThemeSet(ThemeSet);

/// The names of the syntaxes a syntax set holds, in the set's order.
pub uninterp spec fn syntax_names(set: SyntaxSet) -> Seq<Seq<char>>;

/// The file extensions of each syntax a syntax set holds, in the set's order.
pub uninterp spec fn syntax_extensions(set: SyntaxSet) -> Seq<Seq<Seq<char>>>;

/// The keys of the themes a theme set holds, in the set's (sorted) order.
pub uninterp spec fn theme_keys(set: ThemeSet) -> Seq<Seq<char>>;

/// The code of a character with ASCII upper case letters made lower case.
pub open spec fn ascii_lower(c: char) -> int {
    if 'A' <= c && c <= 'Z' {
        (c as u32) + 32
    } else {
        c as u32 as int
    }
}

/// Equality up to ASCII case (`str::eq_ignore_ascii_case`).
pub open spec fn eq_ignore_ascii_case(a: Seq<char>, b: Seq<char>) -> bool {
    a.len() == b.len() && forall|i: int| 0 <= i < a.len() ==> ascii_lower(a[i]) == ascii_lower(b[i])
}

/// Whether `extension` is among `extensions`, up to ASCII case.
pub open spec fn extension_listed(extensions: Seq<Seq<char>>, extension: Seq<char>) -> bool {
    exists|j: int| 0 <= j < extensions.len() && eq_ignore_ascii_case(#[trigger] extensions[j], extension)
}

/// The last of the first `n` syntaxes that lists `extension` among its file
/// extensions, up to ASCII case.
pub open spec fn last_with_extension(lists: Seq<Seq<Seq<char>>>, extension: Seq<char>, n: int) -> Option<int>
    decreases n,
{
    if n <= 0 {
        None
    } else if extension_listed(lists[n - 1], extension) {
        Some(n - 1)
    } else {
        last_with_extension(lists, extension, n - 1)
    }
}

/// The last of the first `n` syntaxes named `name`, exactly or up to ASCII case.
pub open spec fn last_with_name(names: Seq<Seq<char>>, name: Seq<char>, exact: bool, n: int) -> Option<int>
    decreases n,
{
    if n <= 0 {
        None
    } else if (exact && names[n - 1] == name) || (!exact && eq_ignore_ascii_case(names[n - 1], name)) {
        Some(n - 1)
    } else {
        last_with_name(names, name, exact, n - 1)
    }
}

/// The syntax `SyntaxSet::find_syntax_by_extension` finds: the last one that
/// lists the extension, up to ASCII case.
pub open spec fn syntax_by_extension(lists: Seq<Seq<Seq<char>>>, extension: Seq<char>) -> Option<int> {
    last_with_extension(lists, extension, lists.len() as int)
}

/// The syntax `SyntaxSet::find_syntax_by_token` finds: by extension first,
/// then the last one whose name equals the token up to ASCII case.
pub open spec fn syntax_by_token(
    names: Seq<Seq<char>>,
    lists: Seq<Seq<Seq<char>>>,
    token: Seq<char>,
) -> Option<int> {
    match syntax_by_extension(lists, token) {
        Some(i) => Some(i),
        None => last_with_name(names, token, false, names.len() as int),
    }
}

/// The syntax `SyntaxSet::find_syntax_plain_text` finds: the last one named
/// exactly "Plain Text".
pub open spec fn plain_text_syntax(names: Seq<Seq<char>>) -> Option<int> {
    last_with_name(names, seq!['P', 'l', 'a', 'i', 'n', ' ', 'T', 'e', 'x', 't'], true, names.len() as int)
}

/// The syntax a language is highlighted with: the one its name finds as a
/// token, else Plain Text.
pub open spec fn language_syntax(
    names: Seq<Seq<char>>,
    lists: Seq<Seq<Seq<char>>>,
    language: Seq<char>,
) -> int {
    match syntax_by_token(names, lists, language) {
        Some(i) => i,
        None => match plain_text_syntax(names) {
            Some(i) => i,
            None => 0,
        },
    }
}

/// Whether some syntax of the set lists `extension` among its file extensions,
/// up to ASCII case.
pub open spec fn has_extension(set: SyntaxSet, extension: Seq<char>) -> bool {
    syntax_by_extension(syntax_extensions(set), extension) is Some
}

/// Whether `a` comes before `b` in lexicographic order of characters.
pub open spec fn chars_less(a: Seq<char>, b: Seq<char>) -> bool
    decreases a.len(),
{
    if b.len() == 0 {
        false
    } else if a.len() == 0 {
        true
    } else if a[0] != b[0] {
        (a[0] as u32) < (b[0] as u32)
    } else {
        chars_less(a.drop_first(), b.drop_first())
    }
}

/// Whether the names are in strictly ascending order (sorted, no duplicates).
pub open spec fn strictly_ascending(names: Seq<Seq<char>>) -> bool {
    forall|i: int, j: int| 0 <= i < j < names.len() ==> chars_less(#[trigger] names[i], #[trigger] names[j])
}

/// Calls `SyntaxSet::load_defaults_newlines`; the contract claims that the
/// bundled set (the crate's `assets/default_newlines.packdump`) holds the
/// "Plain Text" syntax, which `find_syntax_plain_text` relies on, the "Rust",
/// "Python" and "JavaScript" syntaxes, and a syntax for the `rs` extension, as
/// the crate's documented example with this set shows.
#[verifier::external_body]
fn load_default_syntaxes() -> (res: SyntaxSet)
    ensures
        syntax_names(res).contains("Plain Text"@),
        syntax_names(res).contains("Rust"@),
        syntax_names(res).contains("Python"@),
        syntax_names(res).contains("JavaScript"@),
        has_extension(res, "rs"@),
{
    SyntaxSet::load_defaults_newlines()
}

/// Calls `ThemeSet::load_defaults`; the contract claims the seven themes its
/// documentation lists as keys of the bundled set.
#[verifier::external_body]
fn load_default_themes() -> (res: ThemeSet)
    ensures
        theme_keys(res).contains("base16-ocean.dark"@),
        theme_keys(res).contains("base16-eighties.dark"@),
        theme_keys(res).contains("base16-mocha.dark"@),
        theme_keys(res).contains("base16-ocean.light"@),
        theme_keys(res).contains("InspiredGitHub"@),
        theme_keys(res).contains("Solarized (dark)"@),
        theme_keys(res).contains("Solarized (light)"@),
{
    ThemeSet::load_defaults()
}

/// Reads the keys of `ThemeSet::themes` (a `BTreeMap<String, _>`), which come
/// in ascending order without duplicates.
#[verifier::external_body]
fn theme_set_keys(set: &ThemeSet) -> (res: Vec<&str>)
    ensures
        res.deep_view() == theme_keys(*set),
        strictly_ascending(res.deep_view()),
{
    set.themes.keys().map(String::as_str).collect()
}

/// Calls `SyntaxSet::syntaxes` and reads the `name` and `file_extensions` of
/// each syntax, in order.
#[verifier::external_body]
fn syntax_entries(set: &SyntaxSet) -> (res: Vec<(String, Vec<String>)>)
    ensures
        res@.map_values(|e: (String, Vec<String>)| e.0@) == syntax_names(*set),
        res@.map_values(|e: (String, Vec<String>)| e.1.deep_view()) == syntax_extensions(*set),
{
    set.syntaxes().iter().map(|s| (s.name.clone(), s.file_extensions.clone())).collect()
}

/// An element selected in a document: its serialized HTML, its text content
/// (tags stripped) and its attributes in order, by local name.
pub struct ElementView {
    pub html: Seq<char>,
    pub text: Seq<char>,
    pub attrs: Seq<(Seq<char>, Seq<char>)>,
}

/// An element selected in a document with the elements selected inside it.
pub struct BlockView {
    pub html: Seq<char>,
    pub inner: Seq<ElementView>,
}

struct Element {
    html: String,
    text: String,
    attrs: Vec<(String, String)>,
}

impl View for Element {
    type V = ElementView;

    closed spec fn view(&self) -> ElementView {
        ElementView {
            html: self.html@,
            text: self.text@,
            attrs: self.attrs@.map_values(|a: (String, String)| (a.0@, a.1@)),
        }
    }
}

struct Block {
    html: String,
    inner: Vec<Element>,
}

impl View for Block {
    type V = BlockView;

    closed spec fn view(&self) -> BlockView {
        BlockView { html: self.html@, inner: self.inner@.map_values(|e: Element| e@) }
    }
}

/// The elements of `html`, parsed as a document, that the CSS selector `outer`
/// selects, in document order, each with the descendants `inner` selects, as
/// `scraper` selects and serializes them (`None` when a selector does not parse).
pub uninterp spec fn selected_blocks(html: Seq<char>, outer: Seq<char>, inner: Seq<char>) -> Option<Seq<BlockView>>;

/// Calls `scraper::Html::parse_document`, `scraper::Selector::parse` and
/// `select`, and reads the HTML, text and attributes of what is selected; the
/// contract names the result.
#[verifier::external_body]
fn select_blocks(html: &str, outer: &str, inner: &str) -> (res: Option<Vec<Block>>)
    ensures
        selected_blocks(html@, outer@, inner@) == (match res {
            Some(blocks) => Some(blocks@.map_values(|b: Block| b@)),
            None => None,
        }),
{
    let document = scraper::Html::parse_document(html);
    let outer = scraper::Selector::parse(outer).ok()?;
    let inner = scraper::Selector::parse(inner).ok()?;
    Some(document.select(&outer).map(|b| Block {
        html: b.html(),
        inner: b.select(&inner).map(|e| Element {
            html: e.html(),
            text: e.text().collect(),
            attrs: e.value().attrs().map(|(n, v)| (n.to_string(), v.to_string())).collect(),
        }).collect(),
    }).collect())
}

/// The first `class` attribute of an attribute list.
pub open spec fn class_attribute(attrs: Seq<(Seq<char>, Seq<char>)>) -> Option<Seq<char>>
    decreases attrs.len(),
{
    if attrs.len() == 0 {
        None
    } else if attrs[0].0 == seq!['c', 'l', 'a', 's', 's'] {
        Some(attrs[0].1)
    } else {
        class_attribute(attrs.drop_first())
    }
}

/// The code blocks that get highlighted: each `<pre>` block whose first
/// `<code>` element has text that is not blank, with that element.
pub open spec fn highlight_targets(blocks: Seq<BlockView>) -> Seq<(Seq<char>, ElementView)>
    decreases blocks.len(),
{
    if blocks.len() == 0 {
        seq![]
    } else {
        let rest = highlight_targets(blocks.drop_last());
        let b = blocks.last();
        if b.inner.len() > 0 && !is_blank(b.inner[0].text) {
            rest.push((b.html, b.inner[0]))
        } else {
            rest
        }
    }
}

/// The HTML of one line: the rendering of its pieces (none when highlighting
/// failed), or the line itself when rendering fails.
pub open spec fn line_rendering(pieces: Option<Seq<(SpanStyle, Seq<char>)>>, line: Seq<char>) -> Seq<char> {
    let p = match pieces {
        Some(p) => p,
        None => seq![],
    };
    match styled_line_html(p, false) {
        Some(html) => html,
        None => line,
    }
}

/// The rendering of each line, highlighted in order with syntax number
/// `syntax` of `syntaxes` and the theme keyed `theme` of `themes`.
pub open spec fn line_renderings(
    syntaxes: SyntaxSet,
    syntax: int,
    themes: ThemeSet,
    theme: Seq<char>,
    code_lines: Seq<Seq<char>>,
) -> Seq<Seq<char>> {
    Seq::new(
        code_lines.len(),
        |i: int|
            line_rendering(
                line_pieces(syntaxes, syntax, themes, theme, code_lines.take(i), code_lines[i]),
                code_lines[i],
            ),
    )
}

/// The highlighting of `code`: the renderings of its lines (newlines kept),
/// concatenated.
pub open spec fn code_highlighting(
    syntaxes: SyntaxSet,
    syntax: int,
    themes: ThemeSet,
    theme: Seq<char>,
    code: Seq<char>,
) -> Seq<char> {
    concat(line_renderings(syntaxes, syntax, themes, theme, lines(code)))
}

/// A line whose pieces make it up and whose rendering holds exactly the
/// pieces' text.
pub open spec fn faithful_line(pieces: Option<Seq<(SpanStyle, Seq<char>)>>, line: Seq<char>) -> bool {
    let p = match pieces {
        Some(p) => p,
        None => seq![],
    };
    &&& pieces matches Some(q) ==> pieces_text(q) == line
    &&& styled_line_html(p, false) matches Some(html) && markup_text(html) == pieces_text(p)
}

/// Every line of `code` is highlighted and rendered faithfully.
pub open spec fn renders_faithfully(
    syntaxes: SyntaxSet,
    syntax: int,
    themes: ThemeSet,
    theme: Seq<char>,
    code: Seq<char>,
) -> bool {
    forall|i: int|
        0 <= i < lines(code).len() ==> #[trigger] faithful_line(
            line_pieces(syntaxes, syntax, themes, theme, lines(code).take(i), lines(code)[i]),
            lines(code)[i],
        )
}

/// The language a code element is highlighted as: the one its `class`
/// declares, with the fallbacks for TypeScript (when no syntax lists `ts`) and
/// JSX.
pub open spec fn code_language(lists: Seq<Seq<Seq<char>>>, class: Option<Seq<char>>) -> Seq<char> {
    effective_language(declared_language(class), syntax_by_extension(lists, "ts"@) is Some)
}

/// The syntax a code element is highlighted with.
pub open spec fn element_syntax(syntaxes: SyntaxSet, element: ElementView) -> int {
    language_syntax(
        syntax_names(syntaxes),
        syntax_extensions(syntaxes),
        code_language(syntax_extensions(syntaxes), class_attribute(element.attrs)),
    )
}

/// The highlighted form of a code element: a `<code>` tag with its attributes
/// around the highlighting of its text.
pub open spec fn highlighted_element(
    syntaxes: SyntaxSet,
    themes: ThemeSet,
    theme: Seq<char>,
    element: ElementView,
) -> Seq<char> {
    code_tag(
        element.attrs,
        code_highlighting(syntaxes, element_syntax(syntaxes, element), themes, theme, element.text),
    )
}

/// For each target, its `<pre>` block and the block with its first code
/// element replaced by the highlighted form; the rest of the block is kept.
pub open spec fn block_replacements(
    syntaxes: SyntaxSet,
    themes: ThemeSet,
    theme: Seq<char>,
    targets: Seq<(Seq<char>, ElementView)>,
) -> Seq<(Seq<char>, Seq<char>)> {
    Seq::new(
        targets.len(),
        |k: int|
            (
                targets[k].0,
                replace_first(
                    targets[k].0,
                    targets[k].1.html,
                    highlighted_element(syntaxes, themes, theme, targets[k].1),
                ),
            ),
    )
}

/// Replaces, in order, the first occurrence of each old block by its new form.
pub open spec fn apply_replacements(text: Seq<char>, reps: Seq<(Seq<char>, Seq<char>)>) -> Seq<char>
    decreases reps.len(),
{
    if reps.len() == 0 {
        text
    } else {
        replace_first(apply_replacements(text, reps.drop_last()), reps.last().0, reps.last().1)
    }
}

/// `html` with the code of each `<pre>` block highlighted with the theme keyed
/// `theme`; unchanged when the selectors do not parse.
pub open spec fn document_highlighting(
    syntaxes: SyntaxSet,
    themes: ThemeSet,
    theme: Seq<char>,
    html: Seq<char>,
) -> Seq<char> {
    match selected_blocks(html, "pre"@, "code"@) {
        Some(blocks) => apply_replacements(
            html,
            block_replacements(syntaxes, themes, theme, highlight_targets(blocks)),
        ),
        None => html,
    }
}

/// Every code element highlighted in `html` is highlighted and rendered
/// faithfully.
pub open spec fn document_renders_faithfully(
    syntaxes: SyntaxSet,
    themes: ThemeSet,
    theme: Seq<char>,
    html: Seq<char>,
) -> bool {
    selected_blocks(html, "pre"@, "code"@) matches Some(blocks) ==> forall|k: int|
        0 <= k < highlight_targets(blocks).len() ==> #[trigger] renders_faithfully(
            syntaxes,
            element_syntax(syntaxes, highlight_targets(blocks)[k].1),
            themes,
            theme,
            highlight_targets(blocks)[k].1.text,
        )
}

/// ` name="value"` for each attribute, in order.
pub open spec fn attrs_text(attrs: Seq<(Seq<char>, Seq<char>)>) -> Seq<char>
    decreases attrs.len(),
{
    if attrs.len() == 0 {
        seq![]
    } else {
        attrs_text(attrs.drop_last()) + seq![' '] + attrs.last().0 + seq!['=', '"']
            + attrs.last().1 + seq!['"']
    }
}

/// `<code` + attributes + `>` + body + `</code>`.
pub open spec fn code_tag(attrs: Seq<(Seq<char>, Seq<char>)>, body: Seq<char>) -> Seq<char> {
    seq!['<', 'c', 'o', 'd', 'e'] + attrs_text(attrs) + seq!['>'] + body + seq![
        '<',
        '/',
        'c',
        'o',
        'd',
        'e',
        '>',
    ]
}

/// `<code` + attributes + `>` + body + `</code>`.
fn code_tag_chars(attrs: &Vec<(String, String)>, body: &Vec<char>) -> (res: Vec<char>)
    ensures
        res@ == code_tag(attrs@.map_values(|a: (String, String)| (a.0@, a.1@)), body@),
{
    let ghost av = attrs@.map_values(|a: (String, String)| (a.0@, a.1@));
    let mut out: Vec<char> = vec!['<', 'c', 'o', 'd', 'e'];
    let ghost head: Seq<char> = out@;
    let mut i: usize = 0;
    while i < attrs.len()
        invariant
            i <= attrs@.len(),
            av == attrs@.map_values(|a: (String, String)| (a.0@, a.1@)),
            head == seq!['<', 'c', 'o', 'd', 'e'],
            out@ == head + attrs_text(av.take(i as int)),
        decreases attrs@.len() - i,
    {
        let ghost before = out@;
        out.push(' ');
        append_chars(&mut out, &to_chars(attrs[i].0.as_str()));
        out.push('=');
        out.push('"');
        append_chars(&mut out, &to_chars(attrs[i].1.as_str()));
        out.push('"');
        proof {
            let t = av.take(i + 1);
            assert(t.drop_last() =~= av.take(i as int));
            assert(t.last() == av[i as int]);
            assert(out@ =~= head + attrs_text(t));
        }
        i = i + 1;
    }
    proof {
        assert(av.take(attrs@.len() as int) =~= av);
    }
    out.push('>');
    append_chars(&mut out, body);
    append_chars(&mut out, &vec!['<', '/', 'c', 'o', 'd', 'e', '>']);
    proof {
        assert(out@ =~= code_tag(av, body@));
    }
    out
}

/// The language a class token names: the rest of a `language-` or `lang-` token.
pub open spec fn token_language(token: Seq<char>) -> Option<Seq<char>> {
    match strip_prefix_spec(token, "language-"@) {
        Some(rest) => Some(rest),
        None => strip_prefix_spec(token, "lang-"@),
    }
}

/// The language named by the first token of `tokens` that names one.
pub open spec fn first_token_language(tokens: Seq<Seq<char>>) -> Option<Seq<char>>
    decreases tokens.len(),
{
    if tokens.len() == 0 {
        None
    } else {
        match token_language(tokens[0]) {
            Some(lang) => Some(lang),
            None => first_token_language(tokens.drop_first()),
        }
    }
}

/// The language a code element's `class` attribute declares, `txt` when none.
pub open spec fn declared_language(class: Option<Seq<char>>) -> Seq<char> {
    match class {
        Some(c) => match first_token_language(words(c)) {
            Some(lang) => lang,
            None => "txt"@,
        },
        None => "txt"@,
    }
}

/// The language used to highlight: TypeScript names fall back to JavaScript
/// when no TypeScript syntax is available, and JSX is highlighted as JavaScript.
pub open spec fn effective_language(declared: Seq<char>, typescript_available: bool) -> Seq<char> {
    if declared == "typescript"@ || declared == "ts"@ || declared == "tsx"@ {
        if typescript_available {
            declared
        } else {
            "js"@
        }
    } else if declared == "jsx"@ {
        "js"@
    } else {
        declared
    }
}

/// The view of an optional string slice.
pub open spec fn str_view(s: Option<&str>) -> Option<Seq<char>> {
    match s {
        Some(t) => Some(t@),
        None => None,
    }
}

/// The language a class token names, if any.
fn language_of_token(token: &Vec<char>) -> (res: Option<Vec<char>>)
    ensures
        res matches Some(r) ==> token_language(token@) == Some(r@),
        res is None ==> token_language(token@) is None,
{
    match strip_prefix_chars(token, &to_chars("language-")) {
        Some(rest) => Some(rest),
        None => strip_prefix_chars(token, &to_chars("lang-")),
    }
}

/// The language declared by a `class` attribute value (`language-rust`,
/// `lang-python`, ...), with the TypeScript and JSX fallbacks applied.
pub fn resolve_language(class: Option<&str>, typescript_available: bool) -> (res: String)
    ensures
        res@ == effective_language(declared_language(str_view(class)), typescript_available),
{
    let declared: Vec<char> = match class {
        Some(c) => {
            let chars = to_chars(c);
            let tokens = split_whitespace(&chars);
            let ghost ws = words(chars@);
            let mut found: Option<Vec<char>> = None;
            let mut k: usize = 0;
            proof {
                assert(ws.skip(0) =~= ws);
            }
            while k < tokens.len() && found.is_none()
                invariant
                    tokens@.len() == ws.len(),
                    forall|j: int| 0 <= j < tokens@.len() ==> #[trigger] tokens@[j]@ == ws[j],
                    k <= tokens@.len(),
                    found is None ==> first_token_language(ws) == first_token_language(
                        ws.skip(k as int),
                    ),
                    found matches Some(f) ==> first_token_language(ws) == Some(f@),
                decreases tokens@.len() - k,
            {
                let lang = language_of_token(&tokens[k]);
                proof {
                    let rest = ws.skip(k as int);
                    assert(rest[0] == ws[k as int]);
                    assert(rest.drop_first() =~= ws.skip(k + 1));
                }
                found = lang;
                k = k + 1;
            }
            proof {
                if found is None {
                    assert(ws.skip(k as int).len() == 0);
                }
            }
            match found {
                Some(lang) => lang,
                None => to_chars("txt"),
            }
        },
        None => to_chars("txt"),
    };
    assert(declared@ == declared_language(str_view(class)));
    let is_ts = chars_equal(&declared, &to_chars("typescript")) || chars_equal(
        &declared,
        &to_chars("ts"),
    ) || chars_equal(&declared, &to_chars("tsx"));
    if is_ts {
        if typescript_available {
            from_chars(&declared)
        } else {
            String::from_str("js")
        }
    } else if chars_equal(&declared, &to_chars("jsx")) {
        String::from_str("js")
    } else {
        from_chars(&declared)
    }
}

/// Whether two characters are equal up to ASCII case.
fn chars_eq_ignore_ascii_case(a: char, b: char) -> (res: bool)
    ensures
        res == (ascii_lower(a) == ascii_lower(b)),
{
    let a_upper = 'A' <= a && a <= 'Z';
    let b_upper = 'A' <= b && b <= 'Z';
    a == b || (a_upper && (a as u32) + 32 == (b as u32)) || (b_upper && (b as u32) + 32 == (a
        as u32))
}

/// Equality of two character sequences up to ASCII case.
fn seq_eq_ignore_ascii_case(a: &Vec<char>, b: &Vec<char>) -> (res: bool)
    ensures
        res == eq_ignore_ascii_case(a@, b@),
{
    if a.len() != b.len() {
        return false;
    }
    let mut i: usize = 0;
    while i < a.len()
        invariant
            a@.len() == b@.len(),
            i <= a@.len(),
            forall|k: int| 0 <= k < i ==> ascii_lower(#[trigger] a@[k]) == ascii_lower(b@[k]),
        decreases a@.len() - i,
    {
        if !chars_eq_ignore_ascii_case(a[i], b[i]) {
            return false;
        }
        i = i + 1;
    }
    true
}

/// Whether `extension` is among `extensions`, up to ASCII case.
fn extension_in(extensions: &Vec<String>, extension: &Vec<char>) -> (res: bool)
    ensures
        res == extension_listed(extensions.deep_view(), extension@),
{
    let ghost v = extensions.deep_view();
    let mut j: usize = 0;
    while j < extensions.len()
        invariant
            v == extensions.deep_view(),
            j <= v.len(),
            forall|k: int| 0 <= k < j ==> !eq_ignore_ascii_case(#[trigger] v[k], extension@),
        decreases v.len() - j,
    {
        if seq_eq_ignore_ascii_case(&to_chars(extensions[j].as_str()), extension) {
            assert(eq_ignore_ascii_case(v[j as int], extension@));
            return true;
        }
        j = j + 1;
    }
    false
}

/// The last syntax that lists `extension`, up to ASCII case.
fn find_by_extension(lists: &Vec<Vec<String>>, extension: &Vec<char>) -> (res: Option<usize>)
    ensures
        res matches Some(i) ==> syntax_by_extension(lists.deep_view(), extension@) == Some(i as int),
        res is None ==> syntax_by_extension(lists.deep_view(), extension@) is None,
{
    let ghost v = lists.deep_view();
    let mut n: usize = lists.len();
    while n > 0
        invariant
            v == lists.deep_view(),
            n <= v.len(),
            syntax_by_extension(v, extension@) == last_with_extension(v, extension@, n as int),
        decreases n,
    {
        if extension_in(&lists[n - 1], extension) {
            return Some(n - 1);
        }
        n = n - 1;
    }
    None
}

/// The last syntax named `name`, exactly or up to ASCII case.
fn find_by_name(names: &Vec<String>, name: &Vec<char>, exact: bool) -> (res: Option<usize>)
    ensures
        res matches Some(i) ==> last_with_name(names.deep_view(), name@, exact, names@.len() as int)
            == Some(i as int),
        res is None ==> last_with_name(names.deep_view(), name@, exact, names@.len() as int) is None,
{
    let ghost v = names.deep_view();
    let mut n: usize = names.len();
    while n > 0
        invariant
            v == names.deep_view(),
            n <= v.len(),
            last_with_name(v, name@, exact, v.len() as int) == last_with_name(v, name@, exact, n as int),
        decreases n,
    {
        let candidate = to_chars(names[n - 1].as_str());
        let found = if exact {
            chars_equal(&candidate, name)
        } else {
            seq_eq_ignore_ascii_case(&candidate, name)
        };
        if found {
            return Some(n - 1);
        }
        n = n - 1;
    }
    None
}

/// The first `class` attribute of an attribute list.
fn class_of(attrs: &Vec<(String, String)>) -> (res: Option<&str>)
    ensures
        str_view(res) == class_attribute(attrs@.map_values(|a: (String, String)| (a.0@, a.1@))),
{
    let ghost av = attrs@.map_values(|a: (String, String)| (a.0@, a.1@));
    let class = to_chars("class");
    proof {
        reveal_strlit("class");
        assert(class@ =~= seq!['c', 'l', 'a', 's', 's']);
        assert(av.skip(0) =~= av);
    }
    let mut k: usize = 0;
    while k < attrs.len()
        invariant
            av == attrs@.map_values(|a: (String, String)| (a.0@, a.1@)),
            class@ == seq!['c', 'l', 'a', 's', 's'],
            k <= attrs@.len(),
            class_attribute(av) == class_attribute(av.skip(k as int)),
        decreases attrs@.len() - k,
    {
        proof {
            let rest = av.skip(k as int);
            assert(rest[0] == av[k as int]);
            assert(rest.drop_first() =~= av.skip(k + 1));
        }
        if chars_equal(&to_chars(attrs[k].0.as_str()), &class) {
            return Some(attrs[k].1.as_str());
        }
        k = k + 1;
    }
    proof {
        assert(av.skip(k as int).len() == 0);
    }
    None
}

/// A copy of a list of strings.
fn clone_strings(v: &Vec<String>) -> (res: Vec<String>)
    ensures
        res.deep_view() == v.deep_view(),
{
    let mut res: Vec<String> = Vec::new();
    let mut i: usize = 0;
    while i < v.len()
        invariant
            i <= v@.len(),
            res@.len() == i,
            forall|k: int| 0 <= k < i ==> #[trigger] res@[k]@ == v@[k]@,
        decreases v@.len() - i,
    {
        res.push(v[i].clone());
        i = i + 1;
    }
    assert(res.deep_view() =~= v.deep_view());
    res
}

/// Highlights the code blocks (`<pre><code>`) of HTML documents with the
/// bundled syntax definitions and themes.
pub struct SyntaxHighlighter {
    syntax_set: SyntaxSet,
    theme_set: ThemeSet,
    names: Vec<String>,
    extensions: Vec<Vec<String>>,
}

impl SyntaxHighlighter {
    #[verifier::type_invariant]
    spec fn inv(self) -> bool {
        &&& syntax_names(self.syntax_set).contains("Plain Text"@)
        &&& theme_keys(self.theme_set).contains("base16-ocean.dark"@)
        &&& self.names.deep_view() == syntax_names(self.syntax_set)
        &&& self.extensions.deep_view() == syntax_extensions(self.syntax_set)
        &&& syntax_names(self.syntax_set).len() == syntax_extensions(self.syntax_set).len()
    }

    /// The syntax definitions.
    pub closed spec fn syntax_set(&self) -> SyntaxSet {
        self.syntax_set
    }

    /// The themes.
    pub closed spec fn theme_set(&self) -> ThemeSet {
        self.theme_set
    }

    /// Whether a theme of this name is available.
    pub open spec fn has_theme(&self, name: Seq<char>) -> bool {
        theme_keys(self.theme_set()).contains(name)
    }

    /// The names of the themes, in order.
    pub open spec fn themes(&self) -> Seq<Seq<char>> {
        theme_keys(self.theme_set())
    }

    /// The names of the languages, in order.
    pub open spec fn languages(&self) -> Seq<Seq<char>> {
        syntax_names(self.syntax_set())
    }

    /// Whether a syntax for the file extension is available, up to ASCII case.
    pub open spec fn knows_extension(&self, extension: Seq<char>) -> bool {
        has_extension(self.syntax_set(), extension)
    }

    /// Create a new syntax highlighter with default syntax definitions and themes
    pub fn new() -> (res: Self)
        ensures
            res.has_theme("base16-ocean.dark"@),
            res.has_theme("base16-eighties.dark"@),
            res.has_theme("base16-mocha.dark"@),
            res.has_theme("base16-ocean.light"@),
            res.has_theme("InspiredGitHub"@),
            res.has_theme("Solarized (dark)"@),
            res.has_theme("Solarized (light)"@),
            res.languages().contains("Plain Text"@),
            res.languages().contains("Rust"@),
            res.languages().contains("Python"@),
            res.languages().contains("JavaScript"@),
            res.knows_extension("rs"@),
    {
        let syntax_set = load_default_syntaxes();
        let theme_set = load_default_themes();
        let entries = syntax_entries(&syntax_set);
        let ghost ev = entries@;
        let mut names: Vec<String> = Vec::new();
        let mut extensions: Vec<Vec<String>> = Vec::new();
        let mut i: usize = 0;
        while i < entries.len()
            invariant
                ev == entries@,
                i <= ev.len(),
                names@.len() == i,
                extensions@.len() == i,
                forall|k: int| 0 <= k < i ==> #[trigger] names@[k]@ == ev[k].0@,
                forall|k: int|
                    0 <= k < i ==> #[trigger] extensions@[k].deep_view() == ev[k].1.deep_view(),
            decreases ev.len() - i,
        {
            names.push(entries[i].0.clone());
            extensions.push(clone_strings(&entries[i].1));
            i = i + 1;
        }
        proof {
            assert(names.deep_view() =~= ev.map_values(|e: (String, Vec<String>)| e.0@));
            assert(extensions.deep_view() =~= ev.map_values(
                |e: (String, Vec<String>)| e.1.deep_view(),
            ));
        }
        SyntaxHighlighter { syntax_set, theme_set, names, extensions }
    }

    /// Highlight all code blocks in the HTML string
    pub fn highlight_html(&self, html: &str) -> (res: String)
        ensures
            res@ == document_highlighting(
                self.syntax_set(),
                self.theme_set(),
                "base16-ocean.dark"@,
                html@,
            ),
            document_renders_faithfully(
                self.syntax_set(),
                self.theme_set(),
                "base16-ocean.dark"@,
                html@,
            ),
    {
        proof {
            use_type_invariant(self);
        }
        self.highlight_html_with_theme(html, "base16-ocean.dark")
    }

    /// The syntax a language is highlighted with.
    fn syntax_for_language(&self, language: &Vec<char>) -> (res: usize)
        ensures
            res as int == language_syntax(
                syntax_names(self.syntax_set()),
                syntax_extensions(self.syntax_set()),
                language@,
            ),
            res < syntax_names(self.syntax_set()).len(),
    {
        proof {
            use_type_invariant(self);
        }
        match find_by_extension(&self.extensions, language) {
            Some(i) => {
                proof {
                    lemma_last_with_extension_bound(self.extensions.deep_view(), language@, self.extensions@.len() as int);
                }
                i
            },
            None => match find_by_name(&self.names, language, false) {
                Some(i) => {
                    proof {
                        lemma_last_with_name_bound(self.names.deep_view(), language@, false, self.names@.len() as int);
                    }
                    i
                },
                None => {
                    let plain = to_chars("Plain Text");
                    proof {
                        reveal_strlit("Plain Text");
                        assert(plain@ =~= seq!['P', 'l', 'a', 'i', 'n', ' ', 'T', 'e', 'x', 't']);
                        lemma_last_with_name_bound(self.names.deep_view(), plain@, true, self.names@.len() as int);
                        assert(self.names.deep_view().take(self.names@.len() as int) =~= self.names.deep_view());
                        lemma_last_with_name_found(self.names.deep_view(), plain@, self.names@.len() as int);
                    }
                    match find_by_name(&self.names, &plain, true) {
                        Some(i) => i,
                        None => 0,
                    }
                },
            },
        }
    }

    /// Highlight all code blocks in the HTML string with a specific theme
    pub fn highlight_html_with_theme(&self, html: &str, theme_name: &str) -> (res: String)
        requires
            self.has_theme(theme_name@),
        ensures
            res@ == document_highlighting(self.syntax_set(), self.theme_set(), theme_name@, html@),
            document_renders_faithfully(self.syntax_set(), self.theme_set(), theme_name@, html@),
    {
        let ghost syntaxes = self.syntax_set();
        let ghost themes = self.theme_set();
        let blocks = match select_blocks(html, "pre", "code") {
            Some(found) => found,
            None => {
                return String::from_str(html);
            },
        };
        let ghost bv = blocks@.map_values(|b: Block| b@);
        let typescript_available = find_by_extension(&self.extensions, &to_chars("ts")).is_some();
        proof {
            use_type_invariant(self);
        }
        let mut reps: Vec<(Vec<char>, Vec<char>)> = Vec::new();
        let mut i: usize = 0;
        while i < blocks.len()
            invariant
                i <= blocks@.len(),
                bv == blocks@.map_values(|b: Block| b@),
                selected_blocks(html@, "pre"@, "code"@) == Some(bv),
                syntaxes == self.syntax_set(),
                themes == self.theme_set(),
                self.has_theme(theme_name@),
                typescript_available == (syntax_by_extension(syntax_extensions(syntaxes), "ts"@) is Some),
                reps@.len() == highlight_targets(bv.take(i as int)).len(),
                forall|k: int|
                    0 <= k < reps@.len() ==> (#[trigger] reps@[k]).0@ == block_replacements(
                        syntaxes,
                        themes,
                        theme_name@,
                        highlight_targets(bv.take(i as int)),
                    )[k].0 && reps@[k].1@ == block_replacements(
                        syntaxes,
                        themes,
                        theme_name@,
                        highlight_targets(bv.take(i as int)),
                    )[k].1,
                forall|k: int|
                    0 <= k < reps@.len() ==> #[trigger] renders_faithfully(
                        syntaxes,
                        element_syntax(syntaxes, highlight_targets(bv.take(i as int))[k].1),
                        themes,
                        theme_name@,
                        highlight_targets(bv.take(i as int))[k].1.text,
                    ),
            decreases blocks@.len() - i,
        {
            let ghost t_old = highlight_targets(bv.take(i as int));
            proof {
                let tk = bv.take(i + 1);
                assert(tk.drop_last() =~= bv.take(i as int));
                assert(tk.last() == bv[i as int]);
                assert(bv[i as int] == blocks@[i as int]@);
            }
            if blocks[i].inner.len() > 0 {
                let element = &blocks[i].inner[0];
                proof {
                    assert(bv[i as int].inner[0] == element@);
                }
                let text = to_chars(element.text.as_str());
                if !is_blank_chars(&text) {
                    let class = class_of(&element.attrs);
                    let language = to_chars(resolve_language(class, typescript_available).as_str());
                    let syntax = self.syntax_for_language(&language);
                    let body = self.highlight_code(&text, syntax, theme_name);
                    let new_code = code_tag_chars(&element.attrs, &body);
                    let old_pre = to_chars(blocks[i].html.as_str());
                    let new_pre = replace_first_chars(&old_pre, &to_chars(element.html.as_str()), &new_code);
                    reps.push((old_pre, new_pre));
                    proof {
                        let t_new = highlight_targets(bv.take(i + 1));
                        assert(t_new == t_old.push((bv[i as int].html, element@)));
                        assert(syntax as int == element_syntax(syntaxes, element@));
                        assert forall|k: int| 0 <= k < reps@.len() implies (#[trigger] reps@[k]).0@
                            == block_replacements(syntaxes, themes, theme_name@, t_new)[k].0
                            && reps@[k].1@ == block_replacements(syntaxes, themes, theme_name@, t_new)[k].1 by {
                            if k < reps@.len() - 1 {
                                assert(t_new[k] == t_old[k]);
                            }
                        }
                        assert forall|k: int| 0 <= k < reps@.len() implies #[trigger] renders_faithfully(
                            syntaxes,
                            element_syntax(syntaxes, t_new[k].1),
                            themes,
                            theme_name@,
                            t_new[k].1.text,
                        ) by {
                            if k < reps@.len() - 1 {
                                assert(t_new[k] == t_old[k]);
                            }
                        }
                    }
                } else {
                    proof {
                        assert(highlight_targets(bv.take(i + 1)) == t_old);
                    }
                }
            } else {
                proof {
                    assert(highlight_targets(bv.take(i + 1)) == t_old);
                }
            }
            i = i + 1;
        }
        let ghost targets = highlight_targets(bv);
        let ghost reps_view = block_replacements(syntaxes, themes, theme_name@, targets);
        proof {
            assert(bv.take(blocks@.len() as int) =~= bv);
            assert(reps_view.take(0) =~= Seq::<(Seq<char>, Seq<char>)>::empty());
        }
        let mut result = to_chars(html);
        let mut j: usize = 0;
        while j < reps.len()
            invariant
                j <= reps@.len(),
                reps@.len() == reps_view.len(),
                forall|k: int|
                    0 <= k < reps@.len() ==> (#[trigger] reps@[k]).0@ == reps_view[k].0
                        && reps@[k].1@ == reps_view[k].1,
                result@ == apply_replacements(html@, reps_view.take(j as int)),
            decreases reps@.len() - j,
        {
            result = replace_first_chars(&result, &reps[j].0, &reps[j].1);
            proof {
                let t = reps_view.take(j + 1);
                assert(t.drop_last() =~= reps_view.take(j as int));
                assert(t.last() == reps_view[j as int]);
            }
            j = j + 1;
        }
        proof {
            assert(reps_view.take(reps@.len() as int) =~= reps_view);
        }
        from_chars(&result)
    }

    /// Detect the programming language from the code element's class attribute
    fn detect_language(&self, class: Option<&str>) -> (res: String)
        ensures
            res@ == code_language(syntax_extensions(self.syntax_set()), str_view(class)),
    {
        proof {
            use_type_invariant(self);
        }
        let typescript_available = find_by_extension(&self.extensions, &to_chars("ts")).is_some();
        proof {
            reveal_strlit("ts");
        }
        resolve_language(class, typescript_available)
    }

    /// Highlight a code snippet with the specified syntax and theme
    fn highlight_code(&self, code: &Vec<char>, syntax: usize, theme: &str) -> (res: Vec<char>)
        requires
            syntax < syntax_names(self.syntax_set()).len(),
            self.has_theme(theme@),
        ensures
            res@ == code_highlighting(self.syntax_set(), syntax as int, self.theme_set(), theme@, code@),
            renders_faithfully(self.syntax_set(), syntax as int, self.theme_set(), theme@, code@),
    {
        let ghost syntaxes = self.syntax_set();
        let ghost themes = self.theme_set();
        let mut state = start_highlighting(&self.syntax_set, syntax, &self.theme_set, theme);
        let code_lines = lines_with_endings(code);
        let ghost ls = lines(code@);
        let ghost rs = line_renderings(syntaxes, syntax as int, themes, theme@, ls);
        let mut out: Vec<char> = Vec::new();
        let mut i: usize = 0;
        proof {
            assert(ls.take(0) =~= Seq::<Seq<char>>::empty());
            assert(rs.take(0) =~= Seq::<Seq<char>>::empty());
        }
        while i < code_lines.len()
            invariant
                code_lines@.len() == ls.len(),
                ls == lines(code@),
                rs == line_renderings(syntaxes, syntax as int, themes, theme@, ls),
                forall|k: int| 0 <= k < code_lines@.len() ==> #[trigger] code_lines@[k]@ == ls[k],
                i <= code_lines@.len(),
                syntaxes == self.syntax_set(),
                state.syntaxes() == syntaxes,
                state.syntax() == syntax as int,
                state.themes() == themes,
                state.theme() == theme@,
                state.fed() == ls.take(i as int),
                out@ == concat(rs.take(i as int)),
                forall|k: int|
                    0 <= k < i ==> #[trigger] faithful_line(
                        line_pieces(syntaxes, syntax as int, themes, theme@, ls.take(k), ls[k]),
                        ls[k],
                    ),
            decreases code_lines@.len() - i,
        {
            let line = from_chars(&code_lines[i]);
            let line_pieces_found = highlight_line(&mut state, line.as_str(), &self.syntax_set);
            let pieces = match line_pieces_found {
                Some(found) => found,
                None => Vec::new(),
            };
            let html = match render_styled_line(&pieces, false) {
                Some(rendered) => to_chars(rendered.as_str()),
                None => slice_chars(&code_lines[i], 0, code_lines[i].len()),
            };
            append_chars(&mut out, &html);
            proof {
                let t = rs.take(i + 1);
                assert(t.drop_last() =~= rs.take(i as int));
                assert(ls.take(i as int).push(ls[i as int]) =~= ls.take(i + 1));
                if line_pieces_found is None {
                    assert(crate::line_highlighter::styled_view(pieces@) =~= Seq::<(SpanStyle, Seq<char>)>::empty());
                }
                assert(t.last() == html@);
            }
            i = i + 1;
        }
        proof {
            assert(rs.take(i as int) =~= rs);
        }
        out
    }

    /// The language the code of an element with this `class` attribute is
    /// highlighted as.
    pub fn language_for_class(&self, class: Option<&str>) -> (res: String)
        ensures
            res@ == code_language(syntax_extensions(self.syntax_set()), str_view(class)),
    {
        self.detect_language(class)
    }

    /// Get list of available themes
    pub fn available_themes(&self) -> (res: Vec<&str>)
        ensures
            res.deep_view() == self.themes(),
            strictly_ascending(res.deep_view()),
            forall|name: Seq<char>| self.has_theme(name) <==> res.deep_view().contains(name),
    {
        theme_set_keys(&self.theme_set)
    }

    /// Get list of available languages
    pub fn available_languages(&self) -> (res: Vec<&str>)
        ensures
            res.deep_view() == self.languages(),
    {
        proof {
            use_type_invariant(self);
        }
        let mut res: Vec<&str> = Vec::new();
        let mut i: usize = 0;
        while i < self.names.len()
            invariant
                i <= self.names@.len(),
                res@.len() == i,
                forall|k: int| 0 <= k < i ==> #[trigger] res@[k]@ == self.names@[k]@,
            decreases self.names@.len() - i,
        {
            res.push(self.names[i].as_str());
            i = i + 1;
        }
        proof {
            assert(res.deep_view() =~= self.names.deep_view());
        }
        res
    }
}

impl Default for SyntaxHighlighter {
    fn default() -> (res: Self)
        ensures
            res.has_theme("base16-ocean.dark"@),
            res.languages().contains("Plain Text"@),
    {
        Self::new()
    }
}

proof fn lemma_last_with_extension_bound(lists: Seq<Seq<Seq<char>>>, extension: Seq<char>, n: int)
    requires
        n <= lists.len(),
    ensures
        last_with_extension(lists, extension, n) matches Some(i) ==> 0 <= i < n,
    decreases n,
{
    if n > 0 {
        lemma_last_with_extension_bound(lists, extension, n - 1);
    }
}

proof fn lemma_last_with_name_bound(names: Seq<Seq<char>>, name: Seq<char>, exact: bool, n: int)
    requires
        n <= names.len(),
    ensures
        last_with_name(names, name, exact, n) matches Some(i) ==> 0 <= i < n,
    decreases n,
{
    if n > 0 {
        lemma_last_with_name_bound(names, name, exact, n - 1);
    }
}

proof fn lemma_last_with_name_found(names: Seq<Seq<char>>, name: Seq<char>, n: int)
    requires
        0 <= n <= names.len(),
        names.take(n).contains(name),
    ensures
        last_with_name(names, name, true, n) is Some,
    decreases n,
{
    if names[n - 1] != name {
        let j = choose|j: int| 0 <= j < names.take(n).len() && names.take(n)[j] == name;
        assert(names.take(n - 1)[j] == name);
        lemma_last_with_name_found(names, name, n - 1);
    }
}

/// Every `<pre>` block whose first `<code>` element has text that is not
/// blank is highlighted, whatever that element's attributes (a block without a
/// class is highlighted as plain text), and no other block is: a single block
/// is a target, with that element, exactly then.
pub proof fn lemma_block_is_target_iff_code_not_blank(b: BlockView)
    ensures
        highlight_targets(seq![b]) == (if b.inner.len() > 0 && !is_blank(b.inner[0].text) {
            seq![(b.html, b.inner[0])]
        } else {
            Seq::<(Seq<char>, ElementView)>::empty()
        }),
{
    let single = seq![b];
    assert(single.drop_last() =~= Seq::<BlockView>::empty());
    assert(single.last() == b);
    let none = Seq::<(Seq<char>, ElementView)>::empty();
    assert(highlight_targets(single.drop_last()) == none);
    assert(none.push((b.html, b.inner[0])) =~= seq![(b.html, b.inner[0])]);
}

/// The targets of a document are those of its blocks taken in order: the
/// targets of two runs of blocks, one after the other, are the targets of the
/// first run followed by those of the second.
pub proof fn lemma_targets_of_consecutive_blocks(first: Seq<BlockView>, second: Seq<BlockView>)
    ensures
        highlight_targets(first + second) == highlight_targets(first) + highlight_targets(second),
    decreases second.len(),
{
    if second.len() == 0 {
        assert(first + second =~= first);
        assert(highlight_targets(second) =~= Seq::<(Seq<char>, ElementView)>::empty());
    } else {
        lemma_targets_of_consecutive_blocks(first, second.drop_last());
        assert((first + second).drop_last() =~= first + second.drop_last());
        assert((first + second).last() == second.last());
    }
}

/// A document without code to highlight comes back unchanged.
pub proof fn lemma_nothing_to_highlight(
    syntaxes: SyntaxSet,
    themes: ThemeSet,
    theme: Seq<char>,
    html: Seq<char>,
)
    requires
        selected_blocks(html, "pre"@, "code"@) matches Some(blocks) && highlight_targets(
            blocks,
        ).len() == 0,
    ensures
        document_highlighting(syntaxes, themes, theme, html) == html,
{
    let blocks = selected_blocks(html, "pre"@, "code"@).unwrap();
    assert(block_replacements(syntaxes, themes, theme, highlight_targets(blocks)).len() == 0);
}

/// Each replacement changes only the block it replaces: the text before the
/// first occurrence of the old block and the text after it are kept.
pub proof fn lemma_replacement_keeps_the_rest(text: Seq<char>, old_block: Seq<char>, new_block: Seq<char>)
    ensures
        find(text, old_block) matches Some(p) ==> ({
            let out = replace_first(text, old_block, new_block);
            &&& out.take(p) == text.take(p)
            &&& out.subrange(p, p + new_block.len()) == new_block
            &&& out.skip(p + new_block.len()) == text.skip(p + old_block.len())
        }),
        find(text, old_block) is None ==> replace_first(text, old_block, new_block) == text,
{
    crate::text::lemma_find_from(text, old_block, 0);
    if let Some(p) = find(text, old_block) {
        let out = replace_first(text, old_block, new_block);
        assert(out.take(p) =~= text.take(p));
        assert(out.subrange(p, p + new_block.len()) =~= new_block);
        assert(out.skip(p + new_block.len()) =~= text.skip(p + old_block.len()));
    }
}

/// Highlighting keeps the code's text: when every line was highlighted and
/// rendered faithfully, the texts of the lines' renderings, read in order,
/// make up the code.
pub proof fn lemma_highlighting_keeps_text(
    syntaxes: SyntaxSet,
    syntax: int,
    themes: ThemeSet,
    theme: Seq<char>,
    code: Seq<char>,
)
    requires
        renders_faithfully(syntaxes, syntax, themes, theme, code),
        forall|i: int|
            0 <= i < lines(code).len() ==> #[trigger] line_pieces(
                syntaxes,
                syntax,
                themes,
                theme,
                lines(code).take(i),
                lines(code)[i],
            ) is Some,
    ensures
        concat(line_renderings(syntaxes, syntax, themes, theme, lines(code)).map_values(
            |html: Seq<char>| markup_text(html),
        )) == code,
{
    let ls = lines(code);
    let texts = line_renderings(syntaxes, syntax, themes, theme, ls).map_values(
        |html: Seq<char>| markup_text(html),
    );
    assert forall|i: int| 0 <= i < ls.len() implies texts[i] == ls[i] by {
        let p = line_pieces(syntaxes, syntax, themes, theme, ls.take(i), ls[i]);
        assert(p is Some);
        assert(faithful_line(p, ls[i]));
    }
    assert(texts =~= ls);
    lemma_concat_lines(code);
}

} // verus!
