//! Line-by-line highlighting of code with syntect, and the HTML rendering of
//! highlighted lines.
//!
//! A [`LineHighlighter`] carries, beside syntect's state, a record of the syntax
//! set, the syntax, the theme set, the theme and the lines highlighted so far.
//! Only the two functions of this module create or change one, so the record
//! always describes the state it stands beside.

use vstd::prelude::*;

use syntect::easy::HighlightLines;
use syntect::highlighting::{Color, FontStyle, Style, ThemeSet};
use syntect::html::{styled_line_to_highlighted_html, IncludeBackground};
use syntect::parsing::SyntaxSet;

use crate::highlight::{syntax_names, theme_keys};

verus! {

#[verifier::external_type_specification]
#[verifier::external_body]
pub struct ExHighlightLines<'a>(HighlightLines<'a>);

/// Colours (red, green, blue, alpha) and font-style flags of a highlighted span.
#[derive(Clone, Copy)]
pub struct SpanStyle {
    pub foreground: (u8, u8, u8, u8),
    pub background: (u8, u8, u8, u8),
    pub font_style: u8,
}

/// A piece of a line with the style it is highlighted with.
pub struct StyledText {
    pub style: SpanStyle,
    pub text: String,
}

/// The plain view of highlighted pieces: styles with their text.
pub open spec fn styled_view(pieces: Seq<StyledText>) -> Seq<(SpanStyle, Seq<char>)> {
    pieces.map_values(|p: StyledText| (p.style, p.text@))
}

/// The text of styled pieces, concatenated.
pub open spec fn pieces_text(pieces: Seq<(SpanStyle, Seq<char>)>) -> Seq<char>
    decreases pieces.len(),
{
    if pieces.len() == 0 {
        seq![]
    } else {
        pieces_text(pieces.drop_last()) + pieces.last().1
    }
}

/// The styled pieces syntect's `HighlightLines::highlight_line` gives for
/// `line`, when highlighting with syntax number `syntax` of `syntaxes` and the
/// theme keyed `theme` of `themes` has already been fed the lines `earlier`
/// (`None` when it reports an error).
pub uninterp spec fn line_pieces(
    syntaxes: SyntaxSet,
    syntax: int,
    themes: ThemeSet,
    theme: Seq<char>,
    earlier: Seq<Seq<char>>,
    line: Seq<char>,
) -> Option<Seq<(SpanStyle, Seq<char>)>>;

/// The HTML that `syntect::html::styled_line_to_highlighted_html` renders for
/// the styled pieces of a line (`None` when it reports an error).
pub uninterp spec fn styled_line_html(
    pieces: Seq<(SpanStyle, Seq<char>)>,
    include_background: bool,
) -> Option<Seq<char>>;

/// The character an HTML entity at the start of `s` stands for, with the
/// entity's length (the five entities `&lt;`, `&gt;`, `&amp;`, `&#39;`, `&quot;`).
pub open spec fn leading_entity(s: Seq<char>) -> Option<(char, int)> {
    if s.len() >= 4 && s.take(4) == seq!['&', 'l', 't', ';'] {
        Some(('<', 4))
    } else if s.len() >= 4 && s.take(4) == seq!['&', 'g', 't', ';'] {
        Some(('>', 4))
    } else if s.len() >= 5 && s.take(5) == seq!['&', 'a', 'm', 'p', ';'] {
        Some(('&', 5))
    } else if s.len() >= 5 && s.take(5) == seq!['&', '#', '3', '9', ';'] {
        Some(('\'', 5))
    } else if s.len() >= 6 && s.take(6) == seq!['&', 'q', 'u', 'o', 't', ';'] {
        Some(('"', 6))
    } else {
        None
    }
}

/// The text of markup read from outside any tag: tags (`<` up to the next
/// `>`) are dropped and the five entities are decoded.
pub open spec fn markup_text_from(s: Seq<char>, in_tag: bool) -> Seq<char>
    decreases s.len(),
{
    if s.len() == 0 {
        seq![]
    } else if in_tag {
        markup_text_from(s.drop_first(), s[0] != '>')
    } else if s[0] == '<' {
        markup_text_from(s.drop_first(), true)
    } else {
        match leading_entity(s) {
            Some((c, n)) => seq![c] + markup_text_from(s.skip(n), false),
            None => seq![s[0]] + markup_text_from(s.drop_first(), false),
        }
    }
}

/// The text of HTML markup: its tags stripped and its entities decoded.
pub open spec fn markup_text(s: Seq<char>) -> Seq<char> {
    markup_text_from(s, false)
}

/// syntect's highlighting state for one block of code, with a record of what
/// it was started with and the lines fed to it.
pub(crate) struct LineHighlighter<'a> {
    state: HighlightLines<'a>,
    syntaxes: Ghost<SyntaxSet>,
    syntax: Ghost<int>,
    themes: Ghost<ThemeSet>,
    theme: Ghost<Seq<char>>,
    fed: Ghost<Seq<Seq<char>>>,
}

impl<'a> LineHighlighter<'a> {
    /// The syntax set the highlighting started with.
    pub(crate) closed spec fn syntaxes(&self) -> SyntaxSet {
        self.syntaxes@
    }

    /// The number of the syntax in that set.
    pub(crate) closed spec fn syntax(&self) -> int {
        self.syntax@
    }

    /// The theme set the highlighting started with.
    pub(crate) closed spec fn themes(&self) -> ThemeSet {
        self.themes@
    }

    /// The key of the theme in that set.
    pub(crate) closed spec fn theme(&self) -> Seq<char> {
        self.theme@
    }

    /// The lines highlighted so far, in order.
    pub(crate) closed spec fn fed(&self) -> Seq<Seq<char>> {
        self.fed@
    }
}

/// Calls `HighlightLines::new` with syntax number `syntax` of
/// `SyntaxSet::syntaxes` and the theme keyed `theme` of `ThemeSet::themes`;
/// indexing out of range or by a missing key panics, which `requires` rules out.
#[verifier::external_body]
pub(crate) fn start_highlighting<'a>(
    syntaxes: &SyntaxSet,
    syntax: usize,
    themes: &'a ThemeSet,
    theme: &str,
) -> (res: LineHighlighter<'a>)
    requires
        syntax < syntax_names(*syntaxes).len(),
        theme_keys(*themes).contains(theme@),
    ensures
        res.syntaxes() == *syntaxes,
        res.syntax() == syntax as int,
        res.themes() == *themes,
        res.theme() == theme@,
        res.fed() == Seq::<Seq<char>>::empty(),
{
    LineHighlighter {
        state: HighlightLines::new(&syntaxes.syntaxes()[syntax], &themes.themes[theme]),
        syntaxes: Ghost(*syntaxes),
        syntax: Ghost(syntax as int),
        themes: Ghost(*themes),
        theme: Ghost(theme@),
        fed: Ghost(Seq::empty()),
    }
}

/// Calls `HighlightLines::highlight_line`; the contract names its pieces as a
/// function of the syntax, the theme and the lines fed before, and states
/// what the crate documents: the pieces are consecutive slices that make up
/// the line.
#[verifier::external_body]
pub(crate) fn highlight_line(h: &mut LineHighlighter, line: &str, syntaxes: &SyntaxSet) -> (res:
    Option<Vec<StyledText>>)
    requires
        *syntaxes == old(h).syntaxes(),
    ensures
        final(h).syntaxes() == old(h).syntaxes(),
        final(h).syntax() == old(h).syntax(),
        final(h).themes() == old(h).themes(),
        final(h).theme() == old(h).theme(),
        final(h).fed() == old(h).fed().push(line@),
        line_pieces(
            old(h).syntaxes(),
            old(h).syntax(),
            old(h).themes(),
            old(h).theme(),
            old(h).fed(),
            line@,
        ) == (match res {
            Some(pieces) => Some(styled_view(pieces@)),
            None => None,
        }),
        res matches Some(pieces) ==> pieces_text(styled_view(pieces@)) == line@,
{
    let res = h.state.highlight_line(line, syntaxes).ok().map(|ranges| ranges.into_iter().map(|(s, t)| StyledText {
        style: SpanStyle {
            foreground: (s.foreground.r, s.foreground.g, s.foreground.b, s.foreground.a),
            background: (s.background.r, s.background.g, s.background.b, s.background.a),
            font_style: s.font_style.bits(),
        },
        text: t.to_string(),
    }).collect());
    h.fed = Ghost(h.fed@.push(line@));
    res
}

/// Calls `syntect::html::styled_line_to_highlighted_html`; the contract names
/// its result and states what its source shows: writing to a `String` never
/// fails, and the markup is spans around the pieces' text with `<`, `>`, `&`,
/// `'` and `"` escaped, so that its text is the pieces' text.
#[verifier::external_body]
pub(crate) fn render_styled_line(pieces: &Vec<StyledText>, include_background: bool) -> (res:
    Option<String>)
    ensures
        res is Some,
        res matches Some(html) ==> styled_line_html(styled_view(pieces@), include_background)
            == Some(html@) && markup_text(html@) == pieces_text(styled_view(pieces@)),
{
    let ranges: Vec<(Style, &str)> = pieces.iter().map(|p| (Style {
        foreground: Color { r: p.style.foreground.0, g: p.style.foreground.1, b: p.style.foreground.2, a: p.style.foreground.3 },
        background: Color { r: p.style.background.0, g: p.style.background.1, b: p.style.background.2, a: p.style.background.3 },
        font_style: FontStyle::from_bits_truncate(p.style.font_style),
    }, p.text.as_str())).collect();
    let background = if include_background { IncludeBackground::Yes } else { IncludeBackground::No };
    styled_line_to_highlighted_html(&ranges, background).ok()
}

} // verus!
