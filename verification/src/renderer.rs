//! Rendering markdown for the terminal.
//!
//! A renderer turns markdown, parsed by pulldown-cmark, into drawing
//! actions: text to write, colors to set and reset, code blocks and rules to
//! draw; code blocks are highlighted by syntect. The caller performs the
//! actions on a terminal.

use crate::text::{
    chars_of, extend_chars, extend_str, lemma_utf8_len_take, lines, lines_of, string_from_chars,
    utf8_len, utf8_width, views, char_utf8_width,
};
use pulldown_cmark::{CodeBlockKind, Event, Options, Parser, Tag, TagEnd};
use syntect::easy::HighlightLines;
use syntect::highlighting::ThemeSet;
use syntect::parsing::SyntaxSet;
use syntect::util::{as_24_bit_terminal_escaped, LinesWithEndings};
use vstd::prelude::*;

verus! {

/// A terminal color.
#[derive(Debug, Clone, Copy, PartialEq, Eq, Structural)]
pub enum TermColor {
    /// The terminal's default.
    Reset,
    /// Black.
    Black,
    /// Dark grey.
    DarkGrey,
    /// Red.
    Red,
    /// Dark red.
    DarkRed,
    /// Green.
    Green,
    /// Dark green.
    DarkGreen,
    /// Yellow.
    Yellow,
    /// Dark yellow.
    DarkYellow,
    /// Blue.
    Blue,
    /// Dark blue.
    DarkBlue,
    /// Magenta.
    Magenta,
    /// Dark magenta.
    DarkMagenta,
    /// Cyan.
    Cyan,
    /// Dark cyan.
    DarkCyan,
    /// White.
    White,
    /// Grey.
    Grey,
    /// A color by red, green and blue.
    Rgb(u8, u8, u8),
    /// A color of the 256-color palette.
    AnsiValue(u8),
}

/// The colors of the parts of rendered output.
#[derive(Debug, Clone, Copy, PartialEq, Eq, Structural)]
pub struct ColorTheme {
    /// Headings.
    pub heading: TermColor,
    /// Emphasized text.
    pub emphasis: TermColor,
    /// Strong text.
    pub strong: TermColor,
    /// Inline code.
    pub inline_code: TermColor,
    /// Links.
    pub link: TermColor,
    /// Block quotes.
    pub quote: TermColor,
    /// Borders of code blocks, and rules.
    pub code_block_border: TermColor,
    /// A spinner that is running.
    pub spinner_active: TermColor,
    /// A spinner that finished well.
    pub spinner_done: TermColor,
}

/// The default theme.
pub open spec fn default_theme() -> ColorTheme {
    ColorTheme {
        heading: TermColor::Cyan,
        emphasis: TermColor::Yellow,
        strong: TermColor::White,
        inline_code: TermColor::Green,
        link: TermColor::Blue,
        quote: TermColor::DarkGrey,
        code_block_border: TermColor::DarkGrey,
        spinner_active: TermColor::Cyan,
        spinner_done: TermColor::Green,
    }
}

impl Default for ColorTheme {
    fn default() -> (r: Self)
        ensures
            r == default_theme(),
    {
        ColorTheme {
            heading: TermColor::Cyan,
            emphasis: TermColor::Yellow,
            strong: TermColor::White,
            inline_code: TermColor::Green,
            link: TermColor::Blue,
            quote: TermColor::DarkGrey,
            code_block_border: TermColor::DarkGrey,
            spinner_active: TermColor::Cyan,
            spinner_done: TermColor::Green,
        }
    }
}

/// A markdown event, as a markdown parser reports it.
#[derive(Debug, Clone, PartialEq, Eq)]
pub enum MdEvent {
    /// A heading of the level (1 to 6) starts.
    StartHeading(u8),
    /// A heading ends.
    EndHeading,
    /// A paragraph starts.
    StartParagraph,
    /// A paragraph ends.
    EndParagraph,
    /// A block quote starts.
    StartBlockQuote,
    /// A block quote ends.
    EndBlockQuote,
    /// A code block starts, with its language (empty when there is none).
    StartCodeBlock(String),
    /// A code block ends.
    EndCodeBlock,
    /// A list starts.
    StartList,
    /// A list ends.
    EndList,
    /// A list item starts.
    StartItem,
    /// A list item ends.
    EndItem,
    /// Strong text starts.
    StartStrong,
    /// Strong text ends.
    EndStrong,
    /// Emphasized text starts.
    StartEmphasis,
    /// Emphasized text ends.
    EndEmphasis,
    /// A link starts.
    StartLink,
    /// A link ends.
    EndLink,
    /// A horizontal rule.
    Rule,
    /// A soft line break.
    SoftBreak,
    /// A hard line break.
    HardBreak,
    /// Text.
    Text(String),
    /// Inline code.
    Code(String),
    /// Anything else (task markers, footnotes, HTML, tables): not drawn.
    Other,
}

/// A markdown event as mathematics sees it.
pub enum MdEventModel {
    /// A heading of the level starts.
    StartHeading(u8),
    /// A heading ends.
    EndHeading,
    /// A paragraph starts.
    StartParagraph,
    /// A paragraph ends.
    EndParagraph,
    /// A block quote starts.
    StartBlockQuote,
    /// A block quote ends.
    EndBlockQuote,
    /// A code block starts, with its language.
    StartCodeBlock(Seq<char>),
    /// A code block ends.
    EndCodeBlock,
    /// A list starts.
    StartList,
    /// A list ends.
    EndList,
    /// A list item starts.
    StartItem,
    /// A list item ends.
    EndItem,
    /// Strong text starts.
    StartStrong,
    /// Strong text ends.
    EndStrong,
    /// Emphasized text starts.
    StartEmphasis,
    /// Emphasized text ends.
    EndEmphasis,
    /// A link starts.
    StartLink,
    /// A link ends.
    EndLink,
    /// A horizontal rule.
    Rule,
    /// A soft line break.
    SoftBreak,
    /// A hard line break.
    HardBreak,
    /// Text.
    Text(Seq<char>),
    /// Inline code.
    Code(Seq<char>),
    /// Anything else.
    Other,
}

/// The view of a markdown event.
pub open spec fn md_view(e: MdEvent) -> MdEventModel {
    match e {
        MdEvent::StartHeading(l) => MdEventModel::StartHeading(l),
        MdEvent::EndHeading => MdEventModel::EndHeading,
        MdEvent::StartParagraph => MdEventModel::StartParagraph,
        MdEvent::EndParagraph => MdEventModel::EndParagraph,
        MdEvent::StartBlockQuote => MdEventModel::StartBlockQuote,
        MdEvent::EndBlockQuote => MdEventModel::EndBlockQuote,
        MdEvent::StartCodeBlock(l) => MdEventModel::StartCodeBlock(l@),
        MdEvent::EndCodeBlock => MdEventModel::EndCodeBlock,
        MdEvent::StartList => MdEventModel::StartList,
        MdEvent::EndList => MdEventModel::EndList,
        MdEvent::StartItem => MdEventModel::StartItem,
        MdEvent::EndItem => MdEventModel::EndItem,
        MdEvent::StartStrong => MdEventModel::StartStrong,
        MdEvent::EndStrong => MdEventModel::EndStrong,
        MdEvent::StartEmphasis => MdEventModel::StartEmphasis,
        MdEvent::EndEmphasis => MdEventModel::EndEmphasis,
        MdEvent::StartLink => MdEventModel::StartLink,
        MdEvent::EndLink => MdEventModel::EndLink,
        MdEvent::Rule => MdEventModel::Rule,
        MdEvent::SoftBreak => MdEventModel::SoftBreak,
        MdEvent::HardBreak => MdEventModel::HardBreak,
        MdEvent::Text(t) => MdEventModel::Text(t@),
        MdEvent::Code(c) => MdEventModel::Code(c@),
        MdEvent::Other => MdEventModel::Other,
    }
}

/// The views of markdown events.
pub open spec fn md_views(es: Seq<MdEvent>) -> Seq<MdEventModel> {
    es.map_values(|e: MdEvent| md_view(e))
}

/// `pulldown_cmark::Event`, carried through as it is.
#[verifier::external_type_specification]
#[verifier::external_body]
pub struct ExParserEvent<'a>(Event<'a>);

/// `pulldown_cmark::Tag`, carried through as it is.
#[verifier::external_type_specification]
#[verifier::external_body]
pub struct ExParserTag<'a>(Tag<'a>);

/// `pulldown_cmark::TagEnd`, carried through as it is.
#[verifier::external_type_specification]
#[verifier::external_body]
pub struct ExParserTagEnd(TagEnd);

/// The events pulldown-cmark reports for a markdown text, with
/// strikethrough, tables, task lists and footnotes enabled, each as the
/// renderer reads it (`md_event`).
pub uninterp spec fn md_events(markdown: Seq<char>) -> Seq<MdEventModel>;

/// pulldown-cmark's `Parser::new_ext`, with strikethrough, tables, task
/// lists and footnotes enabled: the events of the markdown text, each told
/// apart by `md_event`. Stated is only that they are a function of the text.
#[verifier::external_body]
pub fn markdown_events(markdown: &str) -> (r: Vec<MdEvent>)
    ensures
        md_views(r@) == md_events(markdown@),
{
    let options = Options::ENABLE_STRIKETHROUGH | Options::ENABLE_TABLES
        | Options::ENABLE_TASKLISTS | Options::ENABLE_FOOTNOTES;
    let mut out = Vec::new();
    for e in Parser::new_ext(markdown, options) {
        out.push(md_event(e));
    }
    out
}

/// A pulldown-cmark event as the renderer reads it: one variant for each
/// variant it draws, `Other` for the rest.
#[verifier::external_body]
fn md_event(e: Event) -> MdEvent {
    match e {
        Event::Start(t) => start_tag(t),
        Event::End(t) => end_tag(t),
        Event::Rule => MdEvent::Rule,
        Event::SoftBreak => MdEvent::SoftBreak,
        Event::HardBreak => MdEvent::HardBreak,
        Event::Text(t) => MdEvent::Text(t.to_string()),
        Event::Code(c) => MdEvent::Code(c.to_string()),
        _ => MdEvent::Other,
    }
}

/// A pulldown-cmark start tag as the renderer reads it.
#[verifier::external_body]
fn start_tag(t: Tag) -> MdEvent {
    match t {
        Tag::Heading { level, .. } => MdEvent::StartHeading(level as u8),
        Tag::Paragraph => MdEvent::StartParagraph,
        Tag::BlockQuote(_) => MdEvent::StartBlockQuote,
        Tag::CodeBlock(CodeBlockKind::Fenced(lang)) => MdEvent::StartCodeBlock(lang.to_string()),
        Tag::CodeBlock(CodeBlockKind::Indented) => MdEvent::StartCodeBlock(String::new()),
        Tag::List(_) => MdEvent::StartList,
        Tag::Item => MdEvent::StartItem,
        Tag::Strong => MdEvent::StartStrong,
        Tag::Emphasis => MdEvent::StartEmphasis,
        Tag::Link { .. } => MdEvent::StartLink,
        _ => MdEvent::Other,
    }
}

/// A pulldown-cmark end tag as the renderer reads it.
#[verifier::external_body]
fn end_tag(t: TagEnd) -> MdEvent {
    match t {
        TagEnd::Heading(_) => MdEvent::EndHeading,
        TagEnd::Paragraph => MdEvent::EndParagraph,
        TagEnd::BlockQuote(_) => MdEvent::EndBlockQuote,
        TagEnd::CodeBlock => MdEvent::EndCodeBlock,
        TagEnd::List(_) => MdEvent::EndList,
        TagEnd::Item => MdEvent::EndItem,
        TagEnd::Strong => MdEvent::EndStrong,
        TagEnd::Emphasis => MdEvent::EndEmphasis,
        TagEnd::Link => MdEvent::EndLink,
        _ => MdEvent::Other,
    }
}

/// The highlighting syntect gives code in a language: each line (with its
/// line ending) as 24-bit terminal escapes and text; `None` when
/// highlighting fails.
pub uninterp spec fn highlighted(code: Seq<char>, language: Seq<char>) -> Option<Seq<Seq<char>>>;

/// syntect's `HighlightLines` over its default syntaxes (found by token, else
/// plain text) and its `base16-ocean.dark` theme, each line of the code
/// (`LinesWithEndings`) written with `as_24_bit_terminal_escaped` (no
/// background). Stated is only that the lines are a function of the code
/// and the language.
#[verifier::external_body]
fn highlight(code: &str, language: &str) -> (r: Option<Vec<String>>)
    ensures
        match r {
            Some(ls) => highlighted(code@, language@) == Some(views_of_strings(ls@)),
            None => highlighted(code@, language@) is None,
        },
{
    let ss = SyntaxSet::load_defaults_newlines();
    let ts = ThemeSet::load_defaults();
    let syntax = ss.find_syntax_by_token(language).unwrap_or_else(|| ss.find_syntax_plain_text());
    let mut h = HighlightLines::new(syntax, &ts.themes["base16-ocean.dark"]);
    let mut out = Vec::new();
    for line in LinesWithEndings::from(code) {
        let ranges = h.highlight_line(line, &ss).ok()?;
        out.push(as_24_bit_terminal_escaped(&ranges, false));
    }
    Some(out)
}

/// The views of strings.
pub open spec fn views_of_strings(v: Seq<String>) -> Seq<Seq<char>> {
    v.map_values(|s: String| s@)
}

/// Something to draw.
#[derive(Debug, Clone, PartialEq, Eq)]
pub enum RenderAction {
    /// Write the text.
    Write(String),
    /// Set the foreground color.
    SetColor(TermColor),
    /// Reset the colors.
    ResetColor,
    /// Move the cursor to the start of the line.
    LineStart,
    /// Draw a code block: the code and its language.
    CodeBlock(String, String),
    /// Draw a horizontal rule.
    Rule,
}

/// A drawing action as mathematics sees it.
pub enum Action {
    /// Write the text.
    Write(Seq<char>),
    /// Set the foreground color.
    SetColor(TermColor),
    /// Reset the colors.
    ResetColor,
    /// Move the cursor to the start of the line.
    LineStart,
    /// Draw a code block: the code and its language.
    CodeBlock(Seq<char>, Seq<char>),
    /// Draw a horizontal rule.
    Rule,
}

/// The view of an action.
pub open spec fn action(a: RenderAction) -> Action {
    match a {
        RenderAction::Write(s) => Action::Write(s@),
        RenderAction::SetColor(c) => Action::SetColor(c),
        RenderAction::ResetColor => Action::ResetColor,
        RenderAction::LineStart => Action::LineStart,
        RenderAction::CodeBlock(c, l) => Action::CodeBlock(c@, l@),
        RenderAction::Rule => Action::Rule,
    }
}

/// The views of actions.
pub open spec fn actions(v: Seq<RenderAction>) -> Seq<Action> {
    Seq::new(v.len(), |i: int| action(v[i]))
}

/// The prefix of a heading of the level: one `#` per level, from 1 to 6.
pub open spec fn heading_prefix_text(level: u8) -> Seq<char> {
    if level == 1 {
        "# "@
    } else if level == 2 {
        "## "@
    } else if level == 3 {
        "### "@
    } else if level == 4 {
        "#### "@
    } else if level == 5 {
        "##### "@
    } else {
        "###### "@
    }
}

/// The prefix of a heading of the level: one `#` per level, from 1 to 6;
/// other levels get six.
pub fn heading_prefix(level: u8) -> (r: &'static str)
    ensures
        r@ == heading_prefix_text(level),
{
    if level == 1 {
        "# "
    } else if level == 2 {
        "## "
    } else if level == 3 {
        "### "
    } else if level == 4 {
        "#### "
    } else if level == 5 {
        "##### "
    } else {
        "###### "
    }
}

/// What the renderer remembers between events.
pub struct MdState {
    /// Inside a code block.
    pub in_code_block: bool,
    /// Inside a block quote.
    pub in_blockquote: bool,
    /// The language of the current code block.
    pub code_lang: Seq<char>,
    /// The code collected so far.
    pub code_buf: Seq<char>,
}

/// The state before any event.
pub open spec fn start_state() -> MdState {
    MdState { in_code_block: false, in_blockquote: false, code_lang: seq![], code_buf: seq![] }
}

/// The lines of a quote, each behind a bar.
pub open spec fn quote_lines(ls: Seq<Seq<char>>) -> Seq<Action>
    decreases ls.len(),
{
    if ls.len() == 0 {
        seq![]
    } else {
        quote_lines(ls.drop_last()).push(Action::Write("│ "@ + ls.last() + "\n"@))
    }
}

/// The actions for one event, and the state after it.
pub open spec fn md_step(theme: ColorTheme, st: MdState, e: MdEventModel) -> (MdState, Seq<Action>) {
    match e {
        MdEventModel::StartHeading(level) => (
            st,
            seq![
                Action::Write("\n"@),
                Action::SetColor(theme.heading),
                Action::Write(heading_prefix_text(level)),
                Action::ResetColor,
            ],
        ),
        MdEventModel::EndHeading => (st, seq![Action::Write("\n"@)]),
        MdEventModel::StartParagraph => (st, seq![]),
        MdEventModel::EndParagraph => (st, seq![Action::Write("\n\n"@)]),
        MdEventModel::StartBlockQuote => (MdState { in_blockquote: true, ..st }, seq![]),
        MdEventModel::EndBlockQuote => (
            MdState { in_blockquote: false, ..st },
            seq![Action::Write("\n"@)],
        ),
        MdEventModel::StartCodeBlock(lang) => (
            MdState { in_code_block: true, code_lang: lang, code_buf: seq![], ..st },
            seq![],
        ),
        MdEventModel::EndCodeBlock => (
            MdState { in_code_block: false, code_buf: seq![], ..st },
            seq![Action::CodeBlock(st.code_buf, st.code_lang)],
        ),
        MdEventModel::StartList => (st, seq![]),
        MdEventModel::EndList => (st, seq![Action::Write("\n"@)]),
        MdEventModel::StartItem => (st, seq![Action::Write("  • "@)]),
        MdEventModel::EndItem => (st, seq![Action::Write("\n"@)]),
        MdEventModel::StartStrong => (st, seq![Action::SetColor(theme.strong)]),
        MdEventModel::EndStrong => (st, seq![Action::ResetColor]),
        MdEventModel::StartEmphasis => (st, seq![Action::SetColor(theme.emphasis)]),
        MdEventModel::EndEmphasis => (st, seq![Action::ResetColor]),
        MdEventModel::StartLink => (st, seq![Action::SetColor(theme.link)]),
        MdEventModel::EndLink => (st, seq![Action::ResetColor]),
        MdEventModel::Rule => (st, seq![Action::Rule]),
        MdEventModel::SoftBreak => (st, seq![Action::Write(" "@)]),
        MdEventModel::HardBreak => (st, seq![Action::Write("\n"@)]),
        MdEventModel::Text(t) => if st.in_code_block {
            (MdState { code_buf: st.code_buf + t, ..st }, seq![])
        } else if st.in_blockquote {
            (
                st,
                seq![Action::SetColor(theme.quote)] + quote_lines(lines(t)) + seq![
                    Action::ResetColor,
                ],
            )
        } else {
            (st, seq![Action::Write(t)])
        },
        MdEventModel::Code(c) => (
            st,
            seq![
                Action::SetColor(theme.inline_code),
                Action::Write("`"@ + c + "`"@),
                Action::ResetColor,
            ],
        ),
        MdEventModel::Other => (st, seq![]),
    }
}

/// The state after the first `n` events.
pub open spec fn md_state(theme: ColorTheme, es: Seq<MdEventModel>, n: nat) -> MdState
    decreases n,
{
    if n == 0 || n > es.len() {
        start_state()
    } else {
        md_step(theme, md_state(theme, es, (n - 1) as nat), es[n - 1]).0
    }
}

/// The actions for the first `n` events.
pub open spec fn md_actions(theme: ColorTheme, es: Seq<MdEventModel>, n: nat) -> Seq<Action>
    decreases n,
{
    if n == 0 || n > es.len() {
        seq![]
    } else {
        md_actions(theme, es, (n - 1) as nat) + md_step(
            theme,
            md_state(theme, es, (n - 1) as nat),
            es[n - 1],
        ).1
    }
}

/// `n` copies of a character.
pub open spec fn repeat_char(c: char, n: nat) -> Seq<char> {
    Seq::new(n, |i: int| c)
}

/// Appends `n` copies of a character.
fn push_repeat(v: &mut Vec<char>, c: char, n: usize)
    ensures
        final(v)@ == old(v)@ + repeat_char(c, n as nat),
{
    let ghost start = v@;
    let mut i: usize = 0;
    while i < n
        invariant
            i <= n,
            v@ == start + repeat_char(c, i as nat),
        decreases n - i,
    {
        v.push(c);
        assert(start + repeat_char(c, (i + 1) as nat) =~= (start + repeat_char(c, i as nat)).push(
            c,
        ));
        i += 1;
    }
}

/// The number of cells inside the borders of a block as wide as the
/// terminal.
pub open spec fn inner_width(width: u16) -> nat {
    if width >= 2 {
        (width - 2) as nat
    } else {
        0
    }
}

/// The top border of a code block: a bare line, or one that shows the
/// language after a dash; the dashes fill the line up to the byte length
/// of the label.
pub open spec fn code_top_text(width: u16, language: Seq<char>) -> Seq<char> {
    let inner = inner_width(width);
    if language.len() == 0 {
        "┌"@ + repeat_char('─', inner) + "┐\n"@
    } else {
        let tag = " "@ + language + " "@;
        let pad: nat = if utf8_len(tag) >= inner {
            0
        } else {
            (inner - utf8_len(tag)) as nat
        };
        "┌─"@ + tag + repeat_char('─', pad) + "┐\n"@
    }
}

/// The bottom border of a code block.
pub open spec fn code_bottom_text(width: u16) -> Seq<char> {
    "\n└"@ + repeat_char('─', inner_width(width)) + "┘\n"@
}

/// A horizontal rule across the terminal.
pub open spec fn rule_text(width: u16) -> Seq<char> {
    repeat_char('─', width as nat) + "\n"@
}

/// The byte length of `s`, or `cap` when it is at least `cap`.
fn byte_len_capped(s: &[char], cap: usize) -> (r: usize)
    requires
        cap <= 65535,
    ensures
        r == (if utf8_len(s@) >= cap {
            cap as nat
        } else {
            utf8_len(s@)
        }),
{
    let mut total: usize = 0;
    let mut i: usize = 0;
    while i < s.len() && total < cap
        invariant
            i <= s@.len(),
            cap <= 65535,
            total <= cap + 4,
            total == utf8_len(s@.take(i as int)),
        decreases s@.len() - i,
    {
        assert(s@.take(i + 1).drop_last() =~= s@.take(i as int));
        total = total + char_utf8_width(s[i]);
        i += 1;
    }
    proof {
        lemma_utf8_len_take(s@, i as int);
        if i == s@.len() {
            assert(s@.take(i as int) =~= s@);
        }
    }
    if total >= cap {
        cap
    } else {
        total
    }
}

/// Renders markdown as terminal drawing actions, in a theme and for a
/// terminal width.
#[derive(Debug, Clone, Copy)]
pub struct TerminalRenderer {
    /// The colors.
    pub theme: ColorTheme,
    /// The terminal width in cells.
    pub terminal_width: u16,
}

/// `crossterm::terminal::size`: the number of columns of the terminal,
/// when there is one. It depends on the terminal, so nothing is stated of
/// it.
#[verifier::external_body]
fn terminal_columns() -> (r: Option<u16>) {
    crossterm::terminal::size().ok().map(|(w, _)| w)
}

impl TerminalRenderer {
    /// A renderer in the default theme, as wide as the terminal (80
    /// columns when there is no terminal).
    pub fn new() -> (r: Self)
        ensures
            r.theme == default_theme(),
    {
        TerminalRenderer::with_theme(ColorTheme::default())
    }

    /// A renderer in the theme, as wide as the terminal (80 columns when
    /// there is no terminal).
    pub fn with_theme(theme: ColorTheme) -> (r: Self)
        ensures
            r.theme == theme,
    {
        let width = match terminal_columns() {
            Some(w) => w,
            None => 80,
        };
        TerminalRenderer { theme, terminal_width: width }
    }

    /// A renderer with the theme, for a terminal of the width.
    pub fn with_theme_and_width(theme: ColorTheme, terminal_width: u16) -> (r: Self)
        ensures
            r.theme == theme,
            r.terminal_width == terminal_width,
    {
        TerminalRenderer { theme, terminal_width }
    }

    /// The terminal width.
    pub fn term_width(&self) -> (r: u16)
        ensures
            r == self.terminal_width,
    {
        self.terminal_width
    }

    /// The actions that draw a sequence of markdown events: headings in
    /// the heading color behind their `#` prefix, paragraphs followed by a
    /// blank line, items behind a bullet, quotes behind a bar in the quote
    /// color, inline code between backticks, and code blocks collected
    /// whole and drawn at their end.
    pub fn markdown_actions(&self, events: &Vec<MdEvent>) -> (r: Vec<RenderAction>)
        ensures
            actions(r@) == md_actions(self.theme, md_views(events@), events@.len()),
    {
        let theme = self.theme;
        let mut out: Vec<RenderAction> = Vec::new();
        let mut in_code_block = false;
        let mut in_blockquote = false;
        let mut code_lang: Vec<char> = Vec::new();
        let mut code_buf: Vec<char> = Vec::new();
        let mut i: usize = 0;
        while i < events.len()
            invariant
                i <= events@.len(),
                theme == self.theme,
                actions(out@) == md_actions(theme, md_views(events@), i as nat),
                md_state(theme, md_views(events@), i as nat) == (MdState {
                    in_code_block,
                    in_blockquote,
                    code_lang: code_lang@,
                    code_buf: code_buf@,
                }),
            decreases events@.len() - i,
        {
            let ghost before = out@;
            let ghost st = md_state(theme, md_views(events@), i as nat);
            match &events[i] {
                MdEvent::StartHeading(level) => {
                    out.push(RenderAction::Write(owned_str("\n")));
                    out.push(RenderAction::SetColor(theme.heading));
                    out.push(RenderAction::Write(owned_str(heading_prefix(*level))));
                    out.push(RenderAction::ResetColor);
                },
                MdEvent::EndHeading => {
                    out.push(RenderAction::Write(owned_str("\n")));
                },
                MdEvent::StartParagraph => {},
                MdEvent::EndParagraph => {
                    out.push(RenderAction::Write(owned_str("\n\n")));
                },
                MdEvent::StartBlockQuote => {
                    in_blockquote = true;
                },
                MdEvent::EndBlockQuote => {
                    in_blockquote = false;
                    out.push(RenderAction::Write(owned_str("\n")));
                },
                MdEvent::StartCodeBlock(lang) => {
                    in_code_block = true;
                    code_lang = chars_of(lang.as_str());
                    code_buf = Vec::new();
                },
                MdEvent::EndCodeBlock => {
                    in_code_block = false;
                    out.push(
                        RenderAction::CodeBlock(
                            string_from_chars(&code_buf),
                            string_from_chars(&code_lang),
                        ),
                    );
                    code_buf = Vec::new();
                },
                MdEvent::StartList => {},
                MdEvent::EndList => {
                    out.push(RenderAction::Write(owned_str("\n")));
                },
                MdEvent::StartItem => {
                    out.push(RenderAction::Write(owned_str("  • ")));
                },
                MdEvent::EndItem => {
                    out.push(RenderAction::Write(owned_str("\n")));
                },
                MdEvent::StartStrong => {
                    out.push(RenderAction::SetColor(theme.strong));
                },
                MdEvent::EndStrong => {
                    out.push(RenderAction::ResetColor);
                },
                MdEvent::StartEmphasis => {
                    out.push(RenderAction::SetColor(theme.emphasis));
                },
                MdEvent::EndEmphasis => {
                    out.push(RenderAction::ResetColor);
                },
                MdEvent::StartLink => {
                    out.push(RenderAction::SetColor(theme.link));
                },
                MdEvent::EndLink => {
                    out.push(RenderAction::ResetColor);
                },
                MdEvent::Rule => {
                    out.push(RenderAction::Rule);
                },
                MdEvent::SoftBreak => {
                    out.push(RenderAction::Write(owned_str(" ")));
                },
                MdEvent::HardBreak => {
                    out.push(RenderAction::Write(owned_str("\n")));
                },
                MdEvent::Text(t) => {
                    if in_code_block {
                        extend_str(&mut code_buf, t.as_str());
                        assert(actions(out@) =~= actions(before) + md_step(theme, st, md_view(events@[i as int])).1);
                    } else if in_blockquote {
                        out.push(RenderAction::SetColor(theme.quote));
                        let tc = chars_of(t.as_str());
                        let ls = lines_of(&tc);
                        let ghost mid = out@;
                        proof {
                            assert(actions(mid) =~= actions(before) + seq![
                                Action::SetColor(theme.quote),
                            ]);
                        }
                        let mut k: usize = 0;
                        while k < ls.len()
                            invariant
                                k <= ls@.len(),
                                i < events@.len(),
                                actions(mid) == actions(before) + seq![
                                    Action::SetColor(theme.quote),
                                ],
                                md_step(theme, st, md_view(events@[i as int])).1 == seq![
                                    Action::SetColor(theme.quote),
                                ] + quote_lines(lines(t@)) + seq![Action::ResetColor],
                                views(ls@) == lines(t@),
                                actions(out@) == actions(mid) + quote_lines(
                                    views(ls@).take(k as int),
                                ),
                            decreases ls@.len() - k,
                        {
                            let mut line: Vec<char> = Vec::new();
                            extend_str(&mut line, "│ ");
                            extend_chars(&mut line, ls[k].as_slice());
                            extend_str(&mut line, "\n");
                            let ghost prev = out@;
                            out.push(RenderAction::Write(string_from_chars(&line)));
                            proof {
                                assert(actions(out@) =~= actions(prev).push(
                                    Action::Write(line@),
                                ));
                                let tk = views(ls@).take(k + 1);
                                assert(tk.drop_last() =~= views(ls@).take(k as int));
                                assert(tk.last() == ls@[k as int]@);
                                assert(actions(out@) =~= actions(mid) + quote_lines(tk));
                            }
                            k += 1;
                        }
                        proof {
                            assert(views(ls@).take(ls@.len() as int) =~= views(ls@));
                        }
                        let ghost looped = out@;
                        out.push(RenderAction::ResetColor);
                        proof {
                            assert(actions(out@) =~= actions(looped).push(Action::ResetColor));
                        }
                        assert(actions(out@) =~= actions(before) + md_step(theme, st, md_view(events@[i as int])).1);
                    } else {
                        out.push(RenderAction::Write(owned_str(t.as_str())));
                        assert(actions(out@) =~= actions(before) + md_step(theme, st, md_view(events@[i as int])).1);
                    }
                },
                MdEvent::Code(c) => {
                    out.push(RenderAction::SetColor(theme.inline_code));
                    let mut s: Vec<char> = Vec::new();
                    extend_str(&mut s, "`");
                    extend_str(&mut s, c.as_str());
                    extend_str(&mut s, "`");
                    out.push(RenderAction::Write(string_from_chars(&s)));
                    out.push(RenderAction::ResetColor);
                    assert(actions(out@) =~= actions(before) + md_step(theme, st, md_view(events@[i as int])).1);
                },
                MdEvent::Other => {},
            }
            proof {
                assert(actions(out@) =~= actions(before) + md_step(theme, st, md_view(events@[i as int])).1);
            }
            i += 1;
        }
        out
    }

    /// The actions that draw a heading: a new line, the `#` prefix and the
    /// text, in the heading color.
    pub fn heading_actions(&self, level: u8, text: &str) -> (r: Vec<RenderAction>)
        ensures
            actions(r@) == seq![
                Action::SetColor(self.theme.heading),
                Action::Write("\n"@ + heading_prefix_text(level) + text@ + "\n"@),
                Action::ResetColor,
            ],
    {
        let mut s: Vec<char> = Vec::new();
        extend_str(&mut s, "\n");
        extend_str(&mut s, heading_prefix(level));
        extend_str(&mut s, text);
        extend_str(&mut s, "\n");
        let mut out: Vec<RenderAction> = Vec::new();
        out.push(RenderAction::SetColor(self.theme.heading));
        out.push(RenderAction::Write(string_from_chars(&s)));
        out.push(RenderAction::ResetColor);
        assert(actions(out@) =~= seq![
            Action::SetColor(self.theme.heading),
            Action::Write("\n"@ + heading_prefix_text(level) + text@ + "\n"@),
            Action::ResetColor,
        ]);
        out
    }

    /// The actions that draw a horizontal rule across the terminal.
    pub fn rule_actions(&self) -> (r: Vec<RenderAction>)
        ensures
            actions(r@) == seq![
                Action::SetColor(self.theme.code_block_border),
                Action::Write(rule_text(self.terminal_width)),
                Action::ResetColor,
            ],
    {
        let mut s: Vec<char> = Vec::new();
        push_repeat(&mut s, '─', self.terminal_width as usize);
        extend_str(&mut s, "\n");
        let mut out: Vec<RenderAction> = Vec::new();
        out.push(RenderAction::SetColor(self.theme.code_block_border));
        out.push(RenderAction::Write(string_from_chars(&s)));
        out.push(RenderAction::ResetColor);
        assert(actions(out@) =~= seq![
            Action::SetColor(self.theme.code_block_border),
            Action::Write(rule_text(self.terminal_width)),
            Action::ResetColor,
        ]);
        out
    }

    /// The top border of a code block in the language.
    pub fn code_block_top(&self, language: &str) -> (r: String)
        ensures
            r@ == code_top_text(self.terminal_width, language@),
    {
        let inner: usize = if self.terminal_width >= 2 {
            (self.terminal_width - 2) as usize
        } else {
            0
        };
        let lang = chars_of(language);
        let mut s: Vec<char> = Vec::new();
        if lang.len() == 0 {
            extend_str(&mut s, "┌");
            push_repeat(&mut s, '─', inner);
            extend_str(&mut s, "┐\n");
        } else {
            let mut tag: Vec<char> = Vec::new();
            extend_str(&mut tag, " ");
            extend_chars(&mut tag, lang.as_slice());
            extend_str(&mut tag, " ");
            let used = byte_len_capped(&tag, inner);
            let pad = inner - used;
            extend_str(&mut s, "┌─");
            extend_chars(&mut s, tag.as_slice());
            push_repeat(&mut s, '─', pad);
            extend_str(&mut s, "┐\n");
        }
        string_from_chars(&s)
    }

    /// The bottom border of a code block.
    pub fn code_block_bottom(&self) -> (r: String)
        ensures
            r@ == code_bottom_text(self.terminal_width),
    {
        let inner: usize = if self.terminal_width >= 2 {
            (self.terminal_width - 2) as usize
        } else {
            0
        };
        let mut s: Vec<char> = Vec::new();
        extend_str(&mut s, "\n└");
        push_repeat(&mut s, '─', inner);
        extend_str(&mut s, "┘\n");
        string_from_chars(&s)
    }
}

/// The language code is highlighted in: the given one, or plain text.
pub open spec fn code_lang(language: Seq<char>) -> Seq<char> {
    if language.len() == 0 {
        "txt"@
    } else {
        language
    }
}

/// The highlighted lines of a code block, each followed by a color reset.
pub open spec fn code_line_actions(ls: Seq<Seq<char>>) -> Seq<Action>
    decreases ls.len(),
{
    if ls.len() == 0 {
        seq![]
    } else {
        code_line_actions(ls.drop_last()) + seq![Action::Write(ls.last()), Action::ResetColor]
    }
}

/// A code block: the top border in the border color, the highlighted
/// lines, the bottom border in the border color.
pub open spec fn code_block_model(theme: ColorTheme, width: u16, language: Seq<char>, ls: Seq<Seq<char>>) -> Seq<Action> {
    seq![
        Action::SetColor(theme.code_block_border),
        Action::Write(code_top_text(width, language)),
        Action::ResetColor,
    ] + code_line_actions(ls) + seq![
        Action::SetColor(theme.code_block_border),
        Action::Write(code_bottom_text(width)),
        Action::ResetColor,
    ]
}

impl TerminalRenderer {
    /// The actions that draw markdown text: its events as pulldown-cmark
    /// reports them, drawn as `markdown_actions` draws them.
    pub fn render_markdown_actions(&self, markdown: &str) -> (r: Vec<RenderAction>)
        ensures
            actions(r@) == md_actions(self.theme, md_events(markdown@), md_events(markdown@).len()),
    {
        let events = markdown_events(markdown);
        self.markdown_actions(&events)
    }

    /// The actions that draw a code block: bordered, with the code
    /// highlighted for the language (plain text when none is given); `None`
    /// when highlighting fails.
    pub fn code_block_actions(&self, code: &str, language: &str) -> (r: Option<Vec<RenderAction>>)
        ensures
            match highlighted(code@, code_lang(language@)) {
                None => r is None,
                Some(ls) => r matches Some(v) && actions(v@) == code_block_model(
                    self.theme,
                    self.terminal_width,
                    language@,
                    ls,
                ),
            },
    {
        let lang: &str = if language.unicode_len() == 0 {
            "txt"
        } else {
            language
        };
        let lines = match highlight(code, lang) {
            Some(ls) => ls,
            None => {
                return None;
            },
        };
        let ghost lv = views_of_strings(lines@);
        let mut out: Vec<RenderAction> = Vec::new();
        out.push(RenderAction::SetColor(self.theme.code_block_border));
        out.push(RenderAction::Write(self.code_block_top(language)));
        out.push(RenderAction::ResetColor);
        let ghost head = actions(out@);
        assert(head =~= seq![
            Action::SetColor(self.theme.code_block_border),
            Action::Write(code_top_text(self.terminal_width, language@)),
            Action::ResetColor,
        ]);
        let mut i: usize = 0;
        while i < lines.len()
            invariant
                i <= lines@.len(),
                lv == views_of_strings(lines@),
                actions(out@) == head + code_line_actions(lv.take(i as int)),
            decreases lines@.len() - i,
        {
            let ghost o = out@;
            out.push(RenderAction::Write(owned_str(lines[i].as_str())));
            out.push(RenderAction::ResetColor);
            assert(lv.take(i + 1).drop_last() =~= lv.take(i as int));
            assert(actions(out@) =~= actions(o) + seq![Action::Write(lv[i as int]), Action::ResetColor]);
            i += 1;
        }
        assert(lv.take(lines@.len() as int) =~= lv);
        let ghost body = out@;
        out.push(RenderAction::SetColor(self.theme.code_block_border));
        out.push(RenderAction::Write(self.code_block_bottom()));
        out.push(RenderAction::ResetColor);
        assert(actions(out@) =~= actions(body) + seq![
            Action::SetColor(self.theme.code_block_border),
            Action::Write(code_bottom_text(self.terminal_width)),
            Action::ResetColor,
        ]);
        Some(out)
    }
}

impl Default for TerminalRenderer {
    fn default() -> (r: Self)
        ensures
            r.theme == default_theme(),
    {
        TerminalRenderer::new()
    }
}

/// An owned copy of a string.
fn owned_str(s: &str) -> (r: String)
    ensures
        r@ == s@,
{
    crate::text::owned(s)
}

/// The frames of the spinner.
pub open spec fn spinner_frames() -> Seq<Seq<char>> {
    seq!["⠋"@, "⠙"@, "⠹"@, "⠸"@, "⠼"@, "⠴"@, "⠦"@, "⠧"@, "⠇"@, "⠏"@]
}

/// An animated spinner for work in progress.
#[derive(Debug, Clone)]
pub struct Spinner {
    /// The frames it cycles through.
    pub frames: Vec<&'static str>,
    /// How many frames were shown.
    pub frame_index: usize,
    /// What it is waiting for.
    pub label: String,
    /// Its colors.
    pub theme: ColorTheme,
}

impl Spinner {
    /// A spinner with the label, at its first frame, in the default theme.
    pub fn new(label: &str) -> (r: Spinner)
        ensures
            r.frames@.len() == 10,
            forall|i: int| 0 <= i < 10 ==> (#[trigger] r.frames@[i])@ == spinner_frames()[i],
            r.frame_index == 0,
            r.label@ == label@,
            r.theme == default_theme(),
    {
        let frames: Vec<&'static str> = vec!["⠋", "⠙", "⠹", "⠸", "⠼", "⠴", "⠦", "⠧", "⠇", "⠏"];
        Spinner { frames, frame_index: 0, label: owned_str(label), theme: ColorTheme::default() }
    }

    /// Advances to the next frame and returns the actions that draw the
    /// current one with the label, over the start of the line.
    pub fn tick(&mut self) -> (r: Vec<RenderAction>)
        requires
            old(self).frames@.len() > 0,
        ensures
            final(self).frame_index == old(self).frame_index.wrapping_add(1),
            final(self).frames == old(self).frames,
            final(self).label == old(self).label,
            final(self).theme == old(self).theme,
            actions(r@) == seq![
                Action::LineStart,
                Action::SetColor(old(self).theme.spinner_active),
                Action::Write(
                    old(self).frames@[old(self).frame_index as int % old(self).frames@.len() as int]@
                        + " "@ + old(self).label@,
                ),
                Action::ResetColor,
            ],
    {
        let frame = self.frames[self.frame_index % self.frames.len()];
        self.frame_index = self.frame_index.wrapping_add(1);
        let mut s: Vec<char> = Vec::new();
        extend_str(&mut s, frame);
        extend_str(&mut s, " ");
        extend_str(&mut s, self.label.as_str());
        let mut out: Vec<RenderAction> = Vec::new();
        out.push(RenderAction::LineStart);
        out.push(RenderAction::SetColor(self.theme.spinner_active));
        out.push(RenderAction::Write(string_from_chars(&s)));
        out.push(RenderAction::ResetColor);
        assert(actions(out@) =~= seq![
            Action::LineStart,
            Action::SetColor(old(self).theme.spinner_active),
            Action::Write(
                old(self).frames@[old(self).frame_index as int % old(self).frames@.len() as int]@
                    + " "@ + old(self).label@,
            ),
            Action::ResetColor,
        ]);
        out
    }

    /// The actions that end the spinner: a check mark in the done color,
    /// or a cross in red, then the label and a new line.
    pub fn finish(&self, success: bool) -> (r: Vec<RenderAction>)
        ensures
            actions(r@) == seq![
                Action::LineStart,
                Action::SetColor(
                    if success {
                        self.theme.spinner_done
                    } else {
                        TermColor::Red
                    },
                ),
                Action::Write(
                    (if success {
                        "✓"@
                    } else {
                        "✗"@
                    }) + " "@ + self.label@ + "\n"@,
                ),
                Action::ResetColor,
            ],
    {
        let (symbol, color) = if success {
            ("✓", self.theme.spinner_done)
        } else {
            ("✗", TermColor::Red)
        };
        let mut s: Vec<char> = Vec::new();
        extend_str(&mut s, symbol);
        extend_str(&mut s, " ");
        extend_str(&mut s, self.label.as_str());
        extend_str(&mut s, "\n");
        let mut out: Vec<RenderAction> = Vec::new();
        out.push(RenderAction::LineStart);
        out.push(RenderAction::SetColor(color));
        out.push(RenderAction::Write(string_from_chars(&s)));
        out.push(RenderAction::ResetColor);
        assert(actions(out@) =~= seq![
            Action::LineStart,
            Action::SetColor(
                if success {
                    self.theme.spinner_done
                } else {
                    TermColor::Red
                },
            ),
            Action::Write(
                (if success {
                    "✓"@
                } else {
                    "✗"@
                }) + " "@ + self.label@ + "\n"@,
            ),
            Action::ResetColor,
        ]);
        out
    }
}

} // verus!
